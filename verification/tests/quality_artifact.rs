use rust_engineering_domain::quality_artifact::{
    reservation_fits, QualityArtifactError, QualityArtifactId, QualityJobId, QuarantineReason,
    UtcInstant, M2_RECOVERY_HEADROOM_BYTES, QUALITY_CONTROL_HEADROOM_BYTES,
};

#[test]
fn opaque_ids_are_canonical() {
    assert!("qart_0123456789abcdef0123456789abcdef"
        .parse::<QualityArtifactId>()
        .is_ok());
    assert!("job_0123456789abcdef0123456789abcdef"
        .parse::<QualityJobId>()
        .is_ok());
    assert!("qart_0123456789abcdef0123456789abcdeF"
        .parse::<QualityArtifactId>()
        .is_err());
    assert_eq!(
        QualityArtifactId::from_random_bytes([0xab; 16]).as_str(),
        "qart_abababababababababababababababab"
    );
}

#[test]
fn instants_accept_exactly_one_canonical_spelling() {
    assert_eq!(
        "1970-01-01T00:00:00Z"
            .parse::<UtcInstant>()
            .map(|value| value.unix_seconds()),
        Ok(0)
    );
    for offset in [0_u64, 1, 86_399, 86_400, 951_782_400, 1_788_697_496] {
        let instant = UtcInstant::from_unix_seconds(offset);
        assert_eq!(
            instant.clone().map(|value| value.unix_seconds()),
            Ok(offset)
        );
        assert_eq!(
            instant
                .clone()
                .map(|value| value.as_str().to_owned())
                .and_then(UtcInstant::try_from),
            instant
        );
    }
    for bad in [
        "2026-09-06T12:34:56+00:00",
        "2026-09-06T12:34:56.5Z",
        "2026-02-30T00:00:00Z",
        "2026-13-01T00:00:00Z",
        "2026-09-06T24:00:00Z",
        "2026-09-06T12:34:60Z",
        "1969-12-31T23:59:59Z",
        "2026-9-06T12:34:56Z",
    ] {
        assert_eq!(
            bad.parse::<UtcInstant>().err(),
            Some(QualityArtifactError::InvalidTimestamp),
            "{bad}"
        );
    }
}

#[test]
fn instants_render_known_dates_and_stop_at_year_9999() {
    assert_eq!(
        UtcInstant::from_unix_seconds(1_788_697_496).unwrap().as_str(),
        "2026-09-06T12:24:56Z"
    );
    assert_eq!(
        UtcInstant::from_unix_seconds(951_782_400).unwrap().as_str(),
        "2000-02-29T00:00:00Z"
    );
    let last = UtcInstant::from_unix_seconds(253_402_300_799).unwrap();
    assert_eq!(last.as_str(), "9999-12-31T23:59:59Z");
    assert_eq!(
        UtcInstant::from_unix_seconds(253_402_300_800),
        Err(QualityArtifactError::InvalidTimestamp)
    );
    assert_eq!(
        UtcInstant::from_unix_seconds(u64::MAX),
        Err(QualityArtifactError::InvalidTimestamp)
    );
    assert_eq!(
        last.checked_add_seconds(1),
        Err(QualityArtifactError::InvalidTimestamp)
    );
    let start = UtcInstant::from_unix_seconds(10).unwrap();
    let later = start.checked_add_seconds(50).unwrap();
    assert_eq!(start.seconds_until(&later), Some(50));
    assert_eq!(later.seconds_until(&start), None);
    assert!("2024-02-29T00:00:00Z".parse::<UtcInstant>().is_ok());
    assert!("2023-02-29T00:00:00Z".parse::<UtcInstant>().is_err());
    assert!("2100-02-29T00:00:00Z".parse::<UtcInstant>().is_err());
}

#[test]
fn reservation_keeps_both_headrooms() {
    let floor = M2_RECOVERY_HEADROOM_BYTES + QUALITY_CONTROL_HEADROOM_BYTES;
    assert_eq!(reservation_fits(floor + 10, 10), Ok(()));
    assert_eq!(
        reservation_fits(floor + 9, 10),
        Err(QualityArtifactError::QuotaExceeded)
    );
    assert_eq!(
        reservation_fits(u64::MAX, u64::MAX),
        Err(QualityArtifactError::QuotaExceeded)
    );
    assert_eq!(QuarantineReason::DigestMismatch.as_str(), "digest_mismatch");
}

#[test]
fn parsing_accepts_exactly_the_real_calendar_dates() {
    for (text, seconds) in [
        ("1970-01-01T00:00:00Z", 0),
        ("2000-02-29T00:00:00Z", 951_782_400),
        ("2024-12-31T23:59:59Z", 1_735_689_599),
        ("9999-12-31T23:59:59Z", 253_402_300_799),
    ] {
        let instant = text.parse::<UtcInstant>().unwrap();
        assert_eq!(instant.unix_seconds(), seconds, "{text}");
        assert_eq!(instant.as_str(), text);
    }
    for text in [
        "2001-02-29T00:00:00Z",
        "2000-02-30T00:00:00Z",
        "2023-04-31T00:00:00Z",
        "2023-13-01T00:00:00Z",
        "2023-00-10T00:00:00Z",
        "2023-01-00T00:00:00Z",
        "2023-01-01T24:00:00Z",
        "2023-01-01T00:60:00Z",
        "2023-01-01T00:00:60Z",
        "1969-12-31T23:59:59Z",
    ] {
        assert!(text.parse::<UtcInstant>().is_err(), "{text}");
    }
}

#[test]
fn the_order_of_instants_is_chronological() {
    let seconds = [0u64, 59, 60, 3_599, 86_399, 86_400, 951_782_400, 978_307_199, 978_307_200, 253_402_300_799];
    for &a in &seconds {
        for &b in &seconds {
            let x = UtcInstant::from_unix_seconds(a).unwrap();
            let y = UtcInstant::from_unix_seconds(b).unwrap();
            assert_eq!(x.as_str().cmp(y.as_str()), a.cmp(&b), "{a} {b}");
            assert_eq!(x.cmp(&y), a.cmp(&b), "{a} {b}");
        }
    }
}
