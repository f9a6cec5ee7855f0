use rust_engineering_domain::catalog::{CatalogError, CatalogQuery};
use rust_engineering_domain::crate_inspect::{CrateInspectRequest, InspectSection, InspectUnknown, InspectUnknownReason};
use rust_engineering_domain::crate_search::{CrateSearchMode, MsrvVersion};
use rust_engineering_domain::evidence::{IntegrityStatus, Provenance, SourceKind};
use rust_engineering_domain::manifest_edit::{LintName, ManifestEditError};
use rust_engineering_domain::mutation::{IdempotencyKey, MutationError, MutationId};
use rust_engineering_domain::semantic::{EmbeddingIdentity, Normalization, PoolingKind, SemanticError};
use rust_engineering_domain::value::{CatalogFingerprint, NonEmptyText};

#[test]
fn msrv_accepts_two_or_three_canonical_parts() {
    assert_eq!(MsrvVersion::parse("1.70").unwrap().components(), (1, 70, 0));
    assert_eq!(MsrvVersion::parse("1.70.3").unwrap().components(), (1, 70, 3));
    assert_eq!(MsrvVersion::parse("0.0.0").unwrap().components(), (0, 0, 0));
    for bad in ["1", "1.70.0.1", "", ".", "1.", ".1", "01.70", "1.070", "1.7a", "+1.70", "1..0",
        "18446744073709551616.0", "1.2.3456789012345678901234567890"] {
        assert_eq!(MsrvVersion::parse(bad), Err(CatalogError::InvalidInput), "accepted {bad:?}");
    }
    assert_eq!(MsrvVersion::parse("18446744073709551615.1").unwrap().components(), (u64::MAX, 1, 0));
    assert!(MsrvVersion::try_from("1.80.0".to_owned()).is_ok());
}

#[test]
fn msrv_text_round_trips() {
    let version = MsrvVersion::parse("1.70").unwrap();
    assert_eq!(version.to_text(), "1.70.0");
    assert_eq!(MsrvVersion::parse(&version.to_text()).unwrap(), version);
    let large = MsrvVersion::parse("18446744073709551615.1").unwrap();
    assert_eq!(large.to_text(), "18446744073709551615.1.0");
    assert!(MsrvVersion::parse("1.70").unwrap() < MsrvVersion::parse("1.80").unwrap());
    assert_eq!(CrateSearchMode::default(), CrateSearchMode::Hybrid);
}

#[test]
fn catalog_query_bounds_text_words_and_limit() {
    let query = CatalogQuery::new("async runtime".into(), 10).unwrap();
    assert_eq!(query.text(), "async runtime");
    assert_eq!(query.limit(), 10);
    for (text, limit) in [("   ", 10), ("a\u{7}b", 10), ("ok", 0), ("ok", 51)] {
        assert_eq!(CatalogQuery::new(text.into(), limit).unwrap_err(), CatalogError::InvalidInput);
    }
    assert!(CatalogQuery::new("x".repeat(256), 1).is_ok());
    assert!(CatalogQuery::new("x".repeat(257), 1).is_err());
    let sixteen = vec!["w"; 16].join(" ");
    assert!(CatalogQuery::new(sixteen, 50).is_ok());
    let seventeen = vec!["w"; 17].join(" ");
    assert!(CatalogQuery::new(seventeen, 50).is_err());
}

fn request(section: InspectSection) -> CrateInspectRequest {
    CrateInspectRequest {
        name: "serde".into(),
        section,
        version: None,
        limit: 10,
        offset: 0,
        snapshot_fingerprint: None,
    }
}

#[test]
fn inspect_requests_are_shaped_per_section() {
    assert!(request(InspectSection::Overview).validate().is_ok());
    assert!(request(InspectSection::Versions).validate().is_ok());
    assert!(request(InspectSection::Features).validate().is_err());
    let mut features = request(InspectSection::Features);
    features.version = Some("1.0.0".into());
    assert!(features.validate().is_ok());
    let mut versions = request(InspectSection::Versions);
    versions.version = Some("1.0.0".into());
    assert!(versions.validate().is_err());
    let mut paged = request(InspectSection::Versions);
    paged.offset = 10;
    assert!(paged.validate().is_err());
    paged.snapshot_fingerprint = Some(CatalogFingerprint::parse(&format!("sha256:{}", "a".repeat(64))).unwrap());
    assert!(paged.validate().is_ok());
    let mut overview = request(InspectSection::Overview);
    overview.offset = 1;
    overview.snapshot_fingerprint = paged.snapshot_fingerprint.clone();
    assert_eq!(overview.validate(), Err(CatalogError::InvalidInput));
    let mut bad_name = request(InspectSection::Overview);
    bad_name.name = "serde/json".into();
    assert!(bad_name.validate().is_err());
    let mut bad_version = features.clone();
    bad_version.version = Some("1.0\n".into());
    assert!(bad_version.validate().is_err());
    assert_eq!(InspectSection::default(), InspectSection::Overview);
    assert_eq!(InspectUnknown::default(), InspectUnknown::Unknown { reason: InspectUnknownReason::NotRecordedInSnapshot });
}

#[test]
fn mutation_values_are_canonical() {
    assert!(MutationId::new(format!("mut_{}", "0123456789abcdef".repeat(2))).is_ok());
    assert_eq!(MutationId::new("mut_ABC".into()).unwrap_err(), MutationError::Invalid);
    assert!(MutationId::new(format!("job_{}", "0".repeat(32))).is_err());
    assert_eq!(IdempotencyKey::new("retry-1_a".into()).unwrap().as_str(), "retry-1_a");
    assert!(IdempotencyKey::new("".into()).is_err());
    assert!(IdempotencyKey::new("a b".into()).is_err());
    assert!(IdempotencyKey::new("k".repeat(65)).is_err());
}

#[test]
fn lint_names_are_identifiers() {
    assert_eq!(LintName::new("unused_imports".into()).unwrap().as_str(), "unused_imports");
    assert_eq!(LintName::new("clippy::pedantic".into()).unwrap_err(), ManifestEditError::InvalidOperation);
    assert!(LintName::new("".into()).is_err());
    assert!(LintName::new("x".repeat(129)).is_err());
}

fn identity(kind: SourceKind) -> EmbeddingIdentity {
    EmbeddingIdentity {
        model: "bge-small".into(),
        revision: "v1".into(),
        artifact_fingerprint: CatalogFingerprint::parse(&format!("sha256:{}", "b".repeat(64))).unwrap(),
        runtime: "onnx".into(),
        provenance: Provenance::new(kind, NonEmptyText::parse("model").unwrap(), None, None, IntegrityStatus::Verified, false).unwrap(),
        dimension: 384,
        max_tokens: 512,
        intra_threads: 4,
        pooling: PoolingKind::Mean,
        normalization: Normalization::L2,
    }
}

#[test]
fn embedding_identity_bounds_are_enforced() {
    assert!(identity(SourceKind::EmbeddingModel).validate().is_ok());
    assert_eq!(identity(SourceKind::Artifact).validate(), Err(SemanticError::InvalidIndex));
    let mut nul = identity(SourceKind::EmbeddingModel);
    nul.model = "a\0b".into();
    assert!(nul.validate().is_err());
    let mut blank = identity(SourceKind::EmbeddingModel);
    blank.revision = "  ".into();
    assert!(blank.validate().is_err());
    let mut wide = identity(SourceKind::EmbeddingModel);
    wide.dimension = 1025;
    assert!(wide.validate().is_err());
    let mut threads = identity(SourceKind::EmbeddingModel);
    threads.intra_threads = 0;
    assert!(threads.validate().is_err());
}
