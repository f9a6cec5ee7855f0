//! Strict, durable quality-artifact descriptors. These values carry no host
//! paths, clocks, filesystems, URI text or archive parsing: this module only
//! decides whether a candidate descriptor is well formed.
use vstd::prelude::*;
use vstd::std_specs::convert::TryFromSpecImpl;
use crate::job::JobId;
use crate::text::{lemma_str_lt_concat, lemma_str_lt_irreflexive, str_lt, canonical_hex_id, chars_of, hex_encoding, is_canonical_hex_id, is_lower_hex_spec, lemma_hex_encoding, owned, prefixed_hex, str_eq, string_from_chars};

verus! {

#[derive(Clone, Copy, Debug, PartialEq, Eq, Structural)]
pub enum QualityArtifactError {
    InvalidId,
    InvalidDescriptor,
    InvalidTimestamp,
    InvalidKindVersion,
    InvalidLimit,
    NotFound,
    Unauthorized,
    Expired,
    QuotaExceeded,
    Busy,
    UnsupportedPlatform,
    /// The host state root does not qualify for a durable store.
    UnsupportedStateRoot,
    Io,
    RecoveryRequired,
    RetentionDenied,
}

/// An opaque artifact locator: `qart_` and 32 lowercase hexadecimal digits.
#[derive(Clone, Debug, PartialEq, Eq, Hash, PartialOrd, Ord)]
pub struct QualityArtifactId {
    id: String,
}

impl View for QualityArtifactId {
    type V = Seq<char>;

    closed spec fn view(&self) -> Seq<char> {
        self.id@
    }
}

impl QualityArtifactId {
    pub fn as_str(&self) -> (res: &str)
        ensures
            res@ == self@,
    {
        self.id.as_str()
    }

    /// The canonical locator of 128 bits of caller-supplied entropy.
    pub fn from_random_bytes(bytes: [u8; 16]) -> (res: Self)
        ensures
            res@ == "qart_"@ + hex_encoding(bytes@),
            canonical_hex_id(res@, "qart_"@),
    {
        let id = prefixed_hex("qart_", bytes.as_slice());
        proof {
            reveal_strlit("qart_");
            lemma_hex_encoding(bytes@);
            assert(id@.take(5) =~= "qart_"@);
            assert forall|i: int| 5 <= i < id@.len() implies #[trigger] is_lower_hex_spec(id@[i]) by {
                assert(id@[i] == hex_encoding(bytes@)[i - 5]);
            }
        }
        QualityArtifactId { id }
    }

    /// Parses a locator: `qart_` and exactly 32 lowercase hexadecimal digits.
    pub fn parse(value: String) -> (res: Result<Self, QualityArtifactError>)
        ensures
            res is Ok <==> canonical_hex_id(value@, "qart_"@),
            res matches Ok(a) ==> a@ == value@,
            res matches Err(e) ==> e == QualityArtifactError::InvalidId,
    {
        if is_canonical_hex_id(value.as_str(), "qart_") {
            Ok(QualityArtifactId { id: value })
        } else {
            Err(QualityArtifactError::InvalidId)
        }
    }
}

impl std::convert::TryFrom<String> for QualityArtifactId {
    type Error = QualityArtifactError;

    fn try_from(value: String) -> Result<Self, QualityArtifactError> {
        if is_canonical_hex_id(value.as_str(), "qart_") {
            Ok(QualityArtifactId { id: value })
        } else {
            Err(QualityArtifactError::InvalidId)
        }
    }
}

impl TryFromSpecImpl<String> for QualityArtifactId {
    open spec fn obeys_try_from_spec() -> bool {
        true
    }

    closed spec fn try_from_spec(value: String) -> Result<Self, QualityArtifactError> {
        if canonical_hex_id(value@, "qart_"@) {
            Ok(QualityArtifactId { id: value })
        } else {
            Err(QualityArtifactError::InvalidId)
        }
    }
}

impl std::str::FromStr for QualityArtifactId {
    type Err = QualityArtifactError;

    fn from_str(value: &str) -> (res: Result<Self, QualityArtifactError>)
        ensures
            res is Ok <==> canonical_hex_id(value@, "qart_"@),
            res matches Ok(a) ==> a@ == value@,
            res matches Err(e) ==> e == QualityArtifactError::InvalidId,
    {
        QualityArtifactId::parse(owned(value))
    }
}

pub const SECONDS_PER_DAY: u64 = 86_400;

// ---------------------------------------------------------------------
// The proleptic Gregorian calendar from 1970 on.
// ---------------------------------------------------------------------

pub open spec fn is_leap(y: int) -> bool {
    (y % 4 == 0 && y % 100 != 0) || y % 400 == 0
}

pub open spec fn year_len(y: int) -> int {
    if is_leap(y) {
        366
    } else {
        365
    }
}

pub open spec fn month_len(y: int, m: int) -> int {
    if m == 2 {
        if is_leap(y) {
            29
        } else {
            28
        }
    } else if m == 4 || m == 6 || m == 9 || m == 11 {
        30
    } else {
        31
    }
}

/// Days from 1970-01-01 to January 1st of year `y`.
pub open spec fn days_before_year(y: int) -> int
    decreases y - 1970,
{
    if y <= 1970 {
        0
    } else {
        days_before_year(y - 1) + year_len(y - 1)
    }
}

/// Days from January 1st to the first of month `m` of year `y`.
pub open spec fn days_before_month(y: int, m: int) -> int
    decreases m,
{
    if m <= 1 {
        0
    } else {
        days_before_month(y, m - 1) + month_len(y, m - 1)
    }
}

/// Days between 1970-01-01 and a date; a day past its month's end runs on
/// into the next month.
pub open spec fn days_from_civil(y: int, m: int, d: int) -> int {
    days_before_year(y) + days_before_month(y, m) + d - 1
}

/// The year containing day `days` counted from January 1st of `y`, and the
/// day within that year.
pub open spec fn year_from(days: int, y: int) -> (int, int)
    decreases days,
{
    if days < year_len(y) || days < 0 {
        (y, days)
    } else {
        year_from(days - year_len(y), y + 1)
    }
}

/// The month containing day `doy` of year `y` counted from month `m`, and the
/// day within that month.
pub open spec fn month_from(doy: int, y: int, m: int) -> (int, int)
    decreases 12 - m,
{
    if m >= 12 || doy < month_len(y, m) {
        (m, doy)
    } else {
        month_from(doy - month_len(y, m), y, m + 1)
    }
}

/// The date `(year, month, day)` that is `days` days after 1970-01-01.
pub open spec fn civil_from_days(days: int) -> (int, int, int) {
    let (y, doy) = year_from(days, 1970);
    let (m, dm) = month_from(doy, y, 1);
    (y, m, dm + 1)
}

/// The ASCII decimal digit of `n`.
pub open spec fn digit_char(n: int) -> char {
    (('0' as int) + n) as char
}

/// `n` as two decimal digits.
pub open spec fn two_digits(n: int) -> Seq<char> {
    seq![digit_char(n / 10), digit_char(n % 10)]
}

/// `n` as four decimal digits.
pub open spec fn four_digits(n: int) -> Seq<char> {
    seq![digit_char(n / 1000), digit_char((n / 100) % 10), digit_char((n / 10) % 10), digit_char(n % 10)]
}

/// The canonical spelling `YYYY-MM-DDTHH:MM:SSZ` of a date and time.
pub open spec fn render_instant(y: int, m: int, d: int, hh: int, mm: int, ss: int) -> Seq<char> {
    four_digits(y) + seq!['-'] + two_digits(m) + seq!['-'] + two_digits(d) + seq!['T'] + two_digits(hh)
        + seq![':'] + two_digits(mm) + seq![':'] + two_digits(ss) + seq!['Z']
}

/// What `UtcInstant::from_unix_seconds` gives for `seconds`: the canonical
/// spelling, when the year is at most 9999.
pub open spec fn instant_text(seconds: u64) -> Option<Seq<char>> {
    let days = seconds / SECONDS_PER_DAY;
    let rest = seconds % SECONDS_PER_DAY;
    let (y, m, d) = civil_from_days(days as int);
    if y > 9999 {
        None
    } else {
        Some(render_instant(y, m, d, (rest / 3600) as int, ((rest % 3600) / 60) as int, (rest % 60) as int))
    }
}

proof fn lemma_year_from_at_least(days: int, y: int)
    ensures
        year_from(days, y).0 >= y,
    decreases days,
{
    if !(days < year_len(y) || days < 0) {
        lemma_year_from_at_least(days - year_len(y), y + 1);
    }
}

proof fn lemma_days_before_year_step(y: int)
    requires
        y >= 1970,
    ensures
        days_before_year(y + 1) == days_before_year(y) + year_len(y),
{
}

/// The year and day-of-year of `days` after 1970-01-01, for years up to 9999;
/// `None` when the year is later.
fn split_year(days: u64) -> (res: Option<(u64, u64)>)
    ensures
        match res {
            Some((y, r)) => year_from(days as int, 1970) == (y as int, r as int) && y <= 9999 && r
                < year_len(y as int),
            None => year_from(days as int, 1970).0 > 9999,
        },
{
    let mut y: u64 = 1970;
    let mut rem: u64 = days;
    loop
        invariant
            1970 <= y <= 10000,
            rem <= days,
            year_from(days as int, 1970) == year_from(rem as int, y as int),
        decreases rem,
    {
        let len: u64 = if (y % 4 == 0 && y % 100 != 0) || y % 400 == 0 {
            366
        } else {
            365
        };
        assert(len == year_len(y as int));
        if rem < len {
            if y > 9999 {
                return None;
            }
            return Some((y, rem));
        }
        if y >= 10000 {
            proof {
                lemma_year_from_at_least(rem as int, y as int);
            }
            return None;
        }
        rem = rem - len;
        y = y + 1;
    }
}

proof fn lemma_days_before_december(y: int)
    ensures
        days_before_month(y, 12) == year_len(y) - 31,
{
    reveal_with_fuel(days_before_month, 12);
}

/// The month and day-of-month (from zero) of day `doy` of year `y`.
fn split_month(doy: u64, y: u64) -> (res: (u64, u64))
    requires
        y <= 9999,
        doy < year_len(y as int),
    ensures
        month_from(doy as int, y as int, 1) == (res.0 as int, res.1 as int),
        1 <= res.0 <= 12,
        res.1 < month_len(y as int, res.0 as int),
{
    proof {
        lemma_days_before_december(y as int);
    }
    let leap = (y % 4 == 0 && y % 100 != 0) || y % 400 == 0;
    let mut m: u64 = 1;
    let mut rem: u64 = doy;
    while m < 12
        invariant
            1 <= m <= 12,
            rem <= doy < 366,
            leap == is_leap(y as int),
            month_from(doy as int, y as int, 1) == month_from(rem as int, y as int, m as int),
            rem + days_before_month(y as int, m as int) == doy,
            days_before_month(y as int, 12) == year_len(y as int) - 31,
            doy < year_len(y as int),
        decreases 12 - m,
    {
        let len: u64 = if m == 2 {
            if leap {
                29
            } else {
                28
            }
        } else if m == 4 || m == 6 || m == 9 || m == 11 {
            30
        } else {
            31
        };
        assert(len == month_len(y as int, m as int));
        if rem < len {
            return (m, rem);
        }
        rem = rem - len;
        m = m + 1;
    }
    (m, rem)
}

fn digit(n: u64) -> (c: char)
    requires
        n < 10,
    ensures
        c == digit_char(n as int),
{
    let b = ('0' as u8) + (n as u8);
    b as char
}

/// The canonical spelling of `seconds`, when its year is at most 9999.
fn render_seconds(seconds: u64) -> (res: Option<String>)
    ensures
        match res {
            Some(s) => instant_text(seconds) == Some(s@),
            None => instant_text(seconds) is None,
        },
{
    let days = seconds / SECONDS_PER_DAY;
    let rest = seconds % SECONDS_PER_DAY;
    let (y, doy) = match split_year(days) {
        Some(v) => v,
        None => return None,
    };
    let (m, dm) = split_month(doy, y);
    let d = dm + 1;
    assert(d <= 31);
    let hh = rest / 3600;
    let mm = (rest % 3600) / 60;
    let ss = rest % 60;
    let mut v: Vec<char> = Vec::new();
    v.push(digit(y / 1000));
    v.push(digit((y / 100) % 10));
    v.push(digit((y / 10) % 10));
    v.push(digit(y % 10));
    v.push('-');
    assert(m / 10 < 10);
    v.push(digit(m / 10));
    v.push(digit(m % 10));
    v.push('-');
    v.push(digit(d / 10));
    v.push(digit(d % 10));
    v.push('T');
    v.push(digit(hh / 10));
    v.push(digit(hh % 10));
    v.push(':');
    v.push(digit(mm / 10));
    v.push(digit(mm % 10));
    v.push(':');
    v.push(digit(ss / 10));
    v.push(digit(ss % 10));
    v.push('Z');
    assert(v@ =~= render_instant(y as int, m as int, d as int, hh as int, mm as int, ss as int));
    Some(string_from_chars(v.as_slice()))
}


proof fn lemma_year_from_sum(days: int, y: int)
    requires
        days >= 0,
        y >= 1970,
    ensures
        year_from(days, y).0 >= y,
        days_before_year(year_from(days, y).0) + year_from(days, y).1 == days_before_year(y) + days,
        0 <= year_from(days, y).1 < year_len(year_from(days, y).0),
    decreases days,
{
    if !(days < year_len(y) || days < 0) {
        lemma_year_from_sum(days - year_len(y), y + 1);
        lemma_days_before_year_step(y);
    }
}

proof fn lemma_month_from_sum(doy: int, y: int, m: int)
    requires
        1 <= m <= 12,
        doy >= 0,
        doy + days_before_month(y, m) < year_len(y),
    ensures
        m <= month_from(doy, y, m).0 <= 12,
        days_before_month(y, month_from(doy, y, m).0) + month_from(doy, y, m).1 == days_before_month(y, m) + doy,
        0 <= month_from(doy, y, m).1 < month_len(y, month_from(doy, y, m).0),
    decreases 12 - m,
{
    if m >= 12 {
        lemma_days_before_december(y);
    } else if doy >= month_len(y, m) {
        assert(days_before_month(y, m + 1) == days_before_month(y, m) + month_len(y, m));
        lemma_month_from_sum(doy - month_len(y, m), y, m + 1);
    }
}

proof fn lemma_digit_round_trip(k: int)
    requires
        0 <= k <= 9,
    ensures
        is_digit(digit_char(k)),
        digit_value(digit_char(k)) == k,
{
}

proof fn lemma_two_digits(n: int)
    requires
        0 <= n <= 99,
    ensures
        is_digit(two_digits(n)[0]),
        is_digit(two_digits(n)[1]),
        number2(two_digits(n), 0) == n,
{
    lemma_digit_round_trip(n / 10);
    lemma_digit_round_trip(n % 10);
}

proof fn lemma_four_digits(n: int)
    requires
        0 <= n <= 9999,
    ensures
        forall|i: int| 0 <= i < 4 ==> #[trigger] is_digit(four_digits(n)[i]),
        number4(four_digits(n), 0) == n,
{
    lemma_digit_round_trip(n / 1000);
    lemma_digit_round_trip((n / 100) % 10);
    lemma_digit_round_trip((n / 10) % 10);
    lemma_digit_round_trip(n % 10);
    assert((n / 1000) * 1000 + ((n / 100) % 10) * 100 + ((n / 10) % 10) * 10 + n % 10 == n)
        by (nonlinear_arith)
        requires
            0 <= n <= 9999,
    ;
}

/// The canonical spelling of an instant parses back to the same instant:
/// rendering and parsing are inverse wherever the year fits in four digits.
pub proof fn law_instant_round_trip(seconds: u64)
    requires
        instant_text(seconds) is Some,
    ensures
        parse_instant(instant_text(seconds)->0) == Some(seconds),
{
    let days = seconds / SECONDS_PER_DAY;
    let rest = seconds % SECONDS_PER_DAY;
    let (y, doy) = year_from(days as int, 1970);
    let (m, dm) = month_from(doy, y, 1);
    let d = dm + 1;
    let hh = (rest / 3600) as int;
    let mm = ((rest % 3600) / 60) as int;
    let ss = (rest % 60) as int;
    lemma_year_from_sum(days as int, 1970);
    assert(days_before_year(1970) == 0);
    assert(days_before_month(y, 1) == 0);
    lemma_month_from_sum(doy, y, 1);
    assert(y <= 9999);
    assert(month_len(y, m) <= 31);
    let s = render_instant(y, m, d, hh, mm, ss);
    assert(instant_text(seconds) == Some(s));
    lemma_four_digits(y);
    lemma_two_digits(m);
    lemma_two_digits(d);
    lemma_two_digits(hh);
    lemma_two_digits(mm);
    lemma_two_digits(ss);
    let a = four_digits(y);
    let b = two_digits(m);
    let c = two_digits(d);
    let e = two_digits(hh);
    let f = two_digits(mm);
    let g = two_digits(ss);
    assert(s.len() == 20);
    assert(s[0] == a[0] && s[1] == a[1] && s[2] == a[2] && s[3] == a[3]);
    assert(s[4] == '-' && s[5] == b[0] && s[6] == b[1] && s[7] == '-');
    assert(s[8] == c[0] && s[9] == c[1] && s[10] == 'T');
    assert(s[11] == e[0] && s[12] == e[1] && s[13] == ':');
    assert(s[14] == f[0] && s[15] == f[1] && s[16] == ':');
    assert(s[17] == g[0] && s[18] == g[1] && s[19] == 'Z');
    assert(instant_shape(s)) by {
        assert(forall|i: int| 0 <= i < 4 ==> #[trigger] is_digit(a[i]));
        assert forall|i: int|
            0 <= i < 20 && i != 4 && i != 7 && i != 10 && i != 13 && i != 16 && i != 19
                implies #[trigger] is_digit(s[i]) by {
            if i < 4 {
                assert(is_digit(a[i]));
            }
        }
    }
    assert(number4(s, 0) == number4(a, 0));
    assert(number2(s, 5) == number2(b, 0));
    assert(number2(s, 8) == number2(c, 0));
    assert(number2(s, 11) == number2(e, 0));
    assert(number2(s, 14) == number2(f, 0));
    assert(number2(s, 17) == number2(g, 0));
    assert(instant_fields_in_range(s));
    assert(days_from_civil(y, m, d) == days);
    assert(seconds == days * 86400 + hh * 3600 + mm * 60 + ss) by (nonlinear_arith)
        requires
            days == seconds / 86400,
            rest == seconds % 86400,
            hh == rest / 3600,
            mm == (rest % 3600) / 60,
            ss == rest % 60,
    ;
    assert(parsed_seconds(s) == seconds);
}

proof fn lemma_days_before_year_monotone(a: int, b: int)
    requires
        1970 <= a <= b,
    ensures
        days_before_year(a) <= days_before_year(b),
        days_before_year(b) <= days_before_year(a) + 366 * (b - a),
        a < b ==> days_before_year(a) + year_len(a) <= days_before_year(b),
    decreases b - a,
{
    if a < b {
        lemma_days_before_year_monotone(a, b - 1);
        lemma_days_before_year_step(b - 1);
    }
}

proof fn lemma_days_before_month_monotone(y: int, a: int, b: int)
    requires
        1 <= a <= b <= 12,
    ensures
        days_before_month(y, a) <= days_before_month(y, b),
        a < b ==> days_before_month(y, a) + month_len(y, a) <= days_before_month(y, b),
    decreases b - a,
{
    if a < b {
        lemma_days_before_month_monotone(y, a, b - 1);
        assert(days_before_month(y, b) == days_before_month(y, b - 1) + month_len(y, b - 1));
    }
}

/// Counting a year and a day within it forward from an earlier year lands on
/// that year and day.
proof fn lemma_year_from_inverse(y0: int, y: int, doy: int)
    requires
        1970 <= y0 <= y,
        0 <= doy < year_len(y),
    ensures
        year_from(days_before_year(y) - days_before_year(y0) + doy, y0) == (y, doy),
    decreases y - y0,
{
    if y0 < y {
        lemma_days_before_year_monotone(y0, y);
        lemma_days_before_year_step(y0);
        lemma_year_from_inverse(y0 + 1, y, doy);
    }
}

/// Counting a month and a day within it forward from an earlier month lands
/// on that month and day.
proof fn lemma_month_from_inverse(y: int, m0: int, m: int, dm: int)
    requires
        1 <= m0 <= m <= 12,
        0 <= dm < month_len(y, m),
    ensures
        month_from(days_before_month(y, m) - days_before_month(y, m0) + dm, y, m0) == (m, dm),
    decreases m - m0,
{
    if m0 < m {
        lemma_days_before_month_monotone(y, m0, m);
        assert(days_before_month(y, m0 + 1) == days_before_month(y, m0) + month_len(y, m0));
        lemma_month_from_inverse(y, m0 + 1, m, dm);
    }
}

/// A real date is `days_from_civil` days after 1970-01-01, and that many days
/// after it is the same date again.
proof fn lemma_civil_inverse(y: int, m: int, d: int)
    requires
        1970 <= y,
        1 <= m <= 12,
        1 <= d <= month_len(y, m),
    ensures
        civil_from_days(days_from_civil(y, m, d)) == (y, m, d),
        0 <= days_from_civil(y, m, d) <= days_before_year(y) + 365,
        days_before_year(y) <= days_from_civil(y, m, d) < days_before_year(y) + year_len(y),
{
    lemma_days_before_december(y);
    lemma_days_before_month_monotone(y, m, 12);
    lemma_days_before_month_monotone(y, 1, m);
    assert(days_before_month(y, 1) == 0);
    let doy = days_before_month(y, m) + d - 1;
    assert(doy < year_len(y));
    assert(days_before_year(1970) == 0);
    lemma_days_before_year_monotone(1970, y);
    lemma_year_from_inverse(1970, y, doy);
    assert(days_before_month(y, 1) == 0);
    lemma_month_from_inverse(y, 1, m, d - 1);
}

/// A decimal digit is the digit of its value.
proof fn lemma_digit_of_value(c: char)
    requires
        is_digit(c),
    ensures
        digit_char(digit_value(c)) == c,
{
}

/// The two digits at `i` are the spelling of their number.
proof fn lemma_number2_spelling(s: Seq<char>, i: int)
    requires
        0 <= i,
        i + 1 < s.len(),
        is_digit(s[i]),
        is_digit(s[i + 1]),
    ensures
        two_digits(number2(s, i)) =~= s.subrange(i, i + 2),
        0 <= number2(s, i) <= 99,
{
    let a = digit_value(s[i]);
    let b = digit_value(s[i + 1]);
    assert((a * 10 + b) / 10 == a && (a * 10 + b) % 10 == b) by (nonlinear_arith)
        requires
            0 <= a <= 9,
            0 <= b <= 9,
    ;
    lemma_digit_of_value(s[i]);
    lemma_digit_of_value(s[i + 1]);
}

/// The four digits at `0` are the spelling of their number.
proof fn lemma_number4_spelling(s: Seq<char>)
    requires
        s.len() >= 4,
        is_digit(s[0]),
        is_digit(s[1]),
        is_digit(s[2]),
        is_digit(s[3]),
    ensures
        four_digits(number4(s, 0)) =~= s.subrange(0, 4),
{
    let a = digit_value(s[0]);
    let b = digit_value(s[1]);
    let c = digit_value(s[2]);
    let e = digit_value(s[3]);
    let n = a * 1000 + b * 100 + c * 10 + e;
    assert(n / 1000 == a && (n / 100) % 10 == b && (n / 10) % 10 == c && n % 10 == e)
        by (nonlinear_arith)
        requires
            0 <= a <= 9,
            0 <= b <= 9,
            0 <= c <= 9,
            0 <= e <= 9,
            n == a * 1000 + b * 100 + c * 10 + e,
    ;
    lemma_digit_of_value(s[0]);
    lemma_digit_of_value(s[1]);
    lemma_digit_of_value(s[2]);
    lemma_digit_of_value(s[3]);
}

/// The six fields of a spelling: year, month, day, hour, minute and second.
pub open spec fn instant_fields(s: Seq<char>) -> (int, int, int, int, int, int) {
    (number4(s, 0), number2(s, 5), number2(s, 8), number2(s, 11), number2(s, 14), number2(s, 17))
}

/// Field tuples in lexicographic order.
pub open spec fn fields_before(a: (int, int, int, int, int, int), b: (int, int, int, int, int, int)) -> bool {
    ||| a.0 < b.0
    ||| a.0 == b.0 && a.1 < b.1
    ||| a.0 == b.0 && a.1 == b.1 && a.2 < b.2
    ||| a.0 == b.0 && a.1 == b.1 && a.2 == b.2 && a.3 < b.3
    ||| a.0 == b.0 && a.1 == b.1 && a.2 == b.2 && a.3 == b.3 && a.4 < b.4
    ||| a.0 == b.0 && a.1 == b.1 && a.2 == b.2 && a.3 == b.3 && a.4 == b.4 && a.5 < b.5
}

/// Single characters compare as their codes.
proof fn lemma_str_lt_single(p: char, q: char)
    ensures
        str_lt(seq![p], seq![q]) == (p < q),
        (seq![p] == seq![q]) == (p == q),
{
    assert(seq![p].drop_first() =~= Seq::<char>::empty());
    assert(seq![q].drop_first() =~= Seq::<char>::empty());
    lemma_str_lt_irreflexive(Seq::<char>::empty());
    assert(seq![p][0] == p && seq![q][0] == q);
    if seq![p] == seq![q] {
        assert(seq![p][0] == seq![q][0]);
    }
}

/// Two-digit spellings sort as their numbers.
proof fn lemma_two_digits_order(a: int, b: int)
    requires
        0 <= a <= 99,
        0 <= b <= 99,
    ensures
        str_lt(two_digits(a), two_digits(b)) == (a < b),
        (two_digits(a) == two_digits(b)) == (a == b),
{
    lemma_digit_round_trip(a / 10);
    lemma_digit_round_trip(a % 10);
    lemma_digit_round_trip(b / 10);
    lemma_digit_round_trip(b % 10);
    assert(two_digits(a) =~= seq![digit_char(a / 10)] + seq![digit_char(a % 10)]);
    assert(two_digits(b) =~= seq![digit_char(b / 10)] + seq![digit_char(b % 10)]);
    lemma_str_lt_concat(seq![digit_char(a / 10)], seq![digit_char(a % 10)], seq![digit_char(b / 10)], seq![digit_char(b % 10)]);
    lemma_str_lt_single(digit_char(a / 10), digit_char(b / 10));
    lemma_str_lt_single(digit_char(a % 10), digit_char(b % 10));
    assert((a < b) == (a / 10 < b / 10 || (a / 10 == b / 10 && a % 10 < b % 10)) && (a == b) == (a / 10
        == b / 10 && a % 10 == b % 10)) by (nonlinear_arith)
        requires
            0 <= a <= 99,
            0 <= b <= 99,
    ;
}

/// Four-digit spellings sort as their numbers.
proof fn lemma_four_digits_order(a: int, b: int)
    requires
        0 <= a <= 9999,
        0 <= b <= 9999,
    ensures
        str_lt(four_digits(a), four_digits(b)) == (a < b),
        (four_digits(a) == four_digits(b)) == (a == b),
{
    assert(a / 100 / 10 == a / 1000 && (a % 100) / 10 == (a / 10) % 10 && (a % 100) % 10 == a % 10 && 0
        <= a / 100 <= 99 && 0 <= a % 100 <= 99) by (nonlinear_arith)
        requires
            0 <= a <= 9999,
    ;
    assert(b / 100 / 10 == b / 1000 && (b % 100) / 10 == (b / 10) % 10 && (b % 100) % 10 == b % 10 && 0
        <= b / 100 <= 99 && 0 <= b % 100 <= 99) by (nonlinear_arith)
        requires
            0 <= b <= 9999,
    ;
    assert(four_digits(a) =~= two_digits(a / 100) + two_digits(a % 100));
    assert(four_digits(b) =~= two_digits(b / 100) + two_digits(b % 100));
    lemma_str_lt_concat(two_digits(a / 100), two_digits(a % 100), two_digits(b / 100), two_digits(b % 100));
    lemma_two_digits_order(a / 100, b / 100);
    lemma_two_digits_order(a % 100, b % 100);
    assert((a < b) == (a / 100 < b / 100 || (a / 100 == b / 100 && a % 100 < b % 100)) && (a == b) == (a
        / 100 == b / 100 && a % 100 == b % 100)) by (nonlinear_arith)
        requires
            0 <= a <= 9999,
            0 <= b <= 9999,
    ;
}

/// Appending one separator keeps the order and the equality of two spellings.
proof fn lemma_separator_order(a: Seq<char>, b: Seq<char>, x: char)
    requires
        a.len() == b.len(),
    ensures
        str_lt(a + seq![x], b + seq![x]) == str_lt(a, b),
        (a + seq![x] == b + seq![x]) == (a == b),
{
    lemma_str_lt_concat(a, seq![x], b, seq![x]);
    lemma_str_lt_irreflexive(seq![x]);
}

/// Canonical spellings sort as their field tuples.
#[verifier::rlimit(40)]
proof fn lemma_render_order(f: (int, int, int, int, int, int), g: (int, int, int, int, int, int))
    requires
        0 <= f.0 <= 9999 && 0 <= f.1 <= 99 && 0 <= f.2 <= 99 && 0 <= f.3 <= 99 && 0 <= f.4 <= 99 && 0
            <= f.5 <= 99,
        0 <= g.0 <= 9999 && 0 <= g.1 <= 99 && 0 <= g.2 <= 99 && 0 <= g.3 <= 99 && 0 <= g.4 <= 99 && 0
            <= g.5 <= 99,
    ensures
        str_lt(render_instant(f.0, f.1, f.2, f.3, f.4, f.5), render_instant(g.0, g.1, g.2, g.3, g.4, g.5))
            == fields_before(f, g),
        (render_instant(f.0, f.1, f.2, f.3, f.4, f.5) == render_instant(g.0, g.1, g.2, g.3, g.4, g.5))
            == (f == g),
{
    let a1 = four_digits(f.0);
    let b1 = four_digits(g.0);
    lemma_four_digits_order(f.0, g.0);
    let a2 = a1 + seq!['-'];
    let b2 = b1 + seq!['-'];
    lemma_separator_order(a1, b1, '-');
    let a3 = a2 + two_digits(f.1);
    let b3 = b2 + two_digits(g.1);
    lemma_str_lt_concat(a2, two_digits(f.1), b2, two_digits(g.1));
    lemma_two_digits_order(f.1, g.1);
    let a4 = a3 + seq!['-'];
    let b4 = b3 + seq!['-'];
    lemma_separator_order(a3, b3, '-');
    let a5 = a4 + two_digits(f.2);
    let b5 = b4 + two_digits(g.2);
    lemma_str_lt_concat(a4, two_digits(f.2), b4, two_digits(g.2));
    lemma_two_digits_order(f.2, g.2);
    let a6 = a5 + seq!['T'];
    let b6 = b5 + seq!['T'];
    lemma_separator_order(a5, b5, 'T');
    let a7 = a6 + two_digits(f.3);
    let b7 = b6 + two_digits(g.3);
    lemma_str_lt_concat(a6, two_digits(f.3), b6, two_digits(g.3));
    lemma_two_digits_order(f.3, g.3);
    let a8 = a7 + seq![':'];
    let b8 = b7 + seq![':'];
    lemma_separator_order(a7, b7, ':');
    let a9 = a8 + two_digits(f.4);
    let b9 = b8 + two_digits(g.4);
    lemma_str_lt_concat(a8, two_digits(f.4), b8, two_digits(g.4));
    lemma_two_digits_order(f.4, g.4);
    let a10 = a9 + seq![':'];
    let b10 = b9 + seq![':'];
    lemma_separator_order(a9, b9, ':');
    let a11 = a10 + two_digits(f.5);
    let b11 = b10 + two_digits(g.5);
    lemma_str_lt_concat(a10, two_digits(f.5), b10, two_digits(g.5));
    lemma_two_digits_order(f.5, g.5);
    lemma_separator_order(a11, b11, 'Z');
    assert(render_instant(f.0, f.1, f.2, f.3, f.4, f.5) == a11 + seq!['Z']);
    assert(render_instant(g.0, g.1, g.2, g.3, g.4, g.5) == b11 + seq!['Z']);
}

/// A well-shaped spelling is the canonical rendering of its fields.
proof fn lemma_shape_is_rendering(s: Seq<char>)
    requires
        instant_shape(s),
    ensures
        render_instant(number4(s, 0), number2(s, 5), number2(s, 8), number2(s, 11), number2(s, 14), number2(
            s,
            17,
        )) =~= s,
        0 <= number4(s, 0) <= 9999,
        0 <= number2(s, 5) <= 99 && 0 <= number2(s, 8) <= 99 && 0 <= number2(s, 11) <= 99,
        0 <= number2(s, 14) <= 99 && 0 <= number2(s, 17) <= 99,
{
    lemma_number4_spelling(s);
    lemma_number2_spelling(s, 5);
    lemma_number2_spelling(s, 8);
    lemma_number2_spelling(s, 11);
    lemma_number2_spelling(s, 14);
    lemma_number2_spelling(s, 17);
    assert(0 <= number4(s, 0) <= 9999) by {
        assert(is_digit(s[0]) && is_digit(s[1]) && is_digit(s[2]) && is_digit(s[3]));
    }
}

/// Among real spellings, an earlier field tuple names an earlier instant.
#[verifier::rlimit(40)]
proof fn lemma_seconds_follow_fields(s: Seq<char>, t: Seq<char>)
    requires
        names_real_instant(s),
        names_real_instant(t),
        fields_before(instant_fields(s), instant_fields(t)),
    ensures
        parsed_seconds(s) < parsed_seconds(t),
{
    let (y, m, d, h, mi, se) = instant_fields(s);
    let (y2, m2, d2, h2, mi2, se2) = instant_fields(t);
    lemma_shape_is_rendering(s);
    lemma_shape_is_rendering(t);
    lemma_civil_inverse(y, m, d);
    lemma_civil_inverse(y2, m2, d2);
    let ds = days_from_civil(y, m, d);
    let dt = days_from_civil(y2, m2, d2);
    let ts = h * 3600 + mi * 60 + se;
    let tt = h2 * 3600 + mi2 * 60 + se2;
    assert(0 <= ts < 86400 && 0 <= tt < 86400);
    if y < y2 {
        lemma_days_before_year_monotone(y, y2);
        assert(ds < dt);
    } else if y == y2 && m < m2 {
        lemma_days_before_month_monotone(y, m, m2);
        assert(ds < dt);
    } else if y == y2 && m == m2 && d < d2 {
        assert(ds < dt);
    } else {
        assert(ds == dt);
        assert(ts < tt);
    }
    assert(parsed_seconds(s) == ds * 86400 + ts);
    assert(parsed_seconds(t) == dt * 86400 + tt);
    assert(ds * 86400 + ts < dt * 86400 + tt) by (nonlinear_arith)
        requires
            ds < dt || (ds == dt && ts < tt),
            0 <= ts < 86400,
            0 <= tt < 86400,
    ;
}

/// The canonical texts of instants sort as the instants themselves: one text
/// sorts before another exactly when it names an earlier second, and two
/// texts are equal exactly when they name the same second.
pub proof fn law_instant_text_order_is_chronological(a: UtcInstant, b: UtcInstant)
    requires
        a.wf(),
        b.wf(),
    ensures
        str_lt(a.text_spec(), b.text_spec()) <==> a.seconds_spec() < b.seconds_spec(),
        (a.text_spec() == b.text_spec()) <==> (a.seconds_spec() == b.seconds_spec()),
{
    let ta = a.text_spec();
    let tb = b.text_spec();
    law_instant_round_trip(a.seconds_spec());
    law_instant_round_trip(b.seconds_spec());
    law_parse_accepts_exactly_real_instants(ta);
    law_parse_accepts_exactly_real_instants(tb);
    let fa = instant_fields(ta);
    let fb = instant_fields(tb);
    lemma_shape_is_rendering(ta);
    lemma_shape_is_rendering(tb);
    lemma_render_order(fa, fb);
    lemma_render_order(fb, fa);
    if fields_before(fa, fb) {
        lemma_seconds_follow_fields(ta, tb);
    } else if fields_before(fb, fa) {
        lemma_seconds_follow_fields(tb, ta);
    } else {
        assert(fa == fb);
    }
}

/// A well-shaped spelling whose fields name a real date and time: the day
/// exists in its month of its year.
pub open spec fn names_real_instant(s: Seq<char>) -> bool {
    &&& instant_shape(s)
    &&& instant_fields_in_range(s)
    &&& number2(s, 8) <= month_len(number4(s, 0), number2(s, 5))
}

/// Parsing accepts exactly the `YYYY-MM-DDTHH:MM:SSZ` spellings that name a
/// real Gregorian date from 1970 to 9999 and a time of day without leap
/// seconds; what it accepts is the canonical spelling of the instant it
/// gives.
pub proof fn law_parse_accepts_exactly_real_instants(s: Seq<char>)
    ensures
        parse_instant(s) is Some <==> names_real_instant(s),
        parse_instant(s) matches Some(n) ==> instant_text(n) == Some(s) && n == parsed_seconds(s),
{
    if parse_instant(s) is Some {
        lemma_accepted_is_real(s);
    }
    if names_real_instant(s) {
        lemma_real_is_accepted(s);
    }
}

proof fn lemma_accepted_is_real(s: Seq<char>)
    requires
        parse_instant(s) is Some,
    ensures
        names_real_instant(s),
        instant_text(parsed_seconds(s) as u64) == Some(s),
{
    let n = parsed_seconds(s) as u64;
    law_instant_round_trip(n);
    let days = n / SECONDS_PER_DAY;
    let (y, doy) = year_from(days as int, 1970);
    let (m, dm) = month_from(doy, y, 1);
    lemma_year_from_sum(days as int, 1970);
    assert(days_before_year(1970) == 0);
    assert(days_before_month(y, 1) == 0);
    lemma_month_from_sum(doy, y, 1);
    let rest = n % SECONDS_PER_DAY;
    let t = render_instant(y, m, dm + 1, (rest / 3600) as int, ((rest % 3600) / 60) as int, (rest % 60) as int);
    assert(instant_text(n) == Some(t));
    assert(t == s);
    lemma_four_digits(y);
    lemma_two_digits(m);
    lemma_two_digits(dm + 1);
    assert(number4(s, 0) == number4(four_digits(y), 0));
    assert(number2(s, 5) == number2(two_digits(m), 0));
    assert(number2(s, 8) == number2(two_digits(dm + 1), 0));
}

#[verifier::rlimit(40)]
proof fn lemma_real_is_accepted(s: Seq<char>)
    requires
        names_real_instant(s),
    ensures
        parse_instant(s) == Some(parsed_seconds(s) as u64),
        0 <= parsed_seconds(s) <= u64::MAX,
{
    let y = number4(s, 0);
    let m = number2(s, 5);
    let d = number2(s, 8);
    let hh = number2(s, 11);
    let mm = number2(s, 14);
    let ss = number2(s, 17);
    lemma_number4_spelling(s);
    lemma_number2_spelling(s, 5);
    lemma_number2_spelling(s, 8);
    lemma_number2_spelling(s, 11);
    lemma_number2_spelling(s, 14);
    lemma_number2_spelling(s, 17);
    lemma_civil_inverse(y, m, d);
    lemma_days_before_year_monotone(1970, y);
    let days = days_from_civil(y, m, d);
    let secs = parsed_seconds(s);
    assert(secs == days * 86400 + hh * 3600 + mm * 60 + ss);
    assert(0 <= days <= 366 * 8030);
    assert(0 <= secs <= 0xffff_ffff_ffff_ffff) by (nonlinear_arith)
        requires
            secs == days * 86400 + hh * 3600 + mm * 60 + ss,
            0 <= days <= 366 * 8030,
            0 <= hh <= 23,
            0 <= mm <= 59,
            0 <= ss <= 59,
    ;
    let n = secs as u64;
    let rest = n % SECONDS_PER_DAY;
    assert(n / 86400 == days && rest == hh * 3600 + mm * 60 + ss && rest / 3600 == hh && (rest
        % 3600) / 60 == mm && rest % 60 == ss) by (nonlinear_arith)
        requires
            n == days * 86400 + hh * 3600 + mm * 60 + ss,
            rest == n % 86400,
            0 <= days,
            0 <= hh <= 23,
            0 <= mm <= 59,
            0 <= ss <= 59,
    ;
    assert(civil_from_days(days) == (y, m, d));
    lemma_number4_spelling(s);
    lemma_number2_spelling(s, 5);
    lemma_number2_spelling(s, 8);
    lemma_number2_spelling(s, 11);
    lemma_number2_spelling(s, 14);
    lemma_number2_spelling(s, 17);
    let t = render_instant(y, m, d, hh, mm, ss);
    assert(instant_text(n) == Some(t));
    assert(t =~= s);
}


/// Whether `c` is an ASCII decimal digit.
pub open spec fn is_digit(c: char) -> bool {
    '0' <= c && c <= '9'
}

/// The value of a decimal digit.
pub open spec fn digit_value(c: char) -> int {
    (c as int) - ('0' as int)
}

/// The two-digit number at `i` of `s`.
pub open spec fn number2(s: Seq<char>, i: int) -> int {
    digit_value(s[i]) * 10 + digit_value(s[i + 1])
}

/// The four-digit number at `i` of `s`.
pub open spec fn number4(s: Seq<char>, i: int) -> int {
    digit_value(s[i]) * 1000 + digit_value(s[i + 1]) * 100 + digit_value(s[i + 2]) * 10
        + digit_value(s[i + 3])
}

/// `YYYY-MM-DDTHH:MM:SSZ` with digits in every numeric position.
pub open spec fn instant_shape(s: Seq<char>) -> bool {
    &&& s.len() == 20
    &&& s[4] == '-' && s[7] == '-' && s[10] == 'T' && s[13] == ':' && s[16] == ':' && s[19] == 'Z'
    &&& forall|i: int|
        0 <= i < 20 && i != 4 && i != 7 && i != 10 && i != 13 && i != 16 && i != 19
            ==> #[trigger] is_digit(s[i])
}

/// The fields of a well-shaped spelling are within their ranges.
pub open spec fn instant_fields_in_range(s: Seq<char>) -> bool {
    &&& 1970 <= number4(s, 0) <= 9999
    &&& 1 <= number2(s, 5) <= 12
    &&& number2(s, 8) >= 1
    &&& number2(s, 11) <= 23
    &&& number2(s, 14) <= 59
    &&& number2(s, 17) <= 59
}

/// The seconds a well-shaped spelling denotes.
pub open spec fn parsed_seconds(s: Seq<char>) -> int {
    days_from_civil(number4(s, 0), number2(s, 5), number2(s, 8)) * 86400 + number2(s, 11) * 3600
        + number2(s, 14) * 60 + number2(s, 17)
}

/// The instant a spelling names: only its one canonical spelling is accepted.
pub open spec fn parse_instant(s: Seq<char>) -> Option<u64> {
    if instant_shape(s) && instant_fields_in_range(s) && instant_text(parsed_seconds(s) as u64)
        == Some(s) {
        Some(parsed_seconds(s) as u64)
    } else {
        None
    }
}

/// The value of the decimal digit `c`.
fn digit_at(c: char) -> (r: u64)
    requires
        is_digit(c),
    ensures
        r == digit_value(c),
        r < 10,
{
    if c == '0' {
        0
    } else if c == '1' {
        1
    } else if c == '2' {
        2
    } else if c == '3' {
        3
    } else if c == '4' {
        4
    } else if c == '5' {
        5
    } else if c == '6' {
        6
    } else if c == '7' {
        7
    } else if c == '8' {
        8
    } else {
        9
    }
}

/// Days from 1970-01-01 to the given date.
fn days_from_civil_exec(y: u64, m: u64, d: u64) -> (res: u64)
    requires
        1970 <= y <= 9999,
        1 <= m <= 12,
        1 <= d <= 99,
    ensures
        res == days_from_civil(y as int, m as int, d as int),
        res <= 3_000_000,
{
    let mut days: u64 = 0;
    let mut year: u64 = 1970;
    while year < y
        invariant
            1970 <= year <= y <= 9999,
            days == days_before_year(year as int),
            days <= 366 * (year - 1970),
        decreases y - year,
    {
        let len: u64 = if (year % 4 == 0 && year % 100 != 0) || year % 400 == 0 {
            366
        } else {
            365
        };
        assert(days_before_year(year + 1) == days_before_year(year as int) + year_len(year as int));
        days = days + len;
        year = year + 1;
    }
    let leap = (y % 4 == 0 && y % 100 != 0) || y % 400 == 0;
    let mut month: u64 = 1;
    let mut before: u64 = 0;
    while month < m
        invariant
            1 <= month <= m <= 12,
            before == days_before_month(y as int, month as int),
            before <= 31 * (month - 1),
            leap == is_leap(y as int),
        decreases m - month,
    {
        let len: u64 = if month == 2 {
            if leap {
                29
            } else {
                28
            }
        } else if month == 4 || month == 6 || month == 9 || month == 11 {
            30
        } else {
            31
        };
        before = before + len;
        month = month + 1;
    }
    days + before + d - 1
}

/// A single canonical observational instant: exactly `YYYY-MM-DDTHH:MM:SSZ`.
/// Offsets, fractional seconds and leap seconds are rejected, not folded.
#[derive(Clone, Debug, PartialEq, Eq, PartialOrd, Ord)]
pub struct UtcInstant {
    text: String,
    seconds: u64,
}

impl UtcInstant {
    pub closed spec fn text_spec(&self) -> Seq<char> {
        self.text@
    }

    pub closed spec fn seconds_spec(&self) -> u64 {
        self.seconds
    }

    /// The text is the canonical spelling of the seconds.
    pub open spec fn wf(&self) -> bool {
        instant_text(self.seconds_spec()) == Some(self.text_spec())
    }

    pub fn as_str(&self) -> (res: &str)
        ensures
            res@ == self.text_spec(),
    {
        self.text.as_str()
    }

    /// Seconds since the Unix epoch.
    pub fn unix_seconds(&self) -> (res: u64)
        ensures
            res == self.seconds_spec(),
    {
        self.seconds
    }

    pub fn from_unix_seconds(seconds: u64) -> (res: Result<Self, QualityArtifactError>)
        ensures
            res is Ok <==> instant_text(seconds) is Some,
            res matches Ok(u) ==> u.seconds_spec() == seconds && u.wf(),
            res matches Err(e) ==> e == QualityArtifactError::InvalidTimestamp,
    {
        match render_seconds(seconds) {
            Some(text) => Ok(UtcInstant { text, seconds }),
            None => Err(QualityArtifactError::InvalidTimestamp),
        }
    }

    pub fn checked_add_seconds(&self, seconds: u64) -> (res: Result<Self, QualityArtifactError>)
        ensures
            res is Ok <==> (self.seconds_spec() + seconds <= u64::MAX && instant_text(
                (self.seconds_spec() + seconds) as u64,
            ) is Some),
            res matches Ok(u) ==> u.seconds_spec() == self.seconds_spec() + seconds && u.wf(),
            res matches Err(e) ==> e == QualityArtifactError::InvalidTimestamp,
    {
        match self.seconds.checked_add(seconds) {
            Some(total) => UtcInstant::from_unix_seconds(total),
            None => Err(QualityArtifactError::InvalidTimestamp),
        }
    }

    /// Non-negative distance to a later instant; `None` when `self` is later.
    pub fn seconds_until(&self, later: &Self) -> (res: Option<u64>)
        ensures
            match res {
                Some(d) => later.seconds_spec() >= self.seconds_spec() && d == later.seconds_spec()
                    - self.seconds_spec(),
                None => later.seconds_spec() < self.seconds_spec(),
            },
    {
        later.seconds.checked_sub(self.seconds)
    }

    /// Parses the one canonical spelling of an instant.
    pub fn parse(value: String) -> (res: Result<Self, QualityArtifactError>)
        ensures
            res is Ok <==> parse_instant(value@) is Some,
            res matches Ok(u) ==> Some(u.seconds_spec()) == parse_instant(value@) && u.text_spec()
                == value@ && u.wf(),
            res matches Err(e) ==> e == QualityArtifactError::InvalidTimestamp,
    {
        let v = chars_of(value.as_str());
        if v.len() != 20 || v[4] != '-' || v[7] != '-' || v[10] != 'T' || v[13] != ':' || v[16]
            != ':' || v[19] != 'Z' {
            return Err(QualityArtifactError::InvalidTimestamp);
        }
        let mut i: usize = 0;
        while i < 20
            invariant
                i <= 20,
                v@ == value@,
                v@.len() == 20,
                forall|k: int|
                    0 <= k < i && k != 4 && k != 7 && k != 10 && k != 13 && k != 16 && k != 19
                        ==> #[trigger] is_digit(v@[k]),
            decreases 20 - i,
        {
            if i != 4 && i != 7 && i != 10 && i != 13 && i != 16 && i != 19 && !(v[i] >= '0'
                && v[i] <= '9') {
                assert(!is_digit(v@[i as int]));
                return Err(QualityArtifactError::InvalidTimestamp);
            }
            i = i + 1;
        }
        let ghost s = v@;
        proof {
            assert(is_digit(s[0]) && is_digit(s[1]) && is_digit(s[2]) && is_digit(s[3]));
            assert(is_digit(s[5]) && is_digit(s[6]) && is_digit(s[8]) && is_digit(s[9]));
            assert(is_digit(s[11]) && is_digit(s[12]) && is_digit(s[14]) && is_digit(s[15]));
            assert(is_digit(s[17]) && is_digit(s[18]));
        }
        let year = digit_at(v[0]) * 1000 + digit_at(v[1]) * 100 + digit_at(v[2]) * 10 + digit_at(v[3]);
        let month = digit_at(v[5]) * 10 + digit_at(v[6]);
        let day = digit_at(v[8]) * 10 + digit_at(v[9]);
        let hour = digit_at(v[11]) * 10 + digit_at(v[12]);
        let minute = digit_at(v[14]) * 10 + digit_at(v[15]);
        let second = digit_at(v[17]) * 10 + digit_at(v[18]);
        proof {
            assert(is_digit(s[0]) && is_digit(s[1]) && is_digit(s[2]) && is_digit(s[3]));
            assert(is_digit(s[5]) && is_digit(s[6]) && is_digit(s[8]) && is_digit(s[9]));
            assert(is_digit(s[11]) && is_digit(s[12]) && is_digit(s[14]) && is_digit(s[15]));
            assert(is_digit(s[17]) && is_digit(s[18]));
            assert(instant_shape(s));
        }
        if year < 1970 || year > 9999 || month < 1 || month > 12 || day < 1 || hour > 23 || minute
            > 59 || second > 59 {
            return Err(QualityArtifactError::InvalidTimestamp);
        }
        let days = days_from_civil_exec(year, month, day);
        let seconds = days * SECONDS_PER_DAY + hour * 3600 + minute * 60 + second;
        let canonical = UtcInstant::from_unix_seconds(seconds)?;
        if !str_eq(canonical.text.as_str(), value.as_str()) {
            return Err(QualityArtifactError::InvalidTimestamp);
        }
        Ok(canonical)
    }
}

impl std::convert::TryFrom<String> for UtcInstant {
    type Error = QualityArtifactError;

    fn try_from(value: String) -> (res: Result<Self, QualityArtifactError>)
        ensures
            res is Ok <==> parse_instant(value@) is Some,
            res matches Ok(u) ==> Some(u.seconds_spec()) == parse_instant(value@) && u.text_spec() == value@ && u.wf(),
            res matches Err(e) ==> e == QualityArtifactError::InvalidTimestamp,
    {
        UtcInstant::parse(value)
    }
}

/// The conversion is [`UtcInstant::parse`]; `try_from` states its
/// result in its own `ensures`, and no single value is named here.
impl TryFromSpecImpl<String> for UtcInstant {
    open spec fn obeys_try_from_spec() -> bool {
        false
    }

    open spec fn try_from_spec(value: String) -> Result<Self, QualityArtifactError> {
        Err(QualityArtifactError::InvalidTimestamp)
    }
}

impl std::str::FromStr for UtcInstant {
    type Err = QualityArtifactError;

    fn from_str(value: &str) -> (res: Result<Self, QualityArtifactError>)
        ensures
            res is Ok <==> parse_instant(value@) is Some,
            res matches Ok(u) ==> Some(u.seconds_spec()) == parse_instant(value@) && u.text_spec() == value@ && u.wf(),
            res matches Err(e) ==> e == QualityArtifactError::InvalidTimestamp,
    {
        UtcInstant::parse(owned(value))
    }
}


/// The canonical job locator; quality artifacts use no second grammar.
pub type QualityJobId = JobId;

/// Durable monotonicity witness for the quality store only.
#[derive(Clone, Debug, PartialEq, Eq)]
pub struct QualityClockWatermark {
    pub format_version: u8,
    pub observed_at_utc: UtcInstant,
}

impl QualityClockWatermark {
    pub fn new(observed_at_utc: UtcInstant) -> (res: Self)
        ensures
            res.format_version == 1,
            res.observed_at_utc == observed_at_utc,
    {
        QualityClockWatermark { format_version: 1, observed_at_utc }
    }

    pub fn validate(&self) -> (res: Result<(), QualityArtifactError>)
        ensures
            res is Ok <==> self.format_version == 1,
            res matches Err(e) ==> e == QualityArtifactError::InvalidDescriptor,
    {
        if self.format_version == 1 {
            Ok(())
        } else {
            Err(QualityArtifactError::InvalidDescriptor)
        }
    }
}

#[derive(Clone, Copy, Debug, PartialEq, Eq, Structural)]
pub enum QualityArtifactKind {
    JunitXml,
    CoverageJson,
    Lcov,
    ArchiveBundle,
    MutationDiff,
    MutationLog,
    ToolLog,
    OtherDeclared,
}

#[derive(Clone, Copy, Debug, PartialEq, Eq, Structural)]
pub enum QualityMimeType {
    ApplicationJunitXml,
    ApplicationJson,
    TextPlain,
    TextXDiff,
    ApplicationXTar,
    ApplicationOctetStream,
}

#[derive(Clone, Copy, Debug, PartialEq, Eq, Structural)]
pub enum PayloadFormatVersion {
    JunitXmlV1,
    CoverageJsonV1,
    LcovV1,
    UstarV1,
    MutationDiffV1,
    Utf8LogV1,
    DeclaredV1,
}

#[derive(Clone, Copy, Debug, PartialEq, Eq, Structural)]
pub enum ArtifactCompleteness {
    Complete,
    Truncated,
    Partial,
    Invalid,
    Unavailable,
}

#[derive(Clone, Copy, Debug, PartialEq, Eq, Structural, PartialOrd, Ord)]
pub enum ArtifactSensitivity {
    Public,
    SourceDerived,
    SymbolDerived,
    PotentiallySensitive,
    SecretSuspected,
}

/// The fixed guest table. A guest string never becomes one of these values.
#[derive(Clone, Copy, Debug, PartialEq, Eq, Structural)]
pub enum GuestArtifactName {
    JunitXml,
    CoverageJson,
    Lcov,
    OutcomesJson,
    MutationDiff,
    MutationLog,
    ToolLog,
    ReportArchive,
}

#[derive(Clone, Debug, PartialEq, Eq)]
pub struct ArtifactSource {
    pub captured_source_sha256: [u8; 32],
    pub guest_name: GuestArtifactName,
    pub selection: ArtifactSelection,
}

#[derive(Clone, Copy, Debug, PartialEq, Eq, Structural)]
pub enum ArtifactSelection {
    Workspace,
    Package,
    Target,
}

#[derive(Clone, Debug, PartialEq, Eq)]
pub struct ArtifactRuntime {
    pub image_digest: [u8; 32],
    pub toolchain_identity: [u8; 32],
    pub plugin: ArtifactPlugin,
    pub implementation_digest: [u8; 32],
}

#[derive(Clone, Debug, PartialEq, Eq)]
pub struct ArtifactPlugin {
    pub identity: PluginIdentity,
    pub version: u16,
    pub digest: [u8; 32],
}

#[derive(Clone, Copy, Debug, PartialEq, Eq, Structural)]
pub enum PluginIdentity {
    Builtin,
    Nextest,
    Coverage,
    Semver,
    Mutation,
}

pub const QUALITY_MAX_ARTIFACT_BYTES: u64 = 33_554_432;
pub const QUALITY_MAX_JOB_BYTES: u64 = 67_108_864;
pub const QUALITY_MAX_JOB_MEMBERS: u16 = 128;
pub const QUALITY_MAX_OWNER_BYTES: u64 = 134_217_728;
pub const QUALITY_MAX_GLOBAL_BYTES: u64 = 268_435_456;
pub const QUALITY_DEFAULT_TTL_SECONDS: u64 = 3_600;
pub const QUALITY_MAX_TTL_SECONDS: u64 = 86_400;
pub const QUALITY_CONTROL_HEADROOM_BYTES: u64 = 16_777_216;
/// The mutation store's own recovery floor (48 MiB staging and 1 MiB of
/// metadata growth): a maximal quality reservation must leave it available.
pub const M2_RECOVERY_HEADROOM_BYTES: u64 = 51_380_224;
/// Bounds every directory walk of the store.
pub const QUALITY_MAX_STORE_ENTRIES: usize = 4_096;

/// The payload format each kind is written in.
pub open spec fn kind_version_ok(k: QualityArtifactKind, v: PayloadFormatVersion) -> bool {
    match k {
        QualityArtifactKind::JunitXml => v == PayloadFormatVersion::JunitXmlV1,
        QualityArtifactKind::CoverageJson => v == PayloadFormatVersion::CoverageJsonV1,
        QualityArtifactKind::Lcov => v == PayloadFormatVersion::LcovV1,
        QualityArtifactKind::ArchiveBundle => v == PayloadFormatVersion::UstarV1,
        QualityArtifactKind::MutationDiff => v == PayloadFormatVersion::MutationDiffV1,
        QualityArtifactKind::MutationLog => v == PayloadFormatVersion::Utf8LogV1,
        QualityArtifactKind::ToolLog => v == PayloadFormatVersion::Utf8LogV1,
        QualityArtifactKind::OtherDeclared => v == PayloadFormatVersion::DeclaredV1,
    }
}

/// The media type each kind is served as.
pub open spec fn kind_mime_ok(k: QualityArtifactKind, m: QualityMimeType) -> bool {
    match k {
        QualityArtifactKind::JunitXml => m == QualityMimeType::ApplicationJunitXml,
        QualityArtifactKind::CoverageJson => m == QualityMimeType::ApplicationJson,
        QualityArtifactKind::Lcov => m == QualityMimeType::TextPlain,
        QualityArtifactKind::MutationLog => m == QualityMimeType::TextPlain,
        QualityArtifactKind::ToolLog => m == QualityMimeType::TextPlain,
        QualityArtifactKind::ArchiveBundle => m == QualityMimeType::ApplicationXTar,
        QualityArtifactKind::MutationDiff => m == QualityMimeType::TextXDiff,
        QualityArtifactKind::OtherDeclared => m == QualityMimeType::ApplicationOctetStream,
    }
}

/// The guest file each kind is taken from.
pub open spec fn kind_guest_ok(k: QualityArtifactKind, g: GuestArtifactName) -> bool {
    match k {
        QualityArtifactKind::JunitXml => g == GuestArtifactName::JunitXml,
        QualityArtifactKind::CoverageJson => g == GuestArtifactName::CoverageJson,
        QualityArtifactKind::Lcov => g == GuestArtifactName::Lcov,
        QualityArtifactKind::ArchiveBundle => g == GuestArtifactName::ReportArchive,
        QualityArtifactKind::MutationDiff => g == GuestArtifactName::MutationDiff,
        QualityArtifactKind::MutationLog => g == GuestArtifactName::MutationLog,
        QualityArtifactKind::ToolLog => g == GuestArtifactName::ToolLog,
        QualityArtifactKind::OtherDeclared => g == GuestArtifactName::OutcomesJson,
    }
}

fn kind_version_check(k: QualityArtifactKind, v: PayloadFormatVersion) -> (res: bool)
    ensures
        res == kind_version_ok(k, v),
{
    match k {
        QualityArtifactKind::JunitXml => v == PayloadFormatVersion::JunitXmlV1,
        QualityArtifactKind::CoverageJson => v == PayloadFormatVersion::CoverageJsonV1,
        QualityArtifactKind::Lcov => v == PayloadFormatVersion::LcovV1,
        QualityArtifactKind::ArchiveBundle => v == PayloadFormatVersion::UstarV1,
        QualityArtifactKind::MutationDiff => v == PayloadFormatVersion::MutationDiffV1,
        QualityArtifactKind::MutationLog => v == PayloadFormatVersion::Utf8LogV1,
        QualityArtifactKind::ToolLog => v == PayloadFormatVersion::Utf8LogV1,
        QualityArtifactKind::OtherDeclared => v == PayloadFormatVersion::DeclaredV1,
    }
}

fn kind_mime_check(k: QualityArtifactKind, m: QualityMimeType) -> (res: bool)
    ensures
        res == kind_mime_ok(k, m),
{
    match k {
        QualityArtifactKind::JunitXml => m == QualityMimeType::ApplicationJunitXml,
        QualityArtifactKind::CoverageJson => m == QualityMimeType::ApplicationJson,
        QualityArtifactKind::Lcov => m == QualityMimeType::TextPlain,
        QualityArtifactKind::MutationLog => m == QualityMimeType::TextPlain,
        QualityArtifactKind::ToolLog => m == QualityMimeType::TextPlain,
        QualityArtifactKind::ArchiveBundle => m == QualityMimeType::ApplicationXTar,
        QualityArtifactKind::MutationDiff => m == QualityMimeType::TextXDiff,
        QualityArtifactKind::OtherDeclared => m == QualityMimeType::ApplicationOctetStream,
    }
}

fn kind_guest_check(k: QualityArtifactKind, g: GuestArtifactName) -> (res: bool)
    ensures
        res == kind_guest_ok(k, g),
{
    match k {
        QualityArtifactKind::JunitXml => g == GuestArtifactName::JunitXml,
        QualityArtifactKind::CoverageJson => g == GuestArtifactName::CoverageJson,
        QualityArtifactKind::Lcov => g == GuestArtifactName::Lcov,
        QualityArtifactKind::ArchiveBundle => g == GuestArtifactName::ReportArchive,
        QualityArtifactKind::MutationDiff => g == GuestArtifactName::MutationDiff,
        QualityArtifactKind::MutationLog => g == GuestArtifactName::MutationLog,
        QualityArtifactKind::ToolLog => g == GuestArtifactName::ToolLog,
        QualityArtifactKind::OtherDeclared => g == GuestArtifactName::OutcomesJson,
    }
}

/// Everything a producer declares before its bytes exist; size and digest are
/// stated only by the store that consumed the stream.
#[derive(Clone, Debug, PartialEq, Eq)]
pub struct QualityArtifactDraft {
    pub artifact_id: QualityArtifactId,
    pub member_index: u16,
    pub kind: QualityArtifactKind,
    pub mime_type: QualityMimeType,
    pub payload_format_version: PayloadFormatVersion,
    pub completeness: ArtifactCompleteness,
    pub sensitivity: ArtifactSensitivity,
    pub created_at_utc: UtcInstant,
    pub expires_at_utc: UtcInstant,
    pub source: ArtifactSource,
    pub runtime: ArtifactRuntime,
}

#[derive(Clone, Debug, PartialEq, Eq)]
pub struct QualityArtifactDescriptor {
    pub format_version: u8,
    pub artifact_id: QualityArtifactId,
    pub job_id: QualityJobId,
    pub member_index: u16,
    pub kind: QualityArtifactKind,
    pub mime_type: QualityMimeType,
    pub payload_format_version: PayloadFormatVersion,
    pub sha256: [u8; 32],
    pub size_bytes: u64,
    pub completeness: ArtifactCompleteness,
    pub sensitivity: ArtifactSensitivity,
    pub created_at_utc: UtcInstant,
    pub expires_at_utc: UtcInstant,
    pub owner_binding: [u8; 32],
    pub source: ArtifactSource,
    pub runtime: ArtifactRuntime,
}

/// What structural validation of a descriptor answers.
pub open spec fn descriptor_check(d: QualityArtifactDescriptor) -> Result<(), QualityArtifactError> {
    let created = d.created_at_utc.seconds_spec();
    let expires = d.expires_at_utc.seconds_spec();
    if d.format_version != 1 || d.size_bytes > QUALITY_MAX_ARTIFACT_BYTES || d.member_index
        >= QUALITY_MAX_JOB_MEMBERS {
        Err(QualityArtifactError::InvalidDescriptor)
    } else if expires <= created || expires - created > QUALITY_MAX_TTL_SECONDS {
        Err(QualityArtifactError::InvalidTimestamp)
    } else if !(kind_version_ok(d.kind, d.payload_format_version) && kind_mime_ok(d.kind, d.mime_type)
        && kind_guest_ok(d.kind, d.source.guest_name)) {
        Err(QualityArtifactError::InvalidKindVersion)
    } else {
        Ok(())
    }
}

impl QualityArtifactDescriptor {
    /// Total structural validation. It proves nothing about stored bytes.
    pub fn validate(&self) -> (res: Result<(), QualityArtifactError>)
        ensures
            res == descriptor_check(*self),
    {
        if self.format_version != 1 || self.size_bytes > QUALITY_MAX_ARTIFACT_BYTES
            || self.member_index >= QUALITY_MAX_JOB_MEMBERS {
            return Err(QualityArtifactError::InvalidDescriptor);
        }
        let ttl = match self.created_at_utc.seconds_until(&self.expires_at_utc) {
            Some(t) => t,
            None => return Err(QualityArtifactError::InvalidTimestamp),
        };
        if ttl == 0 || ttl > QUALITY_MAX_TTL_SECONDS {
            return Err(QualityArtifactError::InvalidTimestamp);
        }
        let kind_version = kind_version_check(self.kind, self.payload_format_version);
        let kind_mime = kind_mime_check(self.kind, self.mime_type);
        let kind_guest = kind_guest_check(self.kind, self.source.guest_name);
        if kind_version && kind_mime && kind_guest {
            Ok(())
        } else {
            Err(QualityArtifactError::InvalidKindVersion)
        }
    }

    /// Expiry is observational: `now` comes from the caller's clock.
    pub fn is_expired(&self, now: &UtcInstant) -> (res: bool)
        ensures
            res == (now.seconds_spec() >= self.expires_at_utc.seconds_spec()),
    {
        now.unix_seconds() >= self.expires_at_utc.unix_seconds()
    }
}

impl QualityArtifactDraft {
    /// The descriptor of the stored bytes, once it validates.
    pub fn into_descriptor(
        self,
        job_id: QualityJobId,
        owner_binding: [u8; 32],
        sha256: [u8; 32],
        size_bytes: u64,
    ) -> (res: Result<QualityArtifactDescriptor, QualityArtifactError>)
        ensures
            ({
                let d = QualityArtifactDescriptor {
                    format_version: 1,
                    artifact_id: self.artifact_id,
                    job_id,
                    member_index: self.member_index,
                    kind: self.kind,
                    mime_type: self.mime_type,
                    payload_format_version: self.payload_format_version,
                    sha256,
                    size_bytes,
                    completeness: self.completeness,
                    sensitivity: self.sensitivity,
                    created_at_utc: self.created_at_utc,
                    expires_at_utc: self.expires_at_utc,
                    owner_binding,
                    source: self.source,
                    runtime: self.runtime,
                };
                match res {
                    Ok(r) => descriptor_check(d) is Ok && r == d,
                    Err(e) => descriptor_check(d) == Err::<(), QualityArtifactError>(e),
                }
            }),
    {
        let descriptor = QualityArtifactDescriptor {
            format_version: 1,
            artifact_id: self.artifact_id,
            job_id,
            member_index: self.member_index,
            kind: self.kind,
            mime_type: self.mime_type,
            payload_format_version: self.payload_format_version,
            sha256,
            size_bytes,
            completeness: self.completeness,
            sensitivity: self.sensitivity,
            created_at_utc: self.created_at_utc,
            expires_at_utc: self.expires_at_utc,
            owner_binding,
            source: self.source,
            runtime: self.runtime,
        };
        match descriptor.validate() {
            Ok(()) => Ok(descriptor),
            Err(e) => Err(e),
        }
    }
}

/// Closed quarantine reasons; never a path, a URI or attacker-supplied text.
#[derive(Clone, Copy, Debug, PartialEq, Eq, Structural)]
pub enum QuarantineReason {
    UnknownName,
    UnknownVersion,
    MalformedDescriptor,
    NotPrivateRegularFile,
    SizeMismatch,
    DigestMismatch,
    MissingBlob,
    ClockAnomaly,
}

/// The published spelling of each quarantine reason.
pub open spec fn quarantine_spelling(r: QuarantineReason) -> Seq<char> {
    match r {
        QuarantineReason::UnknownName => "unknown_name"@,
        QuarantineReason::UnknownVersion => "unknown_version"@,
        QuarantineReason::MalformedDescriptor => "malformed_descriptor"@,
        QuarantineReason::NotPrivateRegularFile => "not_private_regular_file"@,
        QuarantineReason::SizeMismatch => "size_mismatch"@,
        QuarantineReason::DigestMismatch => "digest_mismatch"@,
        QuarantineReason::MissingBlob => "missing_blob"@,
        QuarantineReason::ClockAnomaly => "clock_anomaly"@,
    }
}

impl QuarantineReason {
    /// The published spelling, as the text form of the reason.
    pub fn as_str(self) -> (res: &'static str)
        ensures
            res@ == quarantine_spelling(self),
    {
        match self {
            QuarantineReason::UnknownName => "unknown_name",
            QuarantineReason::UnknownVersion => "unknown_version",
            QuarantineReason::MalformedDescriptor => "malformed_descriptor",
            QuarantineReason::NotPrivateRegularFile => "not_private_regular_file",
            QuarantineReason::SizeMismatch => "size_mismatch",
            QuarantineReason::DigestMismatch => "digest_mismatch",
            QuarantineReason::MissingBlob => "missing_blob",
            QuarantineReason::ClockAnomaly => "clock_anomaly",
        }
    }
}

/// Bounded counts only: a report never carries a name, path or content.
#[derive(Clone, Copy, Debug, Default, PartialEq, Eq, Structural)]
pub struct RecoveryReport {
    pub validated: u32,
    pub discarded_uncommitted: u32,
    pub quarantined: u32,
    pub truncated_surplus: u32,
    pub released_reservations: u32,
    pub clock_regression: bool,
}

#[derive(Clone, Copy, Debug, Default, PartialEq, Eq, Structural)]
pub struct PruneReport {
    pub removed: u32,
    pub reclaimed_bytes: u64,
    pub retained: u32,
}

/// The state-root capacity floor: the request plus both headrooms must fit
/// in the observed free bytes.
pub fn reservation_fits(free_bytes: u64, requested: u64) -> (res: Result<(), QualityArtifactError>)
    ensures
        res is Ok <==> requested + M2_RECOVERY_HEADROOM_BYTES + QUALITY_CONTROL_HEADROOM_BYTES
            <= free_bytes,
        res matches Err(e) ==> e == QualityArtifactError::QuotaExceeded,
{
    let required = match requested.checked_add(M2_RECOVERY_HEADROOM_BYTES) {
        Some(v) => match v.checked_add(QUALITY_CONTROL_HEADROOM_BYTES) {
            Some(w) => w,
            None => return Err(QualityArtifactError::QuotaExceeded),
        },
        None => return Err(QualityArtifactError::QuotaExceeded),
    };
    if free_bytes >= required {
        Ok(())
    } else {
        Err(QualityArtifactError::QuotaExceeded)
    }
}

/// The text shown for each refusal.
pub open spec fn quality_artifact_error_message(e: QualityArtifactError) -> Seq<char> {
    match e {
        QualityArtifactError::InvalidId => "invalid quality artifact identifier"@,
        QualityArtifactError::InvalidDescriptor => "invalid quality artifact descriptor"@,
        QualityArtifactError::InvalidTimestamp => "invalid quality artifact timestamp"@,
        QualityArtifactError::InvalidKindVersion => "invalid quality artifact kind/version"@,
        QualityArtifactError::InvalidLimit => "invalid quality artifact limit"@,
        QualityArtifactError::NotFound => "quality artifact not found"@,
        QualityArtifactError::Unauthorized => "quality artifact authorization failed"@,
        QualityArtifactError::Expired => "quality artifact expired"@,
        QualityArtifactError::QuotaExceeded => "quality artifact quota exceeded"@,
        QualityArtifactError::Busy => "quality artifact store busy"@,
        QualityArtifactError::UnsupportedPlatform => "quality artifact store unsupported platform"@,
        QualityArtifactError::UnsupportedStateRoot => "quality artifact store unqualified state root"@,
        QualityArtifactError::Io => "quality artifact store I/O failed"@,
        QualityArtifactError::RecoveryRequired => "quality artifact recovery required"@,
        QualityArtifactError::RetentionDenied => "quality artifact retention not granted"@,
    }
}

impl QualityArtifactError {
    /// The text shown for this refusal.
    pub fn message(&self) -> (res: &'static str)
        ensures
            res@ == quality_artifact_error_message(*self),
    {
        match self {
            QualityArtifactError::InvalidId => "invalid quality artifact identifier",
            QualityArtifactError::InvalidDescriptor => "invalid quality artifact descriptor",
            QualityArtifactError::InvalidTimestamp => "invalid quality artifact timestamp",
            QualityArtifactError::InvalidKindVersion => "invalid quality artifact kind/version",
            QualityArtifactError::InvalidLimit => "invalid quality artifact limit",
            QualityArtifactError::NotFound => "quality artifact not found",
            QualityArtifactError::Unauthorized => "quality artifact authorization failed",
            QualityArtifactError::Expired => "quality artifact expired",
            QualityArtifactError::QuotaExceeded => "quality artifact quota exceeded",
            QualityArtifactError::Busy => "quality artifact store busy",
            QualityArtifactError::UnsupportedPlatform => "quality artifact store unsupported platform",
            QualityArtifactError::UnsupportedStateRoot => "quality artifact store unqualified state root",
            QualityArtifactError::Io => "quality artifact store I/O failed",
            QualityArtifactError::RecoveryRequired => "quality artifact recovery required",
            QualityArtifactError::RetentionDenied => "quality artifact retention not granted",
        }
    }
}

} // verus!
