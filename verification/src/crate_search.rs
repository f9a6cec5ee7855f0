//! Bounded retrieval evidence; ranking never establishes catalog facts or
//! quality. Holds the minimum-Rust-version filter and its exact text form.
use vstd::prelude::*;
use vstd::std_specs::convert::TryFromSpecImpl;
use crate::catalog::{CatalogError, CatalogQuery, KnownVersion};
use crate::catalog_context::CatalogComponentUnavailable;
use crate::semantic::SemanticError;
use crate::text::{chars_of, is_ascii_digit, is_ascii_digit_spec, string_from_chars, utf8_len, utf8_len_exceeds};

verus! {

pub const SEARCH_CHANNEL_LIMIT: u32 = 50;

#[derive(Clone, Copy, Debug, PartialEq, Eq, Structural)]
pub enum CrateSearchMode {
    Lexical,
    Semantic,
    Hybrid,
}

impl Default for CrateSearchMode {
    fn default() -> (res: Self)
        ensures
            res == CrateSearchMode::Hybrid,
    {
        CrateSearchMode::Hybrid
    }
}

// ---------------------------------------------------------------------------
// Decimal text
// ---------------------------------------------------------------------------

/// The value of an ASCII digit.
pub open spec fn digit_of(c: char) -> int {
    c as int - '0' as int
}

/// The ASCII digit of `n < 10`.
pub open spec fn digit_char(n: nat) -> char {
    (('0' as u8) + (n as u8)) as char
}

/// The number a string of decimal digits spells.
pub open spec fn decimal_value(s: Seq<char>) -> int
    decreases s.len(),
{
    if s.len() == 0 {
        0
    } else {
        decimal_value(s.drop_last()) * 10 + digit_of(s.last())
    }
}

pub open spec fn all_digits(s: Seq<char>) -> bool {
    forall|i: int| 0 <= i < s.len() ==> #[trigger] is_ascii_digit_spec(s[i])
}

/// Non-empty decimal digits without a leading zero, except `0` itself.
pub open spec fn canonical_number(s: Seq<char>) -> bool {
    s.len() > 0 && all_digits(s) && !(s.len() > 1 && s[0] == '0')
}

/// The canonical decimal spelling of `n`.
pub open spec fn decimal(n: nat) -> Seq<char>
    decreases n,
{
    if n < 10 {
        seq![digit_char(n)]
    } else {
        decimal(n / 10).push(digit_char(n % 10))
    }
}

/// `s` split at each `.`, as `str::split('.')` splits it: always at least one
/// part, and an empty part around each extra `.`.
pub open spec fn split_dots(s: Seq<char>) -> Seq<Seq<char>>
    decreases s.len(),
{
    if s.len() == 0 {
        seq![Seq::empty()]
    } else {
        let prev = split_dots(s.drop_last());
        if s.last() == '.' {
            prev.push(Seq::empty())
        } else {
            prev.update(prev.len() - 1, prev.last().push(s.last()))
        }
    }
}

pub proof fn lemma_split_dots_nonempty(s: Seq<char>)
    ensures
        split_dots(s).len() >= 1,
    decreases s.len(),
{
    if s.len() > 0 {
        lemma_split_dots_nonempty(s.drop_last());
    }
}

// ---------------------------------------------------------------------------
// Minimum supported Rust version
// ---------------------------------------------------------------------------

/// A part of a version: a canonical number that fits in `u64`.
pub open spec fn version_part_ok(p: Seq<char>) -> bool {
    canonical_number(p) && decimal_value(p) <= u64::MAX
}

/// What parsing a version text gives: at most 32 bytes, two or three parts
/// separated by `.`, each a canonical number that fits in `u64`; a missing
/// third part is `0`.
pub open spec fn msrv_parse(s: Seq<char>) -> Option<(u64, u64, u64)> {
    let parts = split_dots(s);
    if utf8_len(s) > 32 || parts.len() < 2 || parts.len() > 3 {
        None
    } else if !(forall|i: int| 0 <= i < parts.len() ==> #[trigger] version_part_ok(parts[i])) {
        None
    } else {
        Some(
            (
                decimal_value(parts[0]) as u64,
                decimal_value(parts[1]) as u64,
                if parts.len() == 3 {
                    decimal_value(parts[2]) as u64
                } else {
                    0
                },
            ),
        )
    }
}

/// The text form of a version: its three parts, separated by `.`.
pub open spec fn msrv_text(c: (u64, u64, u64)) -> Seq<char> {
    decimal(c.0 as nat) + seq!['.'] + decimal(c.1 as nat) + seq!['.'] + decimal(c.2 as nat)
}

/// A minimum supported Rust version, always with three parts.
#[derive(Clone, Debug, PartialEq, Eq, PartialOrd, Ord)]
pub struct MsrvVersion {
    major: u64,
    minor: u64,
    patch: u64,
}

impl View for MsrvVersion {
    type V = (u64, u64, u64);

    closed spec fn view(&self) -> (u64, u64, u64) {
        (self.major, self.minor, self.patch)
    }
}

/// The digits of `p` as a `u64`, when `p` is a canonical number that fits.
fn parse_part(p: &Vec<char>) -> (res: Option<u64>)
    ensures
        res == if version_part_ok(p@) {
            Some(decimal_value(p@) as u64)
        } else {
            None::<u64>
        },
{
    if p.len() == 0 || (p.len() > 1 && p[0] == '0') {
        return None;
    }
    let mut value: u64 = 0;
    let mut i: usize = 0;
    while i < p.len()
        invariant
            i <= p@.len(),
            p@.len() > 0,
            !(p@.len() > 1 && p@[0] == '0'),
            all_digits(p@.take(i as int)),
            value == decimal_value(p@.take(i as int)),
        decreases p.len() - i,
    {
        let c = p[i];
        assert(p@.take(i + 1).drop_last() =~= p@.take(i as int));
        if !is_ascii_digit(c) {
            assert(!all_digits(p@));
            return None;
        }
        let d = (c as u32 - '0' as u32) as u64;
        let next = match value.checked_mul(10) {
            Some(m) => m.checked_add(d),
            None => None,
        };
        match next {
            Some(n) => {
                value = n;
            },
            None => {
                proof {
                    assert(p@.take(p@.len() as int) =~= p@);
                    if all_digits(p@) {
                        lemma_decimal_value_prefix_monotone(p@, i + 1, p@.len() as int);
                    }
                }
                return None;
            },
        }
        i = i + 1;
    }
    assert(p@.take(p@.len() as int) =~= p@);
    Some(value)
}

/// The value of a digit prefix never exceeds that of a longer prefix.
pub proof fn lemma_decimal_value_prefix_monotone(s: Seq<char>, i: int, j: int)
    requires
        0 <= i <= j <= s.len(),
        all_digits(s.take(j)),
    ensures
        0 <= decimal_value(s.take(i)) <= decimal_value(s.take(j)),
    decreases j,
{
    if j > 0 {
        assert(s.take(j).drop_last() =~= s.take(j - 1));
        assert(all_digits(s.take(j - 1))) by {
            assert forall|k: int| 0 <= k < s.take(j - 1).len() implies #[trigger] is_ascii_digit_spec(
                s.take(j - 1)[k],
            ) by {
                assert(s.take(j - 1)[k] == s.take(j)[k]);
            }
        }
        assert(is_ascii_digit_spec(s.take(j)[j - 1]));
        if i < j {
            lemma_decimal_value_prefix_monotone(s, i, j - 1);
        } else {
            lemma_decimal_value_prefix_monotone(s, j - 1, j - 1);
        }
    } else {
        assert(s.take(0) =~= Seq::<char>::empty());
    }
}

/// The digit characters and their values.
pub proof fn lemma_digit_char(k: nat)
    requires
        k < 10,
    ensures
        digit_of(digit_char(k)) == k,
        is_ascii_digit_spec(digit_char(k)),
        digit_char(k) != '.',
        k != 0 ==> digit_char(k) != '0',
{
}

impl MsrvVersion {
    /// Parses `1.70` or `1.70.0`; a missing third part is `0`.
    pub fn parse(value: &str) -> (res: Result<Self, CatalogError>)
        ensures
            match msrv_parse(value@) {
                Some(c) => res matches Ok(v) && v@ == c,
                None => res == Err::<Self, CatalogError>(CatalogError::InvalidInput),
            },
    {
        if utf8_len_exceeds(value, 32) {
            return Err(CatalogError::InvalidInput);
        }
        let v = chars_of(value);
        let mut done: Vec<Vec<char>> = Vec::new();
        let mut current: Vec<char> = Vec::new();
        let mut i: usize = 0;
        while i < v.len()
            invariant
                v@ == value@,
                i <= v@.len(),
                done@.map_values(|p: Vec<char>| p@).push(current@) == split_dots(v@.take(i as int)),
            decreases v.len() - i,
        {
            let c = v[i];
            let ghost before = done@.map_values(|p: Vec<char>| p@).push(current@);
            assert(v@.take(i + 1).drop_last() =~= v@.take(i as int));
            if c == '.' {
                done.push(current);
                current = Vec::new();
                assert(done@.map_values(|p: Vec<char>| p@).push(current@) =~= before.push(Seq::empty()));
            } else {
                current.push(c);
                assert(done@.map_values(|p: Vec<char>| p@).push(current@) =~= before.update(
                    before.len() - 1,
                    before.last().push(c),
                ));
            }
            i = i + 1;
        }
        assert(v@.take(v@.len() as int) =~= v@);
        let ghost parts = split_dots(value@);
        assert(parts.len() == done@.len() + 1);
        if done.len() < 1 || done.len() > 2 {
            return Err(CatalogError::InvalidInput);
        }
        assert(parts[0] == done@[0]@);
        let major = match parse_part(&done[0]) {
            Some(n) => n,
            None => return Err(CatalogError::InvalidInput),
        };
        let (minor, patch) = if done.len() == 2 {
            assert(parts[1] == done@[1]@);
            assert(parts[2] == current@);
            let minor = match parse_part(&done[1]) {
                Some(n) => n,
                None => return Err(CatalogError::InvalidInput),
            };
            let patch = match parse_part(&current) {
                Some(n) => n,
                None => return Err(CatalogError::InvalidInput),
            };
            (minor, patch)
        } else {
            assert(parts[1] == current@);
            let minor = match parse_part(&current) {
                Some(n) => n,
                None => return Err(CatalogError::InvalidInput),
            };
            (minor, 0)
        };
        assert(forall|k: int| 0 <= k < parts.len() ==> #[trigger] version_part_ok(parts[k]));
        Ok(MsrvVersion { major, minor, patch })
    }

    pub fn components(&self) -> (res: (u64, u64, u64))
        ensures
            res == self@,
    {
        (self.major, self.minor, self.patch)
    }

    /// The text form, `major.minor.patch`.
    pub fn to_text(&self) -> (res: String)
        ensures
            res@ == msrv_text(self@),
    {
        let mut out: Vec<char> = Vec::new();
        push_decimal(self.major, &mut out);
        out.push('.');
        push_decimal(self.minor, &mut out);
        out.push('.');
        push_decimal(self.patch, &mut out);
        string_from_chars(out.as_slice())
    }
}

/// Appends the decimal spelling of `n`.
pub(crate) fn push_decimal(n: u64, out: &mut Vec<char>)
    ensures
        final(out)@ == old(out)@ + decimal(n as nat),
    decreases n,
{
    if n >= 10 {
        push_decimal(n / 10, out);
    }
    let c = (('0' as u8) + ((n % 10) as u8)) as char;
    out.push(c);
    proof {
        if n >= 10 {
            assert(decimal(n as nat) == decimal((n / 10) as nat).push(digit_char((n % 10) as nat)));
        }
    }
}

impl std::convert::TryFrom<String> for MsrvVersion {
    type Error = CatalogError;

    fn try_from(value: String) -> (res: Result<Self, CatalogError>)
        ensures
            match msrv_parse(value@) {
                Some(c) => res matches Ok(v) && v@ == c,
                None => res == Err::<Self, CatalogError>(CatalogError::InvalidInput),
            },
    {
        MsrvVersion::parse(value.as_str())
    }
}

/// The conversion is [`MsrvVersion::parse`]; `try_from` states its
/// result in its own `ensures`, and no single value is named here.
impl TryFromSpecImpl<String> for MsrvVersion {
    open spec fn obeys_try_from_spec() -> bool {
        false
    }

    open spec fn try_from_spec(value: String) -> Result<Self, CatalogError> {
        Err(CatalogError::InvalidInput)
    }
}

// ---------------------------------------------------------------------------
// The text form parses back
// ---------------------------------------------------------------------------

pub open spec fn has_no_dot(s: Seq<char>) -> bool {
    forall|i: int| 0 <= i < s.len() ==> s[i] != '.'
}

proof fn lemma_decimal_facts(n: nat)
    ensures
        canonical_number(decimal(n)),
        decimal_value(decimal(n)) == n,
        has_no_dot(decimal(n)),
        decimal(n).len() >= 1,
        n >= 1 ==> decimal(n)[0] != '0',
    decreases n,
{
    if n < 10 {
        lemma_digit_char(n);
        let q = decimal(n);
        assert(q.drop_last() =~= Seq::<char>::empty());
        assert(decimal_value(q) == decimal_value(q.drop_last()) * 10 + digit_of(q.last()));
    } else {
        lemma_decimal_facts(n / 10);
        lemma_digit_char(n % 10);
        let p = decimal(n / 10);
        let q = p.push(digit_char(n % 10));
        assert(q.drop_last() =~= p);
        assert(q[0] == p[0]);
        assert(forall|i: int| 0 <= i < p.len() ==> q[i] == p[i]);
        assert(all_digits(q)) by {
            assert forall|i: int| 0 <= i < q.len() implies #[trigger] is_ascii_digit_spec(q[i]) by {
                if i < p.len() {
                    assert(is_ascii_digit_spec(p[i]));
                }
            }
        }
        assert(decimal_value(q) == decimal_value(p) * 10 + digit_of(digit_char(n % 10)));
        assert((n / 10) * 10 + n % 10 == n) by (nonlinear_arith);
    }
}

/// Appending text without a dot extends the last part.
proof fn lemma_split_dots_append(s: Seq<char>, t: Seq<char>)
    requires
        has_no_dot(t),
    ensures
        split_dots(s + t) == split_dots(s).update(
            split_dots(s).len() - 1,
            split_dots(s).last() + t,
        ),
    decreases t.len(),
{
    lemma_split_dots_nonempty(s);
    if t.len() == 0 {
        assert(s + t =~= s);
        assert(split_dots(s).last() + t =~= split_dots(s).last());
        assert(split_dots(s).update(split_dots(s).len() - 1, split_dots(s).last())
            =~= split_dots(s));
    } else {
        let t0 = t.drop_last();
        assert(has_no_dot(t0));
        lemma_split_dots_append(s, t0);
        assert((s + t).drop_last() =~= s + t0);
        assert((s + t).last() == t.last());
        lemma_split_dots_nonempty(s + t0);
        let prev = split_dots(s + t0);
        assert(prev.last() =~= split_dots(s).last() + t0);
        assert(prev.last().push(t.last()) =~= split_dots(s).last() + t);
        assert(split_dots(s + t) =~= split_dots(s).update(split_dots(s).len() - 1, split_dots(s).last() + t));
    }
}

/// Appending a dot starts a new, empty part.
proof fn lemma_split_dots_dot(s: Seq<char>)
    ensures
        split_dots(s + seq!['.']) == split_dots(s).push(Seq::empty()),
{
    assert((s + seq!['.']).drop_last() =~= s);
}

/// The text form of a version parses back to the same version whenever it
/// fits in the 32 bytes a version text may take. It does not for the largest
/// components: `18446744073709551615.18446744073709551615.0` is 43 bytes.
pub proof fn law_msrv_text_round_trip(c: (u64, u64, u64))
    requires
        utf8_len(msrv_text(c)) <= 32,
    ensures
        msrv_parse(msrv_text(c)) == Some(c),
{
    let a = decimal(c.0 as nat);
    let b = decimal(c.1 as nat);
    let d = decimal(c.2 as nat);
    lemma_decimal_facts(c.0 as nat);
    lemma_decimal_facts(c.1 as nat);
    lemma_decimal_facts(c.2 as nat);
    let e: Seq<char> = Seq::empty();
    assert(e + a =~= a);
    lemma_split_dots_append(e, a);
    assert(split_dots(e) == seq![e]);
    assert(split_dots(a) =~= seq![a]) by {
        assert(split_dots(e + a) == seq![e].update(0, e + a));
    }
    lemma_split_dots_dot(a);
    let s1 = a + seq!['.'];
    assert(split_dots(s1) =~= seq![a, e]);
    lemma_split_dots_append(s1, b);
    let s2 = s1 + b;
    assert(split_dots(s2) =~= seq![a, e + b]);
    assert(e + b =~= b);
    lemma_split_dots_dot(s2);
    let s3 = s2 + seq!['.'];
    assert(split_dots(s3) =~= seq![a, b, e]);
    lemma_split_dots_append(s3, d);
    let s4 = s3 + d;
    assert(e + d =~= d);
    assert(split_dots(s4) =~= seq![a, b, d]);
    assert(s4 =~= msrv_text(c));
    let parts = split_dots(msrv_text(c));
    assert(parts =~= seq![a, b, d]);
    assert(forall|i: int| 0 <= i < parts.len() ==> #[trigger] version_part_ok(parts[i])) by {
        assert(version_part_ok(parts[0]));
        assert(version_part_ok(parts[1]));
        assert(version_part_ok(parts[2]));
    }
}

// ---------------------------------------------------------------------------
// Requests and results
// ---------------------------------------------------------------------------

#[derive(Clone, Debug, Default, PartialEq, Eq)]
pub struct CrateSearchFilters {
    pub msrv_lte: Option<MsrvVersion>,
    pub allow_yanked: bool,
    pub include_prerelease: bool,
}

#[derive(Clone, Debug)]
pub struct CrateSearchRequest {
    pub query: CatalogQuery,
    pub mode: CrateSearchMode,
    pub filters: CrateSearchFilters,
}

#[derive(Clone, Debug, PartialEq, Eq)]
pub struct SearchVersionFacts {
    pub version: String,
    pub yanked: bool,
    pub rust_version: Option<String>,
    pub license: Option<String>,
    pub published_at: Option<u64>,
    pub known_advisory_ids: Vec<String>,
}

#[derive(Clone, Debug, PartialEq, Eq)]
pub struct SearchCrateFacts {
    pub name: String,
    pub description: String,
    pub repository: Option<String>,
    pub latest_known_stable: Option<KnownVersion>,
    pub selected_version: SearchVersionFacts,
    pub version_count: u32,
}

#[derive(Clone, Debug, PartialEq, Eq)]
pub enum CrateSelection {
    Missing,
    FilteredOut,
    Eligible(Box<SearchCrateFacts>),
}

#[derive(Clone, Copy, Debug, PartialEq, Eq, Structural)]
pub enum SearchComponent {
    Model,
    SemanticIndex,
}

#[derive(Clone, Debug, PartialEq, Eq)]
pub enum SearchFallback {
    Unavailable { component: SearchComponent, reason: CatalogComponentUnavailable },
    Failed { reason: SemanticError },
}

#[derive(Clone, Debug, PartialEq, Eq)]
pub struct SearchWindow {
    pub candidate_limit_per_channel: u32,
    pub lexical_candidates: u32,
    pub semantic_candidates: u32,
    pub examined: u32,
    pub filtered_out: u32,
    pub eligible: u32,
    pub returned: u32,
    pub limit_truncated: u32,
    pub omitted_by_output: u32,
}

} // verus!
