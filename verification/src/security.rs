//! Security policy and findings: the policy document, its validation before any
//! execution, suppression matching and the resulting policy state. Version requirements
//! and versions are parsed and matched by the `semver` crate.
use vstd::prelude::*;
use vstd::std_specs::convert::TryFromSpecImpl;
use crate::check::InvalidCheckOptions;
use crate::text::{
    all_whitespace, chars_of, has_control, has_control_char, is_ascii_alphanumeric,
    is_ascii_alphanumeric_spec, is_ascii_digit, is_ascii_digit_spec, is_blank, str_eq, utf8_len,
    utf8_len_exceeds,
};
use crate::value::{SourceBundle, SourceFile, SourceFingerprint};

verus! {

pub const SECURITY_MAX_FINDINGS: usize = 128;

pub const SECURITY_MAX_POLICY_BYTES: usize = 64 * 1024;

pub const DENY_DEFAULT_TIMEOUT_SECONDS: u64 = 120;

pub const DENY_MAX_TIMEOUT_SECONDS: u64 = 120;

// ---------------------------------------------------------------------------
// Paths of a captured source
// ---------------------------------------------------------------------------

/// `p` is `suffix`, or ends with `/` followed by `suffix`: when `suffix` holds
/// no `/` beyond its own, its segments are the last segments of `p`.
pub open spec fn ends_with_path(p: Seq<char>, suffix: Seq<char>) -> bool {
    &&& p.len() >= suffix.len()
    &&& p.skip(p.len() - suffix.len()) == suffix
    &&& (p.len() == suffix.len() || p[p.len() - suffix.len() - 1] == '/')
}

/// The last segment of the path is `deny.exceptions.toml` or `.deny.exceptions.toml`.
pub open spec fn names_deny_exceptions(p: Seq<char>) -> bool {
    ends_with_path(p, "deny.exceptions.toml"@) || ends_with_path(p, ".deny.exceptions.toml"@)
}

/// The last segment is `config.toml` or `config` and the one before it is `.cargo`.
pub open spec fn names_cargo_configuration(p: Seq<char>) -> bool {
    ends_with_path(p, ".cargo/config.toml"@) || ends_with_path(p, ".cargo/config"@)
}

/// Whether `p` ends with the path segments of `suffix`.
pub fn has_path_suffix(p: &str, suffix: &str) -> (res: bool)
    ensures
        res == ends_with_path(p@, suffix@),
{
    let v = chars_of(p);
    let w = chars_of(suffix);
    if v.len() < w.len() {
        return false;
    }
    let start = v.len() - w.len();
    let mut i: usize = 0;
    while i < w.len()
        invariant
            v@ == p@,
            w@ == suffix@,
            v@.len() >= w@.len(),
            v@.len() <= usize::MAX,
            start == v@.len() - w@.len(),
            i <= w@.len(),
            forall|k: int| 0 <= k < i ==> v@[start + k] == w@[k],
        decreases w.len() - i,
    {
        if v[start + i] != w[i] {
            assert(p@.skip(start as int)[i as int] != suffix@[i as int]);
            return false;
        }
        i = i + 1;
    }
    assert(p@.skip(start as int) =~= suffix@);
    start == 0 || v[start - 1] == '/'
}

/// A project ships a `cargo-deny` exceptions file, which the pinned plugin
/// would load even with an explicit configuration path.
pub fn security_source_has_exceptions(source: &SourceBundle) -> (res: bool)
    ensures
        res == ((exists|i: int|
            0 <= i < source.files_spec().len() && names_deny_exceptions(
                #[trigger] source.files_spec()[i].path_spec(),
            )) || (exists|i: int|
            0 <= i < source.directories_spec().len() && names_deny_exceptions(
                (#[trigger] source.directories_spec()[i])@,
            ))),
{
    let files = source.files();
    let mut i: usize = 0;
    while i < files.len()
        invariant
            files@ == source.files_spec(),
            i <= files@.len(),
            forall|k: int| 0 <= k < i ==> !names_deny_exceptions(#[trigger] files@[k].path_spec()),
        decreases files.len() - i,
    {
        let path = files[i].path();
        if has_path_suffix(path, "deny.exceptions.toml") || has_path_suffix(path, ".deny.exceptions.toml") {
            assert(names_deny_exceptions(files@[i as int].path_spec()));
            return true;
        }
        i = i + 1;
    }
    let directories = source.directories();
    let mut j: usize = 0;
    while j < directories.len()
        invariant
            files@ == source.files_spec(),
            directories@ == source.directories_spec(),
            j <= directories@.len(),
            forall|k: int| 0 <= k < files@.len() ==> !names_deny_exceptions(#[trigger] files@[k].path_spec()),
            forall|k: int| 0 <= k < j ==> !names_deny_exceptions((#[trigger] directories@[k])@),
        decreases directories.len() - j,
    {
        let path = directories[j].as_str();
        if has_path_suffix(path, "deny.exceptions.toml") || has_path_suffix(path, ".deny.exceptions.toml") {
            assert(names_deny_exceptions(directories@[j as int]@));
            return true;
        }
        j = j + 1;
    }
    false
}

/// A project-supplied Cargo configuration file anywhere in the captured source.
/// Name-based and conservative: it refuses any source that ships one.
pub fn source_has_cargo_configuration(source: &SourceBundle) -> (res: bool)
    ensures
        res == exists|i: int|
            0 <= i < source.files_spec().len() && names_cargo_configuration(
                #[trigger] source.files_spec()[i].path_spec(),
            ),
{
    let files = source.files();
    let mut i: usize = 0;
    while i < files.len()
        invariant
            files@ == source.files_spec(),
            i <= files@.len(),
            forall|k: int| 0 <= k < i ==> !names_cargo_configuration(#[trigger] files@[k].path_spec()),
        decreases files.len() - i,
    {
        let path = files[i].path();
        if has_path_suffix(path, ".cargo/config.toml") || has_path_suffix(path, ".cargo/config") {
            assert(names_cargo_configuration(files@[i as int].path_spec()));
            return true;
        }
        i = i + 1;
    }
    false
}

// ---------------------------------------------------------------------------
// cargo-deny options
// ---------------------------------------------------------------------------

#[derive(Clone, Debug, PartialEq, Eq)]
pub struct DenyOptions {
    timeout_seconds: u64,
}

/// A caller's request, before validation.
#[derive(Clone, Debug)]
pub struct DenySelection {
    pub timeout_seconds: u64,
}

impl Default for DenySelection {
    fn default() -> (res: Self)
        ensures
            res.timeout_seconds == DENY_DEFAULT_TIMEOUT_SECONDS,
    {
        DenySelection { timeout_seconds: DENY_DEFAULT_TIMEOUT_SECONDS }
    }
}

impl DenyOptions {
    pub closed spec fn timeout_spec(&self) -> u64 {
        self.timeout_seconds
    }

    /// Accepts a timeout of one second up to the ceiling.
    pub fn from_selection(selection: DenySelection) -> (res: Result<Self, InvalidCheckOptions>)
        ensures
            res is Ok <==> 1 <= selection.timeout_seconds <= DENY_MAX_TIMEOUT_SECONDS,
            res matches Ok(o) ==> o.timeout_spec() == selection.timeout_seconds,
    {
        if selection.timeout_seconds < 1 || selection.timeout_seconds > DENY_MAX_TIMEOUT_SECONDS {
            return Err(InvalidCheckOptions);
        }
        Ok(DenyOptions { timeout_seconds: selection.timeout_seconds })
    }

    pub fn timeout_seconds(&self) -> (res: u64)
        ensures
            res == self.timeout_spec(),
    {
        self.timeout_seconds
    }
}

impl std::convert::TryFrom<DenySelection> for DenyOptions {
    type Error = InvalidCheckOptions;

    fn try_from(selection: DenySelection) -> (res: Result<Self, InvalidCheckOptions>)
        ensures
            res is Ok <==> 1 <= selection.timeout_seconds <= DENY_MAX_TIMEOUT_SECONDS,
            res matches Ok(o) ==> o.timeout_spec() == selection.timeout_seconds,
    {
        DenyOptions::from_selection(selection)
    }
}

/// The conversion is [`DenyOptions::from_selection`]; `try_from` states its
/// result in its own `ensures`, and no single value is named here.
impl TryFromSpecImpl<DenySelection> for DenyOptions {
    open spec fn obeys_try_from_spec() -> bool {
        false
    }

    open spec fn try_from_spec(selection: DenySelection) -> Result<Self, InvalidCheckOptions> {
        Err(InvalidCheckOptions)
    }
}

// ---------------------------------------------------------------------------
// Policy document
// ---------------------------------------------------------------------------

#[derive(Clone, Copy, Debug, PartialEq, Eq, PartialOrd, Ord, Hash, Structural)]
pub enum SecurityEngine {
    Rustsec,
    Licenses,
    Bans,
    Sources,
}

#[derive(Clone, Copy, Debug, PartialEq, Eq, PartialOrd, Ord, Hash, Structural)]
pub enum SecuritySource {
    Workspace,
    CratesIo,
    Unverified,
}

#[derive(Clone, Debug, PartialEq, Eq)]
pub struct SecurityPackage {
    pub name: String,
    pub version: String,
    pub source: SecuritySource,
    pub source_fingerprint: Option<SourceFingerprint>,
}

#[derive(Clone, Copy, Debug, PartialEq, Eq, Structural)]
pub enum SecurityLint {
    Warn,
    Deny,
}

#[derive(Clone, Debug, PartialEq, Eq)]
pub struct SecurityBan {
    pub name: String,
    pub version_requirement: String,
}

/// The rule set; its field order is part of the canonical serialization.
#[derive(Clone, Debug, PartialEq, Eq)]
pub struct SecurityRules {
    pub allowed_licenses: Vec<String>,
    pub banned_packages: Vec<SecurityBan>,
    pub multiple_versions: SecurityLint,
    pub wildcards: SecurityLint,
}

#[derive(Clone, Debug, PartialEq, Eq)]
pub struct SecuritySuppression {
    pub id: String,
    pub engine: SecurityEngine,
    pub rule: String,
    pub package: String,
    pub package_source: SecuritySource,
    pub version_requirement: String,
    pub reason: String,
    pub owner: String,
    /// UTC Unix seconds. Equality with the observation time means expired.
    pub expires_at: u64,
    pub rules_digest: SourceFingerprint,
}

impl SecuritySuppression {
    /// A copy equal to this suppression.
    pub fn duplicate(&self) -> (res: Self)
        ensures
            res == *self,
    {
        SecuritySuppression {
            id: self.id.clone(),
            engine: self.engine,
            rule: self.rule.clone(),
            package: self.package.clone(),
            package_source: self.package_source,
            version_requirement: self.version_requirement.clone(),
            reason: self.reason.clone(),
            owner: self.owner.clone(),
            expires_at: self.expires_at,
            rules_digest: self.rules_digest.duplicate(),
        }
    }
}

#[derive(Clone, Debug, PartialEq, Eq)]
pub struct SecurityPolicyDocument {
    pub schema_version: u32,
    pub rules: SecurityRules,
    pub suppressions: Vec<SecuritySuppression>,
}

/// The one refusal: the policy is malformed or expired.
#[derive(Clone, Copy, Debug, PartialEq, Eq, Structural)]
pub struct InvalidSecurityPolicy;

impl InvalidSecurityPolicy {
    /// The message a caller shows for the refusal.
    pub fn message(&self) -> (res: &'static str)
        ensures
            res@ == "invalid or expired security policy"@,
    {
        "invalid or expired security policy"
    }
}

// ---------------------------------------------------------------------------
// Version requirements, through `semver`
// ---------------------------------------------------------------------------

#[verifier::external_type_specification]
#[verifier::external_body]
pub struct ExVersionReq(semver::VersionReq);

#[verifier::external_type_specification]
#[verifier::external_body]
pub struct ExVersion(semver::Version);

#[verifier::external_type_specification]
#[verifier::external_body]
pub struct ExSemverError(semver::Error);

/// The operator of one comparator of a requirement.
#[derive(Clone, Copy, Debug, PartialEq, Eq, Structural)]
pub enum ComparatorOp {
    Exact,
    Greater,
    GreaterEq,
    Less,
    LessEq,
    Tilde,
    Caret,
    Wildcard,
    /// An operator added to `semver` after this library was written.
    Other,
}

/// One comparator of a requirement, as plain values.
#[derive(Clone, Debug, PartialEq, Eq)]
pub struct RequirementComparator {
    pub op: ComparatorOp,
    pub major: u64,
    pub minor: Option<u64>,
    pub patch: Option<u64>,
    /// The pre-release identifier, empty when there is none.
    pub pre: String,
}

/// A comparator as plain values: its operator, major, minor and patch
/// components, and the characters of its pre-release identifier.
pub type ComparatorView = (ComparatorOp, u64, Option<u64>, Option<u64>, Seq<char>);

impl View for RequirementComparator {
    type V = ComparatorView;

    open spec fn view(&self) -> ComparatorView {
        (self.op, self.major, self.minor, self.patch, self.pre@)
    }
}

/// The views of a list of comparators, in order.
pub open spec fn comparator_views(cs: Seq<RequirementComparator>) -> Seq<ComparatorView> {
    cs.map_values(|c: RequirementComparator| c@)
}

/// A requirement `semver` accepted, held with the text it was parsed from.
/// Only [`parse_version_req`] builds one.
#[derive(Debug)]
pub struct ParsedRequirement {
    text: String,
    req: semver::VersionReq,
}

impl View for ParsedRequirement {
    type V = Seq<char>;

    closed spec fn view(&self) -> Seq<char> {
        self.text@
    }
}

/// A version `semver` accepted, held with the text it was parsed from.
/// Only [`parse_version`] builds one.
#[derive(Debug)]
pub struct ParsedVersion {
    text: String,
    version: semver::Version,
}

impl View for ParsedVersion {
    type V = Seq<char>;

    closed spec fn view(&self) -> Seq<char> {
        self.text@
    }
}

/// What `semver::VersionReq::parse` gives for a text: `None` where it refuses
/// the text, else the comparators of the requirement, in order.
pub uninterp spec fn version_req_parse(text: Seq<char>) -> Option<Seq<ComparatorView>>;

/// Whether `semver::Version::parse` accepts a text.
pub uninterp spec fn version_parses(text: Seq<char>) -> bool;

/// What `semver::VersionReq::matches` answers for the requirement and the
/// version parsed from these texts.
pub uninterp spec fn version_req_matches(requirement: Seq<char>, version: Seq<char>) -> bool;

/// Calls `semver::VersionReq::parse`. The contract claims only that it
/// succeeds exactly where the named parse gives a requirement, and that the
/// value keeps the text it came from.
#[verifier::external_body]
fn parse_version_req(text: &str) -> (res: Result<ParsedRequirement, semver::Error>)
    ensures
        res is Ok <==> version_req_parse(text@) is Some,
        res matches Ok(r) ==> r@ == text@,
{
    match semver::VersionReq::parse(text) {
        Ok(req) => Ok(ParsedRequirement { text: text.to_owned(), req }),
        Err(e) => Err(e),
    }
}

/// Reads the comparators of a parsed requirement, calling
/// `semver::Prerelease::as_str` for each pre-release. The contract claims they
/// are the comparators the named parse gives for the requirement's text, which
/// holds because a `ParsedRequirement` is only built from a parse of that text.
#[verifier::external_body]
fn requirement_comparators(r: &ParsedRequirement) -> (res: Vec<RequirementComparator>)
    ensures
        version_req_parse(r@) == Some(comparator_views(res@)),
{
    let mut out = Vec::new();
    for c in &r.req.comparators {
        let op = match c.op {
            semver::Op::Exact => ComparatorOp::Exact, semver::Op::Greater => ComparatorOp::Greater,
            semver::Op::GreaterEq => ComparatorOp::GreaterEq, semver::Op::Less => ComparatorOp::Less,
            semver::Op::LessEq => ComparatorOp::LessEq, semver::Op::Tilde => ComparatorOp::Tilde,
            semver::Op::Caret => ComparatorOp::Caret, semver::Op::Wildcard => ComparatorOp::Wildcard,
            _ => ComparatorOp::Other,
        };
        out.push(RequirementComparator { op, major: c.major, minor: c.minor, patch: c.patch, pre: c.pre.as_str().to_owned() });
    }
    out
}

/// Calls `semver::Version::parse`. The contract claims it succeeds exactly
/// where the named predicate holds, and that the value keeps its text.
#[verifier::external_body]
fn parse_version(text: &str) -> (res: Result<ParsedVersion, semver::Error>)
    ensures
        res is Ok <==> version_parses(text@),
        res matches Ok(v) ==> v@ == text@,
{
    match semver::Version::parse(text) {
        Ok(version) => Ok(ParsedVersion { text: text.to_owned(), version }),
        Err(e) => Err(e),
    }
}

/// Calls `semver::VersionReq::matches`. The contract names its answer as a
/// function of the two texts the values were parsed from.
#[verifier::external_body]
fn requirement_matches(r: &ParsedRequirement, v: &ParsedVersion) -> (res: bool)
    ensures
        res == version_req_matches(r@, v@),
{
    r.req.matches(&v.version)
}

// ---------------------------------------------------------------------------
// What a valid policy is
// ---------------------------------------------------------------------------

/// A policy identifier: non-empty, at most `max` bytes, an ASCII letter or
/// digit first, then ASCII letters, digits, `-`, `_` and `.`. Every character
/// is ASCII, so characters and bytes coincide.
pub open spec fn policy_identifier(s: Seq<char>, max: nat) -> bool {
    &&& 0 < s.len() <= max
    &&& is_ascii_alphanumeric_spec(s[0])
    &&& forall|i: int| 0 <= i < s.len() ==> #[trigger] policy_ident_char(s[i])
}

pub open spec fn policy_ident_char(c: char) -> bool {
    is_ascii_alphanumeric_spec(c) || c == '-' || c == '_' || c == '.'
}

/// Free text: not blank, at most `max` bytes, no control character.
pub open spec fn prose(s: Seq<char>, max: nat) -> bool {
    !all_whitespace(s) && utf8_len(s) <= max && !has_control_char(s)
}

/// An SPDX license identifier accepted by the policy.
pub open spec fn license_ok(l: Seq<char>) -> bool {
    policy_identifier(l, 128) && !(l.len() >= 11 && l.take(11) == "LicenseRef-"@)
}

/// `RUSTSEC-` followed by four digits, `-` and four digits.
pub open spec fn rustsec_id(s: Seq<char>) -> bool {
    &&& s.len() == 17
    &&& s.take(8) == "RUSTSEC-"@
    &&& s[12] == '-'
    &&& forall|i: int| (8 <= i < 12 || 13 <= i < 17) ==> #[trigger] is_ascii_digit_spec(s[i])
}

/// An ASCII control byte: what `u8::is_ascii_control` tests.
pub open spec fn ascii_control(c: char) -> bool {
    (c as u32) < 0x20 || (c as u32) == 0x7f
}

/// The comparators require nothing: none at all, or each `>=0.0.0` without a
/// pre-release.
pub open spec fn universal(cs: Seq<ComparatorView>) -> bool {
    cs.len() == 0 || forall|i: int| 0 <= i < cs.len() ==> #[trigger] zero_floor(cs[i])
}

/// The comparator `>=0.0.0`, with absent components counting as zero.
pub open spec fn zero_floor(c: ComparatorView) -> bool {
    &&& c.0 == ComparatorOp::GreaterEq
    &&& c.1 == 0
    &&& (c.2 matches Some(m) ==> m == 0)
    &&& (c.3 matches Some(p) ==> p == 0)
    &&& c.4.len() == 0
}

/// A requirement text the policy accepts: non-empty, at most 128 bytes, no
/// ASCII control byte, accepted by `semver`, and, unless universal ones are
/// allowed, requiring something.
pub open spec fn requirement_ok(s: Seq<char>, allow_universal: bool) -> bool {
    &&& s.len() > 0
    &&& utf8_len(s) <= 128
    &&& forall|i: int| 0 <= i < s.len() ==> !ascii_control(#[trigger] s[i])
    &&& match version_req_parse(s) {
        Some(cs) => allow_universal || !universal(cs),
        None => false,
    }
}

pub open spec fn ban_ok(b: SecurityBan) -> bool {
    policy_identifier(b.name@, 64) && requirement_ok(b.version_requirement@, true)
}

/// The checks one suppression must pass on its own.
pub open spec fn suppression_ok(s: SecuritySuppression, rules_digest: Seq<char>, now: u64) -> bool {
    &&& policy_identifier(s.id@, 64)
    &&& policy_identifier(s.rule@, 96)
    &&& policy_identifier(s.package@, 64)
    &&& s.package_source != SecuritySource::Unverified
    &&& prose(s.reason@, 512)
    &&& prose(s.owner@, 128)
    &&& s.expires_at > now
    &&& s.rules_digest@ == rules_digest
    &&& (s.engine == SecurityEngine::Rustsec ==> rustsec_id(s.rule@))
    &&& requirement_ok(s.version_requirement@, false)
}

/// Two suppressions aim at the same finding.
pub open spec fn same_target(a: SecuritySuppression, b: SecuritySuppression) -> bool {
    &&& a.engine == b.engine
    &&& a.rule@ == b.rule@
    &&& a.package@ == b.package@
    &&& a.package_source == b.package_source
    &&& a.version_requirement@ == b.version_requirement@
}

pub open spec fn licenses_distinct(ls: Seq<String>) -> bool {
    forall|i: int, j: int| 0 <= i < j < ls.len() ==> (#[trigger] ls[i])@ != (#[trigger] ls[j])@
}

pub open spec fn bans_distinct(bs: Seq<SecurityBan>) -> bool {
    forall|i: int, j: int|
        0 <= i < j < bs.len() ==> !((#[trigger] bs[i]).name@ == (#[trigger] bs[j]).name@
            && bs[i].version_requirement@ == bs[j].version_requirement@)
}

/// No two suppressions share an id or a target.
pub open spec fn suppressions_distinct(ss: Seq<SecuritySuppression>) -> bool {
    forall|i: int, j: int|
        0 <= i < j < ss.len() ==> (#[trigger] ss[i]).id@ != (#[trigger] ss[j]).id@ && !same_target(
            ss[i],
            ss[j],
        )
}

/// Everything [`SecurityPolicy::new`] demands of a document.
pub open spec fn policy_valid(d: SecurityPolicyDocument, rules_digest: Seq<char>, now: u64) -> bool {
    let ls = d.rules.allowed_licenses@;
    let bs = d.rules.banned_packages@;
    let ss = d.suppressions@;
    &&& d.schema_version == 1
    &&& ls.len() <= 128
    &&& bs.len() <= 128
    &&& ss.len() <= 128
    &&& forall|i: int| 0 <= i < ls.len() ==> license_ok((#[trigger] ls[i])@)
    &&& licenses_distinct(ls)
    &&& forall|i: int| 0 <= i < bs.len() ==> ban_ok(#[trigger] bs[i])
    &&& bans_distinct(bs)
    &&& forall|i: int| 0 <= i < ss.len() ==> suppression_ok(#[trigger] ss[i], rules_digest, now)
    &&& suppressions_distinct(ss)
}

fn is_policy_ident_char(c: char) -> (res: bool)
    ensures
        res == policy_ident_char(c),
{
    is_ascii_alphanumeric(c) || c == '-' || c == '_' || c == '.'
}

fn identifier(value: &str, max: usize) -> (res: bool)
    ensures
        res == policy_identifier(value@, max as nat),
{
    let v = chars_of(value);
    if v.len() == 0 || v.len() > max || !is_ascii_alphanumeric(v[0]) {
        return false;
    }
    let mut i: usize = 0;
    while i < v.len()
        invariant
            v@ == value@,
            i <= v@.len(),
            forall|k: int| 0 <= k < i ==> #[trigger] policy_ident_char(v@[k]),
        decreases v.len() - i,
    {
        if !is_policy_ident_char(v[i]) {
            return false;
        }
        i = i + 1;
    }
    true
}

fn prose_ok(value: &str, max: usize) -> (res: bool)
    ensures
        res == prose(value@, max as nat),
{
    !is_blank(value) && !utf8_len_exceeds(value, max) && !has_control(value)
}

/// Whether the characters of `v` begin with `prefix`.
fn starts_with(v: &Vec<char>, prefix: &str) -> (res: bool)
    ensures
        res == (prefix@.len() <= v@.len() && v@.take(prefix@.len() as int) == prefix@),
{
    let p = chars_of(prefix);
    if p.len() > v.len() {
        return false;
    }
    let mut i: usize = 0;
    while i < p.len()
        invariant
            p@ == prefix@,
            p@.len() <= v@.len(),
            i <= p@.len(),
            forall|k: int| 0 <= k < i ==> v@[k] == p@[k],
        decreases p.len() - i,
    {
        if v[i] != p[i] {
            assert(v@.take(p@.len() as int)[i as int] != prefix@[i as int]);
            return false;
        }
        i = i + 1;
    }
    assert(v@.take(p@.len() as int) =~= prefix@);
    true
}

fn license_valid(license: &str) -> (res: bool)
    ensures
        res == license_ok(license@),
{
    if !identifier(license, 128) {
        return false;
    }
    let v = chars_of(license);
    proof {
        reveal_strlit("LicenseRef-");
    }
    !starts_with(&v, "LicenseRef-")
}

fn rustsec_valid(rule: &str) -> (res: bool)
    ensures
        res == rustsec_id(rule@),
{
    let v = chars_of(rule);
    proof {
        reveal_strlit("RUSTSEC-");
    }
    if v.len() != 17 || !starts_with(&v, "RUSTSEC-") || v[12] != '-' {
        return false;
    }
    let mut i: usize = 8;
    while i < 17
        invariant
            v@ == rule@,
            v@.len() == 17,
            8 <= i <= 17,
            forall|k: int| (8 <= k < 12 || 13 <= k < 17) && k < i ==> #[trigger] is_ascii_digit_spec(v@[k]),
        decreases 17 - i,
    {
        if i != 12 && !is_ascii_digit(v[i]) {
            return false;
        }
        i = i + 1;
    }
    true
}

/// Whether the comparators of a parsed requirement require nothing at all.
pub fn is_universal(cs: &Vec<RequirementComparator>) -> (res: bool)
    ensures
        res == universal(comparator_views(cs@)),
{
    if cs.len() == 0 {
        return true;
    }
    let mut i: usize = 0;
    while i < cs.len()
        invariant
            i <= cs@.len(),
            cs@.len() > 0,
            forall|k: int| 0 <= k < i ==> #[trigger] zero_floor(comparator_views(cs@)[k]),
        decreases cs.len() - i,
    {
        let c = &cs[i];
        let minor_zero = match c.minor {
            Some(m) => m == 0,
            None => true,
        };
        let patch_zero = match c.patch {
            Some(p) => p == 0,
            None => true,
        };
        if !(c.op == ComparatorOp::GreaterEq && c.major == 0 && minor_zero && patch_zero
            && c.pre.as_str().is_empty()) {
            assert(!zero_floor(comparator_views(cs@)[i as int]));
            return false;
        }
        i = i + 1;
    }
    true
}

/// Validates and parses one requirement text.
fn requirement(value: &str, allow_universal: bool) -> (res: Result<ParsedRequirement, InvalidSecurityPolicy>)
    ensures
        res is Ok <==> requirement_ok(value@, allow_universal),
        res matches Ok(r) ==> r@ == value@,
{
    let v = chars_of(value);
    if v.len() == 0 || utf8_len_exceeds(value, 128) {
        return Err(InvalidSecurityPolicy);
    }
    let mut i: usize = 0;
    while i < v.len()
        invariant
            v@ == value@,
            i <= v@.len(),
            forall|k: int| 0 <= k < i ==> !ascii_control(#[trigger] v@[k]),
        decreases v.len() - i,
    {
        let code = v[i] as u32;
        if code < 0x20 || code == 0x7f {
            assert(ascii_control(v@[i as int]));
            return Err(InvalidSecurityPolicy);
        }
        i = i + 1;
    }
    let parsed = match parse_version_req(value) {
        Ok(parsed) => parsed,
        Err(_) => return Err(InvalidSecurityPolicy),
    };
    if !allow_universal {
        let comparators = requirement_comparators(&parsed);
        if is_universal(&comparators) {
            return Err(InvalidSecurityPolicy);
        }
    }
    Ok(parsed)
}

fn licenses_valid(ls: &Vec<String>) -> (res: bool)
    ensures
        res == ((forall|i: int| 0 <= i < ls@.len() ==> license_ok((#[trigger] ls@[i])@))
            && licenses_distinct(ls@)),
{
    let mut i: usize = 0;
    while i < ls.len()
        invariant
            i <= ls@.len(),
            forall|k: int| 0 <= k < i ==> license_ok((#[trigger] ls@[k])@),
            forall|a: int, b: int| 0 <= a < b < i ==> (#[trigger] ls@[a])@ != (#[trigger] ls@[b])@,
        decreases ls.len() - i,
    {
        if !license_valid(ls[i].as_str()) {
            return false;
        }
        let mut j: usize = 0;
        while j < i
            invariant
                i < ls@.len(),
                j <= i,
                forall|a: int| 0 <= a < j ==> (#[trigger] ls@[a])@ != ls@[i as int]@,
            decreases i - j,
        {
            if ls[j] == ls[i] {
                return false;
            }
            j = j + 1;
        }
        i = i + 1;
    }
    true
}

fn bans_valid(bs: &Vec<SecurityBan>) -> (res: bool)
    ensures
        res == ((forall|i: int| 0 <= i < bs@.len() ==> ban_ok(#[trigger] bs@[i])) && bans_distinct(bs@)),
{
    let mut i: usize = 0;
    while i < bs.len()
        invariant
            i <= bs@.len(),
            forall|k: int| 0 <= k < i ==> ban_ok(#[trigger] bs@[k]),
            forall|a: int, b: int|
                0 <= a < b < i ==> !((#[trigger] bs@[a]).name@ == (#[trigger] bs@[b]).name@
                    && bs@[a].version_requirement@ == bs@[b].version_requirement@),
        decreases bs.len() - i,
    {
        let ban = &bs[i];
        if !identifier(ban.name.as_str(), 64) {
            return false;
        }
        let mut j: usize = 0;
        while j < i
            invariant
                i < bs@.len(),
                j <= i,
                forall|a: int|
                    0 <= a < j ==> !((#[trigger] bs@[a]).name@ == bs@[i as int].name@
                        && bs@[a].version_requirement@ == bs@[i as int].version_requirement@),
            decreases i - j,
        {
            if bs[j].name == bs[i].name && bs[j].version_requirement == bs[i].version_requirement {
                return false;
            }
            j = j + 1;
        }
        if requirement(ban.version_requirement.as_str(), true).is_err() {
            return false;
        }
        i = i + 1;
    }
    true
}

/// Checks one suppression on its own and parses its requirement.
fn suppression_valid(s: &SecuritySuppression, rules_digest: &SourceFingerprint, now: u64) -> (res: Result<ParsedRequirement, InvalidSecurityPolicy>)
    ensures
        res is Ok <==> suppression_ok(*s, rules_digest@, now),
        res matches Ok(r) ==> r@ == s.version_requirement@,
{
    if !identifier(s.id.as_str(), 64) || !identifier(s.rule.as_str(), 96) || !identifier(
        s.package.as_str(),
        64,
    ) || s.package_source == SecuritySource::Unverified || !prose_ok(s.reason.as_str(), 512)
        || !prose_ok(s.owner.as_str(), 128) || s.expires_at <= now || !s.rules_digest.same_as(
        rules_digest,
    ) {
        return Err(InvalidSecurityPolicy);
    }
    if s.engine == SecurityEngine::Rustsec && !rustsec_valid(s.rule.as_str()) {
        return Err(InvalidSecurityPolicy);
    }
    requirement(s.version_requirement.as_str(), false)
}

fn same_target_exec(a: &SecuritySuppression, b: &SecuritySuppression) -> (res: bool)
    ensures
        res == same_target(*a, *b),
{
    a.engine == b.engine && a.rule == b.rule && a.package == b.package && a.package_source
        == b.package_source && a.version_requirement == b.version_requirement
}

fn suppressions_unique(ss: &Vec<SecuritySuppression>) -> (res: bool)
    ensures
        res == suppressions_distinct(ss@),
{
    let mut i: usize = 0;
    while i < ss.len()
        invariant
            i <= ss@.len(),
            forall|a: int, b: int|
                0 <= a < b < i ==> (#[trigger] ss@[a]).id@ != (#[trigger] ss@[b]).id@ && !same_target(
                    ss@[a],
                    ss@[b],
                ),
        decreases ss.len() - i,
    {
        let mut j: usize = 0;
        while j < i
            invariant
                i < ss@.len(),
                j <= i,
                forall|a: int|
                    0 <= a < j ==> (#[trigger] ss@[a]).id@ != ss@[i as int].id@ && !same_target(
                        ss@[a],
                        ss@[i as int],
                    ),
            decreases i - j,
        {
            if ss[j].id == ss[i].id || same_target_exec(&ss[j], &ss[i]) {
                return false;
            }
            j = j + 1;
        }
        i = i + 1;
    }
    true
}

// ---------------------------------------------------------------------------
// The validated policy
// ---------------------------------------------------------------------------

/// A policy document that passed validation, with each suppression's
/// requirement parsed once.
#[derive(Debug)]
pub struct SecurityPolicy {
    document: SecurityPolicyDocument,
    fingerprint: SourceFingerprint,
    rules_digest: SourceFingerprint,
    requirements: Vec<ParsedRequirement>,
}

/// Every suppression of `d` is unexpired at `now`.
pub open spec fn unexpired(d: SecurityPolicyDocument, now: u64) -> bool {
    forall|i: int| 0 <= i < d.suppressions@.len() ==> (#[trigger] d.suppressions@[i]).expires_at > now
}

/// Suppression `i` of `d` is for this engine, rule and package identity, and
/// its requirement matches the package version.
pub open spec fn matches_at(
    d: SecurityPolicyDocument,
    i: int,
    engine: SecurityEngine,
    rule: Seq<char>,
    package: SecurityPackage,
) -> bool {
    let s = d.suppressions@[i];
    &&& s.engine == engine
    &&& s.rule@ == rule
    &&& s.package@ == package.name@
    &&& s.package_source == package.source
    &&& version_req_matches(s.version_requirement@, package.version@)
}

/// `i` is the first suppression of `d` that matches.
pub open spec fn first_match(
    d: SecurityPolicyDocument,
    i: int,
    engine: SecurityEngine,
    rule: Seq<char>,
    package: SecurityPackage,
) -> bool {
    &&& 0 <= i < d.suppressions@.len()
    &&& matches_at(d, i, engine, rule, package)
    &&& forall|j: int| 0 <= j < i ==> !#[trigger] matches_at(d, j, engine, rule, package)
}

/// The suppression a finding gets under `d` at `now`: none once any
/// suppression has expired or when the version does not parse, else the first
/// that matches.
/// Suppression `s` is for this engine, rule and package identity.
pub open spec fn identity_covers(
    s: SecuritySuppression,
    engine: SecurityEngine,
    rule: Seq<char>,
    package: SecurityPackage,
) -> bool {
    &&& s.engine == engine
    &&& s.rule@ == rule
    &&& s.package@ == package.name@
    &&& s.package_source == package.source
}

/// Suppression `i` covers the identity and its requirement matched the
/// version (`matched[i]`, what the requirement answered for that version).
pub open spec fn covers_at(
    ss: Seq<SecuritySuppression>,
    matched: Seq<bool>,
    i: int,
    engine: SecurityEngine,
    rule: Seq<char>,
    package: SecurityPackage,
) -> bool {
    &&& 0 <= i < ss.len()
    &&& i < matched.len()
    &&& matched[i]
    &&& identity_covers(ss[i], engine, rule, package)
}

/// The position of the first suppression that covers the identity, given for
/// each suppression whether its version requirement matched; a suppression
/// with no answer in `matched` never covers.
pub fn first_covering(
    ss: &Vec<SecuritySuppression>,
    matched: &Vec<bool>,
    engine: SecurityEngine,
    rule: &str,
    package: &SecurityPackage,
) -> (res: Option<usize>)
    ensures
        match res {
            Some(i) => covers_at(ss@, matched@, i as int, engine, rule@, *package)
                && forall|j: int| 0 <= j < i ==> !#[trigger] covers_at(ss@, matched@, j, engine, rule@, *package),
            None => forall|j: int| !#[trigger] covers_at(ss@, matched@, j, engine, rule@, *package),
        },
{
    let mut i: usize = 0;
    while i < ss.len()
        invariant
            i <= ss@.len(),
            forall|j: int| 0 <= j < i ==> !#[trigger] covers_at(ss@, matched@, j, engine, rule@, *package),
        decreases ss.len() - i,
    {
        let s = &ss[i];
        if i < matched.len() && matched[i] && s.engine == engine && str_eq(s.rule.as_str(), rule)
            && s.package == package.name && s.package_source == package.source {
            return Some(i);
        }
        i = i + 1;
    }
    None
}

pub open spec fn suppression_spec(
    d: SecurityPolicyDocument,
    engine: SecurityEngine,
    rule: Seq<char>,
    package: SecurityPackage,
    now: u64,
) -> Option<SecuritySuppression> {
    if unexpired(d, now) && version_parses(package.version@) && exists|i: int|
        #[trigger] first_match(d, i, engine, rule, package) {
        Some(d.suppressions@[choose|i: int| #[trigger] first_match(d, i, engine, rule, package)])
    } else {
        None
    }
}

impl SecurityPolicy {
    #[verifier::type_invariant]
    closed spec fn requirements_track_suppressions(&self) -> bool {
        &&& self.requirements@.len() == self.document.suppressions@.len()
        &&& forall|i: int|
            0 <= i < self.requirements@.len() ==> (#[trigger] self.requirements@[i])@
                == self.document.suppressions@[i].version_requirement@
    }

    pub closed spec fn document_spec(&self) -> SecurityPolicyDocument {
        self.document
    }

    pub closed spec fn fingerprint_spec(&self) -> Seq<char> {
        self.fingerprint@
    }

    pub closed spec fn rules_digest_spec(&self) -> Seq<char> {
        self.rules_digest@
    }

    /// Enforces the domain constraints of a policy before any execution.
    /// The integrity of the bytes and of `rules_digest` is the caller's.
    pub fn new(
        document: SecurityPolicyDocument,
        fingerprint: SourceFingerprint,
        rules_digest: SourceFingerprint,
        now: u64,
    ) -> (res: Result<Self, InvalidSecurityPolicy>)
        ensures
            res is Ok <==> policy_valid(document, rules_digest@, now),
            res matches Ok(p) ==> p.document_spec() == document && p.fingerprint_spec()
                == fingerprint@ && p.rules_digest_spec() == rules_digest@,
    {
        if document.schema_version != 1 || document.rules.allowed_licenses.len() > 128
            || document.rules.banned_packages.len() > 128 || document.suppressions.len() > 128 {
            return Err(InvalidSecurityPolicy);
        }
        if !licenses_valid(&document.rules.allowed_licenses) {
            return Err(InvalidSecurityPolicy);
        }
        if !bans_valid(&document.rules.banned_packages) {
            return Err(InvalidSecurityPolicy);
        }
        let mut requirements: Vec<ParsedRequirement> = Vec::new();
        let mut i: usize = 0;
        while i < document.suppressions.len()
            invariant
                i <= document.suppressions@.len(),
                requirements@.len() == i,
                forall|k: int| 0 <= k < i ==> suppression_ok(#[trigger] document.suppressions@[k], rules_digest@, now),
                forall|k: int|
                    0 <= k < i ==> (#[trigger] requirements@[k])@
                        == document.suppressions@[k].version_requirement@,
            decreases document.suppressions.len() - i,
        {
            match suppression_valid(&document.suppressions[i], &rules_digest, now) {
                Ok(r) => requirements.push(r),
                Err(e) => return Err(e),
            }
            i = i + 1;
        }
        if !suppressions_unique(&document.suppressions) {
            return Err(InvalidSecurityPolicy);
        }
        Ok(SecurityPolicy { document, fingerprint, rules_digest, requirements })
    }

    pub fn rules(&self) -> (res: &SecurityRules)
        ensures
            *res == self.document_spec().rules,
    {
        &self.document.rules
    }

    pub fn fingerprint(&self) -> (res: &SourceFingerprint)
        ensures
            res@ == self.fingerprint_spec(),
    {
        &self.fingerprint
    }

    pub fn rules_digest(&self) -> (res: &SourceFingerprint)
        ensures
            res@ == self.rules_digest_spec(),
    {
        &self.rules_digest
    }

    /// Rechecked after execution: a suppression that expires while a job runs
    /// cannot authorize anything at publication time.
    pub fn validate_at(&self, now: u64) -> (res: Result<(), InvalidSecurityPolicy>)
        ensures
            res is Ok <==> unexpired(self.document_spec(), now),
    {
        let ss = &self.document.suppressions;
        let mut i: usize = 0;
        while i < ss.len()
            invariant
                ss@ == self.document_spec().suppressions@,
                i <= ss@.len(),
                forall|k: int| 0 <= k < i ==> (#[trigger] ss@[k]).expires_at > now,
            decreases ss.len() - i,
        {
            if ss[i].expires_at <= now {
                return Err(InvalidSecurityPolicy);
            }
            i = i + 1;
        }
        Ok(())
    }

    /// The first suppression that covers this finding identity at `now`.
    pub fn suppression_for(
        &self,
        engine: SecurityEngine,
        rule: &str,
        package: &SecurityPackage,
        now: u64,
    ) -> (res: Option<&SecuritySuppression>)
        ensures
            match res {
                Some(s) => suppression_spec(self.document_spec(), engine, rule@, *package, now)
                    == Some(*s),
                None => suppression_spec(self.document_spec(), engine, rule@, *package, now) is None,
            },
    {
        proof {
            use_type_invariant(self);
        }
        let ghost d = self.document_spec();
        if self.validate_at(now).is_err() {
            return None;
        }
        let version = match parse_version(package.version.as_str()) {
            Ok(v) => v,
            Err(_) => return None,
        };
        let ss = &self.document.suppressions;
        let mut matched: Vec<bool> = Vec::new();
        let mut i: usize = 0;
        while i < ss.len()
            invariant
                self.requirements@.len() == ss@.len(),
                matched@.len() == i,
                i <= ss@.len(),
                forall|k: int| 0 <= k < i ==> #[trigger] matched@[k] == version_req_matches(
                    (self.requirements@[k])@,
                    version@,
                ),
            decreases ss.len() - i,
        {
            matched.push(requirement_matches(&self.requirements[i], &version));
            i = i + 1;
        }
        proof {
            assert forall|k: int| 0 <= k < ss@.len() implies (matches_at(d, k, engine, rule@, *package)
                <==> #[trigger] covers_at(ss@, matched@, k, engine, rule@, *package)) by {
                assert(self.requirements@[k]@ == ss@[k].version_requirement@);
                assert(ss@[k] == d.suppressions@[k]);
                assert(matched@[k] == version_req_matches(ss@[k].version_requirement@, package.version@));
            }
        }
        match first_covering(ss, &matched, engine, rule, package) {
            Some(i) => {
                proof {
                    assert(matches_at(d, i as int, engine, rule@, *package));
                    assert(first_match(d, i as int, engine, rule@, *package)) by {
                        assert forall|j: int| 0 <= j < i implies !#[trigger] matches_at(d, j, engine, rule@, *package) by {
                            assert(!covers_at(ss@, matched@, j, engine, rule@, *package));
                        }
                    }
                    let c = choose|c: int| #[trigger] first_match(d, c, engine, rule@, *package);
                    if c < i {
                        assert(!covers_at(ss@, matched@, c, engine, rule@, *package));
                    }
                    if c > i {
                        assert(!matches_at(d, i as int, engine, rule@, *package));
                    }
                    assert(c == i);
                }
                Some(&ss[i])
            },
            None => {
                proof {
                    assert forall|c: int| !#[trigger] first_match(d, c, engine, rule@, *package) by {
                        assert(!covers_at(ss@, matched@, c, engine, rule@, *package));
                    }
                }
                None
            },
        }
    }
}

// ---------------------------------------------------------------------------
// Findings and the policy state
// ---------------------------------------------------------------------------

#[derive(Clone, Copy, Debug, PartialEq, Eq, Structural)]
pub enum SecuritySeverity {
    Error,
    Warning,
    Note,
    Help,
}

#[derive(Clone, Debug, PartialEq, Eq)]
pub enum FindingDisposition {
    Active,
    Suppressed(SecuritySuppression),
}

#[derive(Clone, Debug, PartialEq, Eq)]
pub struct SecurityFinding {
    pub engine: SecurityEngine,
    pub rule: String,
    /// `None` is an ambiguous or missing identity, never eligible for suppression.
    pub package: Option<SecurityPackage>,
    pub severity: SecuritySeverity,
    pub message: String,
    pub disposition: FindingDisposition,
}

/// The disposition a finding gets under a policy at `now`.
pub open spec fn disposition_spec(
    d: SecurityPolicyDocument,
    engine: SecurityEngine,
    rule: Seq<char>,
    package: Option<SecurityPackage>,
    now: u64,
) -> FindingDisposition {
    match package {
        Some(p) => match suppression_spec(d, engine, rule, p, now) {
            Some(s) => FindingDisposition::Suppressed(s),
            None => FindingDisposition::Active,
        },
        None => FindingDisposition::Active,
    }
}

impl SecurityFinding {
    /// Sets the disposition from the policy; every other field, the original
    /// finding, stays as it was.
    pub fn apply_policy(&mut self, policy: &SecurityPolicy, now: u64)
        ensures
            final(self).disposition == disposition_spec(
                policy.document_spec(),
                old(self).engine,
                old(self).rule@,
                old(self).package,
                now,
            ),
            final(self).engine == old(self).engine,
            final(self).rule == old(self).rule,
            final(self).package == old(self).package,
            final(self).severity == old(self).severity,
            final(self).message == old(self).message,
    {
        let disposition = match &self.package {
            Some(p) => match policy.suppression_for(self.engine, self.rule.as_str(), p, now) {
                Some(s) => FindingDisposition::Suppressed(s.duplicate()),
                None => FindingDisposition::Active,
            },
            None => FindingDisposition::Active,
        };
        self.disposition = disposition;
    }
}

#[derive(Clone, Copy, Debug, Default, PartialEq, Eq, Structural)]
pub struct SecurityCounts {
    pub errors: u32,
    pub warnings: u32,
    pub notes: u32,
    pub helps: u32,
}

impl SecurityCounts {
    pub fn total(self) -> (res: u64)
        ensures
            res == self.errors + self.warnings + self.notes + self.helps,
    {
        self.errors as u64 + self.warnings as u64 + self.notes as u64 + self.helps as u64
    }
}

#[derive(Clone, Copy, Debug, PartialEq, Eq, Structural)]
pub enum SecurityCompleteness {
    Complete,
    Partial,
    Invalid,
    Unavailable,
}

#[derive(Clone, Copy, Debug, PartialEq, Eq, Structural)]
pub enum SecurityPolicyState {
    Satisfied,
    SatisfiedWithSuppressions,
    Violated,
    Undetermined,
}

/// An error that no suppression covers.
pub open spec fn active_error(f: SecurityFinding) -> bool {
    f.severity == SecuritySeverity::Error && f.disposition is Active
}

/// The policy state. Any active error violates the policy; otherwise incomplete
/// evidence leaves it undetermined; otherwise it is satisfied, with or without
/// suppressions.
pub open spec fn policy_state_spec(c: SecurityCompleteness, fs: Seq<SecurityFinding>) -> SecurityPolicyState {
    if exists|i: int| 0 <= i < fs.len() && active_error(#[trigger] fs[i]) {
        SecurityPolicyState::Violated
    } else if c != SecurityCompleteness::Complete {
        SecurityPolicyState::Undetermined
    } else if exists|i: int| 0 <= i < fs.len() && (#[trigger] fs[i]).disposition is Suppressed {
        SecurityPolicyState::SatisfiedWithSuppressions
    } else {
        SecurityPolicyState::Satisfied
    }
}

/// Passing requires complete evidence; a suppression cannot repair missing data.
pub fn policy_state(completeness: SecurityCompleteness, findings: &[SecurityFinding]) -> (res: SecurityPolicyState)
    ensures
        res == policy_state_spec(completeness, findings@),
{
    let mut i: usize = 0;
    while i < findings.len()
        invariant
            i <= findings@.len(),
            forall|k: int| 0 <= k < i ==> !active_error(#[trigger] findings@[k]),
        decreases findings.len() - i,
    {
        let f = &findings[i];
        if f.severity == SecuritySeverity::Error && matches!(f.disposition, FindingDisposition::Active) {
            assert(active_error(findings@[i as int]));
            return SecurityPolicyState::Violated;
        }
        i = i + 1;
    }
    if completeness != SecurityCompleteness::Complete {
        return SecurityPolicyState::Undetermined;
    }
    let mut j: usize = 0;
    while j < findings.len()
        invariant
            j <= findings@.len(),
            completeness == SecurityCompleteness::Complete,
            forall|k: int| 0 <= k < findings@.len() ==> !active_error(#[trigger] findings@[k]),
            forall|k: int| 0 <= k < j ==> !((#[trigger] findings@[k]).disposition is Suppressed),
        decreases findings.len() - j,
    {
        if matches!(findings[j].disposition, FindingDisposition::Suppressed(_)) {
            assert(findings@[j as int].disposition is Suppressed);
            return SecurityPolicyState::SatisfiedWithSuppressions;
        }
        j = j + 1;
    }
    SecurityPolicyState::Satisfied
}

/// A satisfied policy says whether it leaned on a suppression: with complete
/// evidence and no active error, the state is satisfied with suppressions
/// exactly when some finding, of any severity, is suppressed, and plainly
/// satisfied exactly when none is. Any unsuppressed error violates the policy.
pub proof fn law_suppressions_are_never_hidden(c: SecurityCompleteness, fs: Seq<SecurityFinding>)
    ensures
        (exists|i: int| 0 <= i < fs.len() && (#[trigger] fs[i]).severity == SecuritySeverity::Error
            && fs[i].disposition is Active) ==> policy_state_spec(c, fs) == SecurityPolicyState::Violated,
        c == SecurityCompleteness::Complete && (forall|i: int| 0 <= i < fs.len() ==> !((#[trigger] fs[i]).severity
            == SecuritySeverity::Error && fs[i].disposition is Active)) ==> ((policy_state_spec(c, fs)
            == SecurityPolicyState::SatisfiedWithSuppressions <==> exists|i: int|
            0 <= i < fs.len() && (#[trigger] fs[i]).disposition is Suppressed) && (policy_state_spec(c, fs)
            == SecurityPolicyState::Satisfied <==> forall|i: int|
            0 <= i < fs.len() ==> !((#[trigger] fs[i]).disposition is Suppressed))),
        c != SecurityCompleteness::Complete && (forall|i: int| 0 <= i < fs.len() ==> !((#[trigger] fs[i]).severity
            == SecuritySeverity::Error && fs[i].disposition is Active)) ==> policy_state_spec(c, fs)
            == SecurityPolicyState::Undetermined,
{
    if exists|i: int| 0 <= i < fs.len() && (#[trigger] fs[i]).severity == SecuritySeverity::Error
        && fs[i].disposition is Active {
        let i = choose|i: int| 0 <= i < fs.len() && (#[trigger] fs[i]).severity == SecuritySeverity::Error
            && fs[i].disposition is Active;
        assert(active_error(fs[i]));
    }
    if forall|i: int| 0 <= i < fs.len() ==> !((#[trigger] fs[i]).severity == SecuritySeverity::Error
        && fs[i].disposition is Active) {
        assert forall|i: int| 0 <= i < fs.len() implies !active_error(#[trigger] fs[i]) by {
            assert(!(fs[i].severity == SecuritySeverity::Error && fs[i].disposition is Active));
        }
    }
}

/// A policy that passes was given complete evidence: no suppression turns
/// partial, invalid or unavailable evidence into a pass.
pub proof fn law_passing_requires_complete_evidence(c: SecurityCompleteness, fs: Seq<SecurityFinding>)
    requires
        policy_state_spec(c, fs) == SecurityPolicyState::Satisfied || policy_state_spec(c, fs)
            == SecurityPolicyState::SatisfiedWithSuppressions,
    ensures
        c == SecurityCompleteness::Complete,
        forall|i: int| 0 <= i < fs.len() ==> !active_error(#[trigger] fs[i]),
{
}

/// Once any suppression of the policy has expired at `now`, nothing is
/// suppressed at `now`: expiry equal to the observation time counts.
pub proof fn law_expired_policy_suppresses_nothing(
    d: SecurityPolicyDocument,
    engine: SecurityEngine,
    rule: Seq<char>,
    package: SecurityPackage,
    now: u64,
    i: int,
)
    requires
        0 <= i < d.suppressions@.len(),
        d.suppressions@[i].expires_at <= now,
    ensures
        suppression_spec(d, engine, rule, package, now) is None,
{
}

/// A suppression only ever covers its own engine, rule, package name, package
/// source, and a version its requirement matches.
pub proof fn law_suppression_matches_every_identity_dimension(
    d: SecurityPolicyDocument,
    engine: SecurityEngine,
    rule: Seq<char>,
    package: SecurityPackage,
    now: u64,
)
    requires
        suppression_spec(d, engine, rule, package, now) is Some,
    ensures
        ({
            let s = suppression_spec(d, engine, rule, package, now)->0;
            &&& s.engine == engine
            &&& s.rule@ == rule
            &&& s.package@ == package.name@
            &&& s.package_source == package.source
            &&& version_req_matches(s.version_requirement@, package.version@)
            &&& s.expires_at > now
        }),
{
    let c = choose|c: int| #[trigger] first_match(d, c, engine, rule, package);
    assert(first_match(d, c, engine, rule, package));
}

} // verus!
