//! Validated Cargo selection and evidence for one captured check operation.
use vstd::prelude::*;
use vstd::std_specs::convert::TryFromSpecImpl;
use crate::artifact::ArtifactMetadata;
use crate::diagnostic::Diagnostic;
use crate::evidence::SnapshotEvidence;
use crate::execution::ExecutionTermination;
use crate::inspection::{InspectionSemantics, RuntimeIdentity};
use crate::text::{
    chars_of, lemma_str_lt_asymmetric, lemma_str_lt_irreflexive, lemma_str_lt_total,
    lemma_str_lt_transitive, owned, str_eq, str_less, str_lt,
};
use crate::value::{ProjectIdentityFingerprint, ProjectRef, SourceFingerprint};

verus! {

/// A caller's Cargo selection, before validation.
#[derive(Clone, Debug, Default)]
pub struct CheckSelection {
    pub package: Option<String>,
    pub workspace: bool,
    pub features: Vec<String>,
    pub all_features: bool,
    pub no_default_features: bool,
    pub all_targets: bool,
    pub target: Option<String>,
}

#[derive(Clone, Copy, Debug, PartialEq, Eq, Structural)]
pub struct InvalidCheckOptions;

impl InvalidCheckOptions {
    /// The text shown for this refusal.
    pub fn message(&self) -> (res: &'static str)
        ensures
            res@ == "invalid Cargo selection"@,
    {
        "invalid Cargo selection"
    }
}

/// The only target triple the sandbox has installed.
pub open spec fn installed_target() -> Seq<char> {
    "aarch64-unknown-linux-gnu"@
}

/// A character allowed in a package or feature identifier.
pub open spec fn ident_char(c: char) -> bool {
    ('a' <= c && c <= 'z') || ('A' <= c && c <= 'Z') || ('0' <= c && c <= '9') || c == '_' || c
        == '-'
}

/// A Cargo identifier of at most `max` characters: ASCII letters, digits, `_`
/// and `-`, not starting with `-`.
pub open spec fn identifier_spec(s: Seq<char>, max: nat) -> bool {
    &&& 0 < s.len() <= max
    &&& forall|i: int| 0 <= i < s.len() ==> #[trigger] ident_char(s[i])
    &&& s[0] != '-'
}

/// A feature: an identifier, or a dependency identifier, `/` and a feature
/// identifier; at most 128 characters.
pub open spec fn feature_spec(f: Seq<char>) -> bool {
    &&& f.len() <= 128
    &&& {
        ||| identifier_spec(f, 128)
        ||| exists|i: int|
            0 <= i < f.len() && #[trigger] f[i] == '/' && identifier_spec(f.take(i), 128)
                && identifier_spec(f.skip(i + 1), 128)
    }
}

/// The views of a list of strings.
pub open spec fn string_views(v: Seq<String>) -> Seq<Seq<char>> {
    v.map_values(|s: String| s@)
}

/// Some string occurs twice.
pub open spec fn has_duplicate(s: Seq<Seq<char>>) -> bool {
    exists|i: int, j: int| 0 <= i < j < s.len() && #[trigger] s[i] == #[trigger] s[j]
}

/// Strictly increasing in lexicographic order.
pub open spec fn strictly_ascending(s: Seq<Seq<char>>) -> bool {
    forall|i: int, j: int| 0 <= i < j < s.len() ==> #[trigger] str_lt(s[i], s[j])
}

/// The view of an optional string.
pub open spec fn opt_view(o: Option<String>) -> Option<Seq<char>> {
    match o {
        Some(s) => Some(s@),
        None => None,
    }
}

/// Whether a selection is accepted.
pub open spec fn selection_valid(s: CheckSelection) -> bool {
    let features = string_views(s.features@);
    &&& (s.package matches Some(p) ==> identifier_spec(p@, 128))
    &&& !(s.package is Some && s.workspace)
    &&& !(s.all_features && features.len() > 0)
    &&& features.len() <= 32
    &&& forall|i: int| 0 <= i < features.len() ==> #[trigger] feature_spec(features[i])
    &&& (s.target matches Some(t) ==> t@ == installed_target())
    &&& !has_duplicate(features)
}

/// Whether `c` is an identifier character.
pub fn is_ident_char(c: char) -> (res: bool)
    ensures
        res == ident_char(c),
{
    ('a' <= c && c <= 'z') || ('A' <= c && c <= 'Z') || ('0' <= c && c <= '9') || c == '_' || c
        == '-'
}

/// Whether `v[from..to]` is an identifier of at most `max` characters.
fn identifier_range(v: &Vec<char>, from: usize, to: usize, max: usize) -> (res: bool)
    requires
        from <= to <= v@.len(),
    ensures
        res == identifier_spec(v@.subrange(from as int, to as int), max as nat),
{
    let ghost s = v@.subrange(from as int, to as int);
    if from == to || to - from > max || v[from] == '-' {
        return false;
    }
    let mut i = from;
    while i < to
        invariant
            from <= i <= to <= v@.len(),
            s == v@.subrange(from as int, to as int),
            forall|k: int| 0 <= k < i - from ==> #[trigger] ident_char(s[k]),
        decreases to - i,
    {
        if !is_ident_char(v[i]) {
            assert(!ident_char(s[i - from]));
            return false;
        }
        i = i + 1;
    }
    true
}

/// Whether `value` is an identifier of at most `max` characters.
pub fn identifier(value: &str, max: usize) -> (res: bool)
    ensures
        res == identifier_spec(value@, max as nat),
{
    let v = chars_of(value);
    assert(v@.subrange(0, v@.len() as int) =~= v@);
    identifier_range(&v, 0, v.len(), max)
}

/// Whether `value` is a valid feature name.
pub fn feature(value: &str) -> (res: bool)
    ensures
        res == feature_spec(value@),
{
    let v = chars_of(value);
    let n = v.len();
    if n > 128 {
        return false;
    }
    let mut slash: usize = 0;
    while slash < n && v[slash] != '/'
        invariant
            slash <= n == v@.len(),
            forall|k: int| 0 <= k < slash ==> v@[k] != '/',
        decreases n - slash,
    {
        slash = slash + 1;
    }
    assert(v@.subrange(0, n as int) =~= v@);
    if slash == n {
        let whole = identifier_range(&v, 0, n, 128);
        proof {
            if exists|i: int| 0 <= i < v@.len() && #[trigger] v@[i] == '/' && identifier_spec(v@.take(i), 128)
                && identifier_spec(v@.skip(i + 1), 128) {
                let i = choose|i: int| 0 <= i < v@.len() && #[trigger] v@[i] == '/' && identifier_spec(v@.take(i), 128)
                    && identifier_spec(v@.skip(i + 1), 128);
                assert(v@[i] != '/');
            }
        }
        return whole;
    }
    let head = identifier_range(&v, 0, slash, 128);
    let tail = identifier_range(&v, slash + 1, n, 128);
    proof {
        assert(v@.take(slash as int) =~= v@.subrange(0, slash as int));
        assert(v@.skip(slash + 1) =~= v@.subrange(slash + 1, n as int));
        assert(!ident_char(v@[slash as int]));
        assert(!identifier_spec(v@, 128));
        if exists|i: int| 0 <= i < v@.len() && #[trigger] v@[i] == '/' && identifier_spec(v@.take(i), 128)
            && identifier_spec(v@.skip(i + 1), 128) {
            let i = choose|i: int| 0 <= i < v@.len() && #[trigger] v@[i] == '/' && identifier_spec(v@.take(i), 128)
                && identifier_spec(v@.skip(i + 1), 128);
            if i > slash {
                assert(v@.take(i)[slash as int] == '/');
                assert(!ident_char(v@.take(i)[slash as int]));
            }
        }
    }
    head && tail
}

/// Whether some string of `v` occurs twice.
fn duplicated(v: &Vec<String>) -> (res: bool)
    ensures
        res == has_duplicate(string_views(v@)),
{
    let ghost s = string_views(v@);
    let mut j: usize = 0;
    while j < v.len()
        invariant
            j <= v@.len(),
            s == string_views(v@),
            s.len() == v@.len(),
            forall|a: int, b: int| 0 <= a < b < j ==> s[a] != s[b],
        decreases v@.len() - j,
    {
        let mut i: usize = 0;
        while i < j
            invariant
                i <= j < v@.len(),
                s == string_views(v@),
                s.len() == v@.len(),
                forall|a: int| 0 <= a < i ==> s[a] != s[j as int],
            decreases j - i,
        {
            if str_eq(v[i].as_str(), v[j].as_str()) {
                assert(s[i as int] == s[j as int]);
                return true;
            }
            i = i + 1;
        }
        j = j + 1;
    }
    false
}

/// A copy of the distinct strings `v`, sorted in ascending order.
fn sorted_copy(v: &Vec<String>) -> (res: Vec<String>)
    requires
        !has_duplicate(string_views(v@)),
    ensures
        string_views(res@).to_multiset() == string_views(v@).to_multiset(),
        strictly_ascending(string_views(res@)),
{
    broadcast use vstd::seq_lib::group_to_multiset_ensures;

    let ghost src = string_views(v@);
    let mut out: Vec<String> = Vec::new();
    let mut i: usize = 0;
    assert(string_views(out@) =~= Seq::<Seq<char>>::empty());
    assert(src.take(0) =~= Seq::<Seq<char>>::empty());
    while i < v.len()
        invariant
            i <= v@.len(),
            src == string_views(v@),
            src.len() == v@.len(),
            !has_duplicate(src),
            string_views(out@).to_multiset() == src.take(i as int).to_multiset(),
            strictly_ascending(string_views(out@)),
        decreases v@.len() - i,
    {
        let f = owned(v[i].as_str());
        let ghost x = string_views(out@);
        proof {
            assert forall|k: int| 0 <= k < x.len() implies x[k] != f@ by {
                assert(x.contains(x[k]));
                vstd::seq_lib::to_multiset_contains(x, x[k]);
                vstd::seq_lib::to_multiset_contains(src.take(i as int), x[k]);
                assert(src.take(i as int).contains(x[k]));
                let j = choose|j: int| 0 <= j < i && src.take(i as int)[j] == x[k];
                assert(src[j] == x[k]);
                assert(src[i as int] == f@);
            }
        }
        let mut pos: usize = 0;
        while pos < out.len() && str_less(out[pos].as_str(), f.as_str())
            invariant
                pos <= out@.len(),
                x == string_views(out@),
                forall|a: int| 0 <= a < pos ==> #[trigger] str_lt(x[a], f@),
            decreases out@.len() - pos,
        {
            pos = pos + 1;
        }
        proof {
            assert forall|a: int| pos <= a < x.len() implies #[trigger] str_lt(f@, x[a]) by {
                lemma_str_lt_total(x[pos as int], f@);
                if a > pos {
                    assert(str_lt(x[pos as int], x[a]));
                    lemma_str_lt_transitive(f@, x[pos as int], x[a]);
                }
            }
        }
        let ghost fv = f@;
        out.insert(pos, f);
        proof {
            let y = string_views(out@);
            assert(y =~= x.insert(pos as int, fv));
            assert forall|a: int, b: int| 0 <= a < b < y.len() implies #[trigger] str_lt(y[a], y[b]) by {
                if b < pos {
                    assert(y[a] == x[a] && y[b] == x[b]);
                } else if b == pos {
                    assert(y[a] == x[a]);
                } else if a < pos {
                    assert(y[a] == x[a] && y[b] == x[b - 1]);
                    lemma_str_lt_transitive(x[a], fv, x[b - 1]);
                } else if a == pos {
                    assert(y[b] == x[b - 1]);
                } else {
                    assert(y[a] == x[a - 1] && y[b] == x[b - 1]);
                }
            }
            assert(src.take(i + 1) =~= src.take(i as int).push(src[i as int]));
            assert(fv == src[i as int]);
            vstd::seq_lib::to_multiset_insert(x, pos as int, fv);
            vstd::seq_lib::to_multiset_build(src.take(i as int), fv);
        }
        i = i + 1;
    }
    assert(src.take(v@.len() as int) =~= src);
    out
}

/// A validated Cargo selection: features are sorted and distinct.
#[derive(Clone, Debug, PartialEq, Eq)]
pub struct CheckOptions {
    package: Option<String>,
    workspace: bool,
    features: Vec<String>,
    all_features: bool,
    no_default_features: bool,
    all_targets: bool,
    target: Option<String>,
}

impl CheckOptions {
    pub closed spec fn package_spec(&self) -> Option<Seq<char>> {
        opt_view(self.package)
    }

    pub closed spec fn workspace_spec(&self) -> bool {
        self.workspace
    }

    pub closed spec fn features_spec(&self) -> Seq<Seq<char>> {
        string_views(self.features@)
    }

    pub closed spec fn all_features_spec(&self) -> bool {
        self.all_features
    }

    pub closed spec fn no_default_features_spec(&self) -> bool {
        self.no_default_features
    }

    pub closed spec fn all_targets_spec(&self) -> bool {
        self.all_targets
    }

    pub closed spec fn target_spec(&self) -> Option<Seq<char>> {
        opt_view(self.target)
    }

    /// Whether these options are the validation of `s`: the same flags and
    /// values, with the features in ascending order.
    pub open spec fn validates(&self, s: CheckSelection) -> bool {
        &&& self.package_spec() == opt_view(s.package)
        &&& self.workspace_spec() == s.workspace
        &&& self.features_spec().to_multiset() == string_views(s.features@).to_multiset()
        &&& strictly_ascending(self.features_spec())
        &&& self.all_features_spec() == s.all_features
        &&& self.no_default_features_spec() == s.no_default_features
        &&& self.all_targets_spec() == s.all_targets
        &&& self.target_spec() == opt_view(s.target)
    }

    /// Validates a selection: identifiers, no contradictions, at most 32
    /// distinct features and only the installed target.
    pub fn from_selection(value: CheckSelection) -> (res: Result<Self, InvalidCheckOptions>)
        ensures
            res is Ok <==> selection_valid(value),
            res matches Ok(o) ==> o.validates(value),
    {
        let package_ok = match &value.package {
            Some(p) => identifier(p.as_str(), 128),
            None => true,
        };
        if !package_ok || (value.package.is_some() && value.workspace) || (value.all_features
            && value.features.len() > 0) || value.features.len() > 32 {
            return Err(InvalidCheckOptions);
        }
        let ghost fs = string_views(value.features@);
        let mut i: usize = 0;
        while i < value.features.len()
            invariant
                i <= value.features@.len(),
                fs == string_views(value.features@),
                fs.len() == value.features@.len(),
                forall|k: int| 0 <= k < i ==> #[trigger] feature_spec(fs[k]),
            decreases value.features@.len() - i,
        {
            if !feature(value.features[i].as_str()) {
                assert(fs[i as int] == value.features@[i as int]@);
                return Err(InvalidCheckOptions);
            }
            i = i + 1;
        }
        let target_ok = match &value.target {
            Some(t) => str_eq(t.as_str(), "aarch64-unknown-linux-gnu"),
            None => true,
        };
        if !target_ok {
            return Err(InvalidCheckOptions);
        }
        if duplicated(&value.features) {
            return Err(InvalidCheckOptions);
        }
        let features = sorted_copy(&value.features);
        Ok(CheckOptions {
            package: value.package,
            workspace: value.workspace,
            features,
            all_features: value.all_features,
            no_default_features: value.no_default_features,
            all_targets: value.all_targets,
            target: value.target,
        })
    }

    pub fn package(&self) -> (res: Option<&str>)
        ensures
            match res {
                Some(p) => self.package_spec() == Some(p@),
                None => self.package_spec() is None,
            },
    {
        match &self.package {
            Some(p) => Some(p.as_str()),
            None => None,
        }
    }

    pub fn workspace(&self) -> (res: bool)
        ensures
            res == self.workspace_spec(),
    {
        self.workspace
    }

    pub fn features(&self) -> (res: &[String])
        ensures
            string_views(res@) == self.features_spec(),
    {
        self.features.as_slice()
    }

    pub fn all_features(&self) -> (res: bool)
        ensures
            res == self.all_features_spec(),
    {
        self.all_features
    }

    pub fn no_default_features(&self) -> (res: bool)
        ensures
            res == self.no_default_features_spec(),
    {
        self.no_default_features
    }

    pub fn all_targets(&self) -> (res: bool)
        ensures
            res == self.all_targets_spec(),
    {
        self.all_targets
    }

    pub fn target(&self) -> (res: Option<&str>)
        ensures
            match res {
                Some(t) => self.target_spec() == Some(t@),
                None => self.target_spec() is None,
            },
    {
        match &self.target {
            Some(t) => Some(t.as_str()),
            None => None,
        }
    }
}

impl std::convert::TryFrom<CheckSelection> for CheckOptions {
    type Error = InvalidCheckOptions;

    fn try_from(value: CheckSelection) -> (res: Result<Self, InvalidCheckOptions>)
        ensures
            res is Ok <==> selection_valid(value),
            res matches Ok(o) ==> o.validates(value),
    {
        CheckOptions::from_selection(value)
    }
}

/// The conversion is [`CheckOptions::from_selection`]; `try_from` states its
/// result in its own `ensures`, and no single value is named here.
impl TryFromSpecImpl<CheckSelection> for CheckOptions {
    open spec fn obeys_try_from_spec() -> bool {
        false
    }

    open spec fn try_from_spec(value: CheckSelection) -> Result<Self, InvalidCheckOptions> {
        Err(InvalidCheckOptions)
    }
}

#[derive(Clone, Copy, Debug, PartialEq, Eq, Structural)]
pub enum CheckOutcome {
    Passed,
    Failed,
    Incomplete,
    LockfileUpdateRequired,
}

#[derive(Clone, Debug)]
pub struct CheckObservation {
    pub outcome: CheckOutcome,
    pub termination: ExecutionTermination,
    pub exit_code: Option<i32>,
    pub validation_complete: bool,
    pub diagnostics: Vec<Diagnostic>,
    pub diagnostics_omitted: u64,
    pub stdout: String,
    pub stderr: String,
    pub stdout_truncated: bool,
    pub stderr_truncated: bool,
    pub runtime: RuntimeIdentity,
    pub source_fingerprint: SourceFingerprint,
}

#[derive(Clone, Debug)]
pub struct ProjectCheck {
    pub project_ref: ProjectRef,
    pub project_identity_fingerprint: ProjectIdentityFingerprint,
    pub semantics: InspectionSemantics,
    pub options: CheckOptions,
    pub observation: CheckObservation,
    pub evidence: SnapshotEvidence,
    pub log: Option<ArtifactMetadata>,
    pub retention_remaining_seconds: Option<u64>,
}

} // verus!
