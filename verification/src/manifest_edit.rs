//! Closed semantic edits of a manifest's lint tables; parsing and serializing
//! the manifest stay with the adapter.
use vstd::prelude::*;
use crate::text::{chars_of, is_ascii_alphanumeric, is_ascii_alphanumeric_spec};

verus! {

#[derive(Clone, Copy, Debug, PartialEq, Eq, Structural)]
pub enum LintScope {
    Package,
    Workspace,
}

#[derive(Clone, Copy, Debug, PartialEq, Eq, Structural)]
pub enum LintTool {
    Rust,
    Clippy,
}

#[derive(Clone, Copy, Debug, PartialEq, Eq, Structural)]
pub enum LintLevel {
    Allow,
    Warn,
    Deny,
    Forbid,
}

#[derive(Clone, Copy, Debug, PartialEq, Eq, Structural)]
pub enum ManifestEditError {
    InvalidOperation,
    InvalidManifest,
    UnsupportedLayout,
    InheritedLints,
    LimitExceeded,
}

pub open spec fn lint_char(c: char) -> bool {
    is_ascii_alphanumeric_spec(c) || c == '_'
}

/// A lint name: 1 to 128 ASCII letters, digits and `_`.
pub open spec fn lint_name_ok(s: Seq<char>) -> bool {
    0 < s.len() <= 128 && forall|i: int| 0 <= i < s.len() ==> #[trigger] lint_char(s[i])
}

#[derive(Clone, Debug, PartialEq, Eq)]
pub struct LintName {
    value: String,
}

impl View for LintName {
    type V = Seq<char>;

    closed spec fn view(&self) -> Seq<char> {
        self.value@
    }
}

impl LintName {
    pub fn new(value: String) -> (res: Result<Self, ManifestEditError>)
        ensures
            res is Ok <==> lint_name_ok(value@),
            res matches Ok(n) ==> n@ == value@,
            res matches Err(e) ==> e == ManifestEditError::InvalidOperation,
    {
        let v = chars_of(value.as_str());
        if v.len() == 0 || v.len() > 128 {
            return Err(ManifestEditError::InvalidOperation);
        }
        let mut i: usize = 0;
        while i < v.len()
            invariant
                v@ == value@,
                i <= v@.len(),
                forall|k: int| 0 <= k < i ==> #[trigger] lint_char(v@[k]),
            decreases v.len() - i,
        {
            if !(is_ascii_alphanumeric(v[i]) || v[i] == '_') {
                assert(!lint_char(v@[i as int]));
                return Err(ManifestEditError::InvalidOperation);
            }
            i = i + 1;
        }
        Ok(LintName { value })
    }

    pub fn as_str(&self) -> (res: &str)
        ensures
            res@ == self@,
    {
        self.value.as_str()
    }
}

#[derive(Clone, Debug, PartialEq, Eq)]
pub enum ManifestEdit {
    LintSet { scope: LintScope, tool: LintTool, name: LintName, level: LintLevel, priority: Option<i64> },
    LintRemove { scope: LintScope, tool: LintTool, name: LintName },
}

} // verus!
