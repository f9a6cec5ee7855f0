//! Analyzer wire values: validated positions, symbols and bounded edits.
//!
//! Everything here is byte-in/byte-out: no I/O and no process handling.
use vstd::prelude::*;
use vstd::std_specs::convert::TryFromSpecImpl;
use crate::diagnostic::{pos_le, Position};
use crate::line_index::{byte_offset_from_position_spec, lemma_decoded_len, lemma_offset_within};
use crate::text::utf8_len;
use vstd::string::StringSliceAdditionalSpecFns;
use vstd::utf8::{decode_utf8, encode_utf8, valid_utf8};
use vstd::multiset::Multiset;
use crate::execution::ExecutionTermination;
use crate::text::{char_count, chars_of, has_control, has_control_char, owned, str_eq, take_chars};
use crate::value::{validate_source_path, valid_source_path_spec, NonEmptyText, SourceFingerprint};
pub use crate::line_index::{AnalyzerError, LineIndex};

verus! {

/// Bounded budgets shared by the analyzer domain and its adapters.
pub const MAX_VISIBLE_RESULTS: usize = 512;
/// The deepest nesting level a [`DocumentSymbol`] may carry.
pub const MAX_SYMBOL_DEPTH: u8 = 32;
pub const MAX_ACTIONS: usize = 32;
pub const MAX_EDITS: usize = 128;
pub const MAX_FRAME_BYTES: usize = 1_048_576;
pub const MAX_MESSAGES_PER_JOB: usize = 4096;
pub const MAX_STDOUT_BYTES: usize = 16_777_216;
pub const MAX_STDERR_BYTES: usize = 1_048_576;
pub const INITIALIZE_TIMEOUT_SECONDS: u64 = 60;
pub const QUERY_TIMEOUT_SECONDS: u64 = 30;
pub const TOTAL_TIMEOUT_SECONDS: u64 = 180;
pub const MAX_RESULT_BYTES: usize = 524_288;

/// Whether `s` ends in `.rs`.
pub open spec fn rs_suffix(s: Seq<char>) -> bool {
    s.len() >= 3 && s[s.len() - 3] == '.' && s[s.len() - 2] == 'r' && s[s.len() - 1] == 's'
}

/// A relative POSIX path inside the capture, ending in `.rs`.
#[derive(Clone, Debug, PartialEq, Eq, PartialOrd, Ord, Hash)]
pub struct AnalyzerFile {
    path: String,
}

impl View for AnalyzerFile {
    type V = Seq<char>;

    closed spec fn view(&self) -> Seq<char> {
        self.path@
    }
}

impl AnalyzerFile {
    pub fn new(value: String) -> (res: Result<Self, AnalyzerError>)
        ensures
            res is Ok <==> valid_source_path_spec(value@) && rs_suffix(value@),
            res matches Ok(f) ==> f@ == value@,
            res matches Err(e) ==> e == AnalyzerError::Invalid,
    {
        if validate_source_path(value.as_str()).is_err() {
            return Err(AnalyzerError::Invalid);
        }
        let v = chars_of(value.as_str());
        let n = v.len();
        if n < 3 || v[n - 3] != '.' || v[n - 2] != 'r' || v[n - 1] != 's' {
            return Err(AnalyzerError::Invalid);
        }
        Ok(AnalyzerFile { path: value })
    }

    pub fn as_str(&self) -> (res: &str)
        ensures
            res@ == self@,
    {
        self.path.as_str()
    }
}

/// An ordered pair of one-based positions: `start` comes no later than `end`.
#[derive(Clone, Copy, Debug, PartialEq, Eq, Structural)]
pub struct TextRange {
    start: Position,
    end: Position,
}

impl View for TextRange {
    type V = ((u32, u32), (u32, u32));

    closed spec fn view(&self) -> ((u32, u32), (u32, u32)) {
        (self.start@, self.end@)
    }
}

impl TextRange {
    pub fn new(start: Position, end: Position) -> (res: Result<Self, AnalyzerError>)
        ensures
            res is Ok <==> pos_le(start@, end@),
            res matches Ok(r) ==> r@ == (start@, end@),
            res matches Err(e) ==> e == AnalyzerError::InvalidRange,
    {
        if !start.le(&end) {
            return Err(AnalyzerError::InvalidRange);
        }
        Ok(TextRange { start, end })
    }

    pub fn start(&self) -> (res: Position)
        ensures
            res@ == self@.0,
    {
        self.start
    }

    pub fn end(&self) -> (res: Position)
        ensures
            res@ == self@.1,
    {
        self.end
    }
}

/// The closed LSP 3.17 `SymbolKind` set (values `1..=26`).
#[derive(Clone, Copy, Debug, PartialEq, Eq, Structural)]
pub enum SymbolKind {
    File,
    Module,
    Namespace,
    Package,
    Class,
    Method,
    Property,
    Field,
    Constructor,
    Enum,
    Interface,
    Function,
    Variable,
    Constant,
    String,
    Number,
    Boolean,
    Array,
    Object,
    Key,
    Null,
    EnumMember,
    Struct,
    Event,
    Operator,
    TypeParameter,
}

/// The LSP wire number of each symbol kind.
pub open spec fn symbol_kind_code(k: SymbolKind) -> u32 {
    match k {
        SymbolKind::File => 1,
        SymbolKind::Module => 2,
        SymbolKind::Namespace => 3,
        SymbolKind::Package => 4,
        SymbolKind::Class => 5,
        SymbolKind::Method => 6,
        SymbolKind::Property => 7,
        SymbolKind::Field => 8,
        SymbolKind::Constructor => 9,
        SymbolKind::Enum => 10,
        SymbolKind::Interface => 11,
        SymbolKind::Function => 12,
        SymbolKind::Variable => 13,
        SymbolKind::Constant => 14,
        SymbolKind::String => 15,
        SymbolKind::Number => 16,
        SymbolKind::Boolean => 17,
        SymbolKind::Array => 18,
        SymbolKind::Object => 19,
        SymbolKind::Key => 20,
        SymbolKind::Null => 21,
        SymbolKind::EnumMember => 22,
        SymbolKind::Struct => 23,
        SymbolKind::Event => 24,
        SymbolKind::Operator => 25,
        SymbolKind::TypeParameter => 26,
    }
}

/// What converting the wire number `value` gives.
pub open spec fn symbol_kind_from_code(value: u32) -> Result<SymbolKind, AnalyzerError> {
    if 1 <= value <= 26 {
        Ok(choose|k: SymbolKind| symbol_kind_code(k) == value)
    } else {
        Err(AnalyzerError::UnknownSymbolKind)
    }
}

impl SymbolKind {
    /// The kind whose LSP number is `value`.
    pub fn from_code(value: u32) -> (res: Result<SymbolKind, AnalyzerError>)
        ensures
            res is Ok <==> 1 <= value <= 26,
            res matches Ok(k) ==> symbol_kind_code(k) == value,
            res matches Err(e) ==> e == AnalyzerError::UnknownSymbolKind,
            res == symbol_kind_from_code(value),
    {
        let res = match value {
            1 => Ok(SymbolKind::File),
            2 => Ok(SymbolKind::Module),
            3 => Ok(SymbolKind::Namespace),
            4 => Ok(SymbolKind::Package),
            5 => Ok(SymbolKind::Class),
            6 => Ok(SymbolKind::Method),
            7 => Ok(SymbolKind::Property),
            8 => Ok(SymbolKind::Field),
            9 => Ok(SymbolKind::Constructor),
            10 => Ok(SymbolKind::Enum),
            11 => Ok(SymbolKind::Interface),
            12 => Ok(SymbolKind::Function),
            13 => Ok(SymbolKind::Variable),
            14 => Ok(SymbolKind::Constant),
            15 => Ok(SymbolKind::String),
            16 => Ok(SymbolKind::Number),
            17 => Ok(SymbolKind::Boolean),
            18 => Ok(SymbolKind::Array),
            19 => Ok(SymbolKind::Object),
            20 => Ok(SymbolKind::Key),
            21 => Ok(SymbolKind::Null),
            22 => Ok(SymbolKind::EnumMember),
            23 => Ok(SymbolKind::Struct),
            24 => Ok(SymbolKind::Event),
            25 => Ok(SymbolKind::Operator),
            26 => Ok(SymbolKind::TypeParameter),
            _ => Err(AnalyzerError::UnknownSymbolKind),
        };
        proof {
            if let Ok(k) = res {
                let c = choose|k2: SymbolKind| symbol_kind_code(k2) == value;
                assert(symbol_kind_code(k) == value);
                assert(symbol_kind_code(c) == value);
            }
        }
        res
    }
}

impl std::convert::TryFrom<u32> for SymbolKind {
    type Error = AnalyzerError;

    fn try_from(value: u32) -> Result<Self, AnalyzerError> {
        SymbolKind::from_code(value)
    }
}

impl TryFromSpecImpl<u32> for SymbolKind {
    open spec fn obeys_try_from_spec() -> bool {
        true
    }

    open spec fn try_from_spec(value: u32) -> Result<Self, AnalyzerError> {
        symbol_kind_from_code(value)
    }
}

/// One entry of a hierarchical `textDocument/documentSymbol` result, already
/// flattened depth-first.
#[derive(Clone, Debug, PartialEq, Eq)]
pub struct DocumentSymbol {
    name: NonEmptyText,
    kind: SymbolKind,
    detail: Option<String>,
    detail_truncated: bool,
    deprecated: bool,
    range: TextRange,
    selection_range: TextRange,
    depth: u8,
}

/// The view of an optional string.
pub open spec fn opt_str_view(o: Option<String>) -> Option<Seq<char>> {
    match o {
        Some(s) => Some(s@),
        None => None,
    }
}

impl DocumentSymbol {
    pub closed spec fn name_spec(&self) -> Seq<char> {
        self.name@
    }

    pub closed spec fn kind_spec(&self) -> SymbolKind {
        self.kind
    }

    pub closed spec fn detail_spec(&self) -> Option<Seq<char>> {
        opt_str_view(self.detail)
    }

    pub closed spec fn detail_truncated_spec(&self) -> bool {
        self.detail_truncated
    }

    pub closed spec fn deprecated_spec(&self) -> bool {
        self.deprecated
    }

    pub closed spec fn range_spec(&self) -> ((u32, u32), (u32, u32)) {
        self.range@
    }

    pub closed spec fn selection_range_spec(&self) -> ((u32, u32), (u32, u32)) {
        self.selection_range@
    }

    pub closed spec fn depth_spec(&self) -> u8 {
        self.depth
    }

    /// Rejects a depth above [`MAX_SYMBOL_DEPTH`] and a selection outside the range.
    pub fn new(
        name: NonEmptyText,
        kind: SymbolKind,
        detail: Option<String>,
        deprecated: bool,
        range: TextRange,
        selection_range: TextRange,
        depth: u8,
    ) -> (res: Result<Self, AnalyzerError>)
        ensures
            depth > MAX_SYMBOL_DEPTH ==> res == Err::<Self, AnalyzerError>(
                AnalyzerError::LimitExceeded,
            ),
            depth <= MAX_SYMBOL_DEPTH ==> (res is Ok <==> pos_le(range@.0, selection_range@.0)
                && pos_le(selection_range@.1, range@.1)),
            depth <= MAX_SYMBOL_DEPTH && res is Err ==> res == Err::<Self, AnalyzerError>(
                AnalyzerError::InvalidRange,
            ),
            res matches Ok(s) ==> s.name_spec() == name@ && s.kind_spec() == kind
                && s.detail_spec() == opt_str_view(detail) && !s.detail_truncated_spec()
                && s.deprecated_spec() == deprecated && s.range_spec() == range@
                && s.selection_range_spec() == selection_range@ && s.depth_spec() == depth,
    {
        if depth > MAX_SYMBOL_DEPTH {
            return Err(AnalyzerError::LimitExceeded);
        }
        if !range.start().le(&selection_range.start()) || !selection_range.end().le(
            &range.end(),
        ) {
            return Err(AnalyzerError::InvalidRange);
        }
        Ok(DocumentSymbol {
            name,
            kind,
            detail,
            detail_truncated: false,
            deprecated,
            range,
            selection_range,
            depth,
        })
    }

    pub fn name(&self) -> (res: &NonEmptyText)
        ensures
            res@ == self.name_spec(),
    {
        &self.name
    }

    pub fn kind(&self) -> (res: SymbolKind)
        ensures
            res == self.kind_spec(),
    {
        self.kind
    }

    pub fn detail(&self) -> (res: Option<&str>)
        ensures
            match res {
                Some(d) => self.detail_spec() == Some(d@),
                None => self.detail_spec() is None,
            },
    {
        match &self.detail {
            Some(d) => Some(d.as_str()),
            None => None,
        }
    }

    /// Whether [`Self::detail`] is a prefix of what the peer actually sent.
    pub fn detail_truncated(&self) -> (res: bool)
        ensures
            res == self.detail_truncated_spec(),
    {
        self.detail_truncated
    }

    /// Truncates `detail` to at most `max_chars` Unicode scalars, marking the
    /// entry truncated when characters were actually dropped.
    pub fn truncate_detail(self, max_chars: usize) -> (res: Self)
        ensures
            match self.detail_spec() {
                Some(d) if d.len() > max_chars => res.detail_spec() == Some(d.take(max_chars as int))
                    && res.detail_truncated_spec(),
                _ => res.detail_spec() == self.detail_spec() && res.detail_truncated_spec()
                    == self.detail_truncated_spec(),
            },
            res.name_spec() == self.name_spec(),
            res.kind_spec() == self.kind_spec(),
            res.deprecated_spec() == self.deprecated_spec(),
            res.range_spec() == self.range_spec(),
            res.selection_range_spec() == self.selection_range_spec(),
            res.depth_spec() == self.depth_spec(),
    {
        let mut symbol = self;
        let shortened = match &symbol.detail {
            Some(d) => {
                if char_count(d.as_str()) > max_chars {
                    Some(take_chars(d.as_str(), max_chars))
                } else {
                    None
                }
            },
            None => None,
        };
        match shortened {
            Some(s) => {
                symbol.detail = Some(s);
                symbol.detail_truncated = true;
            },
            None => {},
        }
        symbol
    }

    pub fn deprecated(&self) -> (res: bool)
        ensures
            res == self.deprecated_spec(),
    {
        self.deprecated
    }

    pub fn range(&self) -> (res: TextRange)
        ensures
            res@ == self.range_spec(),
    {
        self.range
    }

    pub fn selection_range(&self) -> (res: TextRange)
        ensures
            res@ == self.selection_range_spec(),
    {
        self.selection_range
    }

    pub fn depth(&self) -> (res: u8)
        ensures
            res == self.depth_spec(),
    {
        self.depth
    }
}

/// A `workspace/symbol` result entry.
#[derive(Clone, Debug, PartialEq, Eq)]
pub struct WorkspaceSymbol {
    pub name: NonEmptyText,
    pub kind: SymbolKind,
    pub container: Option<String>,
    pub file: AnalyzerFile,
    pub range: TextRange,
}

/// A `textDocument/references` result entry.
#[derive(Clone, Debug, PartialEq, Eq)]
pub struct Reference {
    pub file: AnalyzerFile,
    pub range: TextRange,
    pub is_declaration: bool,
}

/// The closed LSP `DiagnosticSeverity` set (values `1..=4`).
#[derive(Clone, Copy, Debug, PartialEq, Eq, Structural)]
pub enum DiagnosticSeverity {
    Error,
    Warning,
    Information,
    Hint,
}

/// What converting the wire number `value` gives.
pub open spec fn severity_from_code(value: u32) -> Result<DiagnosticSeverity, AnalyzerError> {
    if value == 1 {
        Ok(DiagnosticSeverity::Error)
    } else if value == 2 {
        Ok(DiagnosticSeverity::Warning)
    } else if value == 3 {
        Ok(DiagnosticSeverity::Information)
    } else if value == 4 {
        Ok(DiagnosticSeverity::Hint)
    } else {
        Err(AnalyzerError::UnknownSeverity)
    }
}

impl DiagnosticSeverity {
    /// The severity whose LSP number is `value`.
    pub fn from_code(value: u32) -> (res: Result<DiagnosticSeverity, AnalyzerError>)
        ensures
            res == severity_from_code(value),
    {
        match value {
            1 => Ok(DiagnosticSeverity::Error),
            2 => Ok(DiagnosticSeverity::Warning),
            3 => Ok(DiagnosticSeverity::Information),
            4 => Ok(DiagnosticSeverity::Hint),
            _ => Err(AnalyzerError::UnknownSeverity),
        }
    }
}

impl std::convert::TryFrom<u32> for DiagnosticSeverity {
    type Error = AnalyzerError;

    fn try_from(value: u32) -> Result<Self, AnalyzerError> {
        DiagnosticSeverity::from_code(value)
    }
}

impl TryFromSpecImpl<u32> for DiagnosticSeverity {
    open spec fn obeys_try_from_spec() -> bool {
        true
    }

    open spec fn try_from_spec(value: u32) -> Result<Self, AnalyzerError> {
        severity_from_code(value)
    }
}

/// A related span attached to a diagnostic.
#[derive(Clone, Debug, PartialEq, Eq)]
pub struct RelatedInformation {
    pub file: AnalyzerFile,
    pub range: TextRange,
    pub message: NonEmptyText,
}

pub const MAX_DIAGNOSTIC_CODE_CHARS: usize = 128;
pub const MAX_DIAGNOSTIC_MESSAGE_CHARS: usize = 4096;
pub const MAX_RELATED_INFORMATION: usize = 32;

/// A native analyzer diagnostic with bounded code, message and related spans.
#[derive(Clone, Debug, PartialEq, Eq)]
pub struct AnalyzerDiagnostic {
    file: AnalyzerFile,
    range: TextRange,
    severity: DiagnosticSeverity,
    code: Option<String>,
    message: NonEmptyText,
    related: Vec<RelatedInformation>,
}

/// Whether the parts of a diagnostic stay within their bounds.
pub open spec fn diagnostic_within_bounds(
    code: Option<Seq<char>>,
    message: Seq<char>,
    related: nat,
) -> bool {
    (code matches Some(c) ==> c.len() <= MAX_DIAGNOSTIC_CODE_CHARS)
        && message.len() <= MAX_DIAGNOSTIC_MESSAGE_CHARS && related <= MAX_RELATED_INFORMATION
}

impl AnalyzerDiagnostic {
    pub closed spec fn file_spec(&self) -> Seq<char> {
        self.file@
    }

    pub closed spec fn range_spec(&self) -> ((u32, u32), (u32, u32)) {
        self.range@
    }

    pub closed spec fn severity_spec(&self) -> DiagnosticSeverity {
        self.severity
    }

    pub closed spec fn code_spec(&self) -> Option<Seq<char>> {
        opt_str_view(self.code)
    }

    pub closed spec fn message_spec(&self) -> Seq<char> {
        self.message@
    }

    pub closed spec fn related_spec(&self) -> Seq<RelatedInformation> {
        self.related@
    }

    pub fn new(
        file: AnalyzerFile,
        range: TextRange,
        severity: DiagnosticSeverity,
        code: Option<String>,
        message: NonEmptyText,
        related: Vec<RelatedInformation>,
    ) -> (res: Result<Self, AnalyzerError>)
        ensures
            res is Ok <==> diagnostic_within_bounds(
                opt_str_view(code),
                message@,
                related@.len(),
            ),
            res matches Err(e) ==> e == AnalyzerError::LimitExceeded,
            res matches Ok(d) ==> d.file_spec() == file@ && d.range_spec() == range@
                && d.severity_spec() == severity && d.code_spec() == opt_str_view(code)
                && d.message_spec() == message@ && d.related_spec() == related@,
    {
        let code_too_long = match &code {
            Some(c) => char_count(c.as_str()) > MAX_DIAGNOSTIC_CODE_CHARS,
            None => false,
        };
        if code_too_long {
            return Err(AnalyzerError::LimitExceeded);
        }
        if char_count(message.as_str()) > MAX_DIAGNOSTIC_MESSAGE_CHARS {
            return Err(AnalyzerError::LimitExceeded);
        }
        if related.len() > MAX_RELATED_INFORMATION {
            return Err(AnalyzerError::LimitExceeded);
        }
        Ok(AnalyzerDiagnostic { file, range, severity, code, message, related })
    }

    pub fn file(&self) -> (res: &AnalyzerFile)
        ensures
            res@ == self.file_spec(),
    {
        &self.file
    }

    pub fn range(&self) -> (res: TextRange)
        ensures
            res@ == self.range_spec(),
    {
        self.range
    }

    pub fn severity(&self) -> (res: DiagnosticSeverity)
        ensures
            res == self.severity_spec(),
    {
        self.severity
    }

    pub fn code(&self) -> (res: Option<&str>)
        ensures
            match res {
                Some(c) => self.code_spec() == Some(c@),
                None => self.code_spec() is None,
            },
    {
        match &self.code {
            Some(c) => Some(c.as_str()),
            None => None,
        }
    }

    pub fn message(&self) -> (res: &NonEmptyText)
        ensures
            res@ == self.message_spec(),
    {
        &self.message
    }

    pub fn related(&self) -> (res: &[RelatedInformation])
        ensures
            res@ == self.related_spec(),
    {
        self.related.as_slice()
    }
}

/// The closed code action kinds this product resolves.
#[derive(Clone, Copy, Debug, PartialEq, Eq, Structural)]
pub enum CodeActionKind {
    QuickFix,
    Refactor,
    RefactorExtract,
    RefactorInline,
    RefactorRewrite,
    Source,
    SourceOrganizeImports,
}

/// The dotted LSP spelling of each kind.
pub open spec fn lsp_action_kind(k: CodeActionKind) -> Seq<char> {
    match k {
        CodeActionKind::QuickFix => "quickfix"@,
        CodeActionKind::Refactor => "refactor"@,
        CodeActionKind::RefactorExtract => "refactor.extract"@,
        CodeActionKind::RefactorInline => "refactor.inline"@,
        CodeActionKind::RefactorRewrite => "refactor.rewrite"@,
        CodeActionKind::Source => "source"@,
        CodeActionKind::SourceOrganizeImports => "source.organizeImports"@,
    }
}

impl CodeActionKind {
    pub fn from_lsp(value: &str) -> (res: Option<Self>)
        ensures
            res matches Some(k) ==> lsp_action_kind(k) == value@,
            res is None ==> forall|k: CodeActionKind| lsp_action_kind(k) != value@,
    {
        if str_eq(value, "quickfix") {
            Some(CodeActionKind::QuickFix)
        } else if str_eq(value, "refactor") {
            Some(CodeActionKind::Refactor)
        } else if str_eq(value, "refactor.extract") {
            Some(CodeActionKind::RefactorExtract)
        } else if str_eq(value, "refactor.inline") {
            Some(CodeActionKind::RefactorInline)
        } else if str_eq(value, "refactor.rewrite") {
            Some(CodeActionKind::RefactorRewrite)
        } else if str_eq(value, "source") {
            Some(CodeActionKind::Source)
        } else if str_eq(value, "source.organizeImports") {
            Some(CodeActionKind::SourceOrganizeImports)
        } else {
            proof {
                assert forall|k: CodeActionKind| lsp_action_kind(k) != value@ by {
                    match k {
                        CodeActionKind::QuickFix => {},
                        CodeActionKind::Refactor => {},
                        CodeActionKind::RefactorExtract => {},
                        CodeActionKind::RefactorInline => {},
                        CodeActionKind::RefactorRewrite => {},
                        CodeActionKind::Source => {},
                        CodeActionKind::SourceOrganizeImports => {},
                    }
                }
            }
            None
        }
    }

    pub fn to_lsp(self) -> (res: &'static str)
        ensures
            res@ == lsp_action_kind(self),
    {
        match self {
            CodeActionKind::QuickFix => "quickfix",
            CodeActionKind::Refactor => "refactor",
            CodeActionKind::RefactorExtract => "refactor.extract",
            CodeActionKind::RefactorInline => "refactor.inline",
            CodeActionKind::RefactorRewrite => "refactor.rewrite",
            CodeActionKind::Source => "source",
            CodeActionKind::SourceOrganizeImports => "source.organizeImports",
        }
    }
}

/// Distinct kinds have distinct LSP spellings, so `from_lsp` undoes `to_lsp`.
pub proof fn law_lsp_action_kind_injective(a: CodeActionKind, b: CodeActionKind)
    requires
        lsp_action_kind(a) == lsp_action_kind(b),
    ensures
        a == b,
{
    reveal_strlit("quickfix");
    reveal_strlit("refactor");
    reveal_strlit("refactor.extract");
    reveal_strlit("refactor.inline");
    reveal_strlit("refactor.rewrite");
    reveal_strlit("source");
    reveal_strlit("source.organizeImports");
    if a != b {
        let x = lsp_action_kind(a);
        let y = lsp_action_kind(b);
        assert(x.len() != y.len() || x[0] != y[0] || x[6] != y[6] || x[9] != y[9]);
    }
}

/// Every reason a code action is rejected instead of resolved.
#[derive(Clone, Copy, Debug, PartialEq, Eq, Structural)]
pub enum ActionRejection {
    Command,
    Snippet,
    ResourceOperation,
    ExternalUri,
    VersionMismatch,
    OverlappingRanges,
    EditLimit,
    BytesLimit,
    NotUtf8,
    FileNotInSnapshot,
    UnresolvedEdit,
}

/// One replacement of `range` with `new_text` inside `file`.
#[derive(Clone, Debug, PartialEq, Eq)]
pub struct TextEdit {
    pub file: AnalyzerFile,
    pub range: TextRange,
    pub new_text: String,
}

/// Why a result set omits an entry rather than reporting it.
#[derive(Clone, Copy, Debug, PartialEq, Eq, Structural)]
pub enum OmissionKind {
    ExternalUri,
    SysrootLocation,
    DependencyLocation,
    LimitVisible,
    NotUtf8File,
    UnresolvablePosition,
    OversizedEntry,
}

#[derive(Clone, Copy, Debug, PartialEq, Eq, Structural)]
pub struct Omission {
    pub kind: OmissionKind,
    pub count: u32,
}

#[derive(Clone, Copy, Debug, PartialEq, Eq, Structural)]
pub enum CompletenessState {
    Complete,
    Incomplete,
}

/// Why a result is `incomplete`.
#[derive(Clone, Copy, Debug, PartialEq, Eq, Structural)]
pub enum IncompleteReason {
    AnalyzerNotReady,
    LimitVisible,
    AnalyzerWarning,
    NotUtf8File,
    Timeout,
}

/// Whether some omission is a visible-result cap.
pub open spec fn has_limit_visible(omissions: Seq<Omission>) -> bool {
    exists|i: int| 0 <= i < omissions.len() && #[trigger] omissions[i].kind
        == OmissionKind::LimitVisible
}

/// Whether a result is exhaustive, and if not, why and what was left out.
/// A `Complete` result never carries a `LimitVisible` omission.
#[derive(Clone, Debug, PartialEq, Eq)]
pub struct Completeness {
    state: CompletenessState,
    omissions: Vec<Omission>,
    reasons: Vec<IncompleteReason>,
}

impl Completeness {
    pub closed spec fn state_spec(&self) -> CompletenessState {
        self.state
    }

    pub closed spec fn omissions_spec(&self) -> Seq<Omission> {
        self.omissions@
    }

    pub closed spec fn reasons_spec(&self) -> Seq<IncompleteReason> {
        self.reasons@
    }

    /// The invariant every value keeps.
    pub open spec fn well_formed(&self) -> bool {
        self.state_spec() == CompletenessState::Complete ==> !has_limit_visible(
            self.omissions_spec(),
        )
    }

    pub fn complete() -> (res: Self)
        ensures
            res.state_spec() == CompletenessState::Complete,
            res.omissions_spec().len() == 0,
            res.reasons_spec().len() == 0,
            res.well_formed(),
    {
        Completeness { state: CompletenessState::Complete, omissions: Vec::new(), reasons: Vec::new() }
    }

    pub fn incomplete(reasons: Vec<IncompleteReason>) -> (res: Self)
        ensures
            res.state_spec() == CompletenessState::Incomplete,
            res.omissions_spec().len() == 0,
            res.reasons_spec() == reasons@,
            res.well_formed(),
    {
        Completeness { state: CompletenessState::Incomplete, omissions: Vec::new(), reasons }
    }

    /// Attaches omissions; a `Complete` result refuses a `LimitVisible` one.
    pub fn with_omissions(self, omissions: Vec<Omission>) -> (res: Result<Self, AnalyzerError>)
        ensures
            res is Err <==> self.state_spec() == CompletenessState::Complete && has_limit_visible(
                omissions@,
            ),
            res matches Err(e) ==> e == AnalyzerError::Invalid,
            res matches Ok(c) ==> c.state_spec() == self.state_spec() && c.omissions_spec()
                == omissions@ && c.reasons_spec() == self.reasons_spec() && c.well_formed(),
    {
        let mut found = false;
        let mut i: usize = 0;
        while i < omissions.len()
            invariant
                i <= omissions@.len(),
                found <==> exists|j: int| 0 <= j < i && #[trigger] omissions@[j].kind
                    == OmissionKind::LimitVisible,
            decreases omissions@.len() - i,
        {
            if omissions[i].kind == OmissionKind::LimitVisible {
                found = true;
            }
            i = i + 1;
        }
        if self.state == CompletenessState::Complete && found {
            return Err(AnalyzerError::Invalid);
        }
        let mut c = self;
        c.omissions = omissions;
        Ok(c)
    }

    pub fn state(&self) -> (res: CompletenessState)
        ensures
            res == self.state_spec(),
    {
        self.state
    }

    pub fn omissions(&self) -> (res: &[Omission])
        ensures
            res@ == self.omissions_spec(),
    {
        self.omissions.as_slice()
    }

    pub fn reasons(&self) -> (res: &[IncompleteReason])
        ensures
            res@ == self.reasons_spec(),
    {
        self.reasons.as_slice()
    }
}

/// Which LSP position encoding the live server negotiated.
#[derive(Clone, Copy, Debug, PartialEq, Eq, Structural)]
pub enum PositionEncoding {
    Utf8,
    Utf16,
}

/// The exact runtime a result was produced against.
#[derive(Clone, Debug, PartialEq, Eq)]
pub struct AnalyzerIdentity {
    pub version: NonEmptyText,
    pub binary_sha256: SourceFingerprint,
    pub image_id: NonEmptyText,
    pub config_digest: SourceFingerprint,
    pub position_encoding: PositionEncoding,
}

/// Longest `workspace/symbol` query this product sends.
pub const MAX_SYMBOL_QUERY_CHARS: usize = 128;

/// A `workspace/symbol` query: 1..=[`MAX_SYMBOL_QUERY_CHARS`] Unicode scalars,
/// none of them a control character.
#[derive(Clone, Debug, PartialEq, Eq)]
pub struct SymbolQuery {
    query: String,
}

impl View for SymbolQuery {
    type V = Seq<char>;

    closed spec fn view(&self) -> Seq<char> {
        self.query@
    }
}

impl SymbolQuery {
    pub fn new(value: String) -> (res: Result<Self, AnalyzerError>)
        ensures
            (value@.len() == 0 || value@.len() > MAX_SYMBOL_QUERY_CHARS) ==> res
                == Err::<Self, AnalyzerError>(AnalyzerError::LimitExceeded),
            (1 <= value@.len() <= MAX_SYMBOL_QUERY_CHARS) ==> (res is Ok <==> !has_control_char(
                value@,
            )),
            (1 <= value@.len() <= MAX_SYMBOL_QUERY_CHARS && res is Err) ==> res == Err::<
                Self,
                AnalyzerError,
            >(AnalyzerError::Invalid),
            res matches Ok(q) ==> q@ == value@,
    {
        let characters = char_count(value.as_str());
        if characters == 0 || characters > MAX_SYMBOL_QUERY_CHARS {
            return Err(AnalyzerError::LimitExceeded);
        }
        if has_control(value.as_str()) {
            return Err(AnalyzerError::Invalid);
        }
        Ok(SymbolQuery { query: value })
    }

    pub fn as_str(&self) -> (res: &str)
        ensures
            res@ == self@,
    {
        self.query.as_str()
    }
}

/// Exactly one analyzer question per session.
#[derive(Clone, Debug, PartialEq, Eq)]
pub enum AnalyzerQuery {
    DocumentSymbols { file: AnalyzerFile },
    WorkspaceSymbols { query: SymbolQuery },
    References { file: AnalyzerFile, position: Position, include_declaration: bool },
    Diagnostics { file: AnalyzerFile },
    CodeActions { file: AnalyzerFile, range: TextRange, only: Vec<CodeActionKind> },
}

/// The captured file a query opens; `WorkspaceSymbols` names none.
pub open spec fn query_file(q: AnalyzerQuery) -> Option<AnalyzerFile> {
    match q {
        AnalyzerQuery::DocumentSymbols { file } => Some(file),
        AnalyzerQuery::WorkspaceSymbols { .. } => None,
        AnalyzerQuery::References { file, .. } => Some(file),
        AnalyzerQuery::Diagnostics { file } => Some(file),
        AnalyzerQuery::CodeActions { file, .. } => Some(file),
    }
}

impl AnalyzerQuery {
    /// The captured file this query opens.
    pub fn file(&self) -> (res: Option<&AnalyzerFile>)
        ensures
            match res {
                Some(f) => query_file(*self) == Some(*f),
                None => query_file(*self) is None,
            },
    {
        match self {
            AnalyzerQuery::DocumentSymbols { file } => Some(file),
            AnalyzerQuery::WorkspaceSymbols { .. } => None,
            AnalyzerQuery::References { file, .. } => Some(file),
            AnalyzerQuery::Diagnostics { file } => Some(file),
            AnalyzerQuery::CodeActions { file, .. } => Some(file),
        }
    }
}

/// One resolved, applicable code action.
#[derive(Clone, Debug, PartialEq, Eq)]
pub struct AnalyzerAction {
    pub title: NonEmptyText,
    pub kind: Option<CodeActionKind>,
    pub is_preferred: bool,
    pub edits: Vec<TextEdit>,
}

/// One element of a `textDocument/codeAction` answer.
#[derive(Clone, Debug, PartialEq, Eq)]
pub enum ActionCandidate {
    Applicable(AnalyzerAction),
    Rejected(ActionRejection),
}

/// The answer to exactly one [`AnalyzerQuery`].
#[derive(Clone, Debug, PartialEq, Eq)]
pub enum AnalyzerResult {
    DocumentSymbols(Vec<DocumentSymbol>),
    WorkspaceSymbols(Vec<WorkspaceSymbol>),
    References(Vec<Reference>),
    Diagnostics(Vec<AnalyzerDiagnostic>),
    CodeActions(Vec<ActionCandidate>),
}

/// Whether result `r` has the shape of an answer to `q`.
pub open spec fn answers_spec(r: AnalyzerResult, q: AnalyzerQuery) -> bool {
    ||| (r is DocumentSymbols && q is DocumentSymbols)
    ||| (r is WorkspaceSymbols && q is WorkspaceSymbols)
    ||| (r is References && q is References)
    ||| (r is Diagnostics && q is Diagnostics)
    ||| (r is CodeActions && q is CodeActions)
}

impl AnalyzerResult {
    /// Whether this answer belongs to `query`.
    pub fn answers(&self, query: &AnalyzerQuery) -> (res: bool)
        ensures
            res == answers_spec(*self, *query),
    {
        match (self, query) {
            (AnalyzerResult::DocumentSymbols(_), AnalyzerQuery::DocumentSymbols { .. }) => true,
            (AnalyzerResult::WorkspaceSymbols(_), AnalyzerQuery::WorkspaceSymbols { .. }) => true,
            (AnalyzerResult::References(_), AnalyzerQuery::References { .. }) => true,
            (AnalyzerResult::Diagnostics(_), AnalyzerQuery::Diagnostics { .. }) => true,
            (AnalyzerResult::CodeActions(_), AnalyzerQuery::CodeActions { .. }) => true,
            _ => false,
        }
    }
}

/// The `health` field of `experimental/serverStatus`.
#[derive(Clone, Copy, Debug, PartialEq, Eq, Structural)]
pub enum ServerHealth {
    Healthy,
    Warning,
    Error,
}

/// The wire spelling of each health.
pub open spec fn health_wire(h: ServerHealth) -> Seq<char> {
    match h {
        ServerHealth::Healthy => "ok"@,
        ServerHealth::Warning => "warning"@,
        ServerHealth::Error => "error"@,
    }
}

impl ServerHealth {
    /// An unrecognised spelling has no value: it is never treated as healthy.
    pub fn from_wire(value: &str) -> (res: Option<Self>)
        ensures
            res matches Some(h) ==> health_wire(h) == value@,
            res is None ==> forall|h: ServerHealth| health_wire(h) != value@,
    {
        if str_eq(value, "ok") {
            Some(ServerHealth::Healthy)
        } else if str_eq(value, "warning") {
            Some(ServerHealth::Warning)
        } else if str_eq(value, "error") {
            Some(ServerHealth::Error)
        } else {
            proof {
                assert forall|h: ServerHealth| health_wire(h) != value@ by {
                    match h {
                        ServerHealth::Healthy => {},
                        ServerHealth::Warning => {},
                        ServerHealth::Error => {},
                    }
                }
            }
            None
        }
    }
}

/// Whether the server reached the readiness oracle, and how long that took.
#[derive(Clone, Copy, Debug, PartialEq, Eq, Structural)]
pub enum AnalyzerReadiness {
    Quiescent { elapsed_ms: u64, health: ServerHealth },
    NotReady { elapsed_ms: u64 },
}

/// How a duplex LSP session ended.
#[derive(Clone, Copy, Debug, PartialEq, Eq, Structural)]
pub enum SessionStop {
    NotStarted,
    Exited,
    Killed,
    KillUncertain,
    Timeout,
    Cancelled,
    Eof,
}

/// One recorded `experimental/serverStatus` notification.
#[derive(Clone, Copy, Debug, PartialEq, Eq, Structural)]
pub struct ServerStatusObservation {
    pub quiescent: bool,
    pub health: Option<ServerHealth>,
    pub elapsed_ms: u64,
}

/// How many readiness observations a summary publishes.
pub const MAX_PUBLISHED_STATUS: usize = 32;

/// What one session did, with none of the peer's text in it.
#[derive(Clone, Debug, PartialEq, Eq)]
pub struct SessionSummary {
    pub stop: SessionStop,
    pub exit_code: Option<i32>,
    pub messages_in: u32,
    pub messages_out: u32,
    pub bytes_in: u64,
    pub bytes_out: u64,
    pub stderr_bytes: u64,
    pub stderr_sha256: SourceFingerprint,
    pub stderr_truncated: bool,
    pub server_requests_refused: u32,
    pub notifications_dropped: u32,
    pub late_responses: u32,
    pub status_transcript: Vec<ServerStatusObservation>,
    pub status_notifications: u32,
    pub fault: Option<AnalyzerFailure>,
    pub declared_frame_bytes: Option<u64>,
    pub kill_error: Option<NonEmptyText>,
    pub reap_error: Option<NonEmptyText>,
    pub duration_ms: u64,
}

/// Why a call produced no answer.
#[derive(Clone, Copy, Debug, PartialEq, Eq, Structural)]
pub enum AnalyzerFailure {
    FileNotInSnapshot,
    FileNotUtf8,
    UnsupportedProjectConfig,
    PositionOutOfRange,
    CapabilityMismatch,
    NotReady,
    Crashed,
    ProtocolLimit,
    FrameTooLarge,
    MalformedHeader,
    ProtocolViolation,
    ServerError,
    TimeoutInitialize,
    TimeoutQuery,
    TimeoutTotal,
    Cancelled,
}

/// Exactly one of an answer or a named failure.
#[derive(Clone, Debug, PartialEq, Eq)]
pub enum AnalyzerOutcome {
    Answered(AnalyzerResult),
    Failed(AnalyzerFailure),
}

/// The runtime a session ran against, as known from the admitted image alone.
#[derive(Clone, Debug, PartialEq, Eq)]
pub struct AnalyzerRuntime {
    pub version: NonEmptyText,
    pub binary_sha256: SourceFingerprint,
    pub image_id: NonEmptyText,
    pub config_digest: SourceFingerprint,
}

impl AnalyzerRuntime {
    /// The full published identity, once an encoding really was negotiated.
    pub fn negotiated(&self, position_encoding: PositionEncoding) -> (res: AnalyzerIdentity)
        ensures
            res.version@ == self.version@,
            res.binary_sha256@ == self.binary_sha256@,
            res.image_id@ == self.image_id@,
            res.config_digest@ == self.config_digest@,
            res.position_encoding == position_encoding,
    {
        AnalyzerIdentity {
            version: self.version.duplicate(),
            binary_sha256: self.binary_sha256.duplicate(),
            image_id: self.image_id.duplicate(),
            config_digest: self.config_digest.duplicate(),
            position_encoding,
        }
    }
}

/// One complete analyzer call, answer or failure, with its own evidence.
#[derive(Clone, Debug, PartialEq, Eq)]
pub struct AnalyzerExecution {
    pub identity: AnalyzerRuntime,
    pub position_encoding: Option<PositionEncoding>,
    pub readiness: AnalyzerReadiness,
    pub outcome: AnalyzerOutcome,
    pub completeness: Completeness,
    pub session: SessionSummary,
    pub termination: ExecutionTermination,
    pub oom_killed: Option<bool>,
    pub call_duration_ms: u64,
}

impl AnalyzerExecution {
    /// The answer, when there is one.
    pub fn result(&self) -> (res: Option<&AnalyzerResult>)
        ensures
            match self.outcome {
                AnalyzerOutcome::Answered(r) => res == Some(&r),
                AnalyzerOutcome::Failed(_) => res is None,
            },
    {
        match &self.outcome {
            AnalyzerOutcome::Answered(result) => Some(result),
            AnalyzerOutcome::Failed(_) => None,
        }
    }

    pub fn failure(&self) -> (res: Option<AnalyzerFailure>)
        ensures
            match self.outcome {
                AnalyzerOutcome::Answered(_) => res is None,
                AnalyzerOutcome::Failed(f) => res == Some(f),
            },
    {
        match &self.outcome {
            AnalyzerOutcome::Answered(_) => None,
            AnalyzerOutcome::Failed(failure) => Some(*failure),
        }
    }
}


// ---------------------------------------------------------------------
// Applying edits to captured bytes.
// ---------------------------------------------------------------------

/// An edit as its range and replacement text.
pub open spec fn edit_view(e: (TextRange, &str)) -> (((u32, u32), (u32, u32)), Seq<char>) {
    (e.0@, e.1@)
}

/// Whether both ends of edit `e` resolve to byte offsets of `s`.
pub open spec fn edit_resolves(s: Seq<char>, e: (((u32, u32), (u32, u32)), Seq<char>)) -> bool {
    &&& byte_offset_from_position_spec(s, e.0.0.0 as int, e.0.0.1 as int) is Ok
    &&& byte_offset_from_position_spec(s, e.0.1.0 as int, e.0.1.1 as int) is Ok
}

/// The byte range and replacement bytes of a resolving edit.
pub open spec fn span_of(s: Seq<char>, e: (((u32, u32), (u32, u32)), Seq<char>)) -> (int, int, Seq<u8>) {
    (
        byte_offset_from_position_spec(s, e.0.0.0 as int, e.0.0.1 as int)->Ok_0,
        byte_offset_from_position_spec(s, e.0.1.0 as int, e.0.1.1 as int)->Ok_0,
        encode_utf8(e.1),
    )
}

/// The spans of all edits, in input order.
pub open spec fn spans_of(s: Seq<char>, edits: Seq<(((u32, u32), (u32, u32)), Seq<char>)>) -> Seq<(int, int, Seq<u8>)> {
    edits.map_values(|e: (((u32, u32), (u32, u32)), Seq<char>)| span_of(s, e))
}

/// Two spans begin at the same byte.
pub open spec fn shares_start(x: Seq<(int, int, Seq<u8>)>) -> bool {
    exists|i: int, j: int| 0 <= i < j < x.len() && #[trigger] x[i].0 == #[trigger] x[j].0
}

/// Starts strictly increase.
pub open spec fn strictly_sorted(x: Seq<(int, int, Seq<u8>)>) -> bool {
    forall|i: int, j: int| 0 <= i < j < x.len() ==> #[trigger] x[i].0 < #[trigger] x[j].0
}

/// Sorted by `(start, end)`.
pub open spec fn sorted_by_range(x: Seq<(int, int, Seq<u8>)>) -> bool {
    forall|i: int, j: int|
        0 <= i < j < x.len() ==> #[trigger] x[i].0 < #[trigger] x[j].0 || (x[i].0 == x[j].0 && x[i].1
            <= x[j].1)
}

/// The spans of `m` ordered by their start, when their starts are distinct.
pub open spec fn sorted_spans(m: Multiset<(int, int, Seq<u8>)>) -> Seq<(int, int, Seq<u8>)> {
    choose|y: Seq<(int, int, Seq<u8>)>| y.to_multiset() == m && strictly_sorted(y)
}

/// Some span ends after the next one starts.
pub open spec fn adjacent_overlap(y: Seq<(int, int, Seq<u8>)>) -> bool {
    exists|k: int| 0 <= k < y.len() - 1 && #[trigger] y[k].1 > y[k + 1].0
}

/// Each span starts after the previous one starts and no earlier than it ends.
pub open spec fn disjoint_ordered(x: Seq<(int, int, Seq<u8>)>) -> bool {
    forall|a: int| 0 <= a < x.len() - 1 ==> #[trigger] x[a].0 < x[a + 1].0 && x[a].1 <= x[a + 1].0
}

/// `src` from `cursor` on, with each span of `y` replaced by its bytes.
pub open spec fn splice(src: Seq<u8>, y: Seq<(int, int, Seq<u8>)>, cursor: int) -> Seq<u8>
    decreases y.len(),
{
    if y.len() == 0 {
        src.subrange(cursor, src.len() as int)
    } else {
        src.subrange(cursor, y[0].0) + y[0].2 + splice(src, y.drop_first(), y[0].1)
    }
}

/// What `apply_edits` answers for `bytes` and `edits`.
pub open spec fn apply_edits_spec(
    bytes: Seq<u8>,
    edits: Seq<(((u32, u32), (u32, u32)), Seq<char>)>,
) -> Result<Seq<u8>, AnalyzerError> {
    if !valid_utf8(bytes) {
        Err(AnalyzerError::NotUtf8)
    } else {
        let s = decode_utf8(bytes);
        if exists|i: int| 0 <= i < edits.len() && !#[trigger] edit_resolves(s, edits[i]) {
            Err(AnalyzerError::OutOfRange)
        } else {
            let x = spans_of(s, edits);
            if shares_start(x) || adjacent_overlap(sorted_spans(x.to_multiset())) {
                Err(AnalyzerError::OverlappingRanges)
            } else {
                Ok(splice(bytes, sorted_spans(x.to_multiset()), 0))
            }
        }
    }
}


/// The edits, each as its range and replacement text.
pub open spec fn edits_view(edits: Seq<(TextRange, &str)>) -> Seq<(((u32, u32), (u32, u32)), Seq<char>)> {
    edits.map_values(|e: (TextRange, &str)| edit_view(e))
}

/// Resolved spans held as byte offsets and replacement text.
pub open spec fn exec_spans(v: Seq<(usize, usize, &str)>) -> Seq<(int, int, Seq<u8>)> {
    v.map_values(|t: (usize, usize, &str)| (t.0 as int, t.1 as int, t.2.spec_bytes()))
}

/// Appends `src[from..to]` to `out`.
fn extend_bytes(out: &mut Vec<u8>, src: &[u8], from: usize, to: usize)
    requires
        from <= to <= src@.len(),
    ensures
        final(out)@ == old(out)@ + src@.subrange(from as int, to as int),
{
    let ghost first = out@;
    let mut i = from;
    while i < to
        invariant
            from <= i <= to,
            to <= src@.len(),
            out@ == first + src@.subrange(from as int, i as int),
        decreases to - i,
    {
        out.push(src[i]);
        i = i + 1;
        assert(out@ =~= first + src@.subrange(from as int, i as int));
    }
}

/// Inserts `item` into `spans`, keeping them sorted by `(start, end)`.
fn insert_by_range<'a>(spans: &mut Vec<(usize, usize, &'a str)>, item: (usize, usize, &'a str))
    requires
        sorted_by_range(exec_spans(old(spans)@)),
    ensures
        sorted_by_range(exec_spans(final(spans)@)),
        exec_spans(final(spans)@).to_multiset() == exec_spans(old(spans)@).to_multiset().insert(
            (item.0 as int, item.1 as int, item.2.spec_bytes()),
        ),
        forall|k: int|
            0 <= k < final(spans)@.len() ==> #[trigger] final(spans)@[k] == item || old(
                spans,
            )@.contains(final(spans)@[k]),
{
    let ghost x = exec_spans(spans@);
    let ghost old_spans = spans@;
    let start = item.0;
    let end = item.1;
    let mut pos: usize = 0;
    while pos < spans.len() && (spans[pos].0 < start || (spans[pos].0 == start && spans[pos].1
        <= end))
        invariant
            pos <= spans@.len(),
            x == exec_spans(spans@),
            sorted_by_range(x),
            forall|a: int|
                0 <= a < pos ==> #[trigger] spans@[a].0 < start || (spans@[a].0 == start
                    && spans@[a].1 <= end),
        decreases spans@.len() - pos,
    {
        pos = pos + 1;
    }
    let ghost it = (start as int, end as int, item.2.spec_bytes());
    proof {
        assert forall|a: int| pos <= a < x.len() implies #[trigger] x[a].0 > start || (x[a].0
            == start && x[a].1 > end) by {
            if a > pos {
                assert(x[pos as int].0 < x[a].0 || (x[pos as int].0 == x[a].0 && x[pos as int].1
                    <= x[a].1));
            }
        }
    }
    spans.insert(pos, item);
    proof {
        let y = exec_spans(spans@);
        assert(y =~= x.insert(pos as int, it));
        assert forall|a: int, b: int| 0 <= a < b < y.len() implies #[trigger] y[a].0
            < #[trigger] y[b].0 || (y[a].0 == y[b].0 && y[a].1 <= y[b].1) by {
            if b < pos {
                assert(y[a] == x[a] && y[b] == x[b]);
            } else if b == pos {
                assert(y[a] == x[a]);
            } else if a < pos {
                assert(y[a] == x[a] && y[b] == x[b - 1]);
            } else if a == pos {
                assert(y[b] == x[b - 1]);
            } else {
                assert(y[a] == x[a - 1] && y[b] == x[b - 1]);
            }
        }
        vstd::seq_lib::to_multiset_insert(x, pos as int, it);
        assert forall|k: int|
            0 <= k < spans@.len() implies #[trigger] spans@[k] == item || old_spans.contains(
            spans@[k]) by {
            if k < pos {
                assert(spans@[k] == old_spans[k]);
            } else if k > pos {
                assert(spans@[k] == old_spans[k - 1]);
            }
        }
    }
}

/// Resolves every edit against `index` and sorts the spans by `(start, end)`.
fn resolve_spans<'a>(index: &LineIndex, before: &[u8], edits: &[(TextRange, &'a str)]) -> (res:
    Result<Vec<(usize, usize, &'a str)>, AnalyzerError>)
    requires
        valid_utf8(before@),
        index@ == decode_utf8(before@),
    ensures
        match res {
            Ok(v) => {
                &&& forall|k: int|
                    0 <= k < edits@.len() ==> #[trigger] edit_resolves(
                        index@,
                        edits_view(edits@)[k],
                    )
                &&& exec_spans(v@).to_multiset() == spans_of(
                    index@,
                    edits_view(edits@),
                ).to_multiset()
                &&& sorted_by_range(exec_spans(v@))
                &&& forall|k: int|
                    0 <= k < v@.len() ==> #[trigger] v@[k].0 <= before@.len() && v@[k].1
                        <= before@.len()
            },
            Err(e) => e == AnalyzerError::OutOfRange && exists|k: int|
                0 <= k < edits@.len() && !#[trigger] edit_resolves(index@, edits_view(edits@)[k]),
        },
{
    let ghost s = index@;
    let ghost ev = edits_view(edits@);
    proof {
        lemma_decoded_len(before@);
    }
    let mut spans: Vec<(usize, usize, &str)> = Vec::new();
    let mut i: usize = 0;
    assert(exec_spans(spans@) =~= Seq::<(int, int, Seq<u8>)>::empty());
    assert(spans_of(s, ev.take(0)) =~= Seq::<(int, int, Seq<u8>)>::empty());
    while i < edits.len()
        invariant
            i <= edits@.len(),
            s == index@,
            utf8_len(s) == before@.len(),
            ev == edits_view(edits@),
            forall|k: int| 0 <= k < i ==> #[trigger] edit_resolves(s, ev[k]),
            exec_spans(spans@).to_multiset() == spans_of(s, ev.take(i as int)).to_multiset(),
            sorted_by_range(exec_spans(spans@)),
            forall|k: int|
                0 <= k < spans@.len() ==> #[trigger] spans@[k].0 <= before@.len() && spans@[k].1
                    <= before@.len(),
        decreases edits@.len() - i,
    {
        let edit = edits[i];
        let range = edit.0;
        let text = edit.1;
        assert(ev[i as int] == edit_view(edit));
        let start = match index.byte_offset_from_position(range.start()) {
            Ok(o) => o,
            Err(e) => {
                assert(!edit_resolves(s, ev[i as int]));
                return Err(e);
            },
        };
        let end = match index.byte_offset_from_position(range.end()) {
            Ok(o) => o,
            Err(e) => {
                assert(!edit_resolves(s, ev[i as int]));
                return Err(e);
            },
        };
        proof {
            lemma_offset_within(s, range@.0.0 as int, range@.0.1 as int);
            lemma_offset_within(s, range@.1.0 as int, range@.1.1 as int);
        }
        let ghost prev = spans@;
        insert_by_range(&mut spans, (start, end, text));
        proof {
            assert(ev.take(i + 1) =~= ev.take(i as int).push(ev[i as int]));
            assert(spans_of(s, ev.take(i + 1)) =~= spans_of(s, ev.take(i as int)).push(
                span_of(s, ev[i as int]),
            ));
            vstd::seq_lib::to_multiset_build(spans_of(s, ev.take(i as int)), span_of(s, ev[i as int]));
            assert forall|k: int|
                0 <= k < spans@.len() implies #[trigger] spans@[k].0 <= before@.len()
                && spans@[k].1 <= before@.len() by {
                if spans@[k] != (start, end, text) {
                    let j = choose|j: int| 0 <= j < prev.len() && prev[j] == spans@[k];
                    assert(prev[j].0 <= before@.len());
                }
            }
        }
        i = i + 1;
    }
    assert(ev.take(edits@.len() as int) =~= ev);
    Ok(spans)
}

/// Whether each span starts after the previous one starts and no earlier than it ends.
#[verifier::spinoff_prover]
fn spans_disjoint(spans: &Vec<(usize, usize, &str)>) -> (res: bool)
    ensures
        res == disjoint_ordered(exec_spans(spans@)),
{
    let ghost x = exec_spans(spans@);
    assert(x.len() == spans@.len());
    let mut k: usize = 0;
    while k < spans.len() && k + 1 < spans.len()
        invariant
            k <= spans@.len(),
            x == exec_spans(spans@),
            x.len() == spans@.len(),
            forall|a: int| 0 <= a < k ==> #[trigger] x[a].0 < x[a + 1].0 && x[a].1 <= x[a + 1].0,
        decreases spans@.len() - k,
    {
        if spans[k].0 >= spans[k + 1].0 || spans[k].1 > spans[k + 1].0 {
            assert(!(x[k as int].0 < x[k + 1].0 && x[k as int].1 <= x[k + 1].0));
            proof {
                if disjoint_ordered(x) {
                    let a = k as int;
                    assert(0 <= a < x.len() - 1);
                    assert(x[a].0 < x[a + 1].0 && x[a].1 <= x[a + 1].0);
                }
            }
            return false;
        }
        assert(x[k as int].0 < x[k + 1].0 && x[k as int].1 <= x[k + 1].0);
        k = k + 1;
    }
    assert(k >= spans@.len() || k + 1 >= spans@.len());
    assert forall|a: int| 0 <= a < x.len() - 1 implies #[trigger] x[a].0 < x[a + 1].0 && x[a].1 <= x[a
        + 1].0 by {
        assert(a < k);
        assert(x[a].0 < x[a + 1].0);
    }
    true
}

/// With spans sorted by range: they are disjoint exactly when no two share a
/// start and the ordering by start has no overlap, and that ordering is `x`.
#[verifier::spinoff_prover]
proof fn lemma_disjoint_decision(x: Seq<(int, int, Seq<u8>)>, big_x: Seq<(int, int, Seq<u8>)>)
    requires
        x.to_multiset() == big_x.to_multiset(),
        sorted_by_range(x),
    ensures
        disjoint_ordered(x) <==> !(shares_start(big_x) || adjacent_overlap(
            sorted_spans(big_x.to_multiset()),
        )),
        disjoint_ordered(x) ==> sorted_spans(big_x.to_multiset()) == x,
{
    let y = sorted_spans(big_x.to_multiset());
    if shares_start(x) {
        lemma_shares_start_multiset(x, big_x);
        let (i, j) = choose|i: int, j: int| 0 <= i < j < x.len() && #[trigger] x[i].0 == #[trigger] x[j].0;
        assert(x[i].0 <= x[i + 1].0);
        if i + 1 < j {
            assert(x[i + 1].0 < x[j].0 || (x[i + 1].0 == x[j].0 && x[i + 1].1 <= x[j].1));
        }
        assert(!(x[i].0 < x[i + 1].0));
    } else {
        if shares_start(big_x) {
            lemma_shares_start_multiset(big_x, x);
        }
        assert forall|a: int, b: int| 0 <= a < b < x.len() implies #[trigger] x[a].0
            < #[trigger] x[b].0 by {
            assert(x[a].0 < x[b].0 || (x[a].0 == x[b].0 && x[a].1 <= x[b].1));
            if x[a].0 == x[b].0 {
                assert(shares_start(x));
            }
        }
        assert(x.to_multiset() == big_x.to_multiset() && strictly_sorted(x));
        lemma_strictly_sorted_unique(x, y);
        if adjacent_overlap(x) {
            let k = choose|k: int| 0 <= k < x.len() - 1 && #[trigger] x[k].1 > x[k + 1].0;
            assert(!(x[k].0 < x[k + 1].0 && x[k].1 <= x[k + 1].0));
        } else {
            assert forall|a: int| 0 <= a < x.len() - 1 implies #[trigger] x[a].0 < x[a + 1].0
                && x[a].1 <= x[a + 1].0 by {
                assert(!(x[a].1 > x[a + 1].0));
            }
        }
    }
}

/// `before` with each of the disjoint, ordered spans replaced by its text.
fn splice_bytes(before: &[u8], spans: &Vec<(usize, usize, &str)>) -> (res: Vec<u8>)
    requires
        disjoint_ordered(exec_spans(spans@)),
        forall|a: int|
            0 <= a < spans@.len() ==> #[trigger] spans@[a].0 <= before@.len() && spans@[a].1
                <= before@.len(),
    ensures
        res@ == splice(before@, exec_spans(spans@), 0),
{
    let ghost x = exec_spans(spans@);
    let mut result: Vec<u8> = Vec::new();
    let mut cursor: usize = 0;
    let mut k: usize = 0;
    assert(x.skip(0) =~= x);
    assert(result@ + splice(before@, x.skip(0), 0) =~= splice(before@, x, 0));
    while k < spans.len()
        invariant
            k <= spans@.len(),
            x == exec_spans(spans@),
            cursor <= before@.len(),
            k < spans@.len() ==> cursor <= spans@[k as int].0,
            result@ + splice(before@, x.skip(k as int), cursor as int) == splice(before@, x, 0),
            disjoint_ordered(x),
            forall|a: int|
                0 <= a < spans@.len() ==> #[trigger] spans@[a].0 <= before@.len() && spans@[a].1
                    <= before@.len(),
        decreases spans@.len() - k,
    {
        let span = spans[k];
        let ghost before_result = result@;
        let ghost rest = x.skip(k as int);
        proof {
            assert(rest.drop_first() =~= x.skip(k + 1));
            assert(rest[0] == x[k as int]);
        }
        extend_bytes(&mut result, before, cursor, span.0);
        let bytes = span.2.as_bytes();
        extend_bytes(&mut result, bytes, 0, bytes.len());
        proof {
            assert(bytes@.subrange(0, bytes@.len() as int) =~= bytes@);
            assert(result@ =~= before_result + before@.subrange(cursor as int, span.0 as int)
                + span.2.spec_bytes());
            assert(splice(before@, rest, cursor as int) == before@.subrange(cursor as int, span.0 as int)
                + span.2.spec_bytes() + splice(before@, x.skip(k + 1), span.1 as int));
            assert(result@ + splice(before@, x.skip(k + 1), span.1 as int) =~= before_result
                + splice(before@, rest, cursor as int));
        }
        cursor = span.1;
        k = k + 1;
    }
    let ghost before_result = result@;
    proof {
        assert(x.skip(k as int).len() == 0);
    }
    extend_bytes(&mut result, before, cursor, before.len());
    result
}

/// Applies non-overlapping edits to `before`, returning the resulting bytes.
///
/// `edits` may arrive in any order: they are applied left to right after
/// sorting on `(start, end)`. Touching edits are accepted; two edits sharing a
/// start, or one ending after the next begins, are `OverlappingRanges`.
pub fn apply_edits(before: &[u8], edits: &[(TextRange, &str)]) -> (res: Result<Vec<u8>, AnalyzerError>)
    ensures
        match res {
            Ok(v) => apply_edits_spec(before@, edits_view(edits@)) == Ok::<Seq<u8>, AnalyzerError>(v@),
            Err(e) => apply_edits_spec(before@, edits_view(edits@)) == Err::<Seq<u8>, AnalyzerError>(e),
        },
{
    let index = match LineIndex::new(before) {
        Ok(i) => i,
        Err(e) => return Err(e),
    };
    let spans = match resolve_spans(&index, before, edits) {
        Ok(v) => v,
        Err(e) => return Err(e),
    };
    let ghost x = exec_spans(spans@);
    let ghost big_x = spans_of(index@, edits_view(edits@));
    proof {
        lemma_disjoint_decision(x, big_x);
    }
    let disjoint = spans_disjoint(&spans);
    if !disjoint {
        return Err(AnalyzerError::OverlappingRanges);
    }
    Ok(splice_bytes(before, &spans))
}

/// Two equal entries at different indices count twice.
proof fn lemma_count_two<A>(s: Seq<A>, i: int, j: int)
    requires
        0 <= i < j < s.len(),
        s[i] == s[j],
    ensures
        s.to_multiset().count(s[i]) >= 2,
{
    broadcast use vstd::seq_lib::group_to_multiset_ensures, vstd::multiset::group_multiset_axioms;

    let r = s.remove(j);
    assert(r.len() == s.len() - 1);
    assert(r[i] == s[i]);
    assert(r.contains(s[i]));
    assert(r.to_multiset().count(s[i]) > 0);
    assert(r.to_multiset() == s.to_multiset().remove(s[j]));
    assert(s.to_multiset().remove(s[j]).count(s[i]) == s.to_multiset().count(s[i]) - 1);
}

/// A value counted twice sits at two different indices.
proof fn lemma_two_indices<A>(s: Seq<A>, v: A) -> (r: (int, int))
    requires
        s.to_multiset().count(v) >= 2,
    ensures
        0 <= r.0 < r.1 < s.len(),
        s[r.0] == v,
        s[r.1] == v,
{
    broadcast use vstd::seq_lib::group_to_multiset_ensures, vstd::multiset::group_multiset_axioms;

    assert(s.to_multiset().count(v) > 0);
    assert(s.contains(v));
    let p = choose|p: int| 0 <= p < s.len() && s[p] == v;
    let r = s.remove(p);
    assert(r.to_multiset() == s.to_multiset().remove(v));
    assert(r.to_multiset().count(v) >= 1);
    assert(r.contains(v));
    let q0 = choose|q: int| 0 <= q < r.len() && r[q] == v;
    let q = if q0 < p {
        q0
    } else {
        q0 + 1
    };
    assert(s[q] == v);
    if p < q {
        (p, q)
    } else {
        (q, p)
    }
}

/// Sharing a start depends on the multiset of spans only.
proof fn lemma_shares_start_multiset(a: Seq<(int, int, Seq<u8>)>, b: Seq<(int, int, Seq<u8>)>)
    requires
        a.to_multiset() == b.to_multiset(),
        shares_start(a),
    ensures
        shares_start(b),
{
    broadcast use vstd::seq_lib::group_to_multiset_ensures, vstd::multiset::group_multiset_axioms;

    let (i, j) = choose|i: int, j: int| 0 <= i < j < a.len() && #[trigger] a[i].0 == #[trigger] a[j].0;
    if a[i] == a[j] {
        lemma_count_two(a, i, j);
        let (p, q) = lemma_two_indices(b, a[i]);
        assert(b[p].0 == b[q].0);
    } else {
        assert(a.contains(a[i]));
        assert(a.contains(a[j]));
        assert(a.to_multiset().count(a[i]) > 0);
        assert(a.to_multiset().count(a[j]) > 0);
        assert(b.to_multiset().count(a[i]) > 0);
        assert(b.to_multiset().count(a[j]) > 0);
        assert(b.contains(a[i]));
        assert(b.contains(a[j]));
        let p = choose|p: int| 0 <= p < b.len() && b[p] == a[i];
        let q = choose|q: int| 0 <= q < b.len() && b[q] == a[j];
        if p < q {
            assert(b[p].0 == b[q].0);
        } else {
            assert(b[q].0 == b[p].0);
        }
    }
}

/// Two strictly sorted orderings of the same spans are the same sequence.
proof fn lemma_strictly_sorted_unique(x: Seq<(int, int, Seq<u8>)>, y: Seq<(int, int, Seq<u8>)>)
    requires
        strictly_sorted(x),
        strictly_sorted(y),
        x.to_multiset() == y.to_multiset(),
    ensures
        x == y,
    decreases x.len(),
{
    broadcast use vstd::seq_lib::group_to_multiset_ensures, vstd::multiset::group_multiset_axioms;

    vstd::seq_lib::to_multiset_len(x);
    vstd::seq_lib::to_multiset_len(y);
    if x.len() == 0 {
        assert(y.len() == 0);
        assert(x =~= y);
    } else {
        assert(y.len() == x.len());
        assert(x.contains(x[0]));
        assert(y.contains(y[0]));
        assert(x.to_multiset().count(x[0]) > 0);
        assert(y.to_multiset().count(y[0]) > 0);
        assert(y.to_multiset().count(x[0]) > 0);
        assert(x.to_multiset().count(y[0]) > 0);
        assert(y.contains(x[0]));
        assert(x.contains(y[0]));
        let i = choose|i: int| 0 <= i < y.len() && y[i] == x[0];
        let j = choose|j: int| 0 <= j < x.len() && x[j] == y[0];
        if j > 0 {
            assert(x[0].0 < x[j].0);
            if i > 0 {
                assert(y[0].0 < y[i].0);
            }
        }
        if i > 0 {
            assert(y[0].0 < y[i].0);
        }
        assert(x[0] == y[0]);
        assert(x.remove(0) =~= x.drop_first());
        assert(y.remove(0) =~= y.drop_first());
        assert(x.drop_first().to_multiset() == x.to_multiset().remove(x[0]));
        assert(y.drop_first().to_multiset() == y.to_multiset().remove(y[0]));
        lemma_strictly_sorted_unique(x.drop_first(), y.drop_first());
        assert forall|k: int| 0 <= k < x.len() implies x[k] == y[k] by {
            if k > 0 {
                assert(x[k] == x.drop_first()[k - 1]);
                assert(y[k] == y.drop_first()[k - 1]);
            }
        }
        assert(x =~= y);
    }
}

/// Mapping two sequences with equal multisets gives equal multisets.
proof fn lemma_map_multiset<A, B>(a: Seq<A>, b: Seq<A>, f: spec_fn(A) -> B)
    requires
        a.to_multiset() == b.to_multiset(),
    ensures
        a.map_values(f).to_multiset() == b.map_values(f).to_multiset(),
    decreases a.len(),
{
    broadcast use vstd::seq_lib::group_to_multiset_ensures, vstd::multiset::group_multiset_axioms;

    vstd::seq_lib::to_multiset_len(a);
    vstd::seq_lib::to_multiset_len(b);
    if a.len() == 0 {
        assert(b.len() == 0);
        assert(a.map_values(f) =~= Seq::<B>::empty());
        assert(b.map_values(f) =~= Seq::<B>::empty());
    } else {
        let v = a.last();
        assert(a.contains(v));
        assert(a.to_multiset().count(v) > 0);
        assert(b.to_multiset().count(v) > 0);
        assert(b.contains(v));
        let j = choose|j: int| 0 <= j < b.len() && b[j] == v;
        let a2 = a.drop_last();
        let b2 = b.remove(j);
        assert(a2.push(v) =~= a);
        assert(a.to_multiset() == a2.to_multiset().insert(v));
        assert(b2.to_multiset() == b.to_multiset().remove(v));
        assert(a2.to_multiset() =~= a.to_multiset().remove(v));
        lemma_map_multiset(a2, b2, f);
        assert(a.map_values(f) =~= a2.map_values(f).push(f(v)));
        assert(b.map_values(f).remove(j) =~= b2.map_values(f));
        assert(b.map_values(f)[j] == f(v));
        assert(b2.map_values(f).to_multiset() == b.map_values(f).to_multiset().remove(f(v)));
        assert(b.map_values(f).contains(f(v)));
        assert(b.map_values(f).to_multiset().count(f(v)) > 0);
        assert(b.map_values(f).to_multiset() =~= b2.map_values(f).to_multiset().insert(f(v)));
    }
}

/// The result of applying edits does not depend on the order they arrive in.
pub proof fn law_apply_edits_order_independent(
    bytes: Seq<u8>,
    e1: Seq<(((u32, u32), (u32, u32)), Seq<char>)>,
    e2: Seq<(((u32, u32), (u32, u32)), Seq<char>)>,
)
    requires
        e1.to_multiset() == e2.to_multiset(),
    ensures
        apply_edits_spec(bytes, e1) == apply_edits_spec(bytes, e2),
{
    broadcast use vstd::seq_lib::group_to_multiset_ensures, vstd::multiset::group_multiset_axioms;

    if valid_utf8(bytes) {
        let s = decode_utf8(bytes);
        assert((exists|i: int| 0 <= i < e1.len() && !#[trigger] edit_resolves(s, e1[i])) <==> (
        exists|i: int| 0 <= i < e2.len() && !#[trigger] edit_resolves(s, e2[i]))) by {
            if exists|i: int| 0 <= i < e1.len() && !#[trigger] edit_resolves(s, e1[i]) {
                let i = choose|i: int| 0 <= i < e1.len() && !#[trigger] edit_resolves(s, e1[i]);
                assert(e1.contains(e1[i]));
                assert(e1.to_multiset().count(e1[i]) > 0);
                assert(e2.to_multiset().count(e1[i]) > 0);
                assert(e2.contains(e1[i]));
                let j = choose|j: int| 0 <= j < e2.len() && e2[j] == e1[i];
                assert(!edit_resolves(s, e2[j]));
            }
            if exists|i: int| 0 <= i < e2.len() && !#[trigger] edit_resolves(s, e2[i]) {
                let i = choose|i: int| 0 <= i < e2.len() && !#[trigger] edit_resolves(s, e2[i]);
                assert(e2.contains(e2[i]));
                assert(e2.to_multiset().count(e2[i]) > 0);
                assert(e1.to_multiset().count(e2[i]) > 0);
                assert(e1.contains(e2[i]));
                let j = choose|j: int| 0 <= j < e1.len() && e1[j] == e2[i];
                assert(!edit_resolves(s, e1[j]));
            }
        }
        let f = |e: (((u32, u32), (u32, u32)), Seq<char>)| span_of(s, e);
        lemma_map_multiset(e1, e2, f);
        let x1 = spans_of(s, e1);
        let x2 = spans_of(s, e2);
        assert(x1.to_multiset() == x2.to_multiset());
        if shares_start(x1) {
            lemma_shares_start_multiset(x1, x2);
        }
        if shares_start(x2) {
            lemma_shares_start_multiset(x2, x1);
        }
    }
}

} // verus!
