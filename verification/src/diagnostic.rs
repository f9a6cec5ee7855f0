//! Normalized diagnostic evidence; paths and suggestions do not authorize I/O.
use vstd::prelude::*;
use crate::value::{ContractError, NonEmptyText};

verus! {

/// One-based line and Unicode scalar column, not a byte or UTF-16 offset.
#[derive(Clone, Copy, Debug, PartialEq, Eq, Structural, PartialOrd, Ord, Hash)]
pub struct Position {
    line: u32,
    column: u32,
}

impl View for Position {
    type V = (u32, u32);

    closed spec fn view(&self) -> (u32, u32) {
        (self.line, self.column)
    }
}

/// `a` comes no later than `b`: by line, then by column.
pub open spec fn pos_le(a: (u32, u32), b: (u32, u32)) -> bool {
    a.0 < b.0 || (a.0 == b.0 && a.1 <= b.1)
}

impl Position {
    pub fn new(line: u32, column: u32) -> (res: Result<Self, ContractError>)
        ensures
            res is Ok <==> line >= 1 && column >= 1,
            res matches Ok(p) ==> p@ == (line, column),
            res matches Err(e) ==> e == ContractError::InvalidSpan,
    {
        if line == 0 || column == 0 {
            Err(ContractError::InvalidSpan)
        } else {
            Ok(Position { line, column })
        }
    }

    /// The one-based line.
    pub fn line(&self) -> (res: u32)
        ensures
            res == self@.0,
    {
        self.line
    }

    /// The one-based Unicode scalar column.
    pub fn column(&self) -> (res: u32)
        ensures
            res == self@.1,
    {
        self.column
    }

    /// Whether `self` comes no later than `other`.
    pub fn le(&self, other: &Position) -> (res: bool)
        ensures
            res == pos_le(self@, other@),
    {
        self.line < other.line || (self.line == other.line && self.column <= other.column)
    }
}

/// Zero-based byte offsets with an exclusive end; equality denotes an insertion.
#[derive(Clone, Copy, Debug, PartialEq, Eq, Structural)]
pub struct ByteRange {
    start: u64,
    end: u64,
}

impl View for ByteRange {
    type V = (u64, u64);

    closed spec fn view(&self) -> (u64, u64) {
        (self.start, self.end)
    }
}

impl ByteRange {
    pub fn new(start: u64, end: u64) -> (res: Result<Self, ContractError>)
        ensures
            res is Ok <==> start <= end,
            res matches Ok(r) ==> r@ == (start, end),
            res matches Err(e) ==> e == ContractError::InvalidSpan,
    {
        if start > end {
            return Err(ContractError::InvalidSpan);
        }
        Ok(ByteRange { start, end })
    }

    pub fn start(&self) -> (res: u64)
        ensures
            res == self@.0,
    {
        self.start
    }

    pub fn end(&self) -> (res: u64)
        ensures
            res == self@.1,
    {
        self.end
    }
}

/// Textual source evidence with an exclusive end. No source content is read to
/// cross-check byte offsets against Unicode scalar positions.
#[derive(Clone, Debug, PartialEq, Eq)]
pub struct SourceSpan {
    file: NonEmptyText,
    start: Position,
    end: Position,
    bytes: Option<ByteRange>,
    is_primary: bool,
    label: Option<NonEmptyText>,
}

impl SourceSpan {
    pub closed spec fn file_spec(&self) -> NonEmptyText {
        self.file
    }

    pub closed spec fn start_spec(&self) -> Position {
        self.start
    }

    pub closed spec fn end_spec(&self) -> Position {
        self.end
    }

    pub closed spec fn bytes_spec(&self) -> Option<ByteRange> {
        self.bytes
    }

    pub closed spec fn is_primary_spec(&self) -> bool {
        self.is_primary
    }

    pub closed spec fn label_spec(&self) -> Option<NonEmptyText> {
        self.label
    }

    pub fn new(
        file: NonEmptyText,
        start: Position,
        end: Position,
        bytes: Option<ByteRange>,
        is_primary: bool,
        label: Option<NonEmptyText>,
    ) -> (res: Result<Self, ContractError>)
        ensures
            res is Ok <==> pos_le(start@, end@),
            res matches Ok(s) ==> s.file_spec() == file && s.start_spec() == start && s.end_spec()
                == end && s.bytes_spec() == bytes && s.is_primary_spec() == is_primary
                && s.label_spec() == label,
            res matches Err(e) ==> e == ContractError::InvalidSpan,
    {
        if !start.le(&end) {
            return Err(ContractError::InvalidSpan);
        }
        Ok(SourceSpan { file, start, end, bytes, is_primary, label })
    }

    pub fn file(&self) -> (res: &NonEmptyText)
        ensures
            *res == self.file_spec(),
    {
        &self.file
    }

    pub fn start(&self) -> (res: Position)
        ensures
            res == self.start_spec(),
    {
        self.start
    }

    pub fn end(&self) -> (res: Position)
        ensures
            res == self.end_spec(),
    {
        self.end
    }

    pub fn bytes(&self) -> (res: Option<ByteRange>)
        ensures
            res == self.bytes_spec(),
    {
        self.bytes
    }

    pub fn is_primary(&self) -> (res: bool)
        ensures
            res == self.is_primary_spec(),
    {
        self.is_primary
    }

    pub fn label(&self) -> (res: Option<&NonEmptyText>)
        ensures
            res == match self.label_spec() {
                Some(l) => Some(&l),
                None => None::<&NonEmptyText>,
            },
    {
        self.label.as_ref()
    }
}

#[derive(Clone, Copy, Debug, PartialEq, Eq, Structural)]
pub enum DiagnosticSource {
    Rustc,
    Cargo,
    Clippy,
    Rustfmt,
    Rustsec,
}

#[derive(Clone, Copy, Debug, PartialEq, Eq, Structural)]
pub enum Severity {
    Error,
    Warning,
    Note,
    Help,
}

/// One normalized compiler or tool diagnostic.
#[derive(Clone, Debug, PartialEq, Eq)]
pub struct Diagnostic {
    pub source: DiagnosticSource,
    pub severity: Severity,
    pub code: Option<NonEmptyText>,
    pub message: NonEmptyText,
    pub spans: Vec<SourceSpan>,
    pub rendered: Option<String>,
    pub suggestions: Vec<Suggestion>,
    pub truncated: bool,
}

#[derive(Clone, Copy, Debug, PartialEq, Eq, Structural)]
pub enum Applicability {
    MachineApplicable,
    MaybeIncorrect,
    HasPlaceholders,
    Unspecified,
}

/// An indivisible suggestion, which may require multiple edits.
#[derive(Clone, Debug, PartialEq, Eq)]
pub struct Suggestion {
    message: NonEmptyText,
    applicability: Applicability,
    edits: Vec<Replacement>,
}

impl Suggestion {
    pub closed spec fn message_spec(&self) -> NonEmptyText {
        self.message
    }

    pub closed spec fn applicability_spec(&self) -> Applicability {
        self.applicability
    }

    pub closed spec fn edits_spec(&self) -> Seq<Replacement> {
        self.edits@
    }

    pub fn new(message: NonEmptyText, applicability: Applicability, edits: Vec<Replacement>) -> (res:
        Result<Self, ContractError>)
        ensures
            res is Ok <==> edits@.len() > 0,
            res matches Ok(s) ==> s.message_spec() == message && s.applicability_spec()
                == applicability && s.edits_spec() == edits@,
            res matches Err(e) ==> e == ContractError::EmptySuggestion,
    {
        if edits.len() == 0 {
            return Err(ContractError::EmptySuggestion);
        }
        Ok(Suggestion { message, applicability, edits })
    }

    pub fn message(&self) -> (res: &NonEmptyText)
        ensures
            *res == self.message_spec(),
    {
        &self.message
    }

    pub fn applicability(&self) -> (res: Applicability)
        ensures
            res == self.applicability_spec(),
    {
        self.applicability
    }

    pub fn edits(&self) -> (res: &[Replacement])
        ensures
            res@ == self.edits_spec(),
    {
        self.edits.as_slice()
    }
}

/// An empty replacement is a deletion, not an absent edit.
#[derive(Clone, Debug, PartialEq, Eq)]
pub struct Replacement {
    pub span: SourceSpan,
    pub replacement: String,
}

} // verus!
