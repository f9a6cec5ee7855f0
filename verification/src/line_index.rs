//! Byte offsets and LSP line/character coordinates against one file's exact
//! captured bytes. Newline is `\n` only: `\r` stays inside its line.
use vstd::prelude::*;
use vstd::utf8::{decode_utf8, decode_utf8_encode_utf8, encode_scalar, encode_utf8, valid_utf8, char_is_scalar, has_width_1_encoding, has_width_2_encoding, has_width_3_encoding, has_width_4_encoding};
use vstd::string::StringSliceAdditionalSpecFns;
use crate::diagnostic::Position;
use crate::text::{char_utf8_width, char_width, chars_of, lemma_utf8_len_prefix_monotone, utf8_len};

verus! {

/// Number of UTF-16 code units of `c`.
pub open spec fn char_utf16_width(c: char) -> nat {
    if (c as u32) < 0x10000 {
        1
    } else {
        2
    }
}

/// Number of UTF-16 code units of `s`.
pub open spec fn utf16_len(s: Seq<char>) -> nat
    decreases s.len(),
{
    if s.len() == 0 {
        0
    } else {
        utf16_len(s.drop_last()) + char_utf16_width(s.last())
    }
}

/// Byte offset of the character at index `k` of `chars`.
pub open spec fn byte_offset_of(chars: Seq<char>, k: int) -> nat {
    utf8_len(chars.take(k))
}

/// Character index at which each line starts: `0`, then one past every `\n`.
pub open spec fn line_starts_spec(s: Seq<char>) -> Seq<int>
    decreases s.len(),
{
    if s.len() == 0 {
        seq![0int]
    } else {
        let prev = line_starts_spec(s.drop_last());
        if s.last() == '\n' {
            prev.push(s.len() as int)
        } else {
            prev
        }
    }
}

/// Character range `[start, end)` of line `line0`, without its trailing `\n`.
pub open spec fn line_bounds_spec(s: Seq<char>, line0: int) -> (int, int) {
    let ls = line_starts_spec(s);
    let start = ls[line0];
    let raw_end = if line0 + 1 < ls.len() {
        ls[line0 + 1]
    } else {
        s.len() as int
    };
    let end = if raw_end > start && s[raw_end - 1] == '\n' {
        raw_end - 1
    } else {
        raw_end
    };
    (start, end)
}

/// Number of entries of the sorted `ls` that are at most `k`.
pub open spec fn count_le(ls: Seq<int>, k: int) -> nat
    decreases ls.len(),
{
    if ls.len() == 0 {
        0
    } else {
        count_le(ls.drop_last(), k) + if ls.last() <= k {
            1nat
        } else {
            0nat
        }
    }
}

/// Zero-based line of the character index `k`.
pub open spec fn line_of_char(s: Seq<char>, k: int) -> int {
    count_le(line_starts_spec(s), k) - 1
}

/// One-based `(line, column)` of the character index `k`, as integers.
pub open spec fn position_of_char(s: Seq<char>, k: int) -> (int, int) {
    let line0 = line_of_char(s, k);
    (line0 + 1, k - line_starts_spec(s)[line0] + 1)
}

pub proof fn lemma_utf8_width_is_encoding_width(c: char)
    ensures
        encode_scalar(c as u32).len() == char_utf8_width(c),
{
    char_is_scalar(c);
}

pub proof fn lemma_encode_utf8_push(s: Seq<char>, c: char)
    ensures
        encode_utf8(s.push(c)) == encode_utf8(s) + encode_scalar(c as u32),
    decreases s.len(),
{
    if s.len() == 0 {
        assert(s.push(c).drop_first() =~= Seq::<char>::empty());
        assert(encode_utf8(Seq::<char>::empty()) =~= Seq::<u8>::empty());
        assert(encode_utf8(s.push(c)) =~= encode_scalar(c as u32));
    } else {
        lemma_encode_utf8_push(s.drop_first(), c);
        assert(s.push(c).drop_first() =~= s.drop_first().push(c));
        assert(encode_utf8(s.push(c)) =~= encode_scalar(s[0] as u32) + encode_utf8(
            s.drop_first().push(c),
        ));
    }
}

pub proof fn lemma_utf8_len_is_encoding_len(s: Seq<char>)
    ensures
        utf8_len(s) == encode_utf8(s).len(),
    decreases s.len(),
{
    if s.len() > 0 {
        lemma_utf8_len_is_encoding_len(s.drop_last());
        lemma_encode_utf8_push(s.drop_last(), s.last());
        assert(s.drop_last().push(s.last()) =~= s);
        lemma_utf8_width_is_encoding_width(s.last());
    }
}

/// Decoding valid UTF-8 gives characters whose encoding is exactly as long.
pub proof fn lemma_decoded_len(bytes: Seq<u8>)
    requires
        valid_utf8(bytes),
    ensures
        utf8_len(decode_utf8(bytes)) == bytes.len(),
{
    decode_utf8_encode_utf8(bytes);
    lemma_utf8_len_is_encoding_len(decode_utf8(bytes));
}

pub proof fn lemma_utf8_len_prefix_strict(s: Seq<char>, i: int, j: int)
    requires
        0 <= i < j <= s.len(),
    ensures
        utf8_len(s.take(i)) + (j - i) <= utf8_len(s.take(j)),
    decreases j - i,
{
    assert(s.take(j).drop_last() =~= s.take(j - 1));
    if i < j - 1 {
        lemma_utf8_len_prefix_strict(s, i, j - 1);
    }
}

/// Byte offsets of character prefixes are strictly increasing.
pub proof fn lemma_byte_offset_injective(s: Seq<char>, i: int, j: int)
    requires
        0 <= i <= s.len(),
        0 <= j <= s.len(),
        byte_offset_of(s, i) == byte_offset_of(s, j),
    ensures
        i == j,
{
    if i < j {
        lemma_utf8_len_prefix_strict(s, i, j);
    } else if j < i {
        lemma_utf8_len_prefix_strict(s, j, i);
    }
}

pub proof fn lemma_utf16_len_prefix_strict(s: Seq<char>, i: int, j: int)
    requires
        0 <= i < j <= s.len(),
    ensures
        utf16_len(s.take(i)) + (j - i) <= utf16_len(s.take(j)),
    decreases j - i,
{
    assert(s.take(j).drop_last() =~= s.take(j - 1));
    if i < j - 1 {
        lemma_utf16_len_prefix_strict(s, i, j - 1);
    }
}

/// The line start table begins at 0, is strictly increasing and stays inside the text.
pub proof fn lemma_line_starts_shape(s: Seq<char>)
    ensures
        line_starts_spec(s).len() >= 1,
        line_starts_spec(s)[0] == 0,
        line_starts_spec(s).len() <= s.len() + 1,
        forall|a: int, b: int|
            0 <= a < b < line_starts_spec(s).len() ==> line_starts_spec(s)[a]
                < line_starts_spec(s)[b],
        forall|a: int|
            0 <= a < line_starts_spec(s).len() ==> 0 <= #[trigger] line_starts_spec(s)[a]
                <= s.len(),
    decreases s.len(),
{
    if s.len() > 0 {
        lemma_line_starts_shape(s.drop_last());
    }
}

/// Every line after the first starts right after a `\n`.
pub proof fn lemma_line_starts_follow_newlines(s: Seq<char>)
    ensures
        forall|a: int|
            1 <= a < line_starts_spec(s).len() ==> s[#[trigger] line_starts_spec(s)[a] - 1]
                == '\n',
    decreases s.len(),
{
    if s.len() > 0 {
        let p = s.drop_last();
        lemma_line_starts_follow_newlines(p);
        lemma_line_starts_shape(p);
        let lp = line_starts_spec(p);
        let ls = line_starts_spec(s);
        assert forall|a: int| 1 <= a < ls.len() implies s[#[trigger] ls[a] - 1] == '\n' by {
            if a < lp.len() {
                assert(p[lp[a] - 1] == '\n');
            }
        }
    }
}

/// All properties of the line start table.
pub proof fn lemma_line_starts(s: Seq<char>)
    ensures
        line_starts_spec(s).len() >= 1,
        line_starts_spec(s)[0] == 0,
        line_starts_spec(s).len() <= s.len() + 1,
        forall|a: int, b: int|
            0 <= a < b < line_starts_spec(s).len() ==> line_starts_spec(s)[a]
                < line_starts_spec(s)[b],
        forall|a: int|
            0 <= a < line_starts_spec(s).len() ==> 0 <= #[trigger] line_starts_spec(s)[a]
                <= s.len(),
        forall|a: int|
            1 <= a < line_starts_spec(s).len() ==> s[#[trigger] line_starts_spec(s)[a] - 1]
                == '\n',
{
    lemma_line_starts_shape(s);
    lemma_line_starts_follow_newlines(s);
}

/// Counting line starts at most `k`: it is the index of the last one, plus one.
pub proof fn lemma_count_le(ls: Seq<int>, k: int, m: int)
    requires
        forall|a: int, b: int| 0 <= a < b < ls.len() ==> ls[a] < ls[b],
        0 <= m <= ls.len(),
        forall|a: int| 0 <= a < m ==> #[trigger] ls[a] <= k,
        forall|a: int| m <= a < ls.len() ==> #[trigger] ls[a] > k,
    ensures
        count_le(ls, k) == m,
    decreases ls.len(),
{
    if ls.len() > 0 {
        if m == ls.len() {
            lemma_count_le(ls.drop_last(), k, m - 1);
        } else {
            lemma_count_le(ls.drop_last(), k, m);
        }
    }
}

/// The line of a character index: `line_starts[line] <= k < line_starts[line + 1]`.
pub proof fn lemma_line_of_char(s: Seq<char>, k: int, line0: int)
    requires
        0 <= k <= s.len(),
        0 <= line0 < line_starts_spec(s).len(),
        line_starts_spec(s)[line0] <= k,
        line0 + 1 < line_starts_spec(s).len() ==> k < line_starts_spec(s)[line0 + 1],
    ensures
        line_of_char(s, k) == line0,
{
    lemma_line_starts(s);
    let ls = line_starts_spec(s);
    assert forall|a: int| 0 <= a < line0 + 1 implies #[trigger] ls[a] <= k by {
        if a < line0 {
            assert(ls[a] < ls[line0]);
        }
    }
    assert forall|a: int| line0 + 1 <= a < ls.len() implies #[trigger] ls[a] > k by {
        if a > line0 + 1 {
            assert(ls[line0 + 1] < ls[a]);
        }
    }
    lemma_count_le(ls, k, line0 + 1);
}

/// Whether some character boundary of `s` lies at byte `offset`.
pub open spec fn is_boundary(s: Seq<char>, offset: int) -> bool {
    exists|k: int| 0 <= k <= s.len() && #[trigger] byte_offset_of(s, k) == offset
}

/// The character index whose byte offset is `offset`, when one exists.
pub open spec fn char_index_at(s: Seq<char>, offset: int) -> int {
    choose|k: int| 0 <= k <= s.len() && #[trigger] byte_offset_of(s, k) == offset
}

/// A one-based `(line, column)` as `u32`s, or `OutOfRange` when it does not fit.
pub open spec fn fit_position(line: int, column: int) -> Result<(u32, u32), AnalyzerError> {
    if 1 <= line <= u32::MAX && 1 <= column <= u32::MAX {
        Ok((line as u32, column as u32))
    } else {
        Err(AnalyzerError::OutOfRange)
    }
}

/// A position result, by the view of its value.
pub open spec fn position_result(r: Result<Position, AnalyzerError>) -> Result<(u32, u32), AnalyzerError> {
    match r {
        Ok(p) => Ok(p@),
        Err(e) => Err(e),
    }
}

/// What `position_from_byte_offset` answers for `offset`.
pub open spec fn position_from_byte_offset_spec(s: Seq<char>, offset: int) -> Result<(u32, u32), AnalyzerError> {
    if offset > utf8_len(s) {
        Err(AnalyzerError::OutOfRange)
    } else if is_boundary(s, offset) {
        let k = char_index_at(s, offset);
        let (line, column) = position_of_char(s, k);
        fit_position(line, column)
    } else {
        Err(AnalyzerError::OffsetInsideCodePoint)
    }
}

/// Number of lines of `s`.
pub open spec fn line_count(s: Seq<char>) -> int {
    line_starts_spec(s).len() as int
}

/// What `byte_offset_from_position` answers for a one-based `(line, column)`.
pub open spec fn byte_offset_from_position_spec(s: Seq<char>, line: int, column: int) -> Result<int, AnalyzerError> {
    if line < 1 || column < 1 || line - 1 >= line_count(s) {
        Err(AnalyzerError::OutOfRange)
    } else {
        let (start, end) = line_bounds_spec(s, line - 1);
        if start + (column - 1) <= end {
            Ok(byte_offset_of(s, start + (column - 1)) as int)
        } else {
            Err(AnalyzerError::OutOfRange)
        }
    }
}

/// UTF-16 length of the first `j` characters of the line starting at `start`.
pub open spec fn utf16_prefix(s: Seq<char>, start: int, j: int) -> nat {
    utf16_len(s.subrange(start, start + j))
}

/// What `position_from_utf16` answers for a zero-based line and UTF-16 column.
pub open spec fn position_from_utf16_spec(s: Seq<char>, line0: int, col16: int) -> Result<(u32, u32), AnalyzerError> {
    if line0 >= line_count(s) {
        Err(AnalyzerError::OutOfRange)
    } else {
        let (start, end) = line_bounds_spec(s, line0);
        if exists|j: int| 0 <= j <= end - start && #[trigger] utf16_prefix(s, start, j) == col16 {
            let j = choose|j: int| 0 <= j <= end - start && #[trigger] utf16_prefix(s, start, j) == col16;
            fit_position(line0 + 1, j + 1)
        } else if col16 < utf16_prefix(s, start, end - start) {
            Err(AnalyzerError::OffsetInsideCodePoint)
        } else {
            Err(AnalyzerError::OutOfRange)
        }
    }
}

/// What `position_from_utf8` answers for a zero-based line and byte column.
pub open spec fn position_from_utf8_spec(s: Seq<char>, line0: int, col8: int) -> Result<(u32, u32), AnalyzerError> {
    if line0 >= line_count(s) {
        Err(AnalyzerError::OutOfRange)
    } else {
        let (start, end) = line_bounds_spec(s, line0);
        let target = byte_offset_of(s, start) + col8;
        if target > byte_offset_of(s, end) {
            Err(AnalyzerError::OutOfRange)
        } else if exists|j: int| 0 <= j <= end - start && #[trigger] byte_offset_of(s, start + j) == target {
            let j = choose|j: int| 0 <= j <= end - start && #[trigger] byte_offset_of(s, start + j) == target;
            fit_position(line0 + 1, j + 1)
        } else {
            Err(AnalyzerError::OffsetInsideCodePoint)
        }
    }
}

/// What `utf8_from_position` answers for a one-based `(line, column)`.
pub open spec fn utf8_from_position_spec(s: Seq<char>, line: int, column: int) -> Result<(u32, u32), AnalyzerError> {
    match byte_offset_from_position_spec(s, line, column) {
        Ok(offset) => {
            let (start, _) = line_bounds_spec(s, line - 1);
            Ok(((line - 1) as u32, (offset - byte_offset_of(s, start)) as u32))
        },
        Err(e) => Err(e),
    }
}

/// The line bounds are ordered and inside the text.
pub proof fn lemma_line_bounds(s: Seq<char>, line0: int)
    requires
        0 <= line0 < line_count(s),
    ensures
        0 <= line_bounds_spec(s, line0).0 <= line_bounds_spec(s, line0).1 <= s.len(),
        line_starts_spec(s)[line0] == line_bounds_spec(s, line0).0,
        line0 + 1 < line_count(s) ==> line_bounds_spec(s, line0).1 < line_starts_spec(s)[line0 + 1],
{
    lemma_line_starts(s);
}

/// Closed failure set for every analyzer domain constructor and conversion.
#[derive(Clone, Copy, Debug, PartialEq, Eq, Structural)]
pub enum AnalyzerError {
    NotUtf8,
    OffsetInsideCodePoint,
    OutOfRange,
    InvalidRange,
    OverlappingRanges,
    UnknownSymbolKind,
    UnknownSeverity,
    Invalid,
    LimitExceeded,
}

/// The text of `bytes` when they are valid UTF-8 (`std::str::from_utf8`).
#[verifier::external_body]
fn utf8_text(bytes: &[u8]) -> (res: Option<&str>)
    ensures
        res is Some <==> valid_utf8(bytes@),
        res matches Some(s) ==> s.spec_bytes() == bytes@,
{
    std::str::from_utf8(bytes).ok()
}

/// Index of the last entry of the strictly increasing `v` that is at most `x`.
fn last_le(v: &Vec<usize>, x: usize) -> (r: usize)
    requires
        v@.len() >= 1,
        v@[0] <= x,
        forall|a: int, b: int| 0 <= a < b < v@.len() ==> v@[a] < v@[b],
    ensures
        r < v@.len(),
        v@[r as int] <= x,
        r + 1 < v@.len() ==> v@[r + 1] > x,
{
    let mut lo: usize = 0;
    let mut hi: usize = v.len();
    while hi - lo > 1
        invariant
            lo < hi <= v@.len(),
            v@[lo as int] <= x,
            hi < v@.len() ==> v@[hi as int] > x,
            forall|a: int, b: int| 0 <= a < b < v@.len() ==> v@[a] < v@[b],
        decreases hi - lo,
    {
        let mid = lo + (hi - lo) / 2;
        if v[mid] <= x {
            lo = mid;
        } else {
            hi = mid;
        }
    }
    lo
}

/// Line and offset tables over one file's decoded characters.
#[derive(Debug, PartialEq, Eq)]
pub struct LineIndex {
    chars: Vec<char>,
    /// `byte_at[k]` is the byte offset of character `k`; one entry per
    /// character plus one for the end of the text.
    byte_at: Vec<usize>,
    /// Character index of the start of each line; `line_starts[0] == 0`.
    line_starts: Vec<usize>,
}

impl View for LineIndex {
    type V = Seq<char>;

    closed spec fn view(&self) -> Seq<char> {
        self.chars@
    }
}

impl LineIndex {
    #[verifier::type_invariant]
    closed spec fn inv(&self) -> bool {
        &&& self.byte_at@.len() == self.chars@.len() + 1
        &&& forall|k: int|
            0 <= k <= self.chars@.len() ==> #[trigger] self.byte_at@[k] == byte_offset_of(
                self.chars@,
                k,
            )
        &&& self.line_starts@.len() == line_starts_spec(self.chars@).len()
        &&& forall|a: int|
            0 <= a < self.line_starts@.len() ==> #[trigger] self.line_starts@[a]
                == line_starts_spec(self.chars@)[a]
    }

    proof fn lemma_tables(&self)
        requires
            self.inv(),
        ensures
            forall|a: int, b: int|
                0 <= a < b < self.byte_at@.len() ==> self.byte_at@[a] < self.byte_at@[b],
            forall|a: int, b: int|
                0 <= a < b < self.line_starts@.len() ==> self.line_starts@[a]
                    < self.line_starts@[b],
            self.line_starts@.len() >= 1,
            self.line_starts@[0] == 0,
            self.byte_at@[0] == 0,
            self.byte_at@[self.chars@.len() as int] == utf8_len(self.chars@),
            forall|a: int|
                0 <= a < self.line_starts@.len() ==> #[trigger] self.line_starts@[a]
                    <= self.chars@.len(),
    {
        let s = self.chars@;
        lemma_line_starts(s);
        assert(s.take(s.len() as int) =~= s);
        assert(s.take(0) =~= Seq::<char>::empty());
        assert forall|a: int, b: int|
            0 <= a < b < self.byte_at@.len() implies self.byte_at@[a] < self.byte_at@[b] by {
            lemma_utf8_len_prefix_strict(s, a, b);
            assert(self.byte_at@[a] == byte_offset_of(s, a));
            assert(self.byte_at@[b] == byte_offset_of(s, b));
        }
        assert forall|a: int, b: int|
            0 <= a < b < self.line_starts@.len() implies self.line_starts@[a]
            < self.line_starts@[b] by {
            assert(self.line_starts@[a] == line_starts_spec(s)[a]);
            assert(self.line_starts@[b] == line_starts_spec(s)[b]);
        }
        assert(self.line_starts@[0] == line_starts_spec(s)[0]);
        assert(self.byte_at@[0] == byte_offset_of(s, 0));
        assert(self.byte_at@[s.len() as int] == byte_offset_of(s, s.len() as int));
        assert forall|a: int| 0 <= a < self.line_starts@.len() implies #[trigger] self.line_starts@[a]
            <= self.chars@.len() by {
            assert(self.line_starts@[a] == line_starts_spec(s)[a]);
        }
    }

    /// The line's character range, excluding a trailing `\n` if present.
    fn line_bounds(&self, line0: u32) -> (res: Result<(usize, usize), AnalyzerError>)
        requires
            self.inv(),
        ensures
            res is Ok <==> (line0 as int) < line_count(self@),
            res matches Ok(b) ==> (b.0 as int, b.1 as int) == line_bounds_spec(self@, line0 as int),
            res matches Err(e) ==> e == AnalyzerError::OutOfRange,
    {
        let index = line0 as usize;
        if index >= self.line_starts.len() {
            return Err(AnalyzerError::OutOfRange);
        }
        proof {
            self.lemma_tables();
            lemma_line_starts(self.chars@);
        }
        let start = self.line_starts[index];
        let raw_end = if index + 1 < self.line_starts.len() {
            self.line_starts[index + 1]
        } else {
            self.chars.len()
        };
        assert(start <= raw_end);
        let end = if raw_end > start && self.chars[raw_end - 1] == '\n' {
            raw_end - 1
        } else {
            raw_end
        };
        Ok((start, end))
    }

    pub fn position_from_byte_offset(&self, offset: usize) -> (res: Result<Position, AnalyzerError>)
        ensures
            position_result(res) == position_from_byte_offset_spec(self@, offset as int),
    {
        proof {
            use_type_invariant(self);
            self.lemma_tables();
        }
        let n = self.chars.len();
        if offset > self.byte_at[n] {
            return Err(AnalyzerError::OutOfRange);
        }
        let k = last_le(&self.byte_at, offset);
        let ghost s = self.chars@;
        if self.byte_at[k] != offset {
            proof {
                assert forall|j: int| 0 <= j <= s.len() implies #[trigger] byte_offset_of(s, j)
                    != offset by {
                    assert(self.byte_at@[j] == byte_offset_of(s, j));
                    if j <= k as int {
                        if j < k {
                            assert(self.byte_at@[j] < self.byte_at@[k as int]);
                        }
                    } else {
                        if j > k + 1 {
                            assert(self.byte_at@[k + 1] < self.byte_at@[j]);
                        }
                    }
                }
            }
            return Err(AnalyzerError::OffsetInsideCodePoint);
        }
        proof {
            assert(self.byte_at@[k as int] == byte_offset_of(s, k as int));
            assert(is_boundary(s, offset as int));
            let kk = char_index_at(s, offset as int);
            lemma_byte_offset_injective(s, kk, k as int);
        }
        let line0 = last_le(&self.line_starts, k);
        proof {
            assert(self.line_starts@[line0 as int] == line_starts_spec(s)[line0 as int]);
            if line0 + 1 < self.line_starts@.len() {
                assert(self.line_starts@[line0 + 1] == line_starts_spec(s)[line0 + 1]);
            }
            lemma_line_of_char(s, k as int, line0 as int);
        }
        let column = k - self.line_starts[line0];
        if line0 >= 0xffff_ffff || column >= 0xffff_ffff {
            return Err(AnalyzerError::OutOfRange);
        }
        match Position::new(line0 as u32 + 1, column as u32 + 1) {
            Ok(p) => Ok(p),
            Err(_) => Err(AnalyzerError::OutOfRange),
        }
    }

    pub fn byte_offset_from_position(&self, position: Position) -> (res: Result<usize, AnalyzerError>)
        ensures
            match res {
                Ok(o) => byte_offset_from_position_spec(self@, position@.0 as int, position@.1 as int)
                    == Ok::<int, AnalyzerError>(o as int),
                Err(e) => byte_offset_from_position_spec(self@, position@.0 as int, position@.1 as int)
                    == Err::<int, AnalyzerError>(e),
            },
    {
        proof {
            use_type_invariant(self);
            self.lemma_tables();
        }
        let line = position.line();
        let column = position.column();
        if line == 0 || column == 0 {
            return Err(AnalyzerError::OutOfRange);
        }
        let (start, end) = match self.line_bounds(line - 1) {
            Ok(b) => b,
            Err(e) => return Err(e),
        };
        proof {
            lemma_line_bounds(self@, line - 1);
        }
        let target = (column - 1) as usize;
        if target > end - start {
            return Err(AnalyzerError::OutOfRange);
        }
        let k = start + target;
        assert(self.byte_at@[k as int] == byte_offset_of(self@, k as int));
        Ok(self.byte_at[k])
    }

    /// `line0`/`col16` are LSP's zero-based line and UTF-16 code unit offset.
    pub fn position_from_utf16(&self, line0: u32, col16: u32) -> (res: Result<Position, AnalyzerError>)
        ensures
            position_result(res) == position_from_utf16_spec(self@, line0 as int, col16 as int),
    {
        proof {
            use_type_invariant(self);
        }
        let (start, end) = match self.line_bounds(line0) {
            Ok(b) => b,
            Err(e) => return Err(e),
        };
        let ghost s = self.chars@;
        proof {
            lemma_line_bounds(s, line0 as int);
        }
        let target = col16 as u64;
        let mut units: u64 = 0;
        let mut j: usize = 0;
        while start + j < end
            invariant
                s == self.chars@,
                0 <= start <= end <= s.len(),
                self.chars@.len() == s.len(),
                j <= end - start,
                units == utf16_prefix(s, start as int, j as int),
                s == self@,
                (line0 as int) < line_count(s),
                (start as int, end as int) == line_bounds_spec(s, line0 as int),
                units <= target,
                target == col16,
                forall|i: int| 0 <= i < j ==> #[trigger] utf16_prefix(s, start as int, i) < target,
            decreases end - start - j,
        {
            if units == target {
                proof {
                    assert forall|i: int|
                        0 <= i <= end - start && #[trigger] utf16_prefix(s, start as int, i)
                            == col16 implies i == j by {
                        if i > j {
                            lemma_utf16_len_prefix_strict(s.subrange(start as int, start + i), j as int, i);
                            assert(s.subrange(start as int, start + i).take(j as int) =~= s.subrange(start as int, start + j));
                            assert(s.subrange(start as int, start + i).take(i) =~= s.subrange(start as int, start + i));
                        }
                    }
                    assert(utf16_prefix(s, start as int, j as int) == col16);
                    assert(exists|i: int| 0 <= i <= end - start && #[trigger] utf16_prefix(s, start as int, i) == col16);
                }
                return self.utf16_position(line0, j);
            }
            let c = self.chars[start + j];
            let cv = c as u32;
            let width: u64 = if cv < 0x10000 {
                1
            } else {
                2
            };
            proof {
                assert(s.subrange(start as int, start + j + 1).drop_last() =~= s.subrange(start as int, start + j));
                assert(s.subrange(start as int, start + j + 1).last() == c);
                assert(width == char_utf16_width(c));
                assert(utf16_prefix(s, start as int, j + 1) == units + width);
            }
            if target < units + width {
                proof {
                    assert forall|i: int|
                        0 <= i <= end - start implies #[trigger] utf16_prefix(s, start as int, i)
                            != col16 by {
                        if i > j + 1 {
                            let t = s.subrange(start as int, start + i);
                            lemma_utf16_len_prefix_strict(t, j + 1, i);
                            assert(t.take(j + 1) =~= s.subrange(start as int, start + j + 1));
                            assert(t.take(i) =~= t);
                        }
                    }
                    let e = end - start;
                    let t = s.subrange(start as int, start + e);
                    if e > j + 1 {
                        lemma_utf16_len_prefix_strict(t, j + 1, e as int);
                    }
                    assert(t.take(j + 1) =~= s.subrange(start as int, start + j + 1));
                    assert(t.take(e as int) =~= t);
                }
                return Err(AnalyzerError::OffsetInsideCodePoint);
            }
            units = units + width;
            j = j + 1;
        }
        if units == target {
            proof {
                assert forall|i: int|
                    0 <= i <= end - start && #[trigger] utf16_prefix(s, start as int, i)
                        == col16 implies i == j by {
                    assert(i <= j);
                }
            }
            self.utf16_position(line0, j)
        } else {
            proof {
                assert forall|i: int|
                    0 <= i <= end - start implies #[trigger] utf16_prefix(s, start as int, i)
                        != col16 by {
                    assert(i <= j);
                }
            }
            Err(AnalyzerError::OutOfRange)
        }
    }

    /// The one-based position of scalar `j` of line `line0`.
    fn utf16_position(&self, line0: u32, j: usize) -> (res: Result<Position, AnalyzerError>)
        ensures
            position_result(res) == fit_position(line0 + 1, j + 1),
    {
        if line0 == 0xffff_ffff || j >= 0xffff_ffff {
            return Err(AnalyzerError::OutOfRange);
        }
        match Position::new(line0 + 1, j as u32 + 1) {
            Ok(p) => Ok(p),
            Err(_) => Err(AnalyzerError::OutOfRange),
        }
    }

    /// `line0`/`col8` are LSP's zero-based line and byte offset within the line.
    pub fn position_from_utf8(&self, line0: u32, col8: u32) -> (res: Result<Position, AnalyzerError>)
        ensures
            position_result(res) == position_from_utf8_spec(self@, line0 as int, col8 as int),
    {
        proof {
            use_type_invariant(self);
            self.lemma_tables();
        }
        let (start, end) = match self.line_bounds(line0) {
            Ok(b) => b,
            Err(e) => return Err(e),
        };
        let ghost s = self.chars@;
        proof {
            lemma_line_bounds(s, line0 as int);
            assert(self.byte_at@[start as int] == byte_offset_of(s, start as int));
            assert(self.byte_at@[end as int] == byte_offset_of(s, end as int));
        }
        let base = self.byte_at[start];
        let limit = self.byte_at[end];
        if col8 as usize > limit - base {
            return Err(AnalyzerError::OutOfRange);
        }
        let offset = base + col8 as usize;
        let k = last_le(&self.byte_at, offset);
        proof {
            if k < start {
                assert(self.byte_at@[k + 1] > offset);
                if k + 1 < start {
                    assert(self.byte_at@[k + 1] < self.byte_at@[start as int]);
                }
            }
            if k > end {
                assert(self.byte_at@[end as int] < self.byte_at@[k as int]);
            }
        }
        if self.byte_at[k] != offset {
            proof {
                assert forall|j: int|
                    0 <= j <= end - start implies #[trigger] byte_offset_of(s, start + j) != offset by {
                    let jj = start + j;
                    assert(self.byte_at@[jj] == byte_offset_of(s, jj));
                    if jj < k {
                        assert(self.byte_at@[jj] < self.byte_at@[k as int]);
                    } else if jj > k + 1 {
                        assert(self.byte_at@[k + 1] < self.byte_at@[jj]);
                    }
                }
            }
            return Err(AnalyzerError::OffsetInsideCodePoint);
        }
        let j = k - start;
        proof {
            assert(self.byte_at@[k as int] == byte_offset_of(s, k as int));
            assert(byte_offset_of(s, start + j) == offset);
            assert forall|i: int|
                0 <= i <= end - start && #[trigger] byte_offset_of(s, start + i) == offset implies i
                == j by {
                lemma_byte_offset_injective(s, start + i, k as int);
            }
        }
        self.utf16_position(line0, j)
    }

    /// The inverse of [`Self::position_from_utf8`].
    pub fn utf8_from_position(&self, position: Position) -> (res: Result<(u32, u32), AnalyzerError>)
        ensures
            res == utf8_from_position_spec(self@, position@.0 as int, position@.1 as int),
    {
        proof {
            use_type_invariant(self);
            self.lemma_tables();
        }
        let line = position.line();
        if line == 0 {
            return Err(AnalyzerError::OutOfRange);
        }
        let line0 = line - 1;
        let (start, _) = match self.line_bounds(line0) {
            Ok(b) => b,
            Err(e) => return Err(e),
        };
        let offset = match self.byte_offset_from_position(position) {
            Ok(o) => o,
            Err(e) => return Err(e),
        };
        proof {
            lemma_line_bounds(self@, line0 as int);
            assert(self.byte_at@[start as int] == byte_offset_of(self@, start as int));
            let (st, en) = line_bounds_spec(self@, line0 as int);
            lemma_utf8_len_prefix_monotone(self@, st, st + (position@.1 - 1));
        }
        Ok((line0, (offset - self.byte_at[start]) as u32))
    }

    /// Builds the index over `bytes`, which must be valid UTF-8.
    pub fn new(bytes: &[u8]) -> (res: Result<Self, AnalyzerError>)
        ensures
            res is Ok <==> valid_utf8(bytes@),
            res matches Ok(index) ==> index@ == decode_utf8(bytes@),
            res matches Err(e) ==> e == AnalyzerError::NotUtf8,
    {
        let text = match utf8_text(bytes) {
            Some(t) => t,
            None => return Err(AnalyzerError::NotUtf8),
        };
        let chars = chars_of(text);
        proof {
            vstd::utf8::encode_utf8_decode_utf8(text@);
            lemma_decoded_len(bytes@);
        }
        let mut byte_at: Vec<usize> = Vec::new();
        let mut line_starts: Vec<usize> = Vec::new();
        byte_at.push(0);
        line_starts.push(0);
        assert(chars@.take(0) =~= Seq::<char>::empty());
        let mut offset: usize = 0;
        let mut i: usize = 0;
        let total = bytes.len();
        while i < chars.len()
            invariant
                chars@ == decode_utf8(bytes@),
                utf8_len(chars@) == bytes@.len(),
                i <= chars.len(),
                offset == byte_offset_of(chars@, i as int),
                byte_at@.len() == i + 1,
                forall|k: int| 0 <= k <= i ==> #[trigger] byte_at@[k] == byte_offset_of(chars@, k),
                total == bytes@.len(),
                line_starts@.len() == line_starts_spec(chars@.take(i as int)).len(),
                forall|a: int|
                    0 <= a < line_starts@.len() ==> #[trigger] line_starts@[a]
                        == line_starts_spec(chars@.take(i as int))[a],
            decreases chars.len() - i,
        {
            let c = chars[i];
            let w = char_width(c);
            proof {
                assert(chars@.take(i + 1).drop_last() =~= chars@.take(i as int));
                lemma_utf8_len_prefix_monotone(chars@, i + 1, chars@.len() as int);
                assert(chars@.take(chars@.len() as int) =~= chars@);
            }
            offset = offset + w;
            byte_at.push(offset);
            if c == '\n' {
                line_starts.push(i + 1);
            }
            i = i + 1;
            assert(line_starts@.len() == line_starts_spec(chars@.take(i as int)).len());
        }
        assert(chars@.take(chars@.len() as int) =~= chars@);
        assert(line_starts@.len() == line_starts_spec(chars@).len());
        assert(forall|a: int|
            0 <= a < line_starts@.len() ==> #[trigger] line_starts@[a] == line_starts_spec(chars@)[a]);
        assert(byte_at@.len() == chars@.len() + 1);
        assert(forall|k: int|
            0 <= k <= chars@.len() ==> #[trigger] byte_at@[k] == byte_offset_of(chars@, k));
        let index = LineIndex { chars, byte_at, line_starts };
        Ok(index)
    }
}


/// A byte offset computed from a position maps back to that same position.
pub proof fn law_byte_offset_round_trip(s: Seq<char>, line: int, column: int)
    requires
        byte_offset_from_position_spec(s, line, column) is Ok,
        line <= u32::MAX,
        column <= u32::MAX,
    ensures
        position_from_byte_offset_spec(s, byte_offset_from_position_spec(s, line, column)->Ok_0)
            == Ok::<(u32, u32), AnalyzerError>((line as u32, column as u32)),
{
    let line0 = line - 1;
    lemma_line_bounds(s, line0);
    let (start, end) = line_bounds_spec(s, line0);
    let k = start + (column - 1);
    let offset = byte_offset_of(s, k) as int;
    lemma_utf8_len_prefix_monotone(s, k, s.len() as int);
    assert(s.take(s.len() as int) =~= s);
    assert(is_boundary(s, offset));
    let k2 = char_index_at(s, offset);
    lemma_byte_offset_injective(s, k2, k);
    lemma_line_of_char(s, k, line0);
}

/// A UTF-8 line/column computed from a position maps back to that same position.
pub proof fn law_utf8_round_trip(s: Seq<char>, line: int, column: int)
    requires
        utf8_from_position_spec(s, line, column) is Ok,
        utf8_len(s) <= u32::MAX,
        line <= u32::MAX,
        column <= u32::MAX,
    ensures
        ({
            let (l0, c8) = utf8_from_position_spec(s, line, column)->Ok_0;
            position_from_utf8_spec(s, l0 as int, c8 as int)
                == Ok::<(u32, u32), AnalyzerError>((line as u32, column as u32))
        }),
{
    let line0 = line - 1;
    lemma_line_bounds(s, line0);
    let (start, end) = line_bounds_spec(s, line0);
    let k = start + (column - 1);
    lemma_utf8_len_prefix_monotone(s, start, k);
    lemma_utf8_len_prefix_monotone(s, k, end);
    let c8 = byte_offset_of(s, k) - byte_offset_of(s, start);
    lemma_utf8_len_prefix_monotone(s, end, s.len() as int);
    assert(s.take(s.len() as int) =~= s);
    let j = column - 1;
    assert(byte_offset_of(s, start + j) == byte_offset_of(s, start) + c8);
    let target = byte_offset_of(s, start) + c8;
    let j2 = choose|j: int| 0 <= j <= end - start && #[trigger] byte_offset_of(s, start + j) == target;
    lemma_byte_offset_injective(s, start + j2, start + j);
}


/// Number of `\n` characters of `s`.
pub open spec fn newline_count(s: Seq<char>) -> nat
    decreases s.len(),
{
    if s.len() == 0 {
        0
    } else {
        newline_count(s.drop_last()) + if s.last() == '\n' {
            1nat
        } else {
            0nat
        }
    }
}

/// In a strictly increasing table, the entries at most `k` are exactly the
/// first `count_le(ls, k)`.
proof fn lemma_count_le_split(ls: Seq<int>, k: int)
    requires
        forall|a: int, b: int| 0 <= a < b < ls.len() ==> ls[a] < ls[b],
    ensures
        count_le(ls, k) <= ls.len(),
        forall|a: int| 0 <= a < count_le(ls, k) ==> #[trigger] ls[a] <= k,
        forall|a: int| count_le(ls, k) <= a < ls.len() ==> #[trigger] ls[a] > k,
    decreases ls.len(),
{
    if ls.len() > 0 {
        let p = ls.drop_last();
        lemma_count_le_split(p, k);
        let n = ls.len() - 1;
        assert forall|a: int| 0 <= a < n implies #[trigger] ls[a] == p[a] by {}
        if ls.last() <= k {
            assert forall|a: int| 0 <= a < p.len() implies #[trigger] p[a] <= k by {
                assert(ls[a] < ls[n]);
            }
            if count_le(p, k) < p.len() {
                let c = count_le(p, k) as int;
                assert(p[c] <= k);
            }
            assert(count_le(ls, k) == ls.len());
            assert forall|a: int| 0 <= a < count_le(ls, k) implies #[trigger] ls[a] <= k by {
                if a < n {
                    assert(p[a] <= k);
                }
            }
        } else {
            assert(count_le(ls, k) == count_le(p, k));
            assert forall|a: int| 0 <= a < count_le(ls, k) implies #[trigger] ls[a] <= k by {
                assert(p[a] <= k);
            }
            assert forall|a: int| count_le(ls, k) <= a < ls.len() implies #[trigger] ls[a] > k by {
                if a < n {
                    assert(p[a] > k);
                }
            }
        }
    }
}

/// Counting line starts at most `k` counts one more than the newlines before `k`.
proof fn lemma_line_starts_count_newlines(s: Seq<char>, k: int)
    requires
        0 <= k <= s.len(),
    ensures
        count_le(line_starts_spec(s), k) == 1 + newline_count(s.take(k)),
    decreases s.len(),
{
    let ls = line_starts_spec(s);
    if s.len() == 0 {
        assert(s.take(k) =~= Seq::<char>::empty());
        assert(ls =~= seq![0int]);
        assert(ls.drop_last() =~= Seq::<int>::empty());
        assert(count_le(ls.drop_last(), k) == 0);
    } else {
        let p = s.drop_last();
        let lp = line_starts_spec(p);
        lemma_line_starts(p);
        if s.last() == '\n' {
            assert(ls == lp.push(s.len() as int));
            assert(ls.drop_last() =~= lp);
            assert(ls.last() == s.len());
        } else {
            assert(ls == lp);
        }
        if k < s.len() {
            lemma_line_starts_count_newlines(p, k);
            assert(p.take(k) =~= s.take(k));
            assert(count_le(ls, k) == count_le(lp, k));
        } else {
            lemma_line_starts_count_newlines(p, k - 1);
            assert(p.take(k - 1) =~= p);
            assert(s.take(k) =~= s);
            assert(newline_count(s) == newline_count(p) + if s.last() == '\n' {
                1nat
            } else {
                0nat
            });
            lemma_count_le_split(lp, k - 1);
            lemma_count_le_split(lp, k);
            assert(count_le(lp, k) == count_le(lp, k - 1)) by {
                let m1 = count_le(lp, k - 1) as int;
                let m2 = count_le(lp, k) as int;
                if m1 < m2 {
                    assert(lp[m1] <= k && lp[m1] > k - 1);
                    assert(lp[m1] <= p.len());
                }
                if m2 < m1 {
                    assert(lp[m2] <= k - 1);
                }
            }
            if s.last() == '\n' {
                assert(count_le(ls, k) == count_le(lp, k) + 1);
            }
        }
    }
}

/// A position computed from a byte offset maps back to that offset. Its line
/// is one plus the number of `\n` before the offset, and its column is one
/// plus the number of characters since the last `\n` before it (`\r` counts
/// as an ordinary character).
pub proof fn law_position_round_trip(s: Seq<char>, offset: int)
    requires
        position_from_byte_offset_spec(s, offset) is Ok,
    ensures
        ({
            let (line, column) = position_from_byte_offset_spec(s, offset)->Ok_0;
            let k = char_index_at(s, offset);
            let start = k - (column - 1);
            &&& byte_offset_from_position_spec(s, line as int, column as int) == Ok::<int, AnalyzerError>(offset)
            &&& 0 <= k <= s.len() && byte_offset_of(s, k) == offset
            &&& line == 1 + newline_count(s.take(k))
            &&& 0 <= start <= k
            &&& (start == 0 || s[start - 1] == '\n')
            &&& forall|i: int| start <= i < k ==> s[i] != '\n'
        }),
{
    let k = char_index_at(s, offset);
    assert(is_boundary(s, offset));
    assert(0 <= k <= s.len() && byte_offset_of(s, k) == offset);
    lemma_line_starts(s);
    let ls = line_starts_spec(s);
    lemma_count_le_split(ls, k);
    let m = count_le(ls, k);
    assert(ls[0] <= k);
    let line0 = m - 1;
    assert(0 <= line0 < ls.len());
    lemma_line_starts_count_newlines(s, k);
    lemma_line_bounds(s, line0);
    let (start, end) = line_bounds_spec(s, line0);
    assert(start == ls[line0]);
    if line0 + 1 < ls.len() {
        assert(k < ls[line0 + 1]);
        assert(s[ls[line0 + 1] - 1] == '\n');
    } else if s.len() > start && s[s.len() - 1] == '\n' {
        assert(s.drop_last().push(s.last()) =~= s);
        assert(ls[ls.len() - 1] == s.len());
    }
    assert(start <= k <= end);
    assert forall|i: int| start <= i < k implies s[i] != '\n' by {
        if s[i] == '\n' {
            assert(ls.len() >= 1);
            // a newline before k starts a later line at i + 1 <= k
            lemma_newline_starts_a_line(s, i);
            let a = choose|a: int| 0 <= a < ls.len() && #[trigger] ls[a] == i + 1;
            if a <= line0 {
                if a < line0 {
                    assert(ls[a] < ls[line0]);
                }
            } else {
                assert(ls[a] > k);
            }
        }
    }
}

/// What `position_from_byte_offset` answers on every offset of a text of
/// fewer than `u32::MAX` bytes: past the end is out of range, inside a
/// character is inside a code point, and every character boundary, the end
/// included, has a position (which `law_position_round_trip` describes).
pub proof fn law_position_from_offset_is_total(s: Seq<char>, offset: int)
    requires
        0 <= offset,
        utf8_len(s) < u32::MAX,
    ensures
        offset > utf8_len(s) ==> position_from_byte_offset_spec(s, offset) == Err::<(u32, u32), AnalyzerError>(
            AnalyzerError::OutOfRange,
        ),
        offset <= utf8_len(s) && !is_boundary(s, offset) ==> position_from_byte_offset_spec(s, offset) == Err::<
            (u32, u32),
            AnalyzerError,
        >(AnalyzerError::OffsetInsideCodePoint),
        is_boundary(s, offset) ==> position_from_byte_offset_spec(s, offset) is Ok,
{
    if is_boundary(s, offset) {
        let k = char_index_at(s, offset);
        assert(0 <= k <= s.len() && byte_offset_of(s, k) == offset);
        lemma_utf8_len_prefix_monotone(s, k, s.len() as int);
        assert(s.take(s.len() as int) =~= s);
        if s.len() > 0 {
            lemma_utf8_len_prefix_strict(s, 0, s.len() as int);
            assert(s.take(0) =~= Seq::<char>::empty());
        }
        assert(s.len() <= utf8_len(s));
        lemma_line_starts(s);
        let ls = line_starts_spec(s);
        lemma_count_le_split(ls, k);
        assert(ls[0] <= k);
        let line0 = count_le(ls, k) - 1;
        assert(0 <= line0 < ls.len());
        assert(0 <= ls[line0] <= k);
    }
}

/// A position computed from a zero-based line and byte column maps back to
/// that line and column.
pub proof fn law_utf8_position_round_trip(s: Seq<char>, line0: int, col8: int)
    requires
        0 <= line0 <= u32::MAX,
        0 <= col8 <= u32::MAX,
        position_from_utf8_spec(s, line0, col8) is Ok,
    ensures
        ({
            let (line, column) = position_from_utf8_spec(s, line0, col8)->Ok_0;
            utf8_from_position_spec(s, line as int, column as int) == Ok::<(u32, u32), AnalyzerError>(
                (line0 as u32, col8 as u32),
            )
        }),
{
    lemma_line_bounds(s, line0);
    let (start, end) = line_bounds_spec(s, line0);
    let target = byte_offset_of(s, start) + col8;
    let j = choose|j: int| 0 <= j <= end - start && #[trigger] byte_offset_of(s, start + j) == target;
    assert(position_from_utf8_spec(s, line0, col8) == fit_position(line0 + 1, j + 1));
}

/// Every `\n` is followed by the start of a line.
proof fn lemma_newline_starts_a_line(s: Seq<char>, i: int)
    requires
        0 <= i < s.len(),
        s[i] == '\n',
    ensures
        exists|a: int| 0 <= a < line_starts_spec(s).len() && #[trigger] line_starts_spec(s)[a] == i + 1,
    decreases s.len(),
{
    let p = s.drop_last();
    let ls = line_starts_spec(s);
    if i == s.len() - 1 {
        assert(ls[ls.len() - 1] == i + 1);
    } else {
        lemma_newline_starts_a_line(p, i);
        let a = choose|a: int| 0 <= a < line_starts_spec(p).len() && #[trigger] line_starts_spec(p)[a] == i + 1;
        assert(ls[a] == i + 1);
    }
}

/// A resolved byte offset stays inside the text.
pub proof fn lemma_offset_within(s: Seq<char>, line: int, column: int)
    requires
        byte_offset_from_position_spec(s, line, column) is Ok,
    ensures
        byte_offset_from_position_spec(s, line, column)->Ok_0 <= utf8_len(s),
{
    let line0 = line - 1;
    lemma_line_bounds(s, line0);
    let (start, end) = line_bounds_spec(s, line0);
    let k = start + (column - 1);
    lemma_utf8_len_prefix_monotone(s, k, s.len() as int);
    assert(s.take(s.len() as int) =~= s);
}

/// The text shown for each refusal.
pub open spec fn analyzer_error_message(e: AnalyzerError) -> Seq<char> {
    match e {
        AnalyzerError::NotUtf8 => "source bytes are not valid UTF-8"@,
        AnalyzerError::OffsetInsideCodePoint => "offset falls inside a code point or surrogate pair"@,
        AnalyzerError::OutOfRange => "position or offset is outside the file"@,
        AnalyzerError::InvalidRange => "range end precedes range start"@,
        AnalyzerError::OverlappingRanges => "edits overlap"@,
        AnalyzerError::UnknownSymbolKind => "LSP SymbolKind is outside 1..=26"@,
        AnalyzerError::UnknownSeverity => "LSP DiagnosticSeverity is outside 1..=4"@,
        AnalyzerError::Invalid => "value fails a domain invariant"@,
        AnalyzerError::LimitExceeded => "value exceeds a closed analyzer limit"@,
    }
}

impl AnalyzerError {
    /// The text shown for this refusal.
    pub fn message(&self) -> (res: &'static str)
        ensures
            res@ == analyzer_error_message(*self),
    {
        match self {
            AnalyzerError::NotUtf8 => "source bytes are not valid UTF-8",
            AnalyzerError::OffsetInsideCodePoint => "offset falls inside a code point or surrogate pair",
            AnalyzerError::OutOfRange => "position or offset is outside the file",
            AnalyzerError::InvalidRange => "range end precedes range start",
            AnalyzerError::OverlappingRanges => "edits overlap",
            AnalyzerError::UnknownSymbolKind => "LSP SymbolKind is outside 1..=26",
            AnalyzerError::UnknownSeverity => "LSP DiagnosticSeverity is outside 1..=4",
            AnalyzerError::Invalid => "value fails a domain invariant",
            AnalyzerError::LimitExceeded => "value exceeds a closed analyzer limit",
        }
    }
}

} // verus!
