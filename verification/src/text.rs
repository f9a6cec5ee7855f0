//! Character-level predicates and string helpers shared by every validator.
use vstd::prelude::*;

verus! {

/// The Unicode `Cc` category, which is what `char::is_control` tests.
pub open spec fn is_control_spec(c: char) -> bool {
    (c as u32) <= 0x1f || (0x7f <= (c as u32) && (c as u32) <= 0x9f)
}

/// The Unicode `White_Space` property, which is what `char::is_whitespace` tests.
pub open spec fn is_whitespace_spec(c: char) -> bool {
    let v = c as u32;
    ||| (0x09 <= v && v <= 0x0d)
    ||| v == 0x20
    ||| v == 0x85
    ||| v == 0xa0
    ||| v == 0x1680
    ||| (0x2000 <= v && v <= 0x200a)
    ||| v == 0x2028
    ||| v == 0x2029
    ||| v == 0x202f
    ||| v == 0x205f
    ||| v == 0x3000
}

pub open spec fn is_ascii_digit_spec(c: char) -> bool {
    '0' <= c && c <= '9'
}

pub open spec fn is_ascii_alphanumeric_spec(c: char) -> bool {
    ||| ('0' <= c && c <= '9')
    ||| ('a' <= c && c <= 'z')
    ||| ('A' <= c && c <= 'Z')
}

/// A lowercase hexadecimal digit: `0-9` or `a-f`.
pub open spec fn is_lower_hex_spec(c: char) -> bool {
    ('0' <= c && c <= '9') || ('a' <= c && c <= 'f')
}

/// Whether every character of `s` is whitespace: what `s.trim().is_empty()` tests.
pub open spec fn all_whitespace(s: Seq<char>) -> bool {
    forall|i: int| 0 <= i < s.len() ==> #[trigger] is_whitespace_spec(s[i])
}

/// Whether some character of `s` is a control character.
pub open spec fn has_control_char(s: Seq<char>) -> bool {
    exists|i: int| 0 <= i < s.len() && #[trigger] is_control_spec(s[i])
}

/// Number of bytes of the UTF-8 encoding of `c`.
pub open spec fn char_utf8_width(c: char) -> nat {
    if (c as u32) < 0x80 {
        1
    } else if (c as u32) < 0x800 {
        2
    } else if (c as u32) < 0x10000 {
        3
    } else {
        4
    }
}

/// Number of bytes of the UTF-8 encoding of `s`: what `str::len` returns.
pub open spec fn utf8_len(s: Seq<char>) -> nat
    decreases s.len(),
{
    if s.len() == 0 {
        0
    } else {
        utf8_len(s.drop_last()) + char_utf8_width(s.last())
    }
}

/// `s` is `prefix` followed by exactly 32 lowercase hexadecimal digits.
pub open spec fn canonical_hex_id(s: Seq<char>, prefix: Seq<char>) -> bool {
    prefixed_lower_hex(s, prefix, 32)
}

/// `s` is `prefix` followed by exactly `n` lowercase hexadecimal digits.
pub open spec fn prefixed_lower_hex(s: Seq<char>, prefix: Seq<char>, n: nat) -> bool {
    &&& s.len() == prefix.len() + n
    &&& s.take(prefix.len() as int) == prefix
    &&& forall|i: int| prefix.len() <= i < s.len() ==> #[trigger] is_lower_hex_spec(s[i])
}

/// The number of maximal runs of non-whitespace characters in `s`: what
/// `str::split_whitespace().count()` returns.
pub open spec fn word_count(s: Seq<char>) -> nat
    decreases s.len(),
{
    if s.len() == 0 {
        0
    } else {
        let last = s.len() - 1;
        let starts_word = !is_whitespace_spec(s[last]) && (last == 0 || is_whitespace_spec(
            s[last - 1],
        ));
        word_count(s.drop_last()) + if starts_word {
            1nat
        } else {
            0nat
        }
    }
}

/// Whether `c` is a control character (`Cc`): U+0000..=U+001F or U+007F..=U+009F.
pub fn is_control(c: char) -> (res: bool)
    ensures
        res == is_control_spec(c),
{
    let v = c as u32;
    v <= 0x1f || (0x7f <= v && v <= 0x9f)
}

/// Whether `c` has the Unicode `White_Space` property.
pub fn is_whitespace(c: char) -> (res: bool)
    ensures
        res == is_whitespace_spec(c),
{
    let v = c as u32;
    (0x09 <= v && v <= 0x0d) || v == 0x20 || v == 0x85 || v == 0xa0 || v == 0x1680 || (0x2000 <= v
        && v <= 0x200a) || v == 0x2028 || v == 0x2029 || v == 0x202f || v == 0x205f || v == 0x3000
}

pub fn is_ascii_digit(c: char) -> (res: bool)
    ensures
        res == is_ascii_digit_spec(c),
{
    '0' <= c && c <= '9'
}

pub fn is_ascii_alphanumeric(c: char) -> (res: bool)
    ensures
        res == is_ascii_alphanumeric_spec(c),
{
    ('0' <= c && c <= '9') || ('a' <= c && c <= 'z') || ('A' <= c && c <= 'Z')
}

pub fn is_lower_hex(c: char) -> (res: bool)
    ensures
        res == is_lower_hex_spec(c),
{
    ('0' <= c && c <= '9') || ('a' <= c && c <= 'f')
}

/// The characters of `s`, in order.
pub fn chars_of(s: &str) -> (res: Vec<char>)
    ensures
        res@ == s@,
{
    let mut out: Vec<char> = Vec::new();
    for c in it: s.chars()
        invariant
            out@ == it.seq().take(it.index() as int),
    {
        out.push(c);
    }
    out
}

/// Number of bytes of the UTF-8 encoding of `c`.
pub fn char_width(c: char) -> (res: usize)
    ensures
        res == char_utf8_width(c),
        1 <= res <= 4,
{
    let v = c as u32;
    if v < 0x80 {
        1
    } else if v < 0x800 {
        2
    } else if v < 0x10000 {
        3
    } else {
        4
    }
}

pub proof fn lemma_utf8_len_prefix_monotone(s: Seq<char>, i: int, j: int)
    requires
        0 <= i <= j <= s.len(),
    ensures
        utf8_len(s.take(i)) <= utf8_len(s.take(j)),
    decreases j - i,
{
    if i < j {
        lemma_utf8_len_prefix_monotone(s, i, j - 1);
        assert(s.take(j).drop_last() =~= s.take(j - 1));
    }
}

/// Whether `s` takes more than `max` bytes in UTF-8: `s.len() > max`.
pub fn utf8_len_exceeds(s: &str, max: usize) -> (res: bool)
    ensures
        res == (utf8_len(s@) > max),
{
    let v = chars_of(s);
    let mut total: usize = 0;
    let mut i: usize = 0;
    while i < v.len()
        invariant
            v@ == s@,
            i <= v.len(),
            total == utf8_len(v@.take(i as int)),
            total <= max,
        decreases v.len() - i,
    {
        let w = char_width(v[i]);
        assert(v@.take(i + 1).drop_last() =~= v@.take(i as int));
        if w > max - total {
            proof {
                lemma_utf8_len_prefix_monotone(v@, i + 1, v.len() as int);
                assert(v@.take(v.len() as int) =~= v@);
            }
            return true;
        }
        total = total + w;
        i = i + 1;
    }
    assert(v@.take(v.len() as int) =~= v@);
    false
}

/// Equality of two string slices by their characters.
pub fn str_eq(a: &str, b: &str) -> (res: bool)
    ensures
        res == (a@ == b@),
{
    let x = chars_of(a);
    let y = chars_of(b);
    if x.len() != y.len() {
        return false;
    }
    let mut i: usize = 0;
    while i < x.len()
        invariant
            x@ == a@,
            y@ == b@,
            x.len() == y.len(),
            i <= x.len(),
            forall|j: int| 0 <= j < i ==> x@[j] == y@[j],
        decreases x.len() - i,
    {
        if x[i] != y[i] {
            return false;
        }
        i = i + 1;
    }
    assert(x@ =~= y@);
    true
}

/// A `String` holding exactly `chars`.
#[verifier::external_body]
pub(crate) fn string_from_chars(chars: &[char]) -> (res: String)
    ensures
        res@ == chars@,
{
    chars.iter().collect()
}

/// An owned copy of `s`.
pub fn owned(s: &str) -> (res: String)
    ensures
        res@ == s@,
{
    s.to_owned()
}

/// Whether every character of `s` is whitespace: what `s.trim().is_empty()` tests.
pub fn is_blank(s: &str) -> (res: bool)
    ensures
        res == all_whitespace(s@),
{
    let v = chars_of(s);
    let mut i: usize = 0;
    while i < v.len()
        invariant
            v@ == s@,
            i <= v.len(),
            forall|j: int| 0 <= j < i ==> is_whitespace_spec(#[trigger] v@[j]),
        decreases v.len() - i,
    {
        if !is_whitespace(v[i]) {
            return false;
        }
        i = i + 1;
    }
    true
}

/// Whether some character of `s` is a control character.
pub fn has_control(s: &str) -> (res: bool)
    ensures
        res == has_control_char(s@),
{
    let v = chars_of(s);
    let mut i: usize = 0;
    while i < v.len()
        invariant
            v@ == s@,
            i <= v.len(),
            forall|j: int| 0 <= j < i ==> !is_control_spec(#[trigger] v@[j]),
        decreases v.len() - i,
    {
        if is_control(v[i]) {
            assert(is_control_spec(v@[i as int]));
            return true;
        }
        i = i + 1;
    }
    false
}

/// The number of characters of `s`.
pub fn char_count(s: &str) -> (res: usize)
    ensures
        res == s@.len(),
{
    chars_of(s).len()
}

/// Whether `s` is `prefix` followed by 32 lowercase hexadecimal digits.
pub fn is_canonical_hex_id(s: &str, prefix: &str) -> (res: bool)
    ensures
        res == canonical_hex_id(s@, prefix@),
{
    is_prefixed_lower_hex(s, prefix, 32)
}

/// Whether `s` is `prefix` followed by `n` lowercase hexadecimal digits.
pub fn is_prefixed_lower_hex(s: &str, prefix: &str, n: usize) -> (res: bool)
    ensures
        res == prefixed_lower_hex(s@, prefix@, n as nat),
{
    let v = chars_of(s);
    let p = chars_of(prefix);
    if p.len() > v.len() || v.len() - p.len() != n {
        return false;
    }
    let mut i: usize = 0;
    while i < p.len()
        invariant
            v@ == s@,
            p@ == prefix@,
            p.len() <= v.len(),
            i <= p.len(),
            forall|j: int| 0 <= j < i ==> v@[j] == p@[j],
        decreases p.len() - i,
    {
        if v[i] != p[i] {
            assert(v@.take(p.len() as int)[i as int] != p@[i as int]);
            return false;
        }
        i = i + 1;
    }
    assert(v@.take(p.len() as int) =~= p@);
    while i < v.len()
        invariant
            v@ == s@,
            p@ == prefix@,
            p.len() <= i <= v.len(),
            forall|j: int| p.len() <= j < i ==> is_lower_hex_spec(#[trigger] v@[j]),
        decreases v.len() - i,
    {
        if !is_lower_hex(v[i]) {
            return false;
        }
        i = i + 1;
    }
    true
}

/// The number of whitespace-separated words in `s`.
pub fn count_words(s: &str) -> (res: usize)
    ensures
        res == word_count(s@),
{
    let v = chars_of(s);
    let mut count: usize = 0;
    let mut i: usize = 0;
    while i < v.len()
        invariant
            v@ == s@,
            i <= v.len(),
            count == word_count(v@.take(i as int)),
            count <= i,
        decreases v.len() - i,
    {
        let starts = !is_whitespace(v[i]) && (i == 0 || is_whitespace(v[i - 1]));
        assert(v@.take(i + 1).drop_last() =~= v@.take(i as int));
        if starts {
            count = count + 1;
        }
        i = i + 1;
    }
    assert(v@.take(v.len() as int) =~= v@);
    count
}

/// Lowercase hexadecimal digit for a nibble.
pub open spec fn hex_digit_spec(n: u8) -> char {
    if n < 10 {
        (('0' as u8) + n) as char
    } else {
        (('a' as u8) + (n - 10)) as char
    }
}

/// `prefix` followed by two lowercase hex digits per byte, high nibble first.
pub open spec fn hex_encoding(bytes: Seq<u8>) -> Seq<char>
    decreases bytes.len(),
{
    if bytes.len() == 0 {
        Seq::empty()
    } else {
        hex_encoding(bytes.drop_last()) + seq![
            hex_digit_spec(bytes.last() >> 4),
            hex_digit_spec(bytes.last() & 0x0f),
        ]
    }
}

pub fn hex_digit(n: u8) -> (res: char)
    requires
        n < 16,
    ensures
        res == hex_digit_spec(n),
        is_lower_hex_spec(res),
{
    if n < 10 {
        (('0' as u8) + n) as char
    } else {
        (('a' as u8) + (n - 10)) as char
    }
}

/// `prefix` followed by the lowercase hexadecimal encoding of `bytes`.
pub fn prefixed_hex(prefix: &str, bytes: &[u8]) -> (res: String)
    ensures
        res@ == prefix@ + hex_encoding(bytes@),
{
    let mut out = chars_of(prefix);
    let mut i: usize = 0;
    while i < bytes.len()
        invariant
            i <= bytes.len(),
            out@ == prefix@ + hex_encoding(bytes@.take(i as int)),
        decreases bytes.len() - i,
    {
        let b = bytes[i];
        assert(b >> 4 < 16) by (bit_vector);
        assert(b & 0x0f < 16) by (bit_vector);
        out.push(hex_digit(b >> 4));
        out.push(hex_digit(b & 0x0f));
        assert(bytes@.take(i + 1).drop_last() =~= bytes@.take(i as int));
        assert(out@ =~= prefix@ + hex_encoding(bytes@.take(i + 1)));
        i = i + 1;
    }
    assert(bytes@.take(bytes.len() as int) =~= bytes@);
    string_from_chars(out.as_slice())
}


/// The first `n` characters of `s` (all of them when `s` is shorter).
pub fn take_chars(s: &str, n: usize) -> (res: String)
    ensures
        res@ == s@.take(if n <= s@.len() { n as int } else { s@.len() as int }),
{
    let v = chars_of(s);
    let mut out: Vec<char> = Vec::new();
    let mut i: usize = 0;
    while i < n && i < v.len()
        invariant
            v@ == s@,
            i <= v.len(),
            i <= n,
            out@ == v@.take(i as int),
        decreases v.len() - i,
    {
        out.push(v[i]);
        i = i + 1;
        assert(out@ =~= v@.take(i as int));
    }
    string_from_chars(out.as_slice())
}


/// The hexadecimal encoding has two lowercase digits per byte.
pub proof fn lemma_hex_encoding(bytes: Seq<u8>)
    ensures
        hex_encoding(bytes).len() == 2 * bytes.len(),
        forall|i: int| 0 <= i < hex_encoding(bytes).len() ==> #[trigger] is_lower_hex_spec(hex_encoding(bytes)[i]),
    decreases bytes.len(),
{
    if bytes.len() > 0 {
        lemma_hex_encoding(bytes.drop_last());
        let b = bytes.last();
        assert(b >> 4 < 16) by (bit_vector);
        assert(b & 0x0f < 16) by (bit_vector);
        let h = b >> 4;
        let l = b & 0x0f;
        assert(is_lower_hex_spec(hex_digit_spec(h)));
        assert(is_lower_hex_spec(hex_digit_spec(l)));
        let prev = hex_encoding(bytes.drop_last());
        assert forall|i: int| 0 <= i < hex_encoding(bytes).len() implies #[trigger] is_lower_hex_spec(hex_encoding(bytes)[i]) by {
            if i < prev.len() {
                assert(hex_encoding(bytes)[i] == prev[i]);
            }
        }
    }
}


/// Lexicographic order of character sequences, by code point: the order of
/// their UTF-8 bytes, which is how `str` compares.
pub open spec fn str_lt(a: Seq<char>, b: Seq<char>) -> bool
    decreases a.len(),
{
    if a.len() == 0 {
        b.len() > 0
    } else if b.len() == 0 {
        false
    } else if a[0] != b[0] {
        a[0] < b[0]
    } else {
        str_lt(a.drop_first(), b.drop_first())
    }
}

pub proof fn lemma_str_lt_irreflexive(a: Seq<char>)
    ensures
        !str_lt(a, a),
    decreases a.len(),
{
    if a.len() > 0 {
        lemma_str_lt_irreflexive(a.drop_first());
    }
}

pub proof fn lemma_str_lt_transitive(a: Seq<char>, b: Seq<char>, c: Seq<char>)
    requires
        str_lt(a, b),
        str_lt(b, c),
    ensures
        str_lt(a, c),
    decreases a.len(),
{
    if a.len() > 0 && b.len() > 0 && c.len() > 0 {
        if a[0] == b[0] && b[0] == c[0] {
            lemma_str_lt_transitive(a.drop_first(), b.drop_first(), c.drop_first());
        }
    }
}

pub proof fn lemma_str_lt_total(a: Seq<char>, b: Seq<char>)
    requires
        a != b,
    ensures
        str_lt(a, b) || str_lt(b, a),
    decreases a.len(),
{
    if a.len() > 0 && b.len() > 0 && a[0] == b[0] {
        if a.drop_first() == b.drop_first() {
            assert(a =~= seq![a[0]] + a.drop_first());
            assert(b =~= seq![b[0]] + b.drop_first());
        }
        lemma_str_lt_total(a.drop_first(), b.drop_first());
    } else if a.len() == 0 && b.len() == 0 {
        assert(a =~= b);
    }
}

pub proof fn lemma_str_lt_asymmetric(a: Seq<char>, b: Seq<char>)
    requires
        str_lt(a, b),
    ensures
        !str_lt(b, a),
    decreases a.len(),
{
    if a.len() > 0 && b.len() > 0 && a[0] == b[0] {
        lemma_str_lt_asymmetric(a.drop_first(), b.drop_first());
    }
}

/// Comparing two concatenations whose first parts have one length compares
/// the first parts, and the second parts where the first agree.
pub proof fn lemma_str_lt_concat(a: Seq<char>, b: Seq<char>, c: Seq<char>, d: Seq<char>)
    requires
        a.len() == c.len(),
    ensures
        str_lt(a + b, c + d) == (str_lt(a, c) || (a == c && str_lt(b, d))),
        (a + b == c + d) == (a == c && b == d),
    decreases a.len(),
{
    if a.len() == 0 {
        assert(a + b =~= b);
        assert(c + d =~= d);
        assert(a =~= c);
    } else {
        assert((a + b)[0] == a[0]);
        assert((c + d)[0] == c[0]);
        assert((a + b).drop_first() =~= a.drop_first() + b);
        assert((c + d).drop_first() =~= c.drop_first() + d);
        lemma_str_lt_concat(a.drop_first(), b, c.drop_first(), d);
        if a[0] == c[0] && a.drop_first() == c.drop_first() {
            assert forall|i: int| 0 <= i < a.len() implies a[i] == c[i] by {
                if i > 0 {
                    assert(a[i] == a.drop_first()[i - 1]);
                    assert(c[i] == c.drop_first()[i - 1]);
                }
            }
            assert(a =~= c);
        }
        if a == c {
            assert(a.drop_first() =~= c.drop_first());
        }
        if a + b == c + d {
            assert((a + b)[0] == (c + d)[0]);
            assert((a + b).drop_first() == (c + d).drop_first());
            assert(a.drop_first() == c.drop_first());
        }
        if a == c && b == d {
            assert(a + b =~= c + d);
        }
    }
}

/// Whether `a` sorts strictly before `b`.
pub fn str_less(a: &str, b: &str) -> (res: bool)
    ensures
        res == str_lt(a@, b@),
{
    let x = chars_of(a);
    let y = chars_of(b);
    let mut i: usize = 0;
    assert(a@.skip(0) =~= a@);
    assert(b@.skip(0) =~= b@);
    while i < x.len() && i < y.len()
        invariant
            x@ == a@,
            y@ == b@,
            i <= x@.len(),
            i <= y@.len(),
            forall|k: int| 0 <= k < i ==> x@[k] == y@[k],
            str_lt(a@, b@) == str_lt(a@.skip(i as int), b@.skip(i as int)),
        decreases x@.len() - i,
    {
        if x[i] != y[i] {
            return x[i] < y[i];
        }
        proof {
            assert(a@.skip(i as int).drop_first() =~= a@.skip(i + 1));
            assert(b@.skip(i as int).drop_first() =~= b@.skip(i + 1));
        }
        i = i + 1;
    }
    i < y.len()
}

} // verus!
