//! Character-level helpers shared by the flag parser and the value parsers.
//!
//! Everything here works on the `Seq<char>` view of a `str`, so the contracts
//! of the parsers can be stated over plain character sequences.
use vstd::prelude::*;
use vstd::string::StrSliceExecFns;
use vstd::string::StringExecFns;
use vstd::utf8::{
    char_u32_cast, encode_scalar, encode_utf8, has_width_2_encoding, has_width_3_encoding,
    last_continuation_byte, leading_byte_width_2, leading_byte_width_3, leading_byte_width_4,
    second_last_continuation_byte, third_last_continuation_byte,
};

verus! {

/// Unicode `White_Space` code points, the set that `str::trim` removes.
pub open spec fn is_unicode_whitespace(c: char) -> bool {
    ||| ('\u{9}' <= c && c <= '\u{d}')
    ||| c == ' '
    ||| c == '\u{85}'
    ||| c == '\u{a0}'
    ||| c == '\u{1680}'
    ||| ('\u{2000}' <= c && c <= '\u{200a}')
    ||| c == '\u{2028}'
    ||| c == '\u{2029}'
    ||| c == '\u{202f}'
    ||| c == '\u{205f}'
    ||| c == '\u{3000}'
}

/// The sequence with leading and trailing Unicode whitespace removed.
pub open spec fn trim_whitespace(s: Seq<char>) -> Seq<char>
    decreases s.len(),
{
    if s.len() == 0 {
        s
    } else if is_unicode_whitespace(s.first()) {
        trim_whitespace(s.drop_first())
    } else if is_unicode_whitespace(s.last()) {
        trim_whitespace(s.drop_last())
    } else {
        s
    }
}

/// ASCII lowercase mapping of one character; other characters are unchanged.
pub open spec fn ascii_lower(c: char) -> char {
    if 'A' <= c && c <= 'Z' {
        ((c as u32) + 32) as char
    } else {
        c
    }
}

/// ASCII lowercase mapping of a whole sequence.
pub open spec fn ascii_lower_seq(s: Seq<char>) -> Seq<char> {
    s.map_values(|c: char| ascii_lower(c))
}

/// The canonical form a configuration value is compared in: trimmed, then
/// ASCII-lowercased.
pub open spec fn normalized(s: Seq<char>) -> Seq<char> {
    ascii_lower_seq(trim_whitespace(s))
}

/// `s` with every leading repetition of the non-empty `prefix` removed.
pub open spec fn strip_prefix_repeated(s: Seq<char>, prefix: Seq<char>) -> Seq<char>
    decreases s.len(),
{
    if prefix.len() > 0 && prefix.is_prefix_of(s) {
        strip_prefix_repeated(s.skip(prefix.len() as int), prefix)
    } else {
        s
    }
}

/// Decimal spelling of a natural number, most significant digit first.
pub open spec fn decimal_digits(n: nat) -> Seq<char>
    decreases n,
{
    if n < 10 {
        seq![digit_char(n)]
    } else {
        decimal_digits(n / 10).push(digit_char(n % 10))
    }
}

/// The ASCII digit for `d` (expected below ten).
pub open spec fn digit_char(d: nat) -> char {
    (('0' as u32) + d) as char
}

proof fn lemma_trim_subrange_step_front(s: Seq<char>, start: int, end: int)
    requires
        0 <= start < end <= s.len(),
        is_unicode_whitespace(s[start]),
    ensures
        trim_whitespace(s.subrange(start, end)) == trim_whitespace(s.subrange(start + 1, end)),
{
    let sub = s.subrange(start, end);
    assert(sub.drop_first() =~= s.subrange(start + 1, end));
}

proof fn lemma_trim_subrange_step_back(s: Seq<char>, start: int, end: int)
    requires
        0 <= start < end <= s.len(),
        !is_unicode_whitespace(s[start]),
        is_unicode_whitespace(s[end - 1]),
    ensures
        trim_whitespace(s.subrange(start, end)) == trim_whitespace(s.subrange(start, end - 1)),
{
    let sub = s.subrange(start, end);
    assert(sub.drop_last() =~= s.subrange(start, end - 1));
}

/// Whether `c` is Unicode whitespace.
pub fn char_is_whitespace(c: char) -> (r: bool)
    ensures
        r == is_unicode_whitespace(c),
{
    ('\u{9}' <= c && c <= '\u{d}') || c == ' ' || c == '\u{85}' || c == '\u{a0}' || c
        == '\u{1680}' || ('\u{2000}' <= c && c <= '\u{200a}') || c == '\u{2028}' || c
        == '\u{2029}' || c == '\u{202f}' || c == '\u{205f}' || c == '\u{3000}'
}

/// The characters of `s`, one per element.
pub fn chars_of(s: &str) -> (v: Vec<char>)
    ensures
        v@ == s@,
{
    let n = s.unicode_len();
    let mut v: Vec<char> = Vec::new();
    let mut i: usize = 0;
    while i < n
        invariant
            n == s@.len(),
            i <= n,
            v@ == s@.subrange(0, i as int),
        decreases n - i,
    {
        let c = s.get_char(i);
        v.push(c);
        i += 1;
        assert(v@ =~= s@.subrange(0, i as int));
    }
    assert(v@ =~= s@);
    v
}

/// Bounds `(start, end)` such that `v[start..end]` is `v` without surrounding
/// whitespace.
pub fn trim_bounds(v: &Vec<char>) -> (r: (usize, usize))
    ensures
        r.0 <= r.1 <= v@.len(),
        v@.subrange(r.0 as int, r.1 as int) == trim_whitespace(v@),
{
    let mut start: usize = 0;
    let mut end: usize = v.len();
    assert(v@.subrange(0, v@.len() as int) =~= v@);
    while start < end && char_is_whitespace(v[start])
        invariant
            start <= end == v@.len(),
            trim_whitespace(v@.subrange(start as int, end as int)) == trim_whitespace(v@),
        decreases end - start,
    {
        proof {
            lemma_trim_subrange_step_front(v@, start as int, end as int);
        }
        start += 1;
    }
    while end > start && char_is_whitespace(v[end - 1])
        invariant
            start <= end <= v@.len(),
            start < end ==> !is_unicode_whitespace(v@[start as int]),
            trim_whitespace(v@.subrange(start as int, end as int)) == trim_whitespace(v@),
        decreases end - start,
    {
        proof {
            lemma_trim_subrange_step_back(v@, start as int, end as int);
        }
        end -= 1;
    }
    let ghost sub = v@.subrange(start as int, end as int);
    assert(sub.len() == 0 || (!is_unicode_whitespace(sub.first()) && !is_unicode_whitespace(
        sub.last(),
    )));
    (start, end)
}

/// Code point of the ASCII lowercase of one character.
pub fn ascii_lower_code(c: char) -> (r: u32)
    ensures
        r == ascii_lower(c) as u32,
{
    if 'A' <= c && c <= 'Z' {
        (c as u32) + 32
    } else {
        c as u32
    }
}

proof fn lemma_lower_code_eq(c: char, d: char)
    ensures
        (ascii_lower(c) as u32 == d as u32) == (ascii_lower(c) == d),
{
}

/// Whether the normalized form of `v` equals the literal `lit`.
pub fn normalized_equals(v: &Vec<char>, lit: &str) -> (r: bool)
    ensures
        r == (normalized(v@) == lit@),
{
    let (start, end) = trim_bounds(v);
    let ghost trimmed = v@.subrange(start as int, end as int);
    let n = lit.unicode_len();
    if end - start != n {
        proof {
            assert(normalized(v@).len() == trimmed.len());
        }
        return false;
    }
    let mut i: usize = 0;
    while i < n
        invariant
            start <= end <= v@.len(),
            trimmed == v@.subrange(start as int, end as int),
            normalized(v@) == ascii_lower_seq(trimmed),
            end - start == n,
            n == lit@.len(),
            i <= n,
            forall|j: int| 0 <= j < i ==> #[trigger] ascii_lower(trimmed[j]) == lit@[j],
        decreases n - i,
    {
        let c = ascii_lower_code(v[start + i]);
        let d = lit.get_char(i);
        proof {
            lemma_lower_code_eq(v@[start + i], d);
            assert(trimmed[i as int] == v@[start + i]);
        }
        if c != d as u32 {
            proof {
                assert(ascii_lower_seq(trimmed)[i as int] == ascii_lower(trimmed[i as int]));
            }
            return false;
        }
        i += 1;
    }
    assert(normalized(v@) =~= lit@);
    true
}

/// Whether two strings have the same characters.
pub fn str_equals(a: &str, b: &str) -> (r: bool)
    ensures
        r == (a@ == b@),
{
    let n = a.unicode_len();
    if n != b.unicode_len() {
        return false;
    }
    let mut i: usize = 0;
    while i < n
        invariant
            n == a@.len(),
            n == b@.len(),
            i <= n,
            forall|j: int| 0 <= j < i ==> a@[j] == b@[j],
        decreases n - i,
    {
        if a.get_char(i) != b.get_char(i) {
            return false;
        }
        i += 1;
    }
    assert(a@ =~= b@);
    true
}

/// Whether `prefix` is a prefix of `s`.
pub fn str_starts_with(s: &str, prefix: &str) -> (r: bool)
    ensures
        r == prefix@.is_prefix_of(s@),
{
    let n = prefix.unicode_len();
    if n > s.unicode_len() {
        return false;
    }
    let mut i: usize = 0;
    while i < n
        invariant
            n == prefix@.len(),
            n <= s@.len(),
            i <= n,
            forall|j: int| 0 <= j < i ==> prefix@[j] == s@[j],
        decreases n - i,
    {
        if s.get_char(i) != prefix.get_char(i) {
            return false;
        }
        i += 1;
    }
    true
}

/// `s` with every leading repetition of the non-empty `prefix` removed, like
/// `str::trim_start_matches` with a string pattern.
pub fn strip_prefix_repeated_exec<'a>(s: &'a str, prefix: &str) -> (r: &'a str)
    requires
        prefix@.len() > 0,
    ensures
        r@ == strip_prefix_repeated(s@, prefix@),
{
    let mut rest: &'a str = s;
    let p = prefix.unicode_len();
    while str_starts_with(rest, prefix)
        invariant
            p == prefix@.len(),
            p > 0,
            strip_prefix_repeated(rest@, prefix@) == strip_prefix_repeated(s@, prefix@),
        decreases rest@.len(),
    {
        let ghost before = rest@;
        let len = rest.unicode_len();
        rest = rest.substring_char(p, len);
        assert(rest@ =~= before.skip(p as int));
    }
    rest
}

/// Owned copy of a string slice.
pub fn owned(s: &str) -> (r: String)
    ensures
        r@ == s@,
{
    String::from_str(s)
}

/// The single-digit string for `d`.
pub fn digit_str(d: usize) -> (r: &'static str)
    requires
        d < 10,
    ensures
        r@ == seq![digit_char(d as nat)],
{
    proof {
        reveal_strlit("0");
        reveal_strlit("1");
        reveal_strlit("2");
        reveal_strlit("3");
        reveal_strlit("4");
        reveal_strlit("5");
        reveal_strlit("6");
        reveal_strlit("7");
        reveal_strlit("8");
        reveal_strlit("9");
    }
    let r = if d == 0 {
        "0"
    } else if d == 1 {
        "1"
    } else if d == 2 {
        "2"
    } else if d == 3 {
        "3"
    } else if d == 4 {
        "4"
    } else if d == 5 {
        "5"
    } else if d == 6 {
        "6"
    } else if d == 7 {
        "7"
    } else if d == 8 {
        "8"
    } else {
        "9"
    };
    assert(r@ =~= seq![digit_char(d as nat)]);
    r
}

/// Appends the decimal spelling of `n` to `out`.
pub fn append_decimal(out: &mut String, n: usize)
    ensures
        final(out)@ == old(out)@ + decimal_digits(n as nat),
    decreases n,
{
    if n < 10 {
        out.append(digit_str(n));
    } else {
        append_decimal(out, n / 10);
        out.append(digit_str(n % 10));
        proof {
            assert(decimal_digits(n as nat) == decimal_digits((n / 10) as nat).push(
                digit_char((n % 10) as nat),
            ));
            assert(out@ =~= old(out)@ + decimal_digits(n as nat));
        }
    }
}

/// The `Debug` rendering of a string value: the characters in double quotes,
/// with quotes, backslashes and non-printable characters escaped as Rust's
/// `str` `Debug` implementation does.
pub uninterp spec fn debug_string_literal(value: Seq<char>) -> Seq<char>;

/// `format!("{:?}", value)` of a string slice: its result is named by
/// `debug_string_literal` and nothing more is claimed of it.
#[verifier::external_body]
pub(crate) fn debug_quote(value: &str) -> (r: String)
    ensures
        r@ == debug_string_literal(value@),
{
    format!("{:?}", value)
}

proof fn lemma_multibyte_bytes_are_high(s: u32)
    by (bit_vector)
    ensures
        leading_byte_width_2(s) >= 0x80,
        leading_byte_width_3(s) >= 0x80,
        leading_byte_width_4(s) >= 0x80,
        last_continuation_byte(s) >= 0x80,
        second_last_continuation_byte(s) >= 0x80,
        third_last_continuation_byte(s) >= 0x80,
{
}

proof fn lemma_single_byte_is_itself(s: u32)
    by (bit_vector)
    requires
        s <= 0x7F,
    ensures
        (s & 0x7F) as u8 == s,
{
}

proof fn lemma_scalar_contains_ascii(s: u32, b: u8)
    requires
        b < 0x80,
    ensures
        encode_scalar(s).contains(b) <==> s == b as u32,
{
    if s <= 0x7F {
        lemma_single_byte_is_itself(s);
        assert(encode_scalar(s) =~= seq![s as u8]);
        if s == b as u32 {
            assert(encode_scalar(s)[0] == b);
        }
    } else {
        lemma_multibyte_bytes_are_high(s);
        let e = encode_scalar(s);
        if has_width_2_encoding(s) {
            let (x0, x1) = (leading_byte_width_2(s), last_continuation_byte(s));
            assert(e =~= seq![x0, x1]);
            assert forall|i: int| 0 <= i < e.len() implies e[i] >= 0x80 by {
                assert(i == 0 || i == 1);
            }
        } else if has_width_3_encoding(s) {
            let (x0, x1, x2) = (
                leading_byte_width_3(s),
                second_last_continuation_byte(s),
                last_continuation_byte(s),
            );
            assert(e =~= seq![x0, x1, x2]);
            assert forall|i: int| 0 <= i < e.len() implies e[i] >= 0x80 by {
                assert(i == 0 || i == 1 || i == 2);
            }
        } else {
            let (x0, x1, x2, x3) = (
                leading_byte_width_4(s),
                third_last_continuation_byte(s),
                second_last_continuation_byte(s),
                last_continuation_byte(s),
            );
            assert(e =~= seq![x0, x1, x2, x3]);
            assert forall|i: int| 0 <= i < e.len() implies e[i] >= 0x80 by {
                assert(i == 0 || i == 1 || i == 2 || i == 3);
            }
        }
        assert(!e.contains(b));
    }
}

/// An ASCII byte occurs in the UTF-8 encoding of a character sequence exactly
/// when the character with that code occurs in the sequence: multi-byte
/// encodings consist of bytes at or above `0x80` only.
pub proof fn lemma_utf8_contains_ascii(chars: Seq<char>, b: u8)
    requires
        b < 0x80,
    ensures
        encode_utf8(chars).contains(b) <==> chars.contains(b as char),
    decreases chars.len(),
{
    if chars.len() > 0 {
        let head = encode_scalar(chars[0] as u32);
        let tail = encode_utf8(chars.drop_first());
        lemma_utf8_contains_ascii(chars.drop_first(), b);
        lemma_scalar_contains_ascii(chars[0] as u32, b);
        assert(encode_utf8(chars) == head + tail);
        if encode_utf8(chars).contains(b) {
            let i = choose|i: int| 0 <= i < encode_utf8(chars).len() && encode_utf8(chars)[i] == b;
            if i < head.len() {
                assert(head.contains(b));
                char_u32_cast(chars[0], chars[0] as u32);
                assert((b as u32) as char == b as char);
                assert(chars[0] == b as char);
            } else {
                assert(tail[i - head.len()] == b);
                assert(tail.contains(b));
                let j = choose|j: int| 0 <= j < chars.drop_first().len() && chars.drop_first()[j] == b as char;
                assert(chars[j + 1] == b as char);
            }
        }
        if chars.contains(b as char) {
            let j = choose|j: int| 0 <= j < chars.len() && chars[j] == b as char;
            if j == 0 {
                assert(head.contains(b));
                let k = choose|k: int| 0 <= k < head.len() && head[k] == b;
                assert(encode_utf8(chars)[k] == b);
            } else {
                assert(chars.drop_first()[j - 1] == b as char);
                assert(tail.contains(b));
                let k = choose|k: int| 0 <= k < tail.len() && tail[k] == b;
                assert(encode_utf8(chars)[head.len() + k] == b);
            }
        }
    } else {
        assert(encode_utf8(chars) =~= Seq::<u8>::empty());
    }
}

/// Whether `b` occurs in `bytes`.
pub fn contains_byte(bytes: &[u8], b: u8) -> (r: bool)
    ensures
        r == bytes@.contains(b),
{
    let mut i: usize = 0;
    while i < bytes.len()
        invariant
            i <= bytes@.len(),
            forall|j: int| 0 <= j < i ==> bytes@[j] != b,
        decreases bytes@.len() - i,
    {
        if bytes[i] == b {
            proof {
                assert(bytes@[i as int] == b);
            }
            return true;
        }
        i += 1;
    }
    false
}

/// Whether the character with the ASCII code `b` occurs in `s`, by scanning the
/// UTF-8 bytes of `s`.
pub fn contains_ascii(s: &str, b: u8) -> (r: bool)
    requires
        b < 0x80,
    ensures
        r == s@.contains(b as char),
{
    let bytes = s.as_bytes();
    proof {
        lemma_utf8_contains_ascii(s@, b);
    }
    contains_byte(bytes, b)
}

} // verus!
