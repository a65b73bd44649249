//! Text as the client handles it: Rust strings are UTF-8, cursors and lengths
//! are counted in bytes, and views are sequences of characters. This module
//! relates the two and wraps the few `str`/`String` operations whose
//! behaviour vstd does not specify.
use vstd::prelude::*;
use vstd::utf8::{
    char_is_scalar, encode_scalar, encode_utf8, encode_utf8_first_scalar, encode_utf8_valid_utf8,
    is_char_boundary, pop_first_scalar,
};

verus! {

/// Number of bytes in the UTF-8 encoding of `c`.
pub open spec fn char_width(c: char) -> nat {
    if (c as u32) < 0x80 {
        1
    } else if (c as u32) < 0x800 {
        2
    } else if (c as u32) < 0x10000 {
        3
    } else {
        4
    }
}

/// Number of bytes in the UTF-8 encoding of `s`.
pub open spec fn byte_len(s: Seq<char>) -> nat
    decreases s.len(),
{
    if s.len() == 0 {
        0
    } else {
        char_width(s[0]) + byte_len(s.drop_first())
    }
}

/// The index of the character whose encoding starts at byte offset `b` of `s`
/// (`s.len()` for the end of the text), or `None` when `b` is not a
/// character boundary of `s`.
pub open spec fn char_index_at(s: Seq<char>, b: int) -> Option<int>
    decreases s.len(),
{
    if b == 0 {
        Some(0)
    } else if b < 0 || s.len() == 0 {
        None
    } else {
        match char_index_at(s.drop_first(), b - char_width(s[0])) {
            Some(k) => Some(k + 1),
            None => None,
        }
    }
}

/// Every character of `s` is ASCII.
pub open spec fn is_ascii_text(s: Seq<char>) -> bool {
    forall|i: int| 0 <= i < s.len() ==> (#[trigger] s[i] as u32) < 0x80
}

/// `p` occurs somewhere in `s` as a contiguous piece.
pub open spec fn contains_text(s: Seq<char>, p: Seq<char>) -> bool {
    exists|i: int| 0 <= i && i + p.len() <= s.len() && #[trigger] s.subrange(i, i + p.len()) == p
}

/// The decimal digit character for `d`.
pub open spec fn digit_char(d: nat) -> char {
    (48 + d) as char
}

/// The decimal representation of `n`, without leading zeros.
pub open spec fn decimal(n: nat) -> Seq<char>
    decreases n,
{
    if n < 10 {
        seq![digit_char(n)]
    } else {
        decimal(n / 10).push(digit_char(n % 10))
    }
}

/// The value of a sequence of decimal digits.
pub open spec fn digits_value(s: Seq<char>) -> nat
    decreases s.len(),
{
    if s.len() == 0 {
        0
    } else {
        digits_value(s.drop_last()) * 10 + ((s.last() as u32) - 48) as nat
    }
}

/// Every character of `s` is one of `0`..=`9`.
pub open spec fn all_digits(s: Seq<char>) -> bool {
    forall|i: int| 0 <= i < s.len() ==> '0' <= #[trigger] s[i] && s[i] <= '9'
}

/// What `str::parse::<usize>` accepts: an optional `+` followed by at least
/// one decimal digit, whose value fits in a `usize`.
pub open spec fn parsed_usize(s: Seq<char>) -> Option<usize> {
    let digits = if s.len() > 0 && s[0] == '+' {
        s.drop_first()
    } else {
        s
    };
    if digits.len() > 0 && all_digits(digits) && digits_value(digits) <= usize::MAX {
        Some(digits_value(digits) as usize)
    } else {
        None
    }
}

/// `c` lower-cased if it is an ASCII upper-case letter, else `c` itself.
pub open spec fn ascii_lower(c: char) -> char {
    if 'A' <= c && c <= 'Z' {
        ((c as u32) + 32) as char
    } else {
        c
    }
}

pub proof fn lemma_byte_len_concat(a: Seq<char>, b: Seq<char>)
    ensures
        byte_len(a + b) == byte_len(a) + byte_len(b),
    decreases a.len(),
{
    if a.len() == 0 {
        assert(a + b =~= b);
    } else {
        assert((a + b).drop_first() =~= a.drop_first() + b);
        lemma_byte_len_concat(a.drop_first(), b);
    }
}

pub proof fn lemma_byte_len_push(a: Seq<char>, c: char)
    ensures
        byte_len(a.push(c)) == byte_len(a) + char_width(c),
{
    lemma_byte_len_concat(a, seq![c]);
    assert(a.push(c) =~= a + seq![c]);
    assert(seq![c].drop_first() =~= Seq::<char>::empty());
    assert(byte_len(seq![c]) == char_width(c) + byte_len(Seq::<char>::empty()));
}

/// The byte offset of a character index is a boundary that names that index.
pub proof fn lemma_char_index_at_take(s: Seq<char>, k: int)
    requires
        0 <= k <= s.len(),
    ensures
        char_index_at(s, byte_len(s.take(k)) as int) == Some(k),
    decreases k,
{
    if k == 0 {
        assert(s.take(0).len() == 0);
    } else {
        let t = s.drop_first();
        assert(s.take(k).drop_first() =~= t.take(k - 1));
        assert(s.take(k)[0] == s[0]);
        lemma_char_index_at_take(t, k - 1);
    }
}

/// A boundary names a character index whose byte offset is that boundary.
pub proof fn lemma_char_index_at_sound(s: Seq<char>, b: int)
    requires
        char_index_at(s, b) is Some,
    ensures
        0 <= char_index_at(s, b)->0 <= s.len(),
        byte_len(s.take(char_index_at(s, b)->0)) == b,
    decreases s.len(),
{
    if b == 0 {
        assert(s.take(0).len() == 0);
    } else {
        let t = s.drop_first();
        let b2 = b - char_width(s[0]);
        lemma_char_index_at_sound(t, b2);
        let k = char_index_at(t, b2)->0;
        assert(s.take(k + 1).drop_first() =~= t.take(k));
        assert(s.take(k + 1)[0] == s[0]);
    }
}

/// A byte offset is a boundary exactly when some character index has it as offset.
pub proof fn lemma_char_index_at_unique(s: Seq<char>, b: int, k: int)
    requires
        0 <= k <= s.len(),
        byte_len(s.take(k)) == b,
    ensures
        char_index_at(s, b) == Some(k),
{
    lemma_char_index_at_take(s, k);
}

pub proof fn lemma_byte_len_take_le(s: Seq<char>, k: int)
    requires
        0 <= k <= s.len(),
    ensures
        byte_len(s.take(k)) <= byte_len(s),
        k < s.len() ==> byte_len(s.take(k)) + char_width(s[k]) <= byte_len(s),
        byte_len(s.take(k)) >= k,
{
    assert(s =~= s.take(k) + s.skip(k));
    lemma_byte_len_concat(s.take(k), s.skip(k));
    if k < s.len() {
        assert(s.skip(k)[0] == s[k]);
    }
    lemma_byte_len_ge_len(s.take(k));
}

pub proof fn lemma_byte_len_ge_len(s: Seq<char>)
    ensures
        byte_len(s) >= s.len(),
    decreases s.len(),
{
    if s.len() > 0 {
        lemma_byte_len_ge_len(s.drop_first());
    }
}

/// A text one byte long is a single ASCII character.
pub proof fn lemma_one_byte(s: Seq<char>)
    requires
        byte_len(s) == 1,
    ensures
        s.len() == 1,
        (s[0] as u32) < 0x80,
{
    lemma_byte_len_ge_len(s);
    lemma_byte_len_ge_len(s.drop_first());
    if s.len() == 0 {
        assert(byte_len(s) == 0);
    }
}

pub proof fn lemma_byte_len_insert(s: Seq<char>, k: int, c: char)
    requires
        0 <= k <= s.len(),
    ensures
        byte_len(s.insert(k, c)) == byte_len(s) + char_width(c),
        s.insert(k, c).take(k) == s.take(k),
        s.insert(k, c).remove(k) == s,
{
    assert(s.insert(k, c) =~= s.take(k) + seq![c] + s.skip(k));
    assert(s =~= s.take(k) + s.skip(k));
    lemma_byte_len_concat(s.take(k) + seq![c], s.skip(k));
    lemma_byte_len_concat(s.take(k), s.skip(k));
    lemma_byte_len_push(s.take(k), c);
    assert(s.take(k) + seq![c] =~= s.take(k).push(c));
    assert(s.insert(k, c).take(k) =~= s.take(k));
    assert(s.insert(k, c).remove(k) =~= s);
}

pub proof fn lemma_byte_len_remove(s: Seq<char>, k: int)
    requires
        0 <= k < s.len(),
    ensures
        byte_len(s.remove(k)) + char_width(s[k]) == byte_len(s),
        s.remove(k).take(k) == s.take(k),
{
    assert(s.remove(k) =~= s.take(k) + s.skip(k + 1));
    assert(s =~= s.take(k) + s.skip(k));
    assert(s.skip(k) =~= seq![s[k]] + s.skip(k + 1));
    lemma_byte_len_concat(s.take(k), s.skip(k + 1));
    lemma_byte_len_concat(s.take(k), s.skip(k));
    lemma_byte_len_concat(seq![s[k]], s.skip(k + 1));
    assert(seq![s[k]].drop_first() =~= Seq::<char>::empty());
    assert(byte_len(seq![s[k]]) == char_width(s[k]) + byte_len(Seq::<char>::empty()));
    assert(s.remove(k).take(k) =~= s.take(k));
}

/// A character's UTF-8 encoding takes `char_width` bytes.
proof fn lemma_encode_scalar_len(c: char)
    ensures
        encode_scalar(c as u32).len() == char_width(c),
{
    char_is_scalar(c);
}

/// A text's UTF-8 encoding takes `byte_len` bytes.
pub proof fn lemma_encode_utf8_len(s: Seq<char>)
    ensures
        encode_utf8(s).len() == byte_len(s),
    decreases s.len(),
{
    if s.len() > 0 {
        lemma_encode_scalar_len(s[0]);
        lemma_encode_utf8_len(s.drop_first());
    }
}

/// A byte offset is a character boundary of a text's UTF-8 encoding exactly
/// when it names a character index of the text.
pub proof fn lemma_char_boundary(s: Seq<char>, b: int)
    ensures
        is_char_boundary(encode_utf8(s), b) <==> char_index_at(s, b) is Some,
    decreases s.len(),
{
    let bytes = encode_utf8(s);
    encode_utf8_valid_utf8(s);
    lemma_encode_utf8_len(s);
    if b == 0 {
    } else if b < 0 || bytes.len() < b {
        if char_index_at(s, b) is Some {
            lemma_char_index_at_sound(s, b);
            lemma_byte_len_take_le(s, char_index_at(s, b)->0);
        }
    } else {
        encode_utf8_first_scalar(s);
        lemma_encode_scalar_len(s[0]);
        assert(pop_first_scalar(bytes) =~= encode_utf8(s.drop_first()));
        lemma_char_boundary(s.drop_first(), b - char_width(s[0]));
    }
}

/// In ASCII text bytes and characters coincide.
pub proof fn lemma_ascii_byte_len(s: Seq<char>)
    requires
        is_ascii_text(s),
    ensures
        byte_len(s) == s.len(),
    decreases s.len(),
{
    if s.len() > 0 {
        assert(is_ascii_text(s.drop_first())) by {
            assert forall|i: int| 0 <= i < s.drop_first().len() implies (
            #[trigger] s.drop_first()[i] as u32) < 0x80 by {
                assert(s.drop_first()[i] == s[i + 1]);
            }
        }
        assert((s[0] as u32) < 0x80);
        lemma_ascii_byte_len(s.drop_first());
    }
}

/// In ASCII text every byte offset up to the end is a boundary naming itself.
pub proof fn lemma_ascii_char_index(s: Seq<char>, b: int)
    requires
        is_ascii_text(s),
        0 <= b <= s.len(),
    ensures
        char_index_at(s, b) == Some(b),
{
    assert(is_ascii_text(s.take(b))) by {
        assert forall|i: int| 0 <= i < s.take(b).len() implies (
        #[trigger] s.take(b)[i] as u32) < 0x80 by {
            assert(s.take(b)[i] == s[i]);
        }
    }
    lemma_ascii_byte_len(s.take(b));
    lemma_char_index_at_take(s, b);
}

/// Ten to the power `k`.
pub open spec fn pow10(k: nat) -> nat
    decreases k,
{
    if k == 0 {
        1
    } else {
        10 * pow10((k - 1) as nat)
    }
}

/// A decimal representation is made of ASCII digits, at least one.
pub proof fn lemma_decimal_ascii(n: nat)
    ensures
        is_ascii_text(decimal(n)),
        decimal(n).len() >= 1,
        byte_len(decimal(n)) == decimal(n).len(),
    decreases n,
{
    if n >= 10 {
        lemma_decimal_ascii(n / 10);
        let d = decimal(n / 10);
        assert forall|i: int| 0 <= i < decimal(n).len() implies (#[trigger] decimal(n)[i] as u32)
            < 0x80 by {
            if i < d.len() {
                assert(decimal(n)[i] == d[i]);
            }
        }
    }
    lemma_ascii_byte_len(decimal(n));
}

/// A number below `10^k` has at most `k` digits.
pub proof fn lemma_decimal_len(n: nat, k: nat)
    requires
        k >= 1,
        n < pow10(k),
    ensures
        decimal(n).len() <= k,
    decreases k,
{
    if n >= 10 {
        let p = pow10((k - 1) as nat);
        if k == 1 {
            assert(pow10(1) == 10 * pow10(0));
        } else {
            assert(n / 10 < p) by (nonlinear_arith)
                requires
                    n < 10 * p,
            ;
            lemma_decimal_len(n / 10, (k - 1) as nat);
        }
    }
}

/// A number that fits in 64 bits has at most 20 digits.
pub proof fn lemma_decimal_len_u64(n: nat)
    requires
        n <= u64::MAX + 1,
    ensures
        decimal(n).len() <= 20,
        byte_len(decimal(n)) <= 20,
{
    reveal_with_fuel(pow10, 21);
    assert(pow10(20) == 100000000000000000000nat);
    lemma_decimal_len(n, 20);
    lemma_decimal_ascii(n);
}

/// The characters with the Unicode `White_Space` property.
pub open spec fn is_white_space(c: char) -> bool {
    let u = c as u32;
    ||| 0x9 <= u && u <= 0xD
    ||| u == 0x20
    ||| u == 0x85
    ||| u == 0xA0
    ||| u == 0x1680
    ||| 0x2000 <= u && u <= 0x200A
    ||| u == 0x2028
    ||| u == 0x2029
    ||| u == 0x202F
    ||| u == 0x205F
    ||| u == 0x3000
}

/// `s` without its leading white space.
pub open spec fn trim_start(s: Seq<char>) -> Seq<char>
    decreases s.len(),
{
    if s.len() > 0 && is_white_space(s[0]) {
        trim_start(s.drop_first())
    } else {
        s
    }
}

/// `s` without its trailing white space.
pub open spec fn trim_end(s: Seq<char>) -> Seq<char>
    decreases s.len(),
{
    if s.len() > 0 && is_white_space(s.last()) {
        trim_end(s.drop_last())
    } else {
        s
    }
}

/// `s` without leading and trailing white space.
pub open spec fn trimmed(s: Seq<char>) -> Seq<char> {
    trim_end(trim_start(s))
}

/// The index of the first line feed in `s`, or its length when there is none.
pub open spec fn newline_index(s: Seq<char>) -> nat
    decreases s.len(),
{
    if s.len() == 0 {
        0
    } else if s[0] == '\n' {
        0
    } else {
        1 + newline_index(s.drop_first())
    }
}

pub proof fn lemma_newline_index(s: Seq<char>)
    ensures
        newline_index(s) <= s.len(),
        newline_index(s) < s.len() ==> s[newline_index(s) as int] == '\n',
        forall|j: int| 0 <= j < newline_index(s) ==> s[j] != '\n',
    decreases s.len(),
{
    if s.len() > 0 && s[0] != '\n' {
        lemma_newline_index(s.drop_first());
        assert forall|j: int| 0 <= j < newline_index(s) implies s[j] != '\n' by {
            if j > 0 {
                assert(s[j] == s.drop_first()[j - 1]);
            }
        }
    }
}

/// A line without the carriage return that ends it, if one does.
pub open spec fn strip_cr(line: Seq<char>) -> Seq<char> {
    if line.len() > 0 && line.last() == '\r' {
        line.drop_last()
    } else {
        line
    }
}

/// The lines of a text as `str::lines` gives them: split at line feeds, a
/// carriage return before a line feed dropped, no line after a final line
/// feed.
pub open spec fn text_lines(s: Seq<char>) -> Seq<Seq<char>>
    decreases s.len(),
{
    if s.len() == 0 {
        Seq::empty()
    } else {
        let i = newline_index(s);
        proof {
            lemma_newline_index(s);
        }
        if i < s.len() {
            seq![strip_cr(s.take(i as int))] + text_lines(s.skip(i as int + 1))
        } else {
            seq![s]
        }
    }
}

pub open spec fn str_views(v: Seq<&str>) -> Seq<Seq<char>> {
    v.map_values(|l: &str| l@)
}

/// `str::lines`, collected.
#[verifier::external_body]
pub(crate) fn str_lines(s: &str) -> (r: Vec<&str>)
    ensures
        str_views(r@) == text_lines(s@),
{
    s.lines().collect()
}

/// `str::trim`: the slice without leading and trailing white space.
#[verifier::external_body]
pub(crate) fn str_trim(s: &str) -> (r: &str)
    ensures
        r@ == trimmed(s@),
{
    s.trim()
}

/// `&s[..end]`: the first `end` bytes of `s`; std panics unless `end` is a
/// character boundary.
#[verifier::external_body]
pub(crate) fn str_prefix(s: &str, end: usize) -> (r: &str)
    requires
        char_index_at(s@, end as int) is Some,
    ensures
        r@ == s@.take(char_index_at(s@, end as int)->0),
{
    &s[..end]
}

/// `String::len`: the length in bytes of the UTF-8 encoding of the string.
/// The contract also claims what std documents of every `String`: it never
/// holds more than `isize::MAX` bytes.
#[verifier::external_body]
pub(crate) fn string_len(s: &String) -> (n: usize)
    ensures
        n == byte_len(s@),
        n <= isize::MAX,
{
    s.len()
}

/// Whether byte offset `index` starts a character of `s` or is its end.
pub(crate) fn is_boundary(s: &str, index: usize) -> (r: bool)
    ensures
        r == (char_index_at(s@, index as int) is Some),
{
    proof {
        lemma_char_boundary(s@, index as int);
    }
    s.is_char_boundary(index)
}

/// Whether `s` is one byte long, that is a single ASCII character.
pub(crate) fn is_one_byte(s: &str) -> (r: bool)
    ensures
        r == (byte_len(s@) == 1),
{
    proof {
        if s@.len() == 1 {
            assert(s@.drop_first() =~= Seq::<char>::empty());
            assert(byte_len(s@) == char_width(s@[0]) + byte_len(Seq::<char>::empty()));
        }
        if byte_len(s@) == 1 {
            lemma_one_byte(s@);
        }
    }
    s.unicode_len() == 1 && (s.get_char(0) as u32) < 0x80
}

/// `String::insert`: inserts `ch` at byte position `idx`, which must be a
/// character boundary (std panics otherwise); the character lands before the
/// character that started at `idx`.
#[verifier::external_body]
pub(crate) fn string_insert(s: &mut String, idx: usize, ch: char)
    requires
        char_index_at(old(s)@, idx as int) is Some,
    ensures
        final(s)@ == old(s)@.insert(char_index_at(old(s)@, idx as int)->0, ch),
{
    s.insert(idx, ch)
}

/// `String::remove`: removes and returns the character that starts at byte
/// position `idx`; std panics unless `idx` is a boundary before the end.
#[verifier::external_body]
pub(crate) fn string_remove(s: &mut String, idx: usize) -> (c: char)
    requires
        char_index_at(old(s)@, idx as int) matches Some(k) && k < old(s)@.len(),
    ensures
        c == old(s)@[char_index_at(old(s)@, idx as int)->0],
        final(s)@ == old(s)@.remove(char_index_at(old(s)@, idx as int)->0),
{
    s.remove(idx)
}

/// `String::push`: appends one character.
#[verifier::external_body]
pub(crate) fn string_push(s: &mut String, c: char)
    ensures
        final(s)@ == old(s)@.push(c),
{
    s.push(c)
}

/// `String::clear`: empties the string.
#[verifier::external_body]
pub(crate) fn string_clear(s: &mut String)
    ensures
        final(s)@ == Seq::<char>::empty(),
{
    s.clear()
}

/// `std::mem::take` on a `String`: hands out the contents and leaves the
/// default (empty) string behind.
#[verifier::external_body]
pub(crate) fn take_string(s: &mut String) -> (r: String)
    ensures
        r@ == old(s)@,
        final(s)@ == Seq::<char>::empty(),
{
    std::mem::take(s)
}

/// `str::strip_prefix` with a string pattern: the rest of `s` after `prefix`,
/// or `None` when `s` does not start with `prefix`.
#[verifier::external_body]
pub(crate) fn strip_prefix<'a>(s: &'a str, prefix: &str) -> (r: Option<&'a str>)
    ensures
        r is Some <==> prefix@.is_prefix_of(s@),
        r matches Some(rest) ==> rest@ == s@.skip(prefix@.len() as int),
{
    s.strip_prefix(prefix)
}

/// `str::starts_with` with a string pattern.
#[verifier::external_body]
pub(crate) fn starts_with(s: &str, prefix: &str) -> (r: bool)
    ensures
        r == prefix@.is_prefix_of(s@),
{
    s.starts_with(prefix)
}

/// `str::contains` with a string pattern.
#[verifier::external_body]
pub(crate) fn str_contains(s: &str, pat: &str) -> (r: bool)
    ensures
        r == contains_text(s@, pat@),
{
    s.contains(pat)
}

/// `==` on string slices: equal exactly when the characters are equal.
#[verifier::external_body]
pub(crate) fn str_eq(a: &str, b: &str) -> (r: bool)
    ensures
        r == (a@ == b@),
{
    a == b
}

/// `str::parse::<usize>`: std documents the accepted form as an optional `+`
/// followed by decimal digits, and fails on overflow.
#[verifier::external_body]
pub(crate) fn parse_usize(s: &str) -> (r: Option<usize>)
    ensures
        r == parsed_usize(s@),
{
    s.parse::<usize>().ok()
}

/// `char::to_ascii_lowercase`.
#[verifier::external_body]
pub(crate) fn char_to_ascii_lowercase(c: char) -> (r: char)
    ensures
        r == ascii_lower(c),
{
    c.to_ascii_lowercase()
}

/// A fresh `String` holding the characters of `s`.
pub fn string_of(s: &str) -> (r: String)
    ensures
        r@ == s@,
{
    String::from_str(s)
}

/// Appends the characters of `tail` to `s`.
pub fn append_str(s: &mut String, tail: &str)
    ensures
        final(s)@ == old(s)@ + tail@,
{
    s.append(tail)
}

/// The decimal representation of `n`, as `format!("{}", n)` writes it.
pub fn decimal_string(n: u64) -> (r: String)
    ensures
        r@ == decimal(n as nat),
    decreases n,
{
    let d: u8 = (n % 10) as u8;
    let c: char = (48u8 + d) as char;
    if n < 10 {
        let mut s = String::new();
        string_push(&mut s, c);
        assert(s@ =~= seq![digit_char(n as nat)]);
        s
    } else {
        let mut s = decimal_string(n / 10);
        string_push(&mut s, c);
        s
    }
}

} // verus!
