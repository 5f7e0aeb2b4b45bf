//! Character and string utilities: character classes for the placeholder
//! grammar, UTF-8 byte lengths for error offsets, and small helpers for
//! building strings in verified code.

use vstd::prelude::*;

verus! {

use vstd::std_specs::iter::IteratorSpec;
use crate::dec_digit;
use crate::dec_str;

/// Whether the character is a Unicode letter, as `char::is_alphabetic`
/// answers it.
pub uninterp spec fn is_alphabetic_char(c: char) -> bool;

/// Whether the character is a Unicode letter or digit, as
/// `char::is_alphanumeric` answers it.
pub uninterp spec fn is_alphanumeric_char(c: char) -> bool;

/// Relies on char::is_alphabetic: whether the character is a Unicode letter,
/// a function of the character alone.
#[verifier::external_body]
pub(crate) fn char_is_alphabetic(c: char) -> (r: bool)
    ensures
        r == is_alphabetic_char(c),
{
    c.is_alphabetic()
}

/// Relies on char::is_alphanumeric: whether the character is a Unicode
/// letter or digit, a function of the character alone.
#[verifier::external_body]
pub(crate) fn char_is_alphanumeric(c: char) -> (r: bool)
    ensures
        r == is_alphanumeric_char(c),
{
    c.is_alphanumeric()
}

/// Relies on String::push: appends the given character to the end of the
/// string.
#[verifier::external_body]
pub(crate) fn push_char(s: &mut String, c: char)
    ensures
        final(s)@ == old(s)@.push(c),
{
    s.push(c)
}

/// Whether the character is an ASCII decimal digit.
pub open spec fn is_digit_char(c: char) -> bool {
    '0' <= c && c <= '9'
}

/// The numeric value of an ASCII decimal digit character.
pub open spec fn digit_val(c: char) -> nat
    recommends
        is_digit_char(c),
{
    (c as u32 - '0' as u32) as nat
}

/// Whether the character may start an argument name: a letter or an
/// underscore.
pub open spec fn is_name_start(c: char) -> bool {
    is_alphabetic_char(c) || c == '_'
}

/// Whether the character may continue an argument name: a letter, a digit,
/// or an underscore.
pub open spec fn is_name_continue(c: char) -> bool {
    is_alphanumeric_char(c) || c == '_'
}

/// Executable test for an ASCII decimal digit.
pub(crate) fn digit_check(c: char) -> (r: bool)
    ensures
        r == is_digit_char(c),
{
    '0' <= c && c <= '9'
}

/// Executable test for a name-start character.
pub(crate) fn name_start_check(c: char) -> (r: bool)
    ensures
        r == is_name_start(c),
{
    char_is_alphabetic(c) || c == '_'
}

/// Executable test for a name-continuation character.
pub(crate) fn name_continue_check(c: char) -> (r: bool)
    ensures
        r == is_name_continue(c),
{
    char_is_alphanumeric(c) || c == '_'
}

/// The number of bytes in the UTF-8 encoding of the character: one for
/// values below 0x80, two below 0x800, three below 0x10000, four otherwise.
pub open spec fn char_utf8_width(c: char) -> nat {
    if (c as u32) < 0x80 {
        1
    } else if (c as u32) < 0x800 {
        2
    } else if (c as u32) < 0x10000 {
        3
    } else {
        4
    }
}

/// The number of bytes in the UTF-8 encoding of the character sequence.
pub open spec fn byte_len(s: Seq<char>) -> nat
    decreases s.len(),
{
    if s.len() == 0 {
        0
    } else {
        char_utf8_width(s[0]) + byte_len(s.drop_first())
    }
}

/// The byte offset of character position `i` within the sequence.
pub open spec fn byte_offset(s: Seq<char>, i: int) -> nat {
    byte_len(s.take(i))
}

/// The byte length of a sequence equals the length of its UTF-8 encoding.
pub proof fn lemma_byte_len_is_encoding(s: Seq<char>)
    ensures
        byte_len(s) == vstd::utf8::encode_utf8(s).len(),
    decreases s.len(),
{
    if s.len() == 0 {
    } else {
        vstd::utf8::char_is_scalar(s[0]);
        lemma_byte_len_is_encoding(s.drop_first());
    }
}

/// Byte lengths add over concatenation.
pub proof fn lemma_byte_len_concat(a: Seq<char>, b: Seq<char>)
    ensures
        byte_len(a + b) == byte_len(a) + byte_len(b),
    decreases a.len(),
{
    if a.len() == 0 {
        assert(a + b =~= b);
    } else {
        assert((a + b).drop_first() =~= a.drop_first() + b);
        lemma_byte_len_concat(a.drop_first(), b);
    }
}

/// Taking one more character adds that character's width to the byte offset.
pub proof fn lemma_byte_offset_step(s: Seq<char>, i: int)
    requires
        0 <= i < s.len(),
    ensures
        byte_offset(s, i + 1) == byte_offset(s, i) + char_utf8_width(s[i]),
{
    assert(s.take(i + 1) =~= s.take(i) + seq![s[i]]);
    lemma_byte_len_concat(s.take(i), seq![s[i]]);
    assert(byte_len(seq![s[i]]) == char_utf8_width(s[i]) + byte_len(
        seq![s[i]].drop_first(),
    ));
    assert(seq![s[i]].drop_first() =~= Seq::<char>::empty());
}

/// Byte offsets never decrease along the sequence.
pub proof fn lemma_byte_offset_monotone(s: Seq<char>, i: int, j: int)
    requires
        0 <= i <= j <= s.len(),
    ensures
        byte_offset(s, i) <= byte_offset(s, j),
    decreases j - i,
{
    if i < j {
        lemma_byte_offset_step(s, i);
        lemma_byte_offset_monotone(s, i + 1, j);
    }
}

/// The byte offset of the end of the sequence is its full byte length.
pub proof fn lemma_byte_offset_end(s: Seq<char>)
    ensures
        byte_offset(s, s.len() as int) == byte_len(s),
{
    assert(s.take(s.len() as int) =~= s);
}

/// The length of the string in bytes: the length of its UTF-8 encoding,
/// which is the sum of the UTF-8 widths of its characters.
pub(crate) fn template_byte_len(s: &str) -> (n: usize)
    ensures
        n == byte_len(s@),
{
    broadcast use vstd::slice::axiom_spec_len;

    let b = s.as_bytes();
    proof {
        lemma_byte_len_is_encoding(s@);
    }
    b.len()
}

/// Executable UTF-8 width of a character.
pub(crate) fn char_utf8_width_exec(c: char) -> (n: usize)
    ensures
        n == char_utf8_width(c),
{
    let u = c as u32;
    if u < 0x80 {
        1
    } else if u < 0x800 {
        2
    } else if u < 0x10000 {
        3
    } else {
        4
    }
}

/// The characters of the string, in order.
pub(crate) fn chars_of(s: &str) -> (r: Vec<char>)
    ensures
        r@ == s@,
{
    broadcast use vstd::string::group_string_axioms;

    let mut v: Vec<char> = Vec::new();
    for c in it: s.chars()
        invariant
            it.seq() == s@,
            v@ == it.seq().take(it.index()),
    {
        v.push(c);
    }
    proof {
        assert(v@ =~= s@);
    }
    v
}

/// A string holding the given range of the character vector.
pub(crate) fn string_from_range(v: &Vec<char>, from: usize, to: usize) -> (r: String)
    requires
        from <= to <= v@.len(),
    ensures
        r@ == v@.subrange(from as int, to as int),
{
    let mut out = String::new();
    let mut k: usize = from;
    while k < to
        invariant
            from <= k <= to <= v@.len(),
            out@ == v@.subrange(from as int, k as int),
        decreases to - k,
    {
        push_char(&mut out, v[k]);
        proof {
            assert(v@.subrange(from as int, k + 1 as int) =~= v@.subrange(from as int, k as int)
                + seq![v@[k as int]]);
        }
        k = k + 1;
    }
    out
}

/// Appends the decimal rendering of `n` to the string.
pub(crate) fn push_dec(out: &mut String, n: usize)
    ensures
        final(out)@ == old(out)@ + dec_str(n as nat),
    decreases n,
{
    if n >= 10 {
        push_dec(out, n / 10);
    }
    let digit: char = match n % 10 {
        0 => '0',
        1 => '1',
        2 => '2',
        3 => '3',
        4 => '4',
        5 => '5',
        6 => '6',
        7 => '7',
        8 => '8',
        _ => '9',
    };
    assert(digit == dec_digit((n % 10) as nat));
    push_char(out, digit);
    proof {
        if n < 10 {
            assert(old(out)@ + dec_str(n as nat) =~= old(out)@.push(dec_digit(n as nat)));
        } else {
            assert(old(out)@ + dec_str(n as nat) =~= (old(out)@ + dec_str(
                (n / 10) as nat,
            )).push(dec_digit((n % 10) as nat)));
        }
    }
}

/// Whether the two strings hold the same characters.
pub(crate) fn str_eq(a: &str, b: &str) -> (r: bool)
    ensures
        r == (a@ == b@),
{
    let av = chars_of(a);
    let bv = chars_of(b);
    if av.len() != bv.len() {
        return false;
    }
    let mut k: usize = 0;
    while k < av.len()
        invariant
            av@ == a@,
            bv@ == b@,
            av@.len() == bv@.len(),
            k <= av@.len(),
            forall|j: int| 0 <= j < k ==> av@[j] == bv@[j],
        decreases av@.len() - k,
    {
        if av[k] != bv[k] {
            return false;
        }
        k = k + 1;
    }
    proof {
        assert(a@ =~= b@);
    }
    true
}

} // verus!
