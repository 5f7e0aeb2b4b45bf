//! Parsing of formatting strings.
//!
//! The template grammar: brace-delimited placeholders
//! `{[index|name][:specifier]}` between runs of literal text, with `{{` and
//! `}}` as escapes for literal braces. The inner specifier grammar is
//! `[align][sign][#][0][width][.precision][format]`, where width and
//! precision are literal digits, `N$` (by index), `name$` (by name), or, for
//! precision only, `*` (consume the next positional argument).
//!
//! Everything is specified against a character-level model: spec functions
//! mirror each grammar production and the resolution of tokens against the
//! argument stores, and the executable parser is proved to return exactly
//! what the model says, including the byte offset reported for a failure.

use vstd::prelude::*;

verus! {

use crate::Align;
use crate::Format;
use crate::Pad;
use crate::Precision;
use crate::Repr;
use crate::Sign;
use crate::Specifier;
use crate::Width;
use crate::argument::ArgumentSource;
use crate::argument::FormatArgument;
use crate::argument::NamedArguments;
use crate::argument::PositionalArguments;
use crate::text::byte_offset;
use crate::text::digit_val;
use crate::text::is_digit_char;
use crate::text::is_name_continue;
use crate::text::is_name_start;
use crate::text;

// ---------------------------------------------------------------------------
// Grammar model: token scanning over a character sequence.
// ---------------------------------------------------------------------------

/// The first position at or after `i` that does not hold an ASCII digit.
pub open spec fn digits_end(s: Seq<char>, i: int) -> int
    decreases s.len() - i,
{
    if 0 <= i < s.len() && is_digit_char(s[i]) {
        digits_end(s, i + 1)
    } else {
        i
    }
}

/// The first position at or after `i` that does not hold a name-continuation
/// character.
pub open spec fn name_end(s: Seq<char>, i: int) -> int
    decreases s.len() - i,
{
    if 0 <= i < s.len() && is_name_continue(s[i]) {
        name_end(s, i + 1)
    } else {
        i
    }
}

/// The value of the decimal digit run in `[i, j)`.
pub open spec fn digits_val(s: Seq<char>, i: int, j: int) -> nat
    decreases j - i,
{
    if i >= j {
        0
    } else {
        digits_val(s, i, j - 1) * 10 + digit_val(s[j - 1])
    }
}

/// A run of digits never ends before the end of the sequence.
pub proof fn lemma_digits_end_bounds(s: Seq<char>, i: int)
    requires
        0 <= i <= s.len(),
    ensures
        i <= digits_end(s, i) <= s.len(),
        forall|k: int| i <= k < digits_end(s, i) ==> is_digit_char(s[k]),
        digits_end(s, i) == s.len() || !is_digit_char(s[digits_end(s, i)]),
    decreases s.len() - i,
{
    if i < s.len() && is_digit_char(s[i]) {
        lemma_digits_end_bounds(s, i + 1);
    }
}

/// A run of name characters never ends before the end of the sequence.
pub proof fn lemma_name_end_bounds(s: Seq<char>, i: int)
    requires
        0 <= i <= s.len(),
    ensures
        i <= name_end(s, i) <= s.len(),
        forall|k: int| i <= k < name_end(s, i) ==> is_name_continue(s[k]),
        name_end(s, i) == s.len() || !is_name_continue(s[name_end(s, i)]),
    decreases s.len() - i,
{
    if i < s.len() && is_name_continue(s[i]) {
        lemma_name_end_bounds(s, i + 1);
    }
}

/// A longer digit run never has a smaller value.
pub proof fn lemma_digits_val_monotone(s: Seq<char>, i: int, j: int, k: int)
    requires
        i <= j <= k,
    ensures
        digits_val(s, i, j) <= digits_val(s, i, k),
    decreases k - j,
{
    if j < k {
        lemma_digits_val_monotone(s, i, j, k - 1);
        assert(digits_val(s, i, k) == digits_val(s, i, k - 1) * 10 + digit_val(s[k - 1]));
        assert(digits_val(s, i, k - 1) * 10 >= digits_val(s, i, k - 1)) by (nonlinear_arith);
    }
}

/// A width or precision token as the grammar classifies it: absent, a
/// literal count, an argument index, an argument name, or the asterisk.
pub enum SizeTok {
    Absent,
    Lit(nat),
    Idx(nat),
    Nam(Seq<char>),
    Star,
}

/// A placeholder head as the grammar classifies it: implicit, an explicit
/// index, or an explicit name.
pub enum HeadTok {
    Implicit,
    Index(nat),
    Name(Seq<char>),
}

/// The tokens of one inner specifier, before resolution.
pub struct RawSpec {
    pub align: Align,
    pub sign: Sign,
    pub repr: Repr,
    pub pad: Pad,
    pub width: SizeTok,
    pub precision: SizeTok,
    pub format: Format,
}

/// The raw specifier whose every token is absent.
pub open spec fn raw_default() -> RawSpec {
    RawSpec {
        align: Align::Unspecified,
        sign: Sign::Default,
        repr: Repr::Default,
        pad: Pad::Space,
        width: SizeTok::Absent,
        precision: SizeTok::Absent,
        format: Format::Display,
    }
}

/// Parses the alignment dimension at `i`.
pub open spec fn parse_align_at(s: Seq<char>, i: int) -> (Align, int) {
    if i < s.len() && s[i] == '<' {
        (Align::Left, i + 1)
    } else if i < s.len() && s[i] == '^' {
        (Align::Center, i + 1)
    } else if i < s.len() && s[i] == '>' {
        (Align::Right, i + 1)
    } else {
        (Align::Unspecified, i)
    }
}

/// Parses the sign dimension at `i`.
pub open spec fn parse_sign_at(s: Seq<char>, i: int) -> (Sign, int) {
    if i < s.len() && s[i] == '+' {
        (Sign::Always, i + 1)
    } else {
        (Sign::Default, i)
    }
}

/// Parses the alternate-representation dimension at `i`.
pub open spec fn parse_repr_at(s: Seq<char>, i: int) -> (Repr, int) {
    if i < s.len() && s[i] == '#' {
        (Repr::Alt, i + 1)
    } else {
        (Repr::Default, i)
    }
}

/// Parses a size token at `i`: a digit run with an optional `$` suffix, or a
/// name with a mandatory `$` suffix. A name not followed by `$` leaves the
/// token absent and the position unmoved.
pub open spec fn parse_size_at(s: Seq<char>, i: int) -> (SizeTok, int) {
    if i < s.len() && is_digit_char(s[i]) {
        let e = digits_end(s, i);
        if e < s.len() && s[e] == '$' {
            (SizeTok::Idx(digits_val(s, i, e)), e + 1)
        } else {
            (SizeTok::Lit(digits_val(s, i, e)), e)
        }
    } else if i < s.len() && is_name_start(s[i]) {
        let e = name_end(s, i + 1);
        if e < s.len() && s[e] == '$' {
            (SizeTok::Nam(s.subrange(i, e)), e + 1)
        } else {
            (SizeTok::Absent, i)
        }
    } else {
        (SizeTok::Absent, i)
    }
}

/// Parses the padding dimension and the width token at `i`. A lone `0`
/// immediately followed by `$` is the width token `0$`, not zero padding;
/// any other leading `0` selects zero padding, and the width token is
/// parsed after it.
pub open spec fn parse_pad_width_at(s: Seq<char>, i: int) -> (Pad, SizeTok, int) {
    if i < s.len() && s[i] == '0' && !(digits_end(s, i) == i + 1 && i + 1 < s.len() && s[i + 1]
        == '$') {
        let (w, j) = parse_size_at(s, i + 1);
        (Pad::Zero, w, j)
    } else {
        let (w, j) = parse_size_at(s, i);
        (Pad::Space, w, j)
    }
}

/// Parses the precision at `i`: a dot followed by a size token or `*`. A dot
/// followed by neither leaves the token absent and the position at the dot.
pub open spec fn parse_precision_at(s: Seq<char>, i: int) -> (SizeTok, int) {
    if i < s.len() && s[i] == '.' {
        if i + 1 < s.len() && s[i + 1] == '*' {
            (SizeTok::Star, i + 2)
        } else {
            let (t, j) = parse_size_at(s, i + 1);
            if t is Absent {
                (SizeTok::Absent, i)
            } else {
                (t, j)
            }
        }
    } else {
        (SizeTok::Absent, i)
    }
}

/// Parses the format dimension at `i`.
pub open spec fn parse_format_at(s: Seq<char>, i: int) -> (Format, int) {
    if i < s.len() && s[i] == '?' {
        (Format::Debug, i + 1)
    } else if i < s.len() && s[i] == 'o' {
        (Format::Octal, i + 1)
    } else if i < s.len() && s[i] == 'x' {
        (Format::LowerHex, i + 1)
    } else if i < s.len() && s[i] == 'X' {
        (Format::UpperHex, i + 1)
    } else if i < s.len() && s[i] == 'b' {
        (Format::Binary, i + 1)
    } else if i < s.len() && s[i] == 'e' {
        (Format::LowerExp, i + 1)
    } else if i < s.len() && s[i] == 'E' {
        (Format::UpperExp, i + 1)
    } else {
        (Format::Display, i)
    }
}

/// Parses a whole inner specifier at `i`: its seven dimensions in grammar
/// order, each optional.
pub open spec fn parse_inner_at(s: Seq<char>, i: int) -> (RawSpec, int) {
    let (a, i1) = parse_align_at(s, i);
    let (g, i2) = parse_sign_at(s, i1);
    let (r, i3) = parse_repr_at(s, i2);
    let (p, w, i4) = parse_pad_width_at(s, i3);
    let (pr, i5) = parse_precision_at(s, i4);
    let (f, i6) = parse_format_at(s, i5);
    (
        RawSpec { align: a, sign: g, repr: r, pad: p, width: w, precision: pr, format: f },
        i6,
    )
}

/// Parses a placeholder head at `i`: a digit run is an explicit index, a
/// name run an explicit name, anything else leaves the head implicit.
pub open spec fn parse_head_at(s: Seq<char>, i: int) -> (HeadTok, int) {
    if i < s.len() && is_digit_char(s[i]) {
        let e = digits_end(s, i);
        (HeadTok::Index(digits_val(s, i, e)), e)
    } else if i < s.len() && is_name_start(s[i]) {
        let e = name_end(s, i + 1);
        (HeadTok::Name(s.subrange(i, e)), e)
    } else {
        (HeadTok::Implicit, i)
    }
}

/// The size-token parser stays within bounds.
pub proof fn lemma_parse_size_bounds(s: Seq<char>, i: int)
    requires
        0 <= i <= s.len(),
    ensures
        i <= parse_size_at(s, i).1 <= s.len(),
{
    lemma_digits_end_bounds(s, i);
    if i < s.len() {
        lemma_name_end_bounds(s, i + 1);
    }
}

/// The inner-specifier parser stays within bounds.
pub proof fn lemma_parse_inner_bounds(s: Seq<char>, i: int)
    requires
        0 <= i <= s.len(),
    ensures
        i <= parse_inner_at(s, i).1 <= s.len(),
{
    let (a, i1) = parse_align_at(s, i);
    let (g, i2) = parse_sign_at(s, i1);
    let (r, i3) = parse_repr_at(s, i2);
    lemma_parse_size_bounds(s, i3);
    if i3 < s.len() {
        lemma_parse_size_bounds(s, i3 + 1);
    }
    let (p, w, i4) = parse_pad_width_at(s, i3);
    lemma_parse_size_bounds(s, i4);
    if i4 < s.len() {
        lemma_parse_size_bounds(s, i4 + 1);
    }
}

/// The head parser stays within bounds.
pub proof fn lemma_parse_head_bounds(s: Seq<char>, i: int)
    requires
        0 <= i <= s.len(),
    ensures
        i <= parse_head_at(s, i).1 <= s.len(),
{
    lemma_digits_end_bounds(s, i);
    if i < s.len() {
        lemma_name_end_bounds(s, i + 1);
    }
}

// ---------------------------------------------------------------------------
// Executable grammar scanning, proved against the model above.
// ---------------------------------------------------------------------------

/// A size token as scanned from the character vector, holding the range of
/// its digits or name.
#[derive(Copy, Clone)]
pub(crate) enum SizeRef {
    Absent,
    Lit { from: usize, to: usize },
    Idx { from: usize, to: usize },
    Nam { from: usize, to: usize },
    Star,
}

/// The raw tokens of one inner specifier as scanned from the character
/// vector.
#[derive(Copy, Clone)]
pub(crate) struct RawRef {
    pub align: Align,
    pub sign: Sign,
    pub repr: Repr,
    pub pad: Pad,
    pub width: SizeRef,
    pub precision: SizeRef,
    pub format: Format,
}

/// The model token a scanned token range denotes.
pub(crate) open spec fn size_tok_of(s: Seq<char>, t: SizeRef) -> SizeTok {
    match t {
        SizeRef::Absent => SizeTok::Absent,
        SizeRef::Lit { from, to } => SizeTok::Lit(digits_val(s, from as int, to as int)),
        SizeRef::Idx { from, to } => SizeTok::Idx(digits_val(s, from as int, to as int)),
        SizeRef::Nam { from, to } => SizeTok::Nam(s.subrange(from as int, to as int)),
        SizeRef::Star => SizeTok::Star,
    }
}

/// Well-formedness of a scanned token range: in bounds, and digit ranges
/// hold digits.
pub(crate) open spec fn size_ref_wf(s: Seq<char>, t: SizeRef) -> bool {
    match t {
        SizeRef::Absent => true,
        SizeRef::Lit { from, to } => from < to <= s.len() && (forall|k: int|
            from <= k < to ==> is_digit_char(s[k])),
        SizeRef::Idx { from, to } => from < to <= s.len() && (forall|k: int|
            from <= k < to ==> is_digit_char(s[k])),
        SizeRef::Nam { from, to } => from < to <= s.len(),
        SizeRef::Star => true,
    }
}

/// The model raw specifier a scanned raw specifier denotes.
pub(crate) open spec fn raw_of(s: Seq<char>, r: RawRef) -> RawSpec {
    RawSpec {
        align: r.align,
        sign: r.sign,
        repr: r.repr,
        pad: r.pad,
        width: size_tok_of(s, r.width),
        precision: size_tok_of(s, r.precision),
        format: r.format,
    }
}

/// The end of the digit run starting at `i`.
fn scan_digits(v: &Vec<char>, i: usize) -> (e: usize)
    requires
        i <= v@.len(),
    ensures
        e == digits_end(v@, i as int),
        i <= e <= v@.len(),
{
    let mut k: usize = i;
    while k < v.len() && text::digit_check(v[k])
        invariant
            i <= k <= v@.len(),
            digits_end(v@, i as int) == digits_end(v@, k as int),
        decreases v@.len() - k,
    {
        k = k + 1;
    }
    proof {
        lemma_digits_end_bounds(v@, k as int);
    }
    k
}

/// The end of the name-continuation run starting at `i`.
fn scan_name(v: &Vec<char>, i: usize) -> (e: usize)
    requires
        i <= v@.len(),
    ensures
        e == name_end(v@, i as int),
        i <= e <= v@.len(),
{
    let mut k: usize = i;
    while k < v.len() && text::name_continue_check(v[k])
        invariant
            i <= k <= v@.len(),
            name_end(v@, i as int) == name_end(v@, k as int),
        decreases v@.len() - k,
    {
        k = k + 1;
    }
    proof {
        lemma_name_end_bounds(v@, k as int);
    }
    k
}

/// The value of the digit run in `[from, to)`, or `None` when it does not
/// fit in `usize`.
fn parse_usize_range(v: &Vec<char>, from: usize, to: usize) -> (r: Option<usize>)
    requires
        from <= to <= v@.len(),
        forall|k: int| from <= k < to ==> is_digit_char(v@[k]),
    ensures
        match r {
            Some(n) => n == digits_val(v@, from as int, to as int),
            None => digits_val(v@, from as int, to as int) > usize::MAX,
        },
{
    let mut acc: usize = 0;
    let mut k: usize = from;
    while k < to
        invariant
            from <= k <= to <= v@.len(),
            forall|j: int| from <= j < to ==> is_digit_char(v@[j]),
            acc == digits_val(v@, from as int, k as int),
        decreases to - k,
    {
        let c = v[k];
        let d: usize = ((c as u32) - 48) as usize;
        assert(d == digit_val(v@[k as int]) && d <= 9);
        if acc > (usize::MAX - d) / 10 {
            proof {
                assert(acc * 10 + d > usize::MAX) by (nonlinear_arith)
                    requires
                        acc > (usize::MAX - d) / 10,
                        d <= 9,
                ;
                lemma_digits_val_monotone(v@, from as int, k + 1, to as int);
            }
            return None;
        }
        proof {
            assert(acc * 10 + d <= usize::MAX) by (nonlinear_arith)
                requires
                    acc <= (usize::MAX - d) / 10,
                    d <= 9,
            ;
        }
        acc = acc * 10 + d;
        k = k + 1;
    }
    Some(acc)
}

/// Scans a size token at `i`.
fn exec_size_at(v: &Vec<char>, i: usize) -> (r: (SizeRef, usize))
    requires
        i <= v@.len(),
    ensures
        size_tok_of(v@, r.0) == parse_size_at(v@, i as int).0,
        r.1 == parse_size_at(v@, i as int).1,
        size_ref_wf(v@, r.0),
        i <= r.1 <= v@.len(),
{
    if i < v.len() && text::digit_check(v[i]) {
        let e = scan_digits(v, i);
        proof {
            lemma_digits_end_bounds(v@, i as int);
        }
        if e < v.len() && v[e] == '$' {
            (SizeRef::Idx { from: i, to: e }, e + 1)
        } else {
            (SizeRef::Lit { from: i, to: e }, e)
        }
    } else if i < v.len() && text::name_start_check(v[i]) {
        let e = scan_name(v, i + 1);
        if e < v.len() && v[e] == '$' {
            (SizeRef::Nam { from: i, to: e }, e + 1)
        } else {
            (SizeRef::Absent, i)
        }
    } else {
        (SizeRef::Absent, i)
    }
}

/// Scans the alignment dimension at `i`.
fn exec_align_at(v: &Vec<char>, i: usize) -> (r: (Align, usize))
    requires
        i <= v@.len(),
    ensures
        (r.0, r.1 as int) == parse_align_at(v@, i as int),
        i <= r.1 <= v@.len(),
{
    if i < v.len() {
        let c = v[i];
        if c == '<' {
            return (Align::Left, i + 1);
        }
        if c == '^' {
            return (Align::Center, i + 1);
        }
        if c == '>' {
            return (Align::Right, i + 1);
        }
    }
    (Align::Unspecified, i)
}

/// Scans the sign dimension at `i`.
fn exec_sign_at(v: &Vec<char>, i: usize) -> (r: (Sign, usize))
    requires
        i <= v@.len(),
    ensures
        (r.0, r.1 as int) == parse_sign_at(v@, i as int),
        i <= r.1 <= v@.len(),
{
    if i < v.len() && v[i] == '+' {
        (Sign::Always, i + 1)
    } else {
        (Sign::Default, i)
    }
}

/// Scans the alternate-representation dimension at `i`.
fn exec_repr_at(v: &Vec<char>, i: usize) -> (r: (Repr, usize))
    requires
        i <= v@.len(),
    ensures
        (r.0, r.1 as int) == parse_repr_at(v@, i as int),
        i <= r.1 <= v@.len(),
{
    if i < v.len() && v[i] == '#' {
        (Repr::Alt, i + 1)
    } else {
        (Repr::Default, i)
    }
}

/// Scans the padding dimension and the width token at `i`.
fn exec_pad_width_at(v: &Vec<char>, i: usize) -> (r: (Pad, SizeRef, usize))
    requires
        i <= v@.len(),
    ensures
        r.0 == parse_pad_width_at(v@, i as int).0,
        size_tok_of(v@, r.1) == parse_pad_width_at(v@, i as int).1,
        r.2 as int == parse_pad_width_at(v@, i as int).2,
        size_ref_wf(v@, r.1),
        i <= r.2 <= v@.len(),
{
    if i < v.len() && v[i] == '0' {
        let de = scan_digits(v, i);
        if de == i + 1 && i + 1 < v.len() && v[i + 1] == '$' {
            let (w, j) = exec_size_at(v, i);
            (Pad::Space, w, j)
        } else {
            let (w, j) = exec_size_at(v, i + 1);
            (Pad::Zero, w, j)
        }
    } else {
        let (w, j) = exec_size_at(v, i);
        (Pad::Space, w, j)
    }
}

/// Scans the precision at `i`.
fn exec_precision_at(v: &Vec<char>, i: usize) -> (r: (SizeRef, usize))
    requires
        i <= v@.len(),
    ensures
        size_tok_of(v@, r.0) == parse_precision_at(v@, i as int).0,
        r.1 as int == parse_precision_at(v@, i as int).1,
        size_ref_wf(v@, r.0),
        i <= r.1 <= v@.len(),
{
    if i < v.len() && v[i] == '.' {
        if i + 1 < v.len() && v[i + 1] == '*' {
            return (SizeRef::Star, i + 2);
        }
        let (t, j) = exec_size_at(v, i + 1);
        if matches!(t, SizeRef::Absent) {
            (SizeRef::Absent, i)
        } else {
            (t, j)
        }
    } else {
        (SizeRef::Absent, i)
    }
}

/// Scans the format dimension at `i`.
fn exec_format_at(v: &Vec<char>, i: usize) -> (r: (Format, usize))
    requires
        i <= v@.len(),
    ensures
        (r.0, r.1 as int) == parse_format_at(v@, i as int),
        i <= r.1 <= v@.len(),
{
    if i < v.len() {
        let c = v[i];
        if c == '?' {
            return (Format::Debug, i + 1);
        }
        if c == 'o' {
            return (Format::Octal, i + 1);
        }
        if c == 'x' {
            return (Format::LowerHex, i + 1);
        }
        if c == 'X' {
            return (Format::UpperHex, i + 1);
        }
        if c == 'b' {
            return (Format::Binary, i + 1);
        }
        if c == 'e' {
            return (Format::LowerExp, i + 1);
        }
        if c == 'E' {
            return (Format::UpperExp, i + 1);
        }
    }
    (Format::Display, i)
}

/// Scans a whole inner specifier at `i`.
pub(crate) fn exec_inner_at(v: &Vec<char>, i: usize) -> (r: (RawRef, usize))
    requires
        i <= v@.len(),
    ensures
        raw_of(v@, r.0) == parse_inner_at(v@, i as int).0,
        r.1 == parse_inner_at(v@, i as int).1,
        size_ref_wf(v@, r.0.width),
        size_ref_wf(v@, r.0.precision),
        i <= r.1 <= v@.len(),
{
    let (align, i1) = exec_align_at(v, i);
    let (sign, i2) = exec_sign_at(v, i1);
    let (repr, i3) = exec_repr_at(v, i2);
    let (pad, width, i4) = exec_pad_width_at(v, i3);
    let (precision, i5) = exec_precision_at(v, i4);
    let (format, i6) = exec_format_at(v, i5);
    (
        RawRef { align, sign, repr, pad, width, precision, format },
        i6,
    )
}

// ---------------------------------------------------------------------------
// Resolution of tokens against the argument stores.
// ---------------------------------------------------------------------------

/// A type conversion into `usize` that might fail: whether and how a value
/// can be read as a non-negative size. The parser needs this to support
/// indirect widths and precisions.
pub trait ConvertToSize {
    /// The conversion's result: a function of the value alone.
    spec fn spec_convert(&self) -> Result<usize, ()>;

    /// Tries to perform the conversion.
    fn convert(&self) -> (r: Result<usize, ()>)
        ensures
            r == self.spec_convert(),
    ;
}

/// How a width token resolves against the stores: a literal must fit in
/// `usize`; an index must name a positional argument convertible to a size;
/// a name must name a named argument convertible to a size.
pub open spec fn resolve_width_model<V: ConvertToSize>(
    tok: SizeTok,
    pos: Seq<V>,
    named: Map<Seq<char>, V>,
) -> Result<Width, ()> {
    match tok {
        SizeTok::Absent => Ok(Width::Auto),
        SizeTok::Lit(n) => if n <= usize::MAX as nat {
            Ok(Width::AtLeast { width: n as usize })
        } else {
            Err(())
        },
        SizeTok::Idx(n) => if n < pos.len() {
            match pos[n as int].spec_convert() {
                Ok(k) => Ok(Width::AtLeast { width: k }),
                Err(e) => Err(e),
            }
        } else {
            Err(())
        },
        SizeTok::Nam(nm) => if named.contains_key(nm) {
            match named[nm].spec_convert() {
                Ok(k) => Ok(Width::AtLeast { width: k }),
                Err(e) => Err(e),
            }
        } else {
            Err(())
        },
        SizeTok::Star => Err(()),
    }
}

/// How a precision token resolves: as a width token does, except that `*`
/// consumes the next positional argument through the cursor. The resolved
/// precision is paired with the cursor after resolution.
pub open spec fn resolve_precision_model<V: ConvertToSize>(
    tok: SizeTok,
    pos: Seq<V>,
    named: Map<Seq<char>, V>,
    cursor: nat,
) -> Result<(Precision, nat), ()> {
    match tok {
        SizeTok::Absent => Ok((Precision::Auto, cursor)),
        SizeTok::Lit(n) => if n <= usize::MAX as nat {
            Ok((Precision::Exactly { precision: n as usize }, cursor))
        } else {
            Err(())
        },
        SizeTok::Idx(n) => if n < pos.len() {
            match pos[n as int].spec_convert() {
                Ok(k) => Ok((Precision::Exactly { precision: k }, cursor)),
                Err(e) => Err(e),
            }
        } else {
            Err(())
        },
        SizeTok::Nam(nm) => if named.contains_key(nm) {
            match named[nm].spec_convert() {
                Ok(k) => Ok((Precision::Exactly { precision: k }, cursor)),
                Err(e) => Err(e),
            }
        } else {
            Err(())
        },
        SizeTok::Star => if cursor < pos.len() {
            match pos[cursor as int].spec_convert() {
                Ok(k) => Ok((Precision::Exactly { precision: k }, cursor + 1)),
                Err(e) => Err(e),
            }
        } else {
            Err(())
        },
    }
}

/// How a raw specifier resolves: the width first, then the precision; the
/// enumerated dimensions carry over unchanged. All-or-nothing: any failing
/// token fails the whole specifier.
pub open spec fn resolve_spec_model<V: ConvertToSize>(
    raw: RawSpec,
    pos: Seq<V>,
    named: Map<Seq<char>, V>,
    cursor: nat,
) -> Result<(Specifier, nat), ()> {
    match resolve_width_model(raw.width, pos, named) {
        Err(e) => Err(e),
        Ok(w) => match resolve_precision_model(raw.precision, pos, named, cursor) {
            Err(e) => Err(e),
            Ok((p, c2)) => Ok(
                (
                    Specifier {
                        align: raw.align,
                        sign: raw.sign,
                        repr: raw.repr,
                        pad: raw.pad,
                        width: w,
                        precision: p,
                        format: raw.format,
                    },
                    c2,
                ),
            ),
        },
    }
}

/// How a placeholder head resolves: an implicit head consumes the cursor, an
/// explicit index is a random access, an explicit name a named lookup. The
/// resolved value is paired with the cursor after resolution.
pub open spec fn resolve_head_model<V>(
    head: HeadTok,
    pos: Seq<V>,
    named: Map<Seq<char>, V>,
    cursor: nat,
) -> Result<(V, nat), ()> {
    match head {
        HeadTok::Implicit => if cursor < pos.len() {
            Ok((pos[cursor as int], cursor + 1))
        } else {
            Err(())
        },
        HeadTok::Index(n) => if n < pos.len() {
            Ok((pos[n as int], cursor))
        } else {
            Err(())
        },
        HeadTok::Name(nm) => if named.contains_key(nm) {
            Ok((named[nm], cursor))
        } else {
            Err(())
        },
    }
}

/// Resolves a width token against the source; never moves the cursor.
fn resolve_width<V: FormatArgument + ConvertToSize, S: ArgumentSource<V>>(
    v: &Vec<char>,
    t: SizeRef,
    src: &S,
) -> (r: Result<Width, ()>)
    requires
        size_ref_wf(v@, t),
        src.spec_positional().len() <= usize::MAX as nat,
    ensures
        r == resolve_width_model(size_tok_of(v@, t), src.spec_positional(), src.spec_named()),
{
    match t {
        SizeRef::Absent => Ok(Width::Auto),
        SizeRef::Lit { from, to } => match parse_usize_range(v, from, to) {
            Some(n) => Ok(Width::AtLeast { width: n }),
            None => Err(()),
        },
        SizeRef::Idx { from, to } => match parse_usize_range(v, from, to) {
            Some(n) => match src.lookup_argument_by_index(n) {
                Some(val) => match val.convert() {
                    Ok(k) => Ok(Width::AtLeast { width: k }),
                    Err(e) => Err(e),
                },
                None => Err(()),
            },
            None => Err(()),
        },
        SizeRef::Nam { from, to } => {
            let name = text::string_from_range(v, from, to);
            match src.lookup_argument_by_name(name.as_str()) {
                Some(val) => match val.convert() {
                    Ok(k) => Ok(Width::AtLeast { width: k }),
                    Err(e) => Err(e),
                },
                None => Err(()),
            }
        },
        SizeRef::Star => Err(()),
    }
}

/// Resolves a precision token against the source; only `*` moves the
/// cursor.
fn resolve_precision<V: FormatArgument + ConvertToSize, S: ArgumentSource<V>>(
    v: &Vec<char>,
    t: SizeRef,
    src: &mut S,
) -> (r: Result<Precision, ()>)
    requires
        size_ref_wf(v@, t),
        old(src).spec_positional().len() <= usize::MAX as nat,
    ensures
        final(src).spec_positional() == old(src).spec_positional(),
        final(src).spec_named() == old(src).spec_named(),
        match resolve_precision_model(
            size_tok_of(v@, t),
            old(src).spec_positional(),
            old(src).spec_named(),
            old(src).spec_cursor(),
        ) {
            Ok((p, c2)) => r == Ok::<Precision, ()>(p) && final(src).spec_cursor() == c2,
            Err(e) => r is Err,
        },
{
    match t {
        SizeRef::Absent => Ok(Precision::Auto),
        SizeRef::Lit { from, to } => match parse_usize_range(v, from, to) {
            Some(n) => Ok(Precision::Exactly { precision: n }),
            None => Err(()),
        },
        SizeRef::Idx { from, to } => match parse_usize_range(v, from, to) {
            Some(n) => match src.lookup_argument_by_index(n) {
                Some(val) => match val.convert() {
                    Ok(k) => Ok(Precision::Exactly { precision: k }),
                    Err(e) => Err(e),
                },
                None => Err(()),
            },
            None => Err(()),
        },
        SizeRef::Nam { from, to } => {
            let name = text::string_from_range(v, from, to);
            match src.lookup_argument_by_name(name.as_str()) {
                Some(val) => match val.convert() {
                    Ok(k) => Ok(Precision::Exactly { precision: k }),
                    Err(e) => Err(e),
                },
                None => Err(()),
            }
        },
        SizeRef::Star => match src.next_argument() {
            Some(val) => match val.convert() {
                Ok(k) => Ok(Precision::Exactly { precision: k }),
                Err(e) => Err(e),
            },
            None => Err(()),
        },
    }
}

/// Resolves a scanned raw specifier against the source: the width first,
/// then the precision.
fn resolve_spec<V: FormatArgument + ConvertToSize, S: ArgumentSource<V>>(
    v: &Vec<char>,
    raw: &RawRef,
    src: &mut S,
) -> (r: Result<Specifier, ()>)
    requires
        size_ref_wf(v@, raw.width),
        size_ref_wf(v@, raw.precision),
        old(src).spec_positional().len() <= usize::MAX as nat,
    ensures
        final(src).spec_positional() == old(src).spec_positional(),
        final(src).spec_named() == old(src).spec_named(),
        match resolve_spec_model(
            raw_of(v@, *raw),
            old(src).spec_positional(),
            old(src).spec_named(),
            old(src).spec_cursor(),
        ) {
            Ok((sp, c2)) => r == Ok::<Specifier, ()>(sp) && final(src).spec_cursor() == c2,
            Err(e) => r is Err,
        },
{
    let w = match resolve_width(v, raw.width, &*src) {
        Ok(w) => w,
        Err(e) => {
            return Err(e);
        },
    };
    let p = match resolve_precision(v, raw.precision, src) {
        Ok(p) => p,
        Err(e) => {
            return Err(e);
        },
    };
    Ok(
        Specifier {
            align: raw.align,
            sign: raw.sign,
            repr: raw.repr,
            pad: raw.pad,
            width: w,
            precision: p,
            format: raw.format,
        },
    )
}

/// How a standalone specifier string parses: the whole string must be one
/// inner specifier, resolved against the stores from the given cursor.
pub open spec fn parse_specifier_model<V: ConvertToSize>(
    s: Seq<char>,
    pos: Seq<V>,
    named: Map<Seq<char>, V>,
    cursor: nat,
) -> Result<(Specifier, nat), ()> {
    let (raw, end) = parse_inner_at(s, 0);
    if end == s.len() {
        resolve_spec_model(raw, pos, named, cursor)
    } else {
        Err(())
    }
}

/// Parses only the format specifier portion of a format argument: for a
/// placeholder `{foo:#X}`, the `#X` part. The whole string must be consumed.
/// Indirect widths and precisions are resolved against the given source.
pub fn parse_specifier<V: FormatArgument + ConvertToSize, S: ArgumentSource<V>>(
    spec_str: &str,
    value_src: &mut S,
) -> (r: Result<Specifier, ()>)
    requires
        old(value_src).spec_positional().len() <= usize::MAX as nat,
    ensures
        final(value_src).spec_positional() == old(value_src).spec_positional(),
        final(value_src).spec_named() == old(value_src).spec_named(),
        match parse_specifier_model(
            spec_str@,
            old(value_src).spec_positional(),
            old(value_src).spec_named(),
            old(value_src).spec_cursor(),
        ) {
            Ok((sp, c2)) => r == Ok::<Specifier, ()>(sp) && final(value_src).spec_cursor() == c2,
            Err(e) => r is Err,
        },
{
    let v = text::chars_of(spec_str);
    let (raw, end) = exec_inner_at(&v, 0);
    if end != v.len() {
        return Err(());
    }
    resolve_spec(&v, &raw, value_src)
}

/// How a width token resolves with no argument stores at all: only absent
/// and literal tokens succeed.
pub open spec fn width_of_literal(t: SizeTok) -> Result<Width, ()> {
    match t {
        SizeTok::Absent => Ok(Width::Auto),
        SizeTok::Lit(n) => if n <= usize::MAX as nat {
            Ok(Width::AtLeast { width: n as usize })
        } else {
            Err(())
        },
        _ => Err(()),
    }
}

/// How a precision token resolves with no argument stores at all.
pub open spec fn precision_of_literal(t: SizeTok) -> Result<Precision, ()> {
    match t {
        SizeTok::Absent => Ok(Precision::Auto),
        SizeTok::Lit(n) => if n <= usize::MAX as nat {
            Ok(Precision::Exactly { precision: n as usize })
        } else {
            Err(())
        },
        _ => Err(()),
    }
}

/// How a standalone specifier string parses with no argument stores: the
/// whole string must be one inner specifier whose width and precision are
/// absent or literal.
pub open spec fn specifier_of_str(s: Seq<char>) -> Result<Specifier, ()> {
    let (raw, end) = parse_inner_at(s, 0);
    if end != s.len() {
        Err(())
    } else {
        match width_of_literal(raw.width) {
            Err(e) => Err(e),
            Ok(w) => match precision_of_literal(raw.precision) {
                Err(e) => Err(e),
                Ok(p) => Ok(
                    Specifier {
                        align: raw.align,
                        sign: raw.sign,
                        repr: raw.repr,
                        pad: raw.pad,
                        width: w,
                        precision: p,
                        format: raw.format,
                    },
                ),
            },
        }
    }
}

// ---------------------------------------------------------------------------
// Segments and the template scanner.
// ---------------------------------------------------------------------------

/// A value and its formatting specifier, validated to go together: one is
/// only created when the value supports the specifier.
#[derive(Debug, PartialEq)]
pub struct Substitution<'v, V: FormatArgument> {
    specifier: Specifier,
    value: &'v V,
}

impl<'v, V: FormatArgument> Substitution<'v, V> {
    /// The specifier held.
    pub closed spec fn spec_specifier(&self) -> Specifier {
        self.specifier
    }

    /// The value held.
    pub closed spec fn spec_value(&self) -> V {
        *self.value
    }

    /// Creates a `Substitution` if the given value supports the given
    /// format.
    pub fn new(specifier: Specifier, value: &'v V) -> (r: Result<Substitution<'v, V>, ()>)
        ensures
            match r {
                Ok(sub) => value.spec_supports(specifier) && sub.spec_specifier() == specifier
                    && sub.spec_value() == *value,
                Err(e) => !value.spec_supports(specifier),
            },
    {
        if value.supports_format(&specifier) {
            Ok(Substitution { specifier, value })
        } else {
            Err(())
        }
    }

    /// A reference to the formatting specifier.
    pub fn specifier(&self) -> (r: &Specifier)
        ensures
            *r == self.spec_specifier(),
    {
        &self.specifier
    }

    /// A reference to the value to format.
    pub fn value(&self) -> (r: &'v V)
        ensures
            *r == self.spec_value(),
    {
        self.value
    }
}

/// A single segment of a formatting string.
#[derive(Debug, PartialEq)]
pub enum Segment<'s, V: FormatArgument> {
    /// Text to be emitted as it stands.
    Text(&'s str),
    /// A value ready to be formatted.
    Substitution(Substitution<'s, V>),
}

/// The model of one segment: the characters of a text segment, or the
/// resolved specifier and value of a substitution.
pub enum SegModel<V> {
    Text(Seq<char>),
    Sub(Specifier, V),
}

impl<'s, V: FormatArgument> Segment<'s, V> {
    /// The model this segment denotes.
    pub closed spec fn model(self) -> SegModel<V> {
        match self {
            Segment::Text(t) => SegModel::Text(t@),
            Segment::Substitution(sub) => SegModel::Sub(sub.spec_specifier(), sub.spec_value()),
        }
    }
}

/// The models of a sequence of segments, in order.
pub open spec fn seg_models<'s, V: FormatArgument>(segs: Seq<Segment<'s, V>>) -> Seq<
    SegModel<V>,
> {
    segs.map_values(|g: Segment<'s, V>| g.model())
}

/// A placeholder head as scanned from the character vector.
#[derive(Copy, Clone)]
pub(crate) enum HeadRef {
    Implicit,
    Index { from: usize, to: usize },
    Name { from: usize, to: usize },
}

/// The model head a scanned head denotes.
pub(crate) open spec fn head_tok_of(s: Seq<char>, h: HeadRef) -> HeadTok {
    match h {
        HeadRef::Implicit => HeadTok::Implicit,
        HeadRef::Index { from, to } => HeadTok::Index(digits_val(s, from as int, to as int)),
        HeadRef::Name { from, to } => HeadTok::Name(s.subrange(from as int, to as int)),
    }
}

/// Well-formedness of a scanned head.
pub(crate) open spec fn head_ref_wf(s: Seq<char>, h: HeadRef) -> bool {
    match h {
        HeadRef::Implicit => true,
        HeadRef::Index { from, to } => from < to <= s.len() && (forall|k: int|
            from <= k < to ==> is_digit_char(s[k])),
        HeadRef::Name { from, to } => from < to <= s.len(),
    }
}

/// Scans a placeholder head at `i`.
fn exec_head_at(v: &Vec<char>, i: usize) -> (r: (HeadRef, usize))
    requires
        i <= v@.len(),
    ensures
        head_tok_of(v@, r.0) == parse_head_at(v@, i as int).0,
        r.1 as int == parse_head_at(v@, i as int).1,
        head_ref_wf(v@, r.0),
        i <= r.1 <= v@.len(),
{
    if i < v.len() && text::digit_check(v[i]) {
        let e = scan_digits(v, i);
        proof {
            lemma_digits_end_bounds(v@, i as int);
        }
        (HeadRef::Index { from: i, to: e }, e)
    } else if i < v.len() && text::name_start_check(v[i]) {
        let e = scan_name(v, i + 1);
        (HeadRef::Name { from: i, to: e }, e)
    } else {
        (HeadRef::Implicit, i)
    }
}

/// The first position at or after `i` that holds a brace, or the length of
/// the sequence when none does.
pub open spec fn first_brace(s: Seq<char>, i: int) -> int
    decreases s.len() - i,
{
    if 0 <= i < s.len() {
        if s[i] == '{' || s[i] == '}' {
            i
        } else {
            first_brace(s, i + 1)
        }
    } else {
        s.len() as int
    }
}

/// The first brace lies between `i` and the end, with no brace before it.
pub proof fn lemma_first_brace_bounds(s: Seq<char>, i: int)
    requires
        0 <= i <= s.len(),
    ensures
        i <= first_brace(s, i) <= s.len(),
        forall|k: int|
            i <= k < first_brace(s, i) ==> s[k] != '{' && s[k] != '}',
        first_brace(s, i) < s.len() ==> s[first_brace(s, i)] == '{' || s[first_brace(s, i)]
            == '}',
    decreases s.len() - i,
{
    if i < s.len() && s[i] != '{' && s[i] != '}' {
        lemma_first_brace_bounds(s, i + 1);
    }
}

/// Finds the first brace at or after `i`.
fn find_brace(v: &Vec<char>, i: usize) -> (j: usize)
    requires
        i <= v@.len(),
    ensures
        j == first_brace(v@, i as int),
        i <= j <= v@.len(),
{
    let mut k: usize = i;
    while k < v.len() && v[k] != '{' && v[k] != '}'
        invariant
            i <= k <= v@.len(),
            first_brace(v@, i as int) == first_brace(v@, k as int),
        decreases v@.len() - k,
    {
        k = k + 1;
    }
    proof {
        lemma_first_brace_bounds(v@, k as int);
    }
    k
}

/// How one placeholder at position `i` parses and resolves: its head, its
/// specifier terminated by `}`, the resolution of both, and the value's
/// support check. On success, the resolved specifier and value, the position
/// past the closing brace, and the cursor after resolution.
pub open spec fn sub_model<V: FormatArgument + ConvertToSize>(
    s: Seq<char>,
    i: int,
    pos: Seq<V>,
    named: Map<Seq<char>, V>,
    cursor: nat,
) -> Result<(Specifier, V, int, nat), ()> {
    if !(0 <= i < s.len() && s[i] == '{') {
        Err(())
    } else {
        let (head, h) = parse_head_at(s, i + 1);
        let colon = h < s.len() && s[h] == ':';
        let (raw, k) = if colon {
            parse_inner_at(s, h + 1)
        } else {
            (raw_default(), h)
        };
        if k < s.len() && s[k] == '}' {
            match resolve_spec_model(raw, pos, named, cursor) {
                Err(e) => Err(e),
                Ok((sp, c2)) => match resolve_head_model(head, pos, named, c2) {
                    Err(e) => Err(e),
                    Ok((val, c3)) => if val.spec_supports(sp) {
                        Ok((sp, val, k + 1, c3))
                    } else {
                        Err(())
                    },
                },
            }
        } else {
            Err(())
        }
    }
}

/// One step of the template scanner.
pub enum Step<V> {
    /// The template is exhausted.
    Done,
    /// One segment, with the position and cursor after it.
    Emit(SegModel<V>, int, nat),
    /// Scanning fails, with the byte offset reported.
    Stuck(nat),
}

/// One step of the template scanner at position `i`: the run of literal text
/// up to the next brace, an escaped brace, a placeholder, or a failure at
/// the current byte offset.
pub open spec fn step_model<V: FormatArgument + ConvertToSize>(
    s: Seq<char>,
    i: int,
    pos: Seq<V>,
    named: Map<Seq<char>, V>,
    cursor: nat,
) -> Step<V> {
    if i >= s.len() {
        Step::Done
    } else {
        let j = first_brace(s, i);
        if j > i {
            Step::Emit(SegModel::Text(s.subrange(i, j)), j, cursor)
        } else if i + 1 < s.len() && s[i + 1] == s[i] {
            Step::Emit(SegModel::Text(s.subrange(i, i + 1)), i + 2, cursor)
        } else if i + 1 >= s.len() {
            Step::Stuck(byte_offset(s, i))
        } else {
            match sub_model(s, i, pos, named, cursor) {
                Ok((sp, val, end, c3)) => Step::Emit(SegModel::Sub(sp, val), end, c3),
                Err(e) => Step::Stuck(byte_offset(s, i)),
            }
        }
    }
}

/// An emitted segment always moves the scanner forward and stays within the
/// template.
pub proof fn lemma_step_advances<V: FormatArgument + ConvertToSize>(
    s: Seq<char>,
    i: int,
    pos: Seq<V>,
    named: Map<Seq<char>, V>,
    cursor: nat,
)
    requires
        0 <= i <= s.len(),
    ensures
        match step_model(s, i, pos, named, cursor) {
            Step::Emit(g, i2, c2) => i < i2 <= s.len(),
            _ => true,
        },
{
    if i < s.len() {
        lemma_first_brace_bounds(s, i);
        let j = first_brace(s, i);
        if j == i && i + 1 < s.len() && s[i + 1] != s[i] {
            if 0 <= i < s.len() && s[i] == '{' {
                let (head, h) = parse_head_at(s, i + 1);
                lemma_parse_head_bounds(s, i + 1);
                let colon = h < s.len() && s[h] == ':';
                if colon {
                    lemma_parse_inner_bounds(s, h + 1);
                }
            }
        }
    }
}

/// The whole template scanned from position `i`: the segments in template
/// order, or the byte offset of the first failure.
pub open spec fn scan_model<V: FormatArgument + ConvertToSize>(
    s: Seq<char>,
    i: int,
    pos: Seq<V>,
    named: Map<Seq<char>, V>,
    cursor: nat,
) -> Result<Seq<SegModel<V>>, nat>
    decreases s.len() - i,
{
    match step_model(s, i, pos, named, cursor) {
        Step::Done => Ok(Seq::empty()),
        Step::Stuck(off) => Err(off),
        Step::Emit(g, i2, c2) => {
            if i < i2 <= s.len() {
                match scan_model(s, i2, pos, named, c2) {
                    Ok(rest) => Ok(seq![g] + rest),
                    Err(off) => Err(off),
                }
            } else {
                Err(0)
            }
        },
    }
}

/// How a whole template parses against the stores: scanned from the start
/// with the cursor at the first positional argument.
pub open spec fn parse_model<V: FormatArgument + ConvertToSize>(
    s: Seq<char>,
    pos: Seq<V>,
    named: Map<Seq<char>, V>,
) -> Result<Seq<SegModel<V>>, nat> {
    scan_model(s, 0, pos, named, 0)
}

/// A lightweight argument source over the two stores, used while resolving
/// one placeholder's indirect sizes: it owns the cursor for the duration.
struct StoreSource<'s, V: FormatArgument, P: PositionalArguments<V>, N: NamedArguments<V>> {
    positional: &'s P,
    named: &'s N,
    cursor: usize,
    values: core::marker::PhantomData<V>,
}

impl<'s, V: FormatArgument, P: PositionalArguments<V>, N: NamedArguments<V>> ArgumentSource<
    V,
> for StoreSource<'s, V, P, N> {
    closed spec fn spec_positional(&self) -> Seq<V> {
        self.positional.spec_args()
    }

    closed spec fn spec_named(&self) -> Map<Seq<char>, V> {
        self.named.spec_entries()
    }

    closed spec fn spec_cursor(&self) -> nat {
        self.cursor as nat
    }

    fn next_argument(&mut self) -> (r: Option<&V>) {
        let l = self.positional.len();
        if self.cursor < l {
            let v = self.positional.get(self.cursor);
            match v {
                Some(v) => {
                    self.cursor = self.cursor + 1;
                    Some(v)
                },
                None => None,
            }
        } else {
            None
        }
    }

    fn lookup_argument_by_index(&self, idx: usize) -> (r: Option<&V>) {
        self.positional.get(idx)
    }

    fn lookup_argument_by_name(&self, name: &str) -> (r: Option<&V>) {
        self.named.get(name)
    }
}

/// A scanner over the formatting string, producing segments in template
/// order; it stops permanently at the first error.
pub struct Parser<'p, V: FormatArgument + ConvertToSize, P: PositionalArguments<V>, N: NamedArguments<V>> {
    template: &'p str,
    chars: Vec<char>,
    idx: usize,
    pos_bytes: usize,
    total_bytes: usize,
    cursor: usize,
    n_positional: usize,
    positional: &'p P,
    named: &'p N,
    failed: bool,
    values: core::marker::PhantomData<V>,
}

impl<'p, V: FormatArgument + ConvertToSize, P: PositionalArguments<V>, N: NamedArguments<V>> ArgumentSource<
    V,
> for Parser<'p, V, P, N> {
    closed spec fn spec_positional(&self) -> Seq<V> {
        self.positional.spec_args()
    }

    closed spec fn spec_named(&self) -> Map<Seq<char>, V> {
        self.named.spec_entries()
    }

    closed spec fn spec_cursor(&self) -> nat {
        self.cursor as nat
    }

    fn next_argument(&mut self) -> (r: Option<&V>) {
        let l = self.positional.len();
        if self.cursor < l {
            let v = self.positional.get(self.cursor);
            match v {
                Some(v) => {
                    self.cursor = self.cursor + 1;
                    Some(v)
                },
                None => None,
            }
        } else {
            None
        }
    }

    fn lookup_argument_by_index(&self, idx: usize) -> (r: Option<&V>) {
        self.positional.get(idx)
    }

    fn lookup_argument_by_name(&self, name: &str) -> (r: Option<&V>) {
        self.named.get(name)
    }
}

impl<'p, V: FormatArgument + ConvertToSize, P: PositionalArguments<V>, N: NamedArguments<V>> Parser<
    'p,
    V,
    P,
    N,
> {
    /// The parser's state is consistent: the scanned characters are the
    /// template's, the position is within it, and the byte offset matches
    /// the position.
    pub closed spec fn wf(&self) -> bool {
        &&& self.chars@ == self.template@
        &&& self.idx <= self.chars@.len()
        &&& self.pos_bytes == byte_offset(self.chars@, self.idx as int)
        &&& self.total_bytes == crate::text::byte_len(self.chars@)
        &&& self.n_positional == self.positional.spec_args().len()
    }

    /// The characters of the template.
    pub closed spec fn spec_template(&self) -> Seq<char> {
        self.template@
    }

    /// The current character position.
    pub closed spec fn spec_index(&self) -> int {
        self.idx as int
    }

    /// Whether the parser has already failed.
    pub closed spec fn spec_failed(&self) -> bool {
        self.failed
    }

    /// Creates a new `Parser` for the given formatting string, positional
    /// arguments, and named arguments.
    pub fn new(format: &'p str, positional: &'p P, named: &'p N) -> (p: Self)
        ensures
            p.wf(),
            p.spec_template() == format@,
            p.spec_index() == 0,
            p.spec_cursor() == 0,
            !p.spec_failed(),
            p.spec_positional() == positional.spec_args(),
            p.spec_named() == named.spec_entries(),
    {
        let chars = text::chars_of(format);
        let total_bytes = text::template_byte_len(format);
        let n_positional = positional.len();
        proof {
            assert(format@.take(0) =~= Seq::<char>::empty());
        }
        Parser {
            template: format,
            chars,
            idx: 0,
            pos_bytes: 0,
            total_bytes,
            cursor: 0,
            n_positional,
            positional,
            named,
            failed: false,
            values: core::marker::PhantomData,
        }
    }

    /// Moves the position past `n` characters, keeping the byte offset in
    /// step.
    fn advance(&mut self, n: usize)
        requires
            old(self).wf(),
            old(self).idx + n <= old(self).chars@.len(),
        ensures
            final(self).wf(),
            final(self).idx == old(self).idx + n,
            final(self).template == old(self).template,
            final(self).chars == old(self).chars,
            final(self).cursor == old(self).cursor,
            final(self).failed == old(self).failed,
            final(self).positional == old(self).positional,
            final(self).named == old(self).named,
            final(self).n_positional == old(self).n_positional,
            final(self).total_bytes == old(self).total_bytes,
    {
        let l = self.chars.len();
        let mut k: usize = 0;
        while k < n
            invariant
                k <= n,
                l == self.chars@.len(),
                old(self).idx + n <= old(self).chars@.len(),
                self.idx == old(self).idx + k,
                self.chars == old(self).chars,
                self.template == old(self).template,
                self.cursor == old(self).cursor,
                self.failed == old(self).failed,
                self.positional == old(self).positional,
                self.named == old(self).named,
                self.n_positional == old(self).n_positional,
                self.total_bytes == old(self).total_bytes,
                self.pos_bytes == byte_offset(self.chars@, self.idx as int),
                self.chars@ == self.template@,
                self.total_bytes == crate::text::byte_len(self.chars@),
                self.n_positional == self.positional.spec_args().len(),
            decreases n - k,
        {
            proof {
                crate::text::lemma_byte_offset_step(self.chars@, self.idx as int);
                crate::text::lemma_byte_offset_monotone(
                    self.chars@,
                    self.idx + 1,
                    self.chars@.len() as int,
                );
                crate::text::lemma_byte_offset_end(self.chars@);
            }
            let w = text::char_utf8_width_exec(self.chars[self.idx]);
            self.pos_bytes = self.pos_bytes + w;
            self.idx = self.idx + 1;
            k = k + 1;
        }
    }

    /// Marks the parser failed and reports the current byte offset.
    fn error(&mut self) -> (r: Result<Segment<'p, V>, usize>)
        requires
            old(self).wf(),
        ensures
            final(self).wf(),
            final(self).failed,
            final(self).idx == old(self).idx,
            final(self).template == old(self).template,
            final(self).chars == old(self).chars,
            final(self).positional == old(self).positional,
            final(self).named == old(self).named,
            final(self).n_positional == old(self).n_positional,
            final(self).total_bytes == old(self).total_bytes,
            r == Err::<Segment<'p, V>, usize>(old(self).pos_bytes),
    {
        self.failed = true;
        Err(self.pos_bytes)
    }

    /// Emits the next `n` characters as one text segment.
    fn text_segment(&mut self, n: usize) -> (seg: Segment<'p, V>)
        requires
            old(self).wf(),
            old(self).idx + n <= old(self).chars@.len(),
        ensures
            final(self).wf(),
            seg.model() == SegModel::<V>::Text(
                old(self).template@.subrange(old(self).idx as int, old(self).idx + n),
            ),
            final(self).idx == old(self).idx + n,
            final(self).template == old(self).template,
            final(self).chars == old(self).chars,
            final(self).cursor == old(self).cursor,
            final(self).failed == old(self).failed,
            final(self).positional == old(self).positional,
            final(self).named == old(self).named,
            final(self).n_positional == old(self).n_positional,
            final(self).total_bytes == old(self).total_bytes,
    {
        let _n_chars = self.chars.len();
        let t = self.template.substring_char(self.idx, self.idx + n);
        self.advance(n);
        Segment::Text(t)
    }

    /// Parses the placeholder starting at the current position: its head,
    /// its specifier, the resolution of both, and the value's support check.
    fn parse_substitution(&mut self) -> (r: Result<Segment<'p, V>, usize>)
        requires
            old(self).wf(),
            !old(self).failed,
            old(self).idx < old(self).chars@.len(),
        ensures
            final(self).wf(),
            final(self).template == old(self).template,
            final(self).chars == old(self).chars,
            final(self).positional == old(self).positional,
            final(self).named == old(self).named,
            final(self).n_positional == old(self).n_positional,
            final(self).total_bytes == old(self).total_bytes,
            match r {
                Ok(seg) => {
                    &&& !final(self).failed
                    &&& match sub_model(
                        old(self).template@,
                        old(self).idx as int,
                        old(self).positional.spec_args(),
                        old(self).named.spec_entries(),
                        old(self).cursor as nat,
                    ) {
                        Ok((sp, val, end, c3)) => seg.model() == SegModel::Sub(sp, val)
                            && final(self).idx == end && final(self).cursor == c3,
                        Err(e) => false,
                    }
                },
                Err(off) => {
                    &&& final(self).failed
                    &&& sub_model(
                        old(self).template@,
                        old(self).idx as int,
                        old(self).positional.spec_args(),
                        old(self).named.spec_entries(),
                        old(self).cursor as nat,
                    ) is Err
                    &&& off == byte_offset(old(self).template@, old(self).idx as int)
                },
            },
    {
        let ghost s = self.template@;
        let _n_chars = self.chars.len();
        if self.chars[self.idx] != '{' {
            return self.error();
        }
        let (headref, h) = exec_head_at(&self.chars, self.idx + 1);
        let colon = h < self.chars.len() && self.chars[h] == ':';
        let (raw, k) = if colon {
            exec_inner_at(&self.chars, h + 1)
        } else {
            (
                RawRef {
                    align: Align::Unspecified,
                    sign: Sign::Default,
                    repr: Repr::Default,
                    pad: Pad::Space,
                    width: SizeRef::Absent,
                    precision: SizeRef::Absent,
                    format: Format::Display,
                },
                h,
            )
        };
        if !(k < self.chars.len() && self.chars[k] == '}') {
            return self.error();
        }
        let mut src = StoreSource {
            positional: self.positional,
            named: self.named,
            cursor: self.cursor,
            values: core::marker::PhantomData,
        };
        let sp = match resolve_spec(&self.chars, &raw, &mut src) {
            Ok(sp) => sp,
            Err(e) => {
                return self.error();
            },
        };
        self.cursor = src.cursor;
        let store: &'p P = self.positional;
        let names: &'p N = self.named;
        let value: &'p V = match headref {
            HeadRef::Implicit => {
                let l = store.len();
                if self.cursor < l {
                    match store.get(self.cursor) {
                        Some(v) => {
                            self.cursor = self.cursor + 1;
                            v
                        },
                        None => {
                            return self.error();
                        },
                    }
                } else {
                    return self.error();
                }
            },
            HeadRef::Index { from, to } => {
                match parse_usize_range(&self.chars, from, to) {
                    Some(nidx) => match store.get(nidx) {
                        Some(v) => v,
                        None => {
                            return self.error();
                        },
                    },
                    None => {
                        return self.error();
                    },
                }
            },
            HeadRef::Name { from, to } => {
                let name = text::string_from_range(&self.chars, from, to);
                match names.get(name.as_str()) {
                    Some(v) => v,
                    None => {
                        return self.error();
                    },
                }
            },
        };
        match Substitution::new(sp, value) {
            Ok(sub) => {
                let n = (k + 1) - self.idx;
                self.advance(n);
                Ok(Segment::Substitution(sub))
            },
            Err(e) => self.error(),
        }
    }

    /// Handles the brace at the current position: an escaped pair becomes a
    /// one-character text segment; a lone brace at the end of the template
    /// fails; anything else is a placeholder.
    fn parse_braces(&mut self) -> (r: Result<Segment<'p, V>, usize>)
        requires
            old(self).wf(),
            !old(self).failed,
            old(self).idx < old(self).chars@.len(),
            first_brace(old(self).template@, old(self).idx as int) == old(self).idx as int,
        ensures
            final(self).wf(),
            final(self).template == old(self).template,
            final(self).chars == old(self).chars,
            final(self).positional == old(self).positional,
            final(self).named == old(self).named,
            final(self).n_positional == old(self).n_positional,
            final(self).total_bytes == old(self).total_bytes,
            match r {
                Ok(seg) => !final(self).failed && step_model(
                    old(self).template@,
                    old(self).idx as int,
                    old(self).positional.spec_args(),
                    old(self).named.spec_entries(),
                    old(self).cursor as nat,
                ) == Step::Emit(seg.model(), final(self).idx as int, final(self).cursor as nat),
                Err(off) => final(self).failed && step_model(
                    old(self).template@,
                    old(self).idx as int,
                    old(self).positional.spec_args(),
                    old(self).named.spec_entries(),
                    old(self).cursor as nat,
                ) == Step::Stuck::<V>(off as nat),
            },
    {
        let l = self.chars.len();
        if self.idx + 1 < l && self.chars[self.idx + 1] == self.chars[self.idx] {
            let t = self.template.substring_char(self.idx, self.idx + 1);
            self.advance(2);
            Ok(Segment::Text(t))
        } else if self.idx + 1 >= l {
            self.error()
        } else {
            self.parse_substitution()
        }
    }

    /// The next segment of the template: `None` when the template is
    /// exhausted or a previous call already failed; otherwise the segment,
    /// or the byte offset at which parsing failed. The first error is final.
    pub fn next(&mut self) -> (r: Option<Result<Segment<'p, V>, usize>>)
        requires
            old(self).wf(),
        ensures
            final(self).wf(),
            final(self).spec_template() == old(self).spec_template(),
            final(self).spec_positional() == old(self).spec_positional(),
            final(self).spec_named() == old(self).spec_named(),
            match r {
                None => *final(self) == *old(self) && (old(self).spec_failed() || step_model(
                    old(self).spec_template(),
                    old(self).spec_index(),
                    old(self).spec_positional(),
                    old(self).spec_named(),
                    old(self).spec_cursor(),
                ) is Done),
                Some(res) => !old(self).spec_failed() && match res {
                    Ok(seg) => !final(self).spec_failed() && old(self).spec_index()
                        < final(self).spec_index()
                        && step_model(
                        old(self).spec_template(),
                        old(self).spec_index(),
                        old(self).spec_positional(),
                        old(self).spec_named(),
                        old(self).spec_cursor(),
                    ) == Step::Emit(seg.model(), final(self).spec_index(), final(self).spec_cursor()),
                    Err(off) => final(self).spec_failed() && step_model(
                        old(self).spec_template(),
                        old(self).spec_index(),
                        old(self).spec_positional(),
                        old(self).spec_named(),
                        old(self).spec_cursor(),
                    ) == Step::Stuck::<V>(off as nat),
                },
            },
    {
        if self.failed {
            return None;
        }
        if self.idx == self.chars.len() {
            return None;
        }
        let ghost s0 = self.template@;
        let ghost i0 = self.idx as int;
        let ghost pos0 = self.positional.spec_args();
        let ghost named0 = self.named.spec_entries();
        let ghost cur0 = self.cursor as nat;
        proof {
            lemma_step_advances(s0, i0, pos0, named0, cur0);
        }
        let j = find_brace(&self.chars, self.idx);
        if j > self.idx {
            let n = j - self.idx;
            Some(Ok(self.text_segment(n)))
        } else {
            Some(self.parse_braces())
        }
    }
}

/// A representation of the formatting string and associated values, ready to
/// be rendered.
#[derive(Debug, PartialEq)]
pub struct ParsedFormat<'a, V: FormatArgument> {
    /// The formatting string's segments, in template order.
    pub segments: Vec<Segment<'a, V>>,
}

impl<'a, V: FormatArgument + ConvertToSize> ParsedFormat<'a, V> {
    /// Parses the formatting string against the given positional and named
    /// arguments. Does not render anything: it validates that every
    /// referenced argument is present and supports the requested format, and
    /// returns the segments, or the byte offset of the failing placeholder.
    pub fn parse<P: PositionalArguments<V>, N: NamedArguments<V>>(
        format: &'a str,
        positional: &'a P,
        named: &'a N,
    ) -> (r: Result<Self, usize>)
        ensures
            match r {
                Ok(pf) => parse_model(format@, positional.spec_args(), named.spec_entries())
                    == Ok::<Seq<SegModel<V>>, nat>(seg_models(pf.segments@)),
                Err(off) => parse_model(format@, positional.spec_args(), named.spec_entries())
                    == Err::<Seq<SegModel<V>>, nat>(off as nat),
            },
    {
        let ghost s = format@;
        let ghost pos = positional.spec_args();
        let ghost named_m = named.spec_entries();
        let mut parser = Parser::new(format, positional, named);
        let mut segments: Vec<Segment<'a, V>> = Vec::new();
        proof {
            assert(seg_models(segments@) =~= Seq::<SegModel<V>>::empty());
        }
        loop
            invariant
                s == format@,
                pos == positional.spec_args(),
                named_m == named.spec_entries(),
                parser.wf(),
                !parser.spec_failed(),
                parser.spec_template() == s,
                parser.spec_positional() == pos,
                parser.spec_named() == named_m,
                match scan_model(s, parser.spec_index(), pos, named_m, parser.spec_cursor()) {
                    Ok(rest) => parse_model(s, pos, named_m) == Ok::<Seq<SegModel<V>>, nat>(
                        seg_models(segments@) + rest,
                    ),
                    Err(off) => parse_model(s, pos, named_m) == Err::<Seq<SegModel<V>>, nat>(off),
                },
            decreases s.len() - parser.spec_index(),
        {
            let ghost idx0 = parser.spec_index();
            let ghost cur0 = parser.spec_cursor();
            let ghost segs0 = segments@;
            match parser.next() {
                None => {
                    proof {
                        assert(scan_model(s, idx0, pos, named_m, cur0) == Ok::<
                            Seq<SegModel<V>>,
                            nat,
                        >(Seq::empty()));
                        assert(seg_models(segs0) + Seq::<SegModel<V>>::empty() =~= seg_models(
                            segs0,
                        ));
                    }
                    return Ok(ParsedFormat { segments });
                },
                Some(res) => match res {
                    Ok(seg) => {
                        proof {
                            lemma_step_advances(s, idx0, pos, named_m, cur0);
                        }
                        segments.push(seg);
                        proof {
                            assert(seg_models(segments@) =~= seg_models(segs0) + seq![
                                seg.model(),
                            ]);
                            let rest_r = scan_model(
                                s,
                                parser.spec_index(),
                                pos,
                                named_m,
                                parser.spec_cursor(),
                            );
                            match rest_r {
                                Ok(rest2) => {
                                    assert(scan_model(s, idx0, pos, named_m, cur0) == Ok::<
                                        Seq<SegModel<V>>,
                                        nat,
                                    >(seq![seg.model()] + rest2));
                                    assert(seg_models(segs0) + (seq![seg.model()] + rest2)
                                        =~= seg_models(segments@) + rest2);
                                },
                                Err(off2) => {
                                    assert(scan_model(s, idx0, pos, named_m, cur0) == Err::<
                                        Seq<SegModel<V>>,
                                        nat,
                                    >(off2));
                                },
                            }
                        }
                    },
                    Err(off) => {
                        proof {
                            assert(scan_model(s, idx0, pos, named_m, cur0) == Err::<
                                Seq<SegModel<V>>,
                                nat,
                            >(off as nat));
                        }
                        return Err(off);
                    },
                },
            }
        }
    }
}

// ---------------------------------------------------------------------------
// Rendering parsed segments.
// ---------------------------------------------------------------------------

/// The characters one segment model renders to: a text segment's own
/// characters; for a substitution, the composition of its specifier with the
/// value's elementary rendering.
pub open spec fn render_seg_model<V: FormatArgument>(g: SegModel<V>) -> Seq<char> {
    match g {
        SegModel::Text(t) => t,
        SegModel::Sub(sp, v) => crate::dispatch::composed_value(
            sp,
            v.spec_render(sp.format, sp.precision),
        ),
    }
}

/// The characters a sequence of segment models renders to, concatenated in
/// order.
pub open spec fn render_segs_model<V: FormatArgument>(gs: Seq<SegModel<V>>) -> Seq<char>
    decreases gs.len(),
{
    if gs.len() == 0 {
        Seq::empty()
    } else {
        render_seg_model(gs[0]) + render_segs_model(gs.drop_first())
    }
}

/// Rendering distributes over appending one segment.
pub proof fn lemma_render_segs_snoc<V: FormatArgument>(gs: Seq<SegModel<V>>, g: SegModel<V>)
    ensures
        render_segs_model(gs + seq![g]) == render_segs_model(gs) + render_seg_model(g),
    decreases gs.len(),
{
    if gs.len() == 0 {
        assert(gs + seq![g] =~= seq![g]);
        assert((seq![g]).drop_first() =~= Seq::<SegModel<V>>::empty());
        assert((seq![g])[0] == g);
        assert(render_segs_model(Seq::<SegModel<V>>::empty()) == Seq::<char>::empty());
        assert(render_segs_model(seq![g]) == render_seg_model(g) + Seq::<char>::empty());
        assert(render_seg_model(g) + Seq::<char>::empty() =~= render_seg_model(g));
        assert(render_segs_model(gs) == Seq::<char>::empty());
        assert(Seq::<char>::empty() + render_seg_model(g) =~= render_seg_model(g));
    } else {
        assert((gs + seq![g]).drop_first() =~= gs.drop_first() + seq![g]);
        lemma_render_segs_snoc(gs.drop_first(), g);
        assert((gs + seq![g])[0] == gs[0]);
        assert(render_seg_model(gs[0]) + (render_segs_model(gs.drop_first()) + render_seg_model(
            g,
        )) =~= (render_seg_model(gs[0]) + render_segs_model(gs.drop_first())) + render_seg_model(
            g,
        ));
    }
}

impl<'v, V: FormatArgument> Substitution<'v, V> {
    /// Renders the held value with the held specifier.
    pub fn render(&self) -> (r: String)
        ensures
            r@ == render_seg_model(SegModel::Sub(self.spec_specifier(), self.spec_value())),
    {
        crate::dispatch::format_value(&self.specifier, self.value)
    }
}

impl<'s, V: FormatArgument> Segment<'s, V> {
    /// Renders the segment: text as it stands, a substitution through value
    /// dispatch.
    pub fn render(&self) -> (r: String)
        ensures
            r@ == render_seg_model(self.model()),
    {
        match self {
            Segment::Text(t) => String::from_str(t),
            Segment::Substitution(sub) => sub.render(),
        }
    }
}

impl<'a, V: FormatArgument> ParsedFormat<'a, V> {
    /// Renders every segment in template order. Rendering cannot fail: all
    /// argument lookups and support checks already happened at parse time.
    pub fn render(&self) -> (r: String)
        ensures
            r@ == render_segs_model(seg_models(self.segments@)),
    {
        let mut out = String::new();
        let mut k: usize = 0;
        while k < self.segments.len()
            invariant
                k <= self.segments@.len(),
                out@ == render_segs_model(seg_models(self.segments@.take(k as int))),
            decreases self.segments@.len() - k,
        {
            let piece = self.segments[k].render();
            out.append(piece.as_str());
            proof {
                assert(self.segments@.take(k + 1 as int) =~= self.segments@.take(k as int)
                    + seq![self.segments@[k as int]]);
                assert(seg_models(self.segments@.take(k + 1 as int)) =~= seg_models(
                    self.segments@.take(k as int),
                ) + seq![self.segments@[k as int].model()]);
                lemma_render_segs_snoc(
                    seg_models(self.segments@.take(k as int)),
                    self.segments@[k as int].model(),
                );
            }
            k = k + 1;
        }
        proof {
            assert(self.segments@.take(self.segments@.len() as int) =~= self.segments@);
        }
        out
    }
}

impl Specifier {
    /// Parses a specifier from an inner specifier string, with no argument
    /// stores: errors if positional or named arguments would be required to
    /// resolve the width or the precision (as in `1$.2`), or if the string
    /// is not entirely one specifier.
    pub fn parse(spec_str: &str) -> (r: Result<Specifier, ()>)
        ensures
            r == specifier_of_str(spec_str@),
    {
        let v = text::chars_of(spec_str);
        let (raw, end) = exec_inner_at(&v, 0);
        if end != v.len() {
            return Err(());
        }
        let w = match raw.width {
            SizeRef::Absent => Width::Auto,
            SizeRef::Lit { from, to } => match parse_usize_range(&v, from, to) {
                Some(n) => Width::AtLeast { width: n },
                None => {
                    return Err(());
                },
            },
            _ => {
                return Err(());
            },
        };
        let p = match raw.precision {
            SizeRef::Absent => Precision::Auto,
            SizeRef::Lit { from, to } => match parse_usize_range(&v, from, to) {
                Some(n) => Precision::Exactly { precision: n },
                None => {
                    return Err(());
                },
            },
            _ => {
                return Err(());
            },
        };
        Ok(
            Specifier {
                align: raw.align,
                sign: raw.sign,
                repr: raw.repr,
                pad: raw.pad,
                width: w,
                precision: p,
                format: raw.format,
            },
        )
    }
}

} // verus!
