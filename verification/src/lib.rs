//! Runtime interpretation of `format!`-style template strings.
//!
//! A template with brace-delimited placeholders is parsed at runtime against
//! positional and named argument stores, producing a sequence of literal-text
//! and substitution segments that can then be rendered. The grammar of a
//! placeholder is `{[index|name][:specifier]}`, where the specifier follows
//! `[align][sign][#][0][width][.precision][format]`; `{{` and `}}` are
//! escapes for literal braces. Parsing validates that every referenced
//! argument is present and supports the requested format, and reports the
//! byte offset of the failing placeholder on error.

use vstd::prelude::*;

pub mod argument;
pub mod dispatch;
pub mod laws;
pub mod parser;
pub mod text;

verus! {

/// Specifies the alignment of an argument with a specific width.
#[derive(Debug, Copy, Clone, PartialEq, Eq, Structural)]
pub enum Align {
    Unspecified,
    Left,
    Center,
    Right,
}

/// Specifies whether the sign of a numeric argument should always be emitted.
#[derive(Debug, Copy, Clone, PartialEq, Eq, Structural)]
pub enum Sign {
    Default,
    Always,
}

/// Specifies whether to use the alternate representation for certain formats.
#[derive(Debug, Copy, Clone, PartialEq, Eq, Structural)]
pub enum Repr {
    Default,
    Alt,
}

/// Specifies whether a numeric argument with specific width should be padded
/// with spaces or zeroes.
#[derive(Debug, Copy, Clone, PartialEq, Eq, Structural)]
pub enum Pad {
    Space,
    Zero,
}

/// Specifies whether an argument should be padded to a specific width.
#[derive(Debug, Copy, Clone, PartialEq, Eq, Structural)]
pub enum Width {
    Auto,
    AtLeast { width: usize },
}

/// Specifies whether an argument should be formatted with a specific
/// precision.
#[derive(Debug, Copy, Clone, PartialEq, Eq, Structural)]
pub enum Precision {
    Auto,
    Exactly { precision: usize },
}

/// Specifies how to format an argument: one of the eight elementary
/// rendering modes.
#[derive(Debug, Copy, Clone, PartialEq, Eq, Structural)]
pub enum Format {
    Display,
    Debug,
    Octal,
    LowerHex,
    UpperHex,
    Binary,
    LowerExp,
    UpperExp,
}

/// The specification for the format of an argument in the formatting string:
/// seven independent dimensions, each a closed enumeration.
#[derive(Debug, Copy, Clone, PartialEq, Eq, Structural)]
pub struct Specifier {
    pub align: Align,
    pub sign: Sign,
    pub repr: Repr,
    pub pad: Pad,
    pub width: Width,
    pub precision: Precision,
    pub format: Format,
}

/// The specifier every dimension of which is its default variant.
pub open spec fn default_specifier() -> Specifier {
    Specifier {
        align: Align::Unspecified,
        sign: Sign::Default,
        repr: Repr::Default,
        pad: Pad::Space,
        width: Width::Auto,
        precision: Precision::Auto,
        format: Format::Display,
    }
}

impl Default for Specifier {
    fn default() -> (r: Self)
        ensures
            r == default_specifier(),
    {
        Specifier {
            align: Align::Unspecified,
            sign: Sign::Default,
            repr: Repr::Default,
            pad: Pad::Space,
            width: Width::Auto,
            precision: Precision::Auto,
            format: Format::Display,
        }
    }
}

/// The decimal digit character for a value below ten.
pub open spec fn dec_digit(n: nat) -> char
    recommends
        n < 10,
{
    if n == 0 {
        '0'
    } else if n == 1 {
        '1'
    } else if n == 2 {
        '2'
    } else if n == 3 {
        '3'
    } else if n == 4 {
        '4'
    } else if n == 5 {
        '5'
    } else if n == 6 {
        '6'
    } else if n == 7 {
        '7'
    } else if n == 8 {
        '8'
    } else {
        '9'
    }
}

/// The decimal rendering of a non-negative integer, without leading zeroes
/// (a lone zero renders as "0").
pub open spec fn dec_str(n: nat) -> Seq<char>
    decreases n,
{
    if n < 10 {
        seq![dec_digit(n)]
    } else {
        dec_str(n / 10).push(dec_digit(n % 10))
    }
}

/// The textual fragment of the alignment dimension.
pub open spec fn align_fragment(a: Align) -> Seq<char> {
    match a {
        Align::Unspecified => Seq::<char>::empty(),
        Align::Left => seq!['<'],
        Align::Center => seq!['^'],
        Align::Right => seq!['>'],
    }
}

/// The textual fragment of the sign dimension.
pub open spec fn sign_fragment(s: Sign) -> Seq<char> {
    match s {
        Sign::Default => Seq::<char>::empty(),
        Sign::Always => seq!['+'],
    }
}

/// The textual fragment of the alternate-representation dimension.
pub open spec fn repr_fragment(r: Repr) -> Seq<char> {
    match r {
        Repr::Default => Seq::<char>::empty(),
        Repr::Alt => seq!['#'],
    }
}

/// The textual fragment of the padding dimension.
pub open spec fn pad_fragment(p: Pad) -> Seq<char> {
    match p {
        Pad::Space => Seq::<char>::empty(),
        Pad::Zero => seq!['0'],
    }
}

/// The textual fragment of the width dimension.
pub open spec fn width_fragment(w: Width) -> Seq<char> {
    match w {
        Width::Auto => Seq::<char>::empty(),
        Width::AtLeast { width } => dec_str(width as nat),
    }
}

/// The textual fragment of the precision dimension.
pub open spec fn precision_fragment(p: Precision) -> Seq<char> {
    match p {
        Precision::Auto => Seq::<char>::empty(),
        Precision::Exactly { precision } => seq!['.'] + dec_str(precision as nat),
    }
}

/// The textual fragment of the format dimension.
pub open spec fn format_fragment(f: Format) -> Seq<char> {
    match f {
        Format::Display => Seq::<char>::empty(),
        Format::Debug => seq!['?'],
        Format::Octal => seq!['o'],
        Format::LowerHex => seq!['x'],
        Format::UpperHex => seq!['X'],
        Format::Binary => seq!['b'],
        Format::LowerExp => seq!['e'],
        Format::UpperExp => seq!['E'],
    }
}

/// The canonical textual rendering of a specifier: the concatenation of the
/// minimal fragments of its seven dimensions, in grammar order.
pub open spec fn specifier_fragment(sp: Specifier) -> Seq<char> {
    align_fragment(sp.align) + sign_fragment(sp.sign) + repr_fragment(sp.repr) + pad_fragment(
        sp.pad,
    ) + width_fragment(sp.width) + precision_fragment(sp.precision) + format_fragment(sp.format)
}

fn push_align(out: &mut String, a: Align)
    ensures
        final(out)@ == old(out)@ + align_fragment(a),
{
    match a {
        Align::Unspecified => (),
        Align::Left => text::push_char(out, '<'),
        Align::Center => text::push_char(out, '^'),
        Align::Right => text::push_char(out, '>'),
    }
    proof {
        assert(final(out)@ =~= old(out)@ + align_fragment(a));
    }
}

fn push_sign(out: &mut String, s: Sign)
    ensures
        final(out)@ == old(out)@ + sign_fragment(s),
{
    match s {
        Sign::Default => (),
        Sign::Always => text::push_char(out, '+'),
    }
    proof {
        assert(final(out)@ =~= old(out)@ + sign_fragment(s));
    }
}

fn push_repr(out: &mut String, r: Repr)
    ensures
        final(out)@ == old(out)@ + repr_fragment(r),
{
    match r {
        Repr::Default => (),
        Repr::Alt => text::push_char(out, '#'),
    }
    proof {
        assert(final(out)@ =~= old(out)@ + repr_fragment(r));
    }
}

fn push_pad(out: &mut String, p: Pad)
    ensures
        final(out)@ == old(out)@ + pad_fragment(p),
{
    match p {
        Pad::Space => (),
        Pad::Zero => text::push_char(out, '0'),
    }
    proof {
        assert(final(out)@ =~= old(out)@ + pad_fragment(p));
    }
}

fn push_width(out: &mut String, w: Width)
    ensures
        final(out)@ == old(out)@ + width_fragment(w),
{
    match w {
        Width::Auto => (),
        Width::AtLeast { width } => text::push_dec(out, width),
    }
    proof {
        assert(final(out)@ =~= old(out)@ + width_fragment(w));
    }
}

fn push_precision(out: &mut String, p: Precision)
    ensures
        final(out)@ == old(out)@ + precision_fragment(p),
{
    match p {
        Precision::Auto => (),
        Precision::Exactly { precision } => {
            text::push_char(out, '.');
            text::push_dec(out, precision);
        },
    }
    proof {
        assert(final(out)@ =~= old(out)@ + precision_fragment(p));
    }
}

fn push_format(out: &mut String, f: Format)
    ensures
        final(out)@ == old(out)@ + format_fragment(f),
{
    match f {
        Format::Display => (),
        Format::Debug => text::push_char(out, '?'),
        Format::Octal => text::push_char(out, 'o'),
        Format::LowerHex => text::push_char(out, 'x'),
        Format::UpperHex => text::push_char(out, 'X'),
        Format::Binary => text::push_char(out, 'b'),
        Format::LowerExp => text::push_char(out, 'e'),
        Format::UpperExp => text::push_char(out, 'E'),
    }
    proof {
        assert(final(out)@ =~= old(out)@ + format_fragment(f));
    }
}

impl Specifier {
    /// The canonical textual rendering of this specifier; parsing it back
    /// yields an equal specifier.
    pub fn render(&self) -> (r: String)
        ensures
            r@ == specifier_fragment(*self),
    {
        let mut out = String::new();
        push_align(&mut out, self.align);
        push_sign(&mut out, self.sign);
        push_repr(&mut out, self.repr);
        push_pad(&mut out, self.pad);
        push_width(&mut out, self.width);
        push_precision(&mut out, self.precision);
        push_format(&mut out, self.format);
        proof {
            assert(out@ =~= specifier_fragment(*self));
        }
        out
    }
}

} // verus!
