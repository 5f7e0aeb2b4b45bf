//! Value dispatch: composes a resolved specifier with the elementary
//! rendering of a value.
//!
//! The composition applies, in a fixed order: sign control (a `+` is
//! prefixed when the sign dimension is `Always` and the elementary text does
//! not begin with `-`), the alternate-representation prefix (`0o`, `0x`,
//! `0b` for the octal, hex and binary formats), and alignment to the
//! requested width. With zero padding, the fill goes between the
//! sign-and-prefix part and the rest, and the alignment dimension is
//! ignored; with space padding, an argument with no explicit alignment is
//! aligned to the right, the numeric convention. Width counts characters.
//! Precision is not applied here: it is handed to the value's elementary
//! renderer, which owns its exact semantics.

use vstd::prelude::*;

verus! {

use crate::Align;
use crate::Format;
use crate::Pad;
use crate::Repr;
use crate::Sign;
use crate::Specifier;
use crate::Width;
use crate::argument::ArgumentFormatter;
use crate::argument::FormatArgument;
use crate::text;

/// The alternate-representation prefix for a format kind: `0o`, `0x`, `0b`
/// for octal, hex and binary, nothing for the other kinds or for the default
/// representation.
pub open spec fn alt_prefix(repr: Repr, format: Format) -> Seq<char> {
    if repr == Repr::Alt {
        match format {
            Format::Octal => seq!['0', 'o'],
            Format::LowerHex => seq!['0', 'x'],
            Format::UpperHex => seq!['0', 'x'],
            Format::Binary => seq!['0', 'b'],
            _ => Seq::<char>::empty(),
        }
    } else {
        Seq::<char>::empty()
    }
}

/// The character repeated `n` times.
pub open spec fn repeated(c: char, n: nat) -> Seq<char> {
    Seq::new(n, |i| c)
}

/// The sign part of a composed value: the elementary text's own leading `-`,
/// or a forced `+` when the sign dimension is `Always`.
pub open spec fn sign_part(sign: Sign, elem: Seq<char>) -> Seq<char> {
    if elem.len() > 0 && elem[0] == '-' {
        seq!['-']
    } else if sign == Sign::Always {
        seq!['+']
    } else {
        Seq::<char>::empty()
    }
}

/// The elementary text with its leading `-` stripped, if it has one.
pub open spec fn body_part(elem: Seq<char>) -> Seq<char> {
    if elem.len() > 0 && elem[0] == '-' {
        elem.drop_first()
    } else {
        elem
    }
}

/// The full composition of a specifier with an elementary rendering: sign,
/// then alternate prefix, then the body, padded to the requested width.
pub open spec fn composed_value(sp: Specifier, elem: Seq<char>) -> Seq<char> {
    let sign = sign_part(sp.sign, elem);
    let body = body_part(elem);
    let prefix = alt_prefix(sp.repr, sp.format);
    let core = sign + prefix + body;
    match sp.width {
        Width::Auto => core,
        Width::AtLeast { width } => {
            if core.len() >= width {
                core
            } else {
                let fill = (width - core.len()) as nat;
                if sp.pad == Pad::Zero {
                    sign + prefix + repeated('0', fill) + body
                } else {
                    match sp.align {
                        Align::Left => core + repeated(' ', fill),
                        Align::Center => repeated(' ', fill / 2) + core + repeated(
                            ' ',
                            (fill - fill / 2) as nat,
                        ),
                        _ => repeated(' ', fill) + core,
                    }
                }
            }
        },
    }
}

/// Appends `n` copies of the character to the string.
fn push_repeated(out: &mut String, c: char, n: usize)
    ensures
        final(out)@ == old(out)@ + repeated(c, n as nat),
{
    let mut k: usize = 0;
    while k < n
        invariant
            k <= n,
            out@ == old(out)@ + repeated(c, k as nat),
        decreases n - k,
    {
        text::push_char(out, c);
        proof {
            assert(old(out)@ + repeated(c, (k + 1) as nat) =~= (old(out)@ + repeated(
                c,
                k as nat,
            )).push(c));
        }
        k = k + 1;
    }
    proof {
        assert(out@ =~= old(out)@ + repeated(c, n as nat));
    }
}

/// Appends the given range of the character vector to the string.
fn push_range(out: &mut String, v: &Vec<char>, from: usize, to: usize)
    requires
        from <= to <= v@.len(),
    ensures
        final(out)@ == old(out)@ + v@.subrange(from as int, to as int),
{
    let mut k: usize = from;
    while k < to
        invariant
            from <= k <= to <= v@.len(),
            out@ == old(out)@ + v@.subrange(from as int, k as int),
        decreases to - k,
    {
        text::push_char(out, v[k]);
        proof {
            assert(old(out)@ + v@.subrange(from as int, k + 1 as int) =~= (old(out)@
                + v@.subrange(from as int, k as int)).push(v@[k as int]));
        }
        k = k + 1;
    }
}

/// Appends the sign part and the alternate prefix, and returns how many
/// characters it appended.
fn push_sign_prefix(out: &mut String, sp: &Specifier, neg: bool, elem: Ghost<Seq<char>>) -> (n:
    usize)
    requires
        neg == (elem@.len() > 0 && elem@[0] == '-'),
    ensures
        final(out)@ == old(out)@ + sign_part(sp.sign, elem@) + alt_prefix(sp.repr, sp.format),
        n == sign_part(sp.sign, elem@).len() + alt_prefix(sp.repr, sp.format).len(),
        n <= 3,
{
    let mut n: usize = 0;
    if neg {
        text::push_char(out, '-');
        n = 1;
    } else if matches!(sp.sign, Sign::Always) {
        text::push_char(out, '+');
        n = 1;
    }
    proof {
        assert(out@ =~= old(out)@ + sign_part(sp.sign, elem@));
    }
    let ghost mid = out@;
    if matches!(sp.repr, Repr::Alt) {
        match sp.format {
            Format::Octal => {
                text::push_char(out, '0');
                text::push_char(out, 'o');
                n = n + 2;
            },
            Format::LowerHex => {
                text::push_char(out, '0');
                text::push_char(out, 'x');
                n = n + 2;
            },
            Format::UpperHex => {
                text::push_char(out, '0');
                text::push_char(out, 'x');
                n = n + 2;
            },
            Format::Binary => {
                text::push_char(out, '0');
                text::push_char(out, 'b');
                n = n + 2;
            },
            _ => (),
        }
    }
    proof {
        assert(out@ =~= mid + alt_prefix(sp.repr, sp.format));
    }
    n
}

/// Appends the body and the fill for one composition branch, given a
/// string already holding the sign part and the alternate prefix.
fn finish_branches(
    out: &mut String,
    sp: &Specifier,
    chars: &Vec<char>,
    body_from: usize,
    fill: usize,
    elem: Ghost<Seq<char>>,
) -> (r: String)
    requires
        body_part(elem@) == chars@.subrange(body_from as int, chars@.len() as int),
        body_from <= chars@.len(),
        old(out)@ == sign_part(sp.sign, elem@) + alt_prefix(sp.repr, sp.format),
        ({
            let core = sign_part(sp.sign, elem@) + alt_prefix(sp.repr, sp.format) + body_part(
                elem@,
            );
            match sp.width {
                Width::Auto => fill == 0,
                Width::AtLeast { width } => fill == if core.len() >= width {
                    0int
                } else {
                    width - core.len()
                },
            }
        }),
    ensures
        r@ == composed_value(*sp, elem@),
{
    let ghost sign = sign_part(sp.sign, elem@);
    let ghost prefix = alt_prefix(sp.repr, sp.format);
    let ghost body = body_part(elem@);
    let ghost core = sign + prefix + body;
    if fill == 0 {
        push_range(out, chars, body_from, chars.len());
        proof {
            assert(out@ =~= core);
        }
        let mut r = String::new();
        core::mem::swap(&mut r, out);
        r
    } else if matches!(sp.pad, Pad::Zero) {
        push_repeated(out, '0', fill);
        push_range(out, chars, body_from, chars.len());
        proof {
            assert(out@ =~= sign + prefix + repeated('0', fill as nat) + body);
        }
        let mut r = String::new();
        core::mem::swap(&mut r, out);
        r
    } else {
        match sp.align {
            Align::Left => {
                push_range(out, chars, body_from, chars.len());
                push_repeated(out, ' ', fill);
                proof {
                    assert(out@ =~= core + repeated(' ', fill as nat));
                }
                let mut r = String::new();
                core::mem::swap(&mut r, out);
                r
            },
            Align::Center => {
                let left = fill / 2;
                let mut padded = String::new();
                push_repeated(&mut padded, ' ', left);
                padded.append(out.as_str());
                push_range(&mut padded, chars, body_from, chars.len());
                push_repeated(&mut padded, ' ', fill - left);
                proof {
                    assert(padded@ =~= repeated(' ', left as nat) + core + repeated(
                        ' ',
                        (fill - left) as nat,
                    ));
                }
                padded
            },
            _ => {
                let mut padded = String::new();
                push_repeated(&mut padded, ' ', fill);
                padded.append(out.as_str());
                push_range(&mut padded, chars, body_from, chars.len());
                proof {
                    assert(padded@ =~= repeated(' ', fill as nat) + core);
                }
                padded
            },
        }
    }
}

/// Composes the specifier with an already-rendered elementary text.
pub fn compose_value(sp: &Specifier, elem: &str) -> (r: String)
    ensures
        r@ == composed_value(*sp, elem@),
{
    let chars = text::chars_of(elem);
    let neg = chars.len() > 0 && chars[0] == '-';
    let body_from: usize = if neg {
        1
    } else {
        0
    };
    let body_len = chars.len() - body_from;
    proof {
        assert(body_part(elem@) =~= chars@.subrange(body_from as int, chars@.len() as int));
    }

    let mut out = String::new();
    let head_len = push_sign_prefix(&mut out, sp, neg, Ghost(elem@));
    proof {
        assert((sign_part(sp.sign, elem@) + alt_prefix(sp.repr, sp.format) + body_part(
            elem@,
        )).len() == head_len + body_len);
    }

    let fill: usize = match sp.width {
        Width::Auto => 0,
        Width::AtLeast { width } => {
            if width <= body_len {
                0
            } else {
                let d = width - body_len;
                if d <= head_len {
                    0
                } else {
                    d - head_len
                }
            }
        },
    };
    finish_branches(&mut out, sp, &chars, body_from, fill, Ghost(elem@))
}

/// Renders the given value with the given specifier: the value supplies the
/// elementary rendering for the specifier's format kind and precision, and
/// the composition applies the remaining dimensions.
pub fn format_value<V: FormatArgument>(specifier: &Specifier, value: &V) -> (r: String)
    ensures
        r@ == composed_value(
            *specifier,
            value.spec_render(specifier.format, specifier.precision),
        ),
{
    let elem = ArgumentFormatter(value).render(specifier.format, specifier.precision);
    compose_value(specifier, elem.as_str())
}

} // verus!
