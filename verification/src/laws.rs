//! Laws of the parser and renderer: properties that hold of every template
//! and every argument store, proved against the models the executable code
//! is specified by.

use vstd::prelude::*;

verus! {

use crate::Align;
use crate::Format;
use crate::Pad;
use crate::Precision;
use crate::Repr;
use crate::Sign;
use crate::Specifier;
use crate::Width;
use crate::argument::FormatArgument;
use crate::parser::ConvertToSize;
use crate::parser::HeadTok;
use crate::parser::SegModel;
use crate::parser::SizeTok;
use crate::parser::Step;
use crate::parser::first_brace;
use crate::parser::parse_head_at;
use crate::parser::parse_inner_at;
use crate::parser::parse_model;
use crate::parser::raw_default;
use crate::parser::render_seg_model;
use crate::parser::render_segs_model;
use crate::parser::resolve_head_model;
use crate::parser::resolve_spec_model;
use crate::parser::scan_model;
use crate::parser::specifier_of_str;
use crate::parser::step_model;
use crate::parser::sub_model;
use crate::specifier_fragment;
use crate::text::byte_offset;

/// In a stretch with no brace, the first brace is the end of the stretch.
proof fn lemma_first_brace_absent(s: Seq<char>, i: int)
    requires
        0 <= i <= s.len(),
        forall|k: int| i <= k < s.len() ==> s[k] != '{' && s[k] != '}',
    ensures
        first_brace(s, i) == s.len(),
    decreases s.len() - i,
{
    if i < s.len() {
        lemma_first_brace_absent(s, i + 1);
    }
}

/// A template with no brace anywhere parses, whatever the stores hold, to a
/// single literal text segment (or to nothing when it is empty), and
/// rendering what it parses to yields the template unchanged: parse followed
/// by render is the identity on brace-free templates.
pub proof fn lemma_no_braces_round_trip<V: FormatArgument + ConvertToSize>(
    s: Seq<char>,
    pos: Seq<V>,
    named: Map<Seq<char>, V>,
)
    requires
        forall|k: int| 0 <= k < s.len() ==> s[k] != '{' && s[k] != '}',
    ensures
        parse_model(s, pos, named) matches Ok(gs) && render_segs_model(gs) == s,
{
    if s.len() == 0 {
        assert(step_model(s, 0, pos, named, 0) is Done);
        assert(parse_model(s, pos, named) == Ok::<Seq<SegModel<V>>, nat>(Seq::empty()));
        assert(render_segs_model(Seq::<SegModel<V>>::empty()) =~= s);
    } else {
        lemma_first_brace_absent(s, 0);
        let g = SegModel::<V>::Text(s.subrange(0, s.len() as int));
        assert(step_model(s, 0, pos, named, 0) == Step::Emit(g, s.len() as int, 0nat));
        assert(step_model(s, s.len() as int, pos, named, 0nat) is Done);
        assert(scan_model(s, s.len() as int, pos, named, 0nat) == Ok::<Seq<SegModel<V>>, nat>(
            Seq::empty(),
        ));
        assert(parse_model(s, pos, named) == Ok::<Seq<SegModel<V>>, nat>(seq![g]));
        assert(s.subrange(0, s.len() as int) =~= s);
        assert((seq![g]).drop_first() =~= Seq::<SegModel<V>>::empty());
        assert(render_segs_model(seq![g]) == render_seg_model(g) + render_segs_model(
            Seq::<SegModel<V>>::empty(),
        ));
        assert(s + Seq::<char>::empty() =~= s);
    }
}

/// An escaped brace pair — `{{` or `}}` — always scans to a one-character
/// text segment holding the single brace, whatever surrounds it, whatever
/// the stores hold, and wherever the cursor stands; and that segment renders
/// as the single brace.
pub proof fn lemma_escaped_brace<V: FormatArgument + ConvertToSize>(
    s: Seq<char>,
    i: int,
    pos: Seq<V>,
    named: Map<Seq<char>, V>,
    cursor: nat,
)
    requires
        0 <= i,
        i + 1 < s.len(),
        s[i] == s[i + 1],
        s[i] == '{' || s[i] == '}',
    ensures
        step_model(s, i, pos, named, cursor) == Step::Emit(
            SegModel::<V>::Text(seq![s[i]]),
            i + 2,
            cursor,
        ),
        render_seg_model(SegModel::<V>::Text(seq![s[i]])) == seq![s[i]],
{
    assert(first_brace(s, i) == i);
    assert(s.subrange(i, i + 1) =~= seq![s[i]]);
}

/// Whether the character can appear in a format fragment.
spec fn is_format_char(c: char) -> bool {
    c == '?' || c == 'o' || c == 'x' || c == 'X' || c == 'b' || c == 'e' || c == 'E'
}

/// The format stage consumes exactly a format fragment that ends the
/// string.
proof fn lemma_rt_format(s: Seq<char>, i: int, f: Format)
    requires
        0 <= i <= s.len(),
        s.subrange(i, s.len() as int) == crate::format_fragment(f),
    ensures
        crate::parser::parse_format_at(s, i) == (f, s.len() as int),
{
    if crate::format_fragment(f).len() > 0 {
        assert(s[i] == crate::format_fragment(f)[0]);
    }
}

/// The precision stage consumes nothing when what follows is only a format
/// fragment.
proof fn lemma_rt_precision(s: Seq<char>, i: int, f: Format)
    requires
        0 <= i <= s.len(),
        s.subrange(i, s.len() as int) == crate::format_fragment(f),
    ensures
        crate::parser::parse_precision_at(s, i) == (SizeTok::Absent, i),
{
    assert(s.len() - i == crate::format_fragment(f).len());
    if i < s.len() {
        assert(!(f is Display));
        assert(s[i] == s.subrange(i, s.len() as int)[0]);
        assert(s[i] == crate::format_fragment(f)[0]);
        assert(s[i] != '.');
    }
    assert(crate::parser::parse_precision_at(s, i) == (SizeTok::Absent, i));
}

/// The padding-and-width stage consumes exactly a pad fragment, and leaves
/// the width token absent, when what follows is only a format fragment.
proof fn lemma_rt_pad_width(s: Seq<char>, i: int, p: Pad, f: Format)
    requires
        0 <= i <= s.len(),
        s.subrange(i, s.len() as int) == crate::pad_fragment(p) + crate::format_fragment(f),
    ensures
        crate::parser::parse_pad_width_at(s, i) == (
            p,
            SizeTok::Absent,
            i + crate::pad_fragment(p).len(),
        ),
{
    let tail = crate::pad_fragment(p) + crate::format_fragment(f);
    let q = i + crate::pad_fragment(p).len() as int;
    assert(forall|k: int| i <= k < s.len() ==> s[k] == tail[k - i]);
    if q < s.len() {
        assert(is_format_char(s[q]));
    }
    assert(crate::parser::digits_end(s, q) == q);
    if q < s.len() && crate::text::is_name_start(s[q]) {
        crate::parser::lemma_name_end_bounds(s, q + 1);
        assert(q + 1 == s.len());
    }
    assert(crate::parser::parse_size_at(s, q) == (SizeTok::Absent, q));
    if p is Zero {
        assert(s[i] == '0');
        assert(crate::parser::digits_end(s, i) == i + 1);
    }
}

/// The alternate-representation stage consumes exactly a repr fragment when
/// what follows starts, if at all, with a pad or format character.
proof fn lemma_rt_repr(s: Seq<char>, i: int, r: Repr)
    requires
        0 <= i,
        i + crate::repr_fragment(r).len() <= s.len(),
        r is Alt ==> s[i] == '#',
        r is Default && i < s.len() ==> s[i] == '0' || is_format_char(s[i]),
    ensures
        crate::parser::parse_repr_at(s, i) == (r, i + crate::repr_fragment(r).len()),
{
}

/// The sign stage consumes exactly a sign fragment when what follows
/// starts, if at all, with a repr, pad or format character.
proof fn lemma_rt_sign(s: Seq<char>, i: int, g: Sign)
    requires
        0 <= i,
        i + crate::sign_fragment(g).len() <= s.len(),
        g is Always ==> s[i] == '+',
        g is Default && i < s.len() ==> s[i] == '#' || s[i] == '0' || is_format_char(s[i]),
    ensures
        crate::parser::parse_sign_at(s, i) == (g, i + crate::sign_fragment(g).len()),
{
}

/// The alignment stage consumes exactly an alignment fragment when what
/// follows starts, if at all, with a sign, repr, pad or format character.
proof fn lemma_rt_align(s: Seq<char>, i: int, a: Align)
    requires
        0 <= i,
        i + crate::align_fragment(a).len() <= s.len(),
        !(a is Unspecified) ==> s[i] == crate::align_fragment(a)[0],
        a is Unspecified && i < s.len() ==> s[i] == '+' || s[i] == '#' || s[i] == '0'
            || is_format_char(s[i]),
    ensures
        crate::parser::parse_align_at(s, i) == (a, i + crate::align_fragment(a).len()),
{
}

/// The alignment, sign and representation stages together consume exactly
/// their fragments of a rendered specifier, leaving the padding fragment and
/// the format fragment.
#[verifier::rlimit(50)]
proof fn lemma_rt_prefix(sp: Specifier)
    requires
        sp.width == Width::Auto,
        sp.precision == Precision::Auto,
    ensures
        ({
            let s = specifier_fragment(sp);
            let (a, i1) = crate::parser::parse_align_at(s, 0);
            let (g, i2) = crate::parser::parse_sign_at(s, i1);
            let (r, i3) = crate::parser::parse_repr_at(s, i2);
            &&& a == sp.align
            &&& g == sp.sign
            &&& r == sp.repr
            &&& i3 == crate::align_fragment(sp.align).len() + crate::sign_fragment(sp.sign).len()
                + crate::repr_fragment(sp.repr).len()
            &&& s.subrange(i3, s.len() as int) == crate::pad_fragment(sp.pad)
                + crate::format_fragment(sp.format)
        }),
{
    let s = specifier_fragment(sp);
    let af = crate::align_fragment(sp.align);
    let sf = crate::sign_fragment(sp.sign);
    let rf = crate::repr_fragment(sp.repr);
    let pf = crate::pad_fragment(sp.pad);
    let ff = crate::format_fragment(sp.format);
    assert(s =~= af + sf + rf + pf + ff);
    let i1 = af.len() as int;
    let i2 = i1 + sf.len();
    let i3 = i2 + rf.len();
    assert(forall|k: int| 0 <= k < s.len() ==> s[k] == (af + sf + rf + pf + ff)[k]);
    assert(!(sp.align is Unspecified) ==> s[0] == af[0]);
    assert(sp.align is Unspecified && 0 < s.len() ==> s[0] == '+' || s[0] == '#' || s[0] == '0'
        || is_format_char(s[0]));
    assert(sp.sign is Always ==> s[i1] == '+');
    assert(sp.sign is Default && i1 < s.len() ==> s[i1] == '#' || s[i1] == '0' || is_format_char(
        s[i1],
    ));
    assert(sp.repr is Alt ==> s[i2] == '#');
    assert(sp.repr is Default && i2 < s.len() ==> s[i2] == '0' || is_format_char(s[i2]));
    lemma_rt_align(s, 0, sp.align);
    lemma_rt_sign(s, i1, sp.sign);
    lemma_rt_repr(s, i2, sp.repr);
    assert(s.subrange(i3, s.len() as int) =~= pf + ff);
}

/// A specifier whose width and precision are their default variants parses
/// back, from its canonical textual rendering, to an equal specifier.
#[verifier::rlimit(50)]
pub proof fn lemma_specifier_round_trip(sp: Specifier)
    requires
        sp.width == Width::Auto,
        sp.precision == Precision::Auto,
    ensures
        specifier_of_str(specifier_fragment(sp)) == Ok::<Specifier, ()>(sp),
{
    let s = specifier_fragment(sp);
    lemma_rt_prefix(sp);
    let (a, i1) = crate::parser::parse_align_at(s, 0);
    let (g, i2) = crate::parser::parse_sign_at(s, i1);
    let (r, i3) = crate::parser::parse_repr_at(s, i2);
    lemma_rt_pad_width(s, i3, sp.pad, sp.format);
    let i4 = i3 + crate::pad_fragment(sp.pad).len() as int;
    assert(s.subrange(i4, s.len() as int) =~= crate::format_fragment(sp.format));
    lemma_rt_precision(s, i4, sp.format);
    lemma_rt_format(s, i4, sp.format);
    let raw = crate::parser::RawSpec {
        align: sp.align,
        sign: sp.sign,
        repr: sp.repr,
        pad: sp.pad,
        width: SizeTok::Absent,
        precision: SizeTok::Absent,
        format: sp.format,
    };
    assert(crate::parser::parse_inner_at(s, 0) == (raw, s.len() as int));
    assert(crate::parser::width_of_literal(SizeTok::Absent) == Ok::<Width, ()>(Width::Auto));
    assert(crate::parser::precision_of_literal(SizeTok::Absent) == Ok::<Precision, ()>(
        Precision::Auto,
    ));
}

/// The cursor moves in a fixed, local way: a successfully parsed
/// placeholder advances it by one when its head is implicit, by one more
/// when its precision is the asterisk, and not at all otherwise — explicit
/// index and name references never advance it.
pub proof fn lemma_cursor_discipline<V: FormatArgument + ConvertToSize>(
    s: Seq<char>,
    i: int,
    pos: Seq<V>,
    named: Map<Seq<char>, V>,
    cursor: nat,
)
    ensures
        match sub_model(s, i, pos, named, cursor) {
            Ok((sp, val, end, c2)) => {
                let (head, h) = parse_head_at(s, i + 1);
                let colon = h < s.len() && s[h] == ':';
                let raw = if colon {
                    parse_inner_at(s, h + 1).0
                } else {
                    raw_default()
                };
                let implicit: nat = if head is Implicit {
                    1
                } else {
                    0
                };
                let star: nat = if raw.precision is Star {
                    1
                } else {
                    0
                };
                c2 == cursor + star + implicit
            },
            Err(e) => true,
        },
{
}

/// A placeholder that fails — malformed, an argument missing, an indirect
/// size unresolvable, or the requested format unsupported — stops scanning
/// with exactly the byte offset at which the placeholder begins: the error
/// position names the failing placeholder, not a global position.
pub proof fn lemma_failing_placeholder_offset<V: FormatArgument + ConvertToSize>(
    s: Seq<char>,
    i: int,
    pos: Seq<V>,
    named: Map<Seq<char>, V>,
    cursor: nat,
)
    requires
        0 <= i < s.len(),
        s[i] == '{' || s[i] == '}',
        !(i + 1 < s.len() && s[i + 1] == s[i]),
        i + 1 < s.len() ==> sub_model(s, i, pos, named, cursor) is Err,
    ensures
        step_model(s, i, pos, named, cursor) == Step::Stuck::<V>(byte_offset(s, i)),
        scan_model(s, i, pos, named, cursor) == Err::<Seq<SegModel<V>>, nat>(byte_offset(s, i)),
{
    assert(first_brace(s, i) == i);
}

/// A value that reports no support for the resolved specifier causes that
/// placeholder's parse to fail, even though the placeholder is well-formed
/// and every argument it references resolves.
pub proof fn lemma_unsupported_value_fails<V: FormatArgument + ConvertToSize>(
    s: Seq<char>,
    i: int,
    pos: Seq<V>,
    named: Map<Seq<char>, V>,
    cursor: nat,
)
    requires
        0 <= i < s.len(),
        s[i] == '{',
        i + 1 < s.len(),
        s[i + 1] != '{',
        ({
            let (head, h) = parse_head_at(s, i + 1);
            let colon = h < s.len() && s[h] == ':';
            let (raw, k) = if colon {
                parse_inner_at(s, h + 1)
            } else {
                (raw_default(), h)
            };
            &&& k < s.len() && s[k] == '}'
            &&& resolve_spec_model(raw, pos, named, cursor) is Ok
            &&& ({
                let (sp, c2) = resolve_spec_model(raw, pos, named, cursor).unwrap();
                &&& resolve_head_model(head, pos, named, c2) is Ok
                &&& !resolve_head_model(head, pos, named, c2).unwrap().0.spec_supports(sp)
            })
        }),
    ensures
        step_model(s, i, pos, named, cursor) == Step::Stuck::<V>(byte_offset(s, i)),
        scan_model(s, i, pos, named, cursor) == Err::<Seq<SegModel<V>>, nat>(byte_offset(s, i)),
{
    assert(sub_model(s, i, pos, named, cursor) is Err);
    lemma_failing_placeholder_offset(s, i, pos, named, cursor);
}

} // verus!
