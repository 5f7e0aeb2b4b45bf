//! Traits and types for the values and argument stores that a template is
//! parsed and rendered against.
//!
//! A value type implements [`FormatArgument`] to report which specifiers it
//! supports and to supply the eight elementary renderings. Positional and
//! named stores implement [`PositionalArguments`] and [`NamedArguments`];
//! [`ArgumentSource`] is the resolution protocol the parser consumes them
//! through, with a cursor that only implicit references advance.

use vstd::prelude::*;

verus! {

use crate::Format;
use crate::Precision;
use crate::Specifier;

/// A value that indicates whether it supports a specific format, and renders
/// itself in each of the eight elementary modes.
///
/// The spec functions model the value's own answers: `spec_supports` is the
/// support predicate, and `spec_render` the characters of the elementary
/// rendering for a format kind and precision. Implementations outside this
/// crate supply both; the library's contracts are stated over them.
pub trait FormatArgument {
    /// The support predicate: whether the value can be formatted with the
    /// given specifier.
    spec fn spec_supports(&self, specifier: Specifier) -> bool;

    /// The elementary rendering of the value for a format kind and
    /// precision.
    spec fn spec_render(&self, format: Format, precision: Precision) -> Seq<char>;

    /// Returns `true` if `self` can be formatted using the given specifier.
    fn supports_format(&self, specifier: &Specifier) -> (r: bool)
        ensures
            r == self.spec_supports(*specifier),
    ;

    /// Formats the value as `std::fmt::Display` would.
    fn fmt_display(&self, precision: Precision) -> (r: String)
        ensures
            r@ == self.spec_render(Format::Display, precision),
    ;

    /// Formats the value as `std::fmt::Debug` would.
    fn fmt_debug(&self, precision: Precision) -> (r: String)
        ensures
            r@ == self.spec_render(Format::Debug, precision),
    ;

    /// Formats the value as `std::fmt::Octal` would.
    fn fmt_octal(&self, precision: Precision) -> (r: String)
        ensures
            r@ == self.spec_render(Format::Octal, precision),
    ;

    /// Formats the value as `std::fmt::LowerHex` would.
    fn fmt_lower_hex(&self, precision: Precision) -> (r: String)
        ensures
            r@ == self.spec_render(Format::LowerHex, precision),
    ;

    /// Formats the value as `std::fmt::UpperHex` would.
    fn fmt_upper_hex(&self, precision: Precision) -> (r: String)
        ensures
            r@ == self.spec_render(Format::UpperHex, precision),
    ;

    /// Formats the value as `std::fmt::Binary` would.
    fn fmt_binary(&self, precision: Precision) -> (r: String)
        ensures
            r@ == self.spec_render(Format::Binary, precision),
    ;

    /// Formats the value as `std::fmt::LowerExp` would.
    fn fmt_lower_exp(&self, precision: Precision) -> (r: String)
        ensures
            r@ == self.spec_render(Format::LowerExp, precision),
    ;

    /// Formats the value as `std::fmt::UpperExp` would.
    fn fmt_upper_exp(&self, precision: Precision) -> (r: String)
        ensures
            r@ == self.spec_render(Format::UpperExp, precision),
    ;
}

/// Holds a reference to a [`FormatArgument`] and dispatches to the
/// elementary rendering mode a format kind selects.
pub struct ArgumentFormatter<'v, V: FormatArgument>(pub &'v V);

impl<'v, V: FormatArgument> ArgumentFormatter<'v, V> {
    /// The elementary rendering of the held value for the given format kind
    /// and precision.
    pub fn render(&self, format: Format, precision: Precision) -> (r: String)
        ensures
            r@ == self.0.spec_render(format, precision),
    {
        match format {
            Format::Display => self.0.fmt_display(precision),
            Format::Debug => self.0.fmt_debug(precision),
            Format::Octal => self.0.fmt_octal(precision),
            Format::LowerHex => self.0.fmt_lower_hex(precision),
            Format::UpperHex => self.0.fmt_upper_hex(precision),
            Format::Binary => self.0.fmt_binary(precision),
            Format::LowerExp => self.0.fmt_lower_exp(precision),
            Format::UpperExp => self.0.fmt_upper_exp(precision),
        }
    }
}

/// A store that associates arguments with names.
pub trait NamedArguments<V: FormatArgument> {
    /// The mapping from names to arguments that the store holds.
    spec fn spec_entries(&self) -> Map<Seq<char>, V>;

    /// Returns a reference to the argument associated with the given name,
    /// if any.
    fn get(&self, key: &str) -> (r: Option<&V>)
        ensures
            match r {
                Some(v) => self.spec_entries().contains_key(key@) && *v == self.spec_entries()[key@],
                None => !self.spec_entries().contains_key(key@),
            },
    ;
}

/// A `NamedArguments` implementation that always returns `None`.
pub struct NoNamedArguments;

impl<V: FormatArgument> NamedArguments<V> for NoNamedArguments {
    open spec fn spec_entries(&self) -> Map<Seq<char>, V> {
        Map::empty()
    }

    fn get(&self, key: &str) -> (r: Option<&V>) {
        None
    }
}

/// A simple mapping-backed `NamedArguments` implementation: a list of
/// name-value entries searched front to back, the first match winning.
pub struct NamedValues<V> {
    entries: Vec<(String, V)>,
}

/// The mapping a list of name-value pairs denotes when it is searched front
/// to back.
pub open spec fn entries_map<V>(entries: Seq<(Seq<char>, V)>) -> Map<Seq<char>, V>
    decreases entries.len(),
{
    if entries.len() == 0 {
        Map::empty()
    } else {
        entries_map(entries.drop_last()).insert(entries.last().0, entries.last().1)
    }
}

impl<V: FormatArgument> NamedValues<V> {
    /// An empty store.
    pub fn new() -> (r: Self)
        ensures
            NamedArguments::<V>::spec_entries(&r) == Map::<Seq<char>, V>::empty(),
    {
        let r = NamedValues { entries: Vec::new() };
        proof {
            assert(r.entries@.map_values(|e: (String, V)| (e.0@, e.1)) =~= Seq::<(
                Seq<char>,
                V,
            )>::empty());
        }
        r
    }

    /// Adds an entry; an entry added later shadows an earlier one with the
    /// same name.
    pub fn insert(&mut self, name: String, value: V)
        ensures
            NamedArguments::<V>::spec_entries(final(self)) == NamedArguments::<V>::spec_entries(
                old(self),
            ).insert(name@, value),
    {
        let ghost before = self.entries@.map_values(|e: (String, V)| (e.0@, e.1));
        self.entries.push((name, value));
        proof {
            let after = self.entries@.map_values(|e: (String, V)| (e.0@, e.1));
            assert(after.drop_last() =~= before);
        }
    }
}

impl<V: FormatArgument> NamedArguments<V> for NamedValues<V> {
    closed spec fn spec_entries(&self) -> Map<Seq<char>, V> {
        entries_map(self.entries@.map_values(|e: (String, V)| (e.0@, e.1)))
    }

    fn get(&self, key: &str) -> (r: Option<&V>) {
        let ghost mapped = self.entries@.map_values(|e: (String, V)| (e.0@, e.1));
        let ghost full = entries_map(mapped);
        proof {
            assert(mapped.take(mapped.len() as int) =~= mapped);
        }
        let mut k: usize = self.entries.len();
        while k > 0
            invariant
                k <= self.entries@.len(),
                mapped == self.entries@.map_values(|e: (String, V)| (e.0@, e.1)),
                full == entries_map(mapped),
                full.contains_key(key@) <==> entries_map(mapped.take(k as int)).contains_key(key@),
                full.contains_key(key@) ==> full[key@] == entries_map(mapped.take(k as int))[key@],
            decreases k,
        {
            proof {
                assert(mapped.take(k as int).drop_last() =~= mapped.take(k - 1));
                assert(mapped.take(k as int).last() == mapped[k - 1]);
            }
            if crate::text::str_eq(self.entries[k - 1].0.as_str(), key) {
                return Some(&self.entries[k - 1].1);
            }
            k = k - 1;
        }
        proof {
            assert(mapped.take(0) =~= Seq::<(Seq<char>, V)>::empty());
        }
        None
    }
}

/// A store that provides a list of arguments, randomly accessible by their
/// position.
pub trait PositionalArguments<V: FormatArgument> {
    /// The arguments the store holds, in order.
    spec fn spec_args(&self) -> Seq<V>;

    /// Returns a reference to the argument at the given index, if any.
    fn get(&self, index: usize) -> (r: Option<&V>)
        ensures
            match r {
                Some(v) => index < self.spec_args().len() && *v == self.spec_args()[index as int],
                None => index >= self.spec_args().len(),
            },
    ;

    /// The number of arguments in the store.
    fn len(&self) -> (n: usize)
        ensures
            n == self.spec_args().len(),
    ;
}

/// A `PositionalArguments` implementation that always returns `None`.
pub struct NoPositionalArguments;

impl<V: FormatArgument> PositionalArguments<V> for NoPositionalArguments {
    open spec fn spec_args(&self) -> Seq<V> {
        Seq::empty()
    }

    fn get(&self, index: usize) -> (r: Option<&V>) {
        None
    }

    fn len(&self) -> (n: usize) {
        0
    }
}

impl<V: FormatArgument> PositionalArguments<V> for Vec<V> {
    open spec fn spec_args(&self) -> Seq<V> {
        self@
    }

    fn get(&self, index: usize) -> (r: Option<&V>) {
        if index < self.len() {
            Some(&self[index])
        } else {
            None
        }
    }

    fn len(&self) -> (n: usize) {
        Vec::len(self)
    }
}

/// A source of values to use when parsing the formatting string: positional
/// arguments reachable both through a cursor and by index, and named
/// arguments reachable by name. Only `next_argument` moves the cursor.
pub trait ArgumentSource<V: FormatArgument> {
    /// The positional arguments, in order.
    spec fn spec_positional(&self) -> Seq<V>;

    /// The named arguments.
    spec fn spec_named(&self) -> Map<Seq<char>, V>;

    /// The cursor: how many positional arguments have been consumed by
    /// `next_argument`.
    spec fn spec_cursor(&self) -> nat;

    /// Returns the next not-yet-consumed positional argument and advances
    /// the cursor, or returns `None` if the positional arguments are
    /// exhausted. This is the only way the cursor advances.
    fn next_argument(&mut self) -> (r: Option<&V>)
        ensures
            final(self).spec_positional() == old(self).spec_positional(),
            final(self).spec_named() == old(self).spec_named(),
            match r {
                Some(v) => {
                    &&& old(self).spec_cursor() < old(self).spec_positional().len()
                    &&& *v == old(self).spec_positional()[old(self).spec_cursor() as int]
                    &&& final(self).spec_cursor() == old(self).spec_cursor() + 1
                },
                None => {
                    &&& old(self).spec_cursor() >= old(self).spec_positional().len()
                    &&& final(self).spec_cursor() == old(self).spec_cursor()
                },
            },
    ;

    /// Returns the positional argument with the given index, if any; never
    /// affects the cursor.
    fn lookup_argument_by_index(&self, idx: usize) -> (r: Option<&V>)
        ensures
            match r {
                Some(v) => idx < self.spec_positional().len() && *v
                    == self.spec_positional()[idx as int],
                None => idx >= self.spec_positional().len(),
            },
    ;

    /// Returns the named argument with the given name, if any; never affects
    /// the cursor.
    fn lookup_argument_by_name(&self, name: &str) -> (r: Option<&V>)
        ensures
            match r {
                Some(v) => self.spec_named().contains_key(name@) && *v == self.spec_named()[name@],
                None => !self.spec_named().contains_key(name@),
            },
    ;
}

} // verus!
