use rt_format::argument::{
    ArgumentSource, FormatArgument, NamedArguments, NamedValues, NoNamedArguments,
    NoPositionalArguments, PositionalArguments,
};
use rt_format::parser::{parse_specifier, ConvertToSize, ParsedFormat};
use rt_format::{Align, Format, Pad, Precision, Repr, Sign, Specifier, Width};

#[derive(Debug, PartialEq)]
pub enum Variant {
    Int(i32),
    Float(f64),
}

fn precision_of(p: Precision) -> Option<usize> {
    match p {
        Precision::Auto => None,
        Precision::Exactly { precision } => Some(precision),
    }
}

impl FormatArgument for Variant {
    // The spec members are ghost: they exist only for the library's
    // verification and are never called at runtime.
    fn spec_supports(&self, _: Specifier) -> bool {
        unreachable!()
    }

    fn spec_render(&self, _: Format, _: Precision) -> vstd::prelude::Seq<char> {
        unreachable!()
    }

    fn supports_format(&self, spec: &Specifier) -> bool {
        match self {
            Self::Int(_) => true,
            Self::Float(_) => matches!(
                spec.format,
                Format::Display | Format::Debug | Format::LowerExp | Format::UpperExp
            ),
        }
    }

    fn fmt_display(&self, precision: Precision) -> String {
        match self {
            Self::Int(val) => format!("{}", val),
            Self::Float(val) => match precision_of(precision) {
                Some(p) => format!("{:.*}", p, val),
                None => format!("{}", val),
            },
        }
    }

    fn fmt_debug(&self, _precision: Precision) -> String {
        format!("{:?}", self)
    }

    fn fmt_octal(&self, _precision: Precision) -> String {
        match self {
            Self::Int(val) => format!("{:o}", val),
            Self::Float(_) => String::new(),
        }
    }

    fn fmt_lower_hex(&self, _precision: Precision) -> String {
        match self {
            Self::Int(val) => format!("{:x}", val),
            Self::Float(_) => String::new(),
        }
    }

    fn fmt_upper_hex(&self, _precision: Precision) -> String {
        match self {
            Self::Int(val) => format!("{:X}", val),
            Self::Float(_) => String::new(),
        }
    }

    fn fmt_binary(&self, _precision: Precision) -> String {
        match self {
            Self::Int(val) => format!("{:b}", val),
            Self::Float(_) => String::new(),
        }
    }

    fn fmt_lower_exp(&self, _precision: Precision) -> String {
        match self {
            Self::Int(val) => format!("{:e}", val),
            Self::Float(val) => format!("{:e}", val),
        }
    }

    fn fmt_upper_exp(&self, _precision: Precision) -> String {
        match self {
            Self::Int(val) => format!("{:E}", val),
            Self::Float(val) => format!("{:E}", val),
        }
    }
}

impl ConvertToSize for Variant {
    fn spec_convert(&self) -> Result<usize, ()> {
        unreachable!()
    }

    fn convert(&self) -> Result<usize, ()> {
        match self {
            Variant::Int(val) => usize::try_from(*val).map_err(|_| ()),
            Variant::Float(_) => Err(()),
        }
    }
}

type ParseResult<'a> = Result<ParsedFormat<'a, Variant>, usize>;

fn parse<'a, P, N>(format: &'a str, positional: &'a P, named: &'a N) -> ParseResult<'a>
where
    P: PositionalArguments<Variant>,
    N: NamedArguments<Variant>,
{
    ParsedFormat::parse(format, positional, named)
}

struct NoValues;

impl ArgumentSource<Variant> for NoValues {
    // Ghost members, never called at runtime.
    fn spec_positional(&self) -> vstd::prelude::Seq<Variant> {
        unreachable!()
    }

    fn spec_named(&self) -> vstd::prelude::Map<vstd::prelude::Seq<char>, Variant> {
        unreachable!()
    }

    fn spec_cursor(&self) -> vstd::prelude::nat {
        unreachable!()
    }

    fn next_argument(&mut self) -> Option<&Variant> {
        None
    }
    fn lookup_argument_by_index(&self, _: usize) -> Option<&Variant> {
        None
    }
    fn lookup_argument_by_name(&self, _: &str) -> Option<&Variant> {
        None
    }
}

#[test]
fn unmatched_brace() {
    assert_eq!(Err(4), parse("foo {", &NoPositionalArguments, &NoNamedArguments));
    assert_eq!(Err(4), parse("bar } baz", &NoPositionalArguments, &NoNamedArguments));
}

#[test]
fn escaped_braces() {
    assert_eq!(
        "{}",
        parse("{{}}", &NoPositionalArguments, &NoNamedArguments)
            .unwrap()
            .render()
    );
}

#[test]
fn invalid_specifier() {
    assert_eq!(
        Err(4),
        parse("foo {:Z} bar", &vec![Variant::Int(42)], &NoNamedArguments)
    );
}

#[test]
fn invalid_arg_position() {
    assert_eq!(
        Err(4),
        parse("foo {0bar} baz", &vec![Variant::Int(42)], &NoNamedArguments)
    );
}

#[test]
fn positional_arg_iter() {
    assert_eq!(
        "42 42.042",
        parse(
            "{} {}",
            &vec![Variant::Int(42), Variant::Float(42.042)],
            &NoNamedArguments
        )
        .unwrap()
        .render()
    );
}

#[test]
fn positional_arg_lookup() {
    assert_eq!(
        "42.042",
        parse(
            "{1}",
            &vec![Variant::Int(42), Variant::Float(42.042)],
            &NoNamedArguments
        )
        .unwrap()
        .render()
    );
}

#[test]
fn named_arg_lookup() {
    let mut map = NamedValues::new();
    map.insert("arglebargle".to_string(), Variant::Float(-42.042));
    assert_eq!(
        "-42.042",
        parse("{arglebargle}", &NoPositionalArguments, &map)
            .unwrap()
            .render()
    );
}

#[test]
fn missing_next_arg() {
    assert_eq!(Err(3), parse("{} {}", &vec![Variant::Int(42)], &NoNamedArguments));
}

#[test]
fn missing_positional_arg() {
    assert_eq!(Err(0), parse("{1}", &vec![Variant::Int(42)], &NoNamedArguments));
}

#[test]
fn missing_named_arg() {
    assert_eq!(
        Err(0),
        parse("{arglebargle}", &NoPositionalArguments, &NoNamedArguments)
    );
}

#[test]
fn missing_positional_width() {
    assert_eq!(Err(0), parse("{:1$}", &vec![Variant::Int(42)], &NoNamedArguments));
}

#[test]
fn missing_named_width() {
    assert_eq!(
        Err(0),
        parse("{:arglebargle$}", &vec![Variant::Int(42)], &NoNamedArguments)
    );
}

#[test]
fn missing_positional_precision() {
    assert_eq!(Err(0), parse("{:.1$}", &vec![Variant::Int(42)], &NoNamedArguments));
}

#[test]
fn missing_named_precision() {
    assert_eq!(
        Err(0),
        parse("{:.arglebargle$}", &vec![Variant::Int(42)], &NoNamedArguments)
    );
}

#[test]
fn missing_asterisk_precision() {
    assert_eq!(
        Err(3),
        parse("{} {0:.*}", &vec![Variant::Int(42)], &NoNamedArguments)
    );
}

#[test]
fn named_argument_validity() {
    let mut map = NamedValues::new();
    map.insert("ascii_identifier".to_string(), Variant::Int(42));
    map.insert("_leading_underscore".to_string(), Variant::Int(4242));
    map.insert(
        "\u{443}\u{43d}\u{438}\u{43a}\u{43e}\u{434}".to_string(),
        Variant::Float(42.042),
    );
    map.insert("0leading_digit".to_string(), Variant::Int(-42));
    map.insert("invalid/character".to_string(), Variant::Float(-42.042));

    assert!(parse("{ascii_identifier}", &NoPositionalArguments, &map).is_ok());
    assert!(parse("{_leading_underscore}", &NoPositionalArguments, &map).is_ok());
    assert!(parse(
        "{\u{443}\u{43d}\u{438}\u{43a}\u{43e}\u{434}}",
        &NoPositionalArguments,
        &map
    )
    .is_ok());

    assert_eq!(
        Err(0),
        parse("{0leading_digit}", &NoPositionalArguments, &map)
    );
    assert_eq!(
        Err(0),
        parse("{invalid/character}", &NoPositionalArguments, &map)
    );
}

#[test]
fn parse_specifier_smoke_test() {
    assert_eq!(
        Ok(Specifier {
            align: Align::Right,
            sign: Sign::Always,
            repr: Repr::Alt,
            pad: Pad::Zero,
            width: Width::AtLeast { width: 42 },
            precision: Precision::Exactly { precision: 17 },
            format: Format::UpperExp,
        }),
        parse_specifier(">+#042.17E", &mut NoValues {})
    );
}
