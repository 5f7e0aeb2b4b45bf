use rt_format::argument::{
    ArgumentFormatter, FormatArgument, NamedValues, NoNamedArguments, NoPositionalArguments,
};
use rt_format::dispatch::{compose_value, format_value};
use rt_format::parser::{
    parse_specifier, ConvertToSize, ParsedFormat, Parser, Segment, Substitution,
};
use rt_format::{Align, Format, Pad, Precision, Repr, Sign, Specifier, Width};

#[derive(Debug, PartialEq)]
pub enum Variant {
    Int(i32),
    Float(f64),
}

fn precision_of(p: Precision) -> Option<usize> {
    match p {
        Precision::Auto => None,
        Precision::Exactly { precision } => Some(precision),
    }
}

impl FormatArgument for Variant {
    // The spec members are ghost: they exist only for the library's
    // verification and are never called at runtime.
    fn spec_supports(&self, _: Specifier) -> bool {
        unreachable!()
    }

    fn spec_render(&self, _: Format, _: Precision) -> vstd::prelude::Seq<char> {
        unreachable!()
    }

    fn supports_format(&self, spec: &Specifier) -> bool {
        match self {
            Self::Int(_) => true,
            Self::Float(_) => matches!(
                spec.format,
                Format::Display | Format::Debug | Format::LowerExp | Format::UpperExp
            ),
        }
    }

    fn fmt_display(&self, precision: Precision) -> String {
        match self {
            Self::Int(val) => format!("{}", val),
            Self::Float(val) => match precision_of(precision) {
                Some(p) => format!("{:.*}", p, val),
                None => format!("{}", val),
            },
        }
    }

    fn fmt_debug(&self, _precision: Precision) -> String {
        format!("{:?}", self)
    }

    fn fmt_octal(&self, _precision: Precision) -> String {
        match self {
            Self::Int(val) => format!("{:o}", val),
            Self::Float(_) => String::new(),
        }
    }

    fn fmt_lower_hex(&self, _precision: Precision) -> String {
        match self {
            Self::Int(val) => format!("{:x}", val),
            Self::Float(_) => String::new(),
        }
    }

    fn fmt_upper_hex(&self, _precision: Precision) -> String {
        match self {
            Self::Int(val) => format!("{:X}", val),
            Self::Float(_) => String::new(),
        }
    }

    fn fmt_binary(&self, _precision: Precision) -> String {
        match self {
            Self::Int(val) => format!("{:b}", val),
            Self::Float(_) => String::new(),
        }
    }

    fn fmt_lower_exp(&self, _precision: Precision) -> String {
        match self {
            Self::Int(val) => format!("{:e}", val),
            Self::Float(val) => format!("{:e}", val),
        }
    }

    fn fmt_upper_exp(&self, _precision: Precision) -> String {
        match self {
            Self::Int(val) => format!("{:E}", val),
            Self::Float(val) => format!("{:E}", val),
        }
    }
}

impl ConvertToSize for Variant {
    fn spec_convert(&self) -> Result<usize, ()> {
        unreachable!()
    }

    fn convert(&self) -> Result<usize, ()> {
        match self {
            Variant::Int(val) => usize::try_from(*val).map_err(|_| ()),
            Variant::Float(_) => Err(()),
        }
    }
}

fn fmt_args(spec: &str, args: &Vec<Variant>) -> String {
    ParsedFormat::parse(spec, args, &NoNamedArguments).unwrap().render()
}

#[test]
fn no_braces_identity() {
    let empty: Vec<Variant> = vec![];
    assert_eq!("plain text, nothing else", fmt_args("plain text, nothing else", &empty));
    assert_eq!("", fmt_args("", &empty));
}

#[test]
fn mixed_escapes() {
    let empty: Vec<Variant> = vec![];
    assert_eq!("a}b{c", fmt_args("a}}b{{c", &empty));
}

#[test]
fn unicode_error_offset() {
    // "{уникод}" is 14 bytes (six two-byte characters between the braces),
    // then one byte for the space: the stray brace starts at byte 15.
    let mut map = NamedValues::new();
    map.insert(
        "\u{443}\u{43d}\u{438}\u{43a}\u{43e}\u{434}".to_string(),
        Variant::Int(1),
    );
    assert_eq!(
        Err(15),
        ParsedFormat::parse(
            "{\u{443}\u{43d}\u{438}\u{43a}\u{43e}\u{434}} {",
            &NoPositionalArguments,
            &map
        )
    );
}

#[test]
fn unsupported_format_fails() {
    assert_eq!(
        Err(0),
        ParsedFormat::parse("{:o}", &vec![Variant::Float(1.5)], &NoNamedArguments)
    );
}

#[test]
fn specifier_parse_literal() {
    assert_eq!(
        Specifier::parse("^+#8.2"),
        Ok(Specifier {
            align: Align::Center,
            sign: Sign::Always,
            repr: Repr::Alt,
            pad: Pad::Space,
            width: Width::AtLeast { width: 8 },
            precision: Precision::Exactly { precision: 2 },
            format: Format::Display,
        })
    );
    assert_eq!(Specifier::parse("width$.2"), Err(()));
    assert_eq!(Specifier::parse(""), Ok(Specifier::default()));
    assert_eq!(Specifier::parse("Z"), Err(()));
}

#[test]
fn specifier_render_round_trip() {
    let sp = Specifier {
        align: Align::Right,
        sign: Sign::Always,
        repr: Repr::Alt,
        pad: Pad::Zero,
        width: Width::Auto,
        precision: Precision::Auto,
        format: Format::Binary,
    };
    assert_eq!(">+#0b", sp.render());
    assert_eq!(Ok(sp), Specifier::parse(sp.render().as_str()));
}

#[test]
fn pad_zero_negative() {
    assert_eq!("-0042", fmt_args("{:05}", &vec![Variant::Int(-42)]));
}

#[test]
fn pad_zero_alt_hex() {
    assert_eq!("0x002a", fmt_args("{:#06x}", &vec![Variant::Int(42)]));
}

#[test]
fn width_by_index_zero() {
    assert_eq!("#    5#", fmt_args("#{:0$}#", &vec![Variant::Int(5)]));
}

#[test]
fn named_shadowing() {
    let mut map = NamedValues::new();
    map.insert("a".to_string(), Variant::Int(1));
    map.insert("a".to_string(), Variant::Int(2));
    assert_eq!(
        "2",
        ParsedFormat::parse("{a}", &NoPositionalArguments, &map)
            .unwrap()
            .render()
    );
}

#[test]
fn width_overflow() {
    assert_eq!(
        Err(0),
        ParsedFormat::parse(
            "{:18446744073709551616}",
            &vec![Variant::Int(42)],
            &NoNamedArguments
        )
    );
}

#[test]
fn parser_iteration() {
    let args = vec![Variant::Int(7)];
    let mut parser = Parser::new("a{}", &args, &NoNamedArguments);
    match parser.next() {
        Some(Ok(Segment::Text(t))) => assert_eq!("a", t),
        other => panic!("expected a text segment, got {:?}", other),
    }
    match parser.next() {
        Some(Ok(Segment::Substitution(sub))) => {
            assert_eq!(&Variant::Int(7), sub.value());
            assert_eq!(&Specifier::default(), sub.specifier());
        },
        other => panic!("expected a substitution, got {:?}", other),
    }
    assert!(parser.next().is_none());
}

#[test]
fn substitution_accessors() {
    let value = Variant::Int(1);
    let spec = Specifier::default();
    let sub = Substitution::new(spec, &value).unwrap();
    assert_eq!(&spec, sub.specifier());
    assert_eq!(&value, sub.value());
    assert_eq!("1", sub.render());

    let float = Variant::Float(1.5);
    let octal = Specifier {
        format: Format::Octal,
        ..Default::default()
    };
    assert_eq!(Err(()), Substitution::new(octal, &float));
}

#[test]
fn argument_formatter_dispatch() {
    let value = Variant::Int(42);
    let formatter = ArgumentFormatter(&value);
    assert_eq!("2a", formatter.render(Format::LowerHex, Precision::Auto));
    assert_eq!("101010", formatter.render(Format::Binary, Precision::Auto));
}

#[test]
fn format_value_composition() {
    let spec = Specifier {
        sign: Sign::Always,
        width: Width::AtLeast { width: 6 },
        ..Default::default()
    };
    assert_eq!("   +42", format_value(&spec, &Variant::Int(42)));
}

#[test]
fn compose_value_alignment() {
    let spec = Specifier {
        align: Align::Left,
        width: Width::AtLeast { width: 5 },
        ..Default::default()
    };
    assert_eq!("abc  ", compose_value(&spec, "abc"));
}

#[test]
fn parse_specifier_asterisk() {
    let args = vec![Variant::Int(3)];
    let mut source: Parser<Variant, Vec<Variant>, NoNamedArguments> =
        Parser::new("", &args, &NoNamedArguments);
    assert_eq!(
        Ok(Specifier {
            precision: Precision::Exactly { precision: 3 },
            ..Default::default()
        }),
        parse_specifier(".*", &mut source)
    );
}
