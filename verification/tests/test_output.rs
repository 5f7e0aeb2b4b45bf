use rt_format::argument::{FormatArgument, NamedValues, NoNamedArguments};
use rt_format::parser::{ConvertToSize, ParsedFormat};
use rt_format::{Format, Precision, Specifier};

#[derive(Debug, PartialEq)]
pub enum Variant {
    Int(i32),
    Float(f64),
}

fn precision_of(p: Precision) -> Option<usize> {
    match p {
        Precision::Auto => None,
        Precision::Exactly { precision } => Some(precision),
    }
}

impl FormatArgument for Variant {
    // The spec members are ghost: they exist only for the library's
    // verification and are never called at runtime.
    fn spec_supports(&self, _: Specifier) -> bool {
        unreachable!()
    }

    fn spec_render(&self, _: Format, _: Precision) -> vstd::prelude::Seq<char> {
        unreachable!()
    }

    fn supports_format(&self, spec: &Specifier) -> bool {
        match self {
            Self::Int(_) => true,
            Self::Float(_) => matches!(
                spec.format,
                Format::Display | Format::Debug | Format::LowerExp | Format::UpperExp
            ),
        }
    }

    fn fmt_display(&self, precision: Precision) -> String {
        match self {
            Self::Int(val) => format!("{}", val),
            Self::Float(val) => match precision_of(precision) {
                Some(p) => format!("{:.*}", p, val),
                None => format!("{}", val),
            },
        }
    }

    fn fmt_debug(&self, _precision: Precision) -> String {
        format!("{:?}", self)
    }

    fn fmt_octal(&self, _precision: Precision) -> String {
        match self {
            Self::Int(val) => format!("{:o}", val),
            Self::Float(_) => String::new(),
        }
    }

    fn fmt_lower_hex(&self, _precision: Precision) -> String {
        match self {
            Self::Int(val) => format!("{:x}", val),
            Self::Float(_) => String::new(),
        }
    }

    fn fmt_upper_hex(&self, _precision: Precision) -> String {
        match self {
            Self::Int(val) => format!("{:X}", val),
            Self::Float(_) => String::new(),
        }
    }

    fn fmt_binary(&self, _precision: Precision) -> String {
        match self {
            Self::Int(val) => format!("{:b}", val),
            Self::Float(_) => String::new(),
        }
    }

    fn fmt_lower_exp(&self, _precision: Precision) -> String {
        match self {
            Self::Int(val) => format!("{:e}", val),
            Self::Float(val) => format!("{:e}", val),
        }
    }

    fn fmt_upper_exp(&self, _precision: Precision) -> String {
        match self {
            Self::Int(val) => format!("{:E}", val),
            Self::Float(val) => format!("{:E}", val),
        }
    }
}

impl ConvertToSize for Variant {
    fn spec_convert(&self) -> Result<usize, ()> {
        unreachable!()
    }

    fn convert(&self) -> Result<usize, ()> {
        match self {
            Variant::Int(val) => usize::try_from(*val).map_err(|_| ()),
            Variant::Float(_) => Err(()),
        }
    }
}

fn fmt_args(spec: &str, args: &Vec<Variant>) -> String {
    ParsedFormat::parse(spec, args, &NoNamedArguments).unwrap().render()
}

fn fmt_args_map(spec: &str, positional: &Vec<Variant>, named: Vec<(&str, Variant)>) -> String {
    let mut map = NamedValues::new();
    for (key, value) in named {
        map.insert(key.to_string(), value);
    }
    ParsedFormat::parse(spec, positional, &map).unwrap().render()
}

#[test]
fn align_left() {
    assert_eq!("#42    #", fmt_args("#{:<6}#", &vec![Variant::Int(42)]));
}

#[test]
fn align_center() {
    assert_eq!("#  42  #", fmt_args("#{:^6}#", &vec![Variant::Int(42)]));
}

#[test]
fn align_right() {
    assert_eq!("#    42#", fmt_args("#{:>6}#", &vec![Variant::Int(42)]));
}

#[test]
fn sign_always() {
    assert_eq!("+42", fmt_args("{:+}", &vec![Variant::Int(42)]));
}

#[test]
fn repr_alt_octal() {
    assert_eq!("0o52", fmt_args("{:#o}", &vec![Variant::Int(42)]));
}

#[test]
fn repr_alt_lower_hex() {
    assert_eq!("0x2a", fmt_args("{:#x}", &vec![Variant::Int(42)]));
}

#[test]
fn repr_alt_upper_hex() {
    assert_eq!("0x2A", fmt_args("{:#X}", &vec![Variant::Int(42)]));
}

#[test]
fn repr_alt_binary() {
    assert_eq!("0b101010", fmt_args("{:#b}", &vec![Variant::Int(42)]));
}

#[test]
fn pad_zero() {
    assert_eq!("#00042#", fmt_args("#{:05}#", &vec![Variant::Int(42)]));
}

#[test]
fn width_embedded() {
    assert_eq!("#   42#", fmt_args("#{:5}#", &vec![Variant::Int(42)]));
}

#[test]
fn width_by_index() {
    assert_eq!(
        "#   42#",
        fmt_args("#{:1$}#", &vec![Variant::Int(42), Variant::Int(5)])
    );
}

#[test]
fn width_by_name() {
    assert_eq!(
        "#   42#",
        fmt_args_map(
            "#{:arglebargle$}#",
            &vec![Variant::Int(42)],
            vec![("arglebargle", Variant::Int(5))]
        )
    );
}

#[test]
fn precision_embedded() {
    assert_eq!("#42.04200#", fmt_args("#{:.5}#", &vec![Variant::Float(42.042)]));
}

#[test]
fn precision_by_index() {
    assert_eq!(
        "#42.04200#",
        fmt_args("#{:.1$}#", &vec![Variant::Float(42.042), Variant::Int(5)])
    );
}

#[test]
fn precision_by_name() {
    assert_eq!(
        "#42.04200#",
        fmt_args_map(
            "#{:.arglebargle$}#",
            &vec![Variant::Float(42.042)],
            vec![("arglebargle", Variant::Int(5))]
        )
    );
}

#[test]
fn precision_by_asterisk() {
    assert_eq!(
        "#42.04200#",
        fmt_args("#{:.*}#", &vec![Variant::Int(5), Variant::Float(42.042)])
    );
}

#[test]
fn format_display() {
    assert_eq!("42", fmt_args("{}", &vec![Variant::Int(42)]));
}

#[test]
fn format_debug() {
    assert_eq!("Int(42)", fmt_args("{:?}", &vec![Variant::Int(42)]));
}

#[test]
fn format_octal() {
    assert_eq!("52", fmt_args("{:o}", &vec![Variant::Int(42)]));
}

#[test]
fn format_lower_hex() {
    assert_eq!("2a", fmt_args("{:x}", &vec![Variant::Int(42)]));
}

#[test]
fn format_upper_hex() {
    assert_eq!("2A", fmt_args("{:X}", &vec![Variant::Int(42)]));
}

#[test]
fn format_binary() {
    assert_eq!("101010", fmt_args("{:b}", &vec![Variant::Int(42)]));
}

#[test]
fn format_lower_exp() {
    assert_eq!("4.2e1", fmt_args("{:e}", &vec![Variant::Int(42)]));
}

#[test]
fn format_upper_exp() {
    assert_eq!("4.2E1", fmt_args("{:E}", &vec![Variant::Int(42)]));
}

#[test]
fn smoke_test() {
    assert_eq!(
        "foo +21 # -42 # 0x2A 386 {10001} 42 bar",
        fmt_args_map(
            "foo {:+o} #{arglebargle:^5}# {2:#X} {} {{{0:b}}} {:} bar",
            &vec![Variant::Int(17), Variant::Int(386), Variant::Int(42)],
            vec![("arglebargle", Variant::Int(-42))]
        )
    );
}
