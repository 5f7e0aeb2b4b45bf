use rt_format::{Align, Format, Pad, Precision, Repr, Sign, Specifier, Width};

#[test]
fn specifier_traits() {
    assert_eq!(
        "+#o",
        Specifier {
            sign: Sign::Always,
            repr: Repr::Alt,
            format: Format::Octal,
            ..Default::default()
        }
        .render()
    );
    assert_eq!(
        "^042.17E",
        Specifier {
            align: Align::Center,
            pad: Pad::Zero,
            width: Width::AtLeast { width: 42 },
            precision: Precision::Exactly { precision: 17 },
            format: Format::UpperExp,
            ..Default::default()
        }
        .render()
    );
}

#[test]
fn specifier_default() {
    assert_eq!(
        Specifier::default(),
        Specifier {
            align: Align::Unspecified,
            sign: Sign::Default,
            repr: Repr::Default,
            pad: Pad::Space,
            width: Width::Auto,
            precision: Precision::Auto,
            format: Format::Display,
        }
    );
    assert_eq!("", Specifier::default().render());
}
