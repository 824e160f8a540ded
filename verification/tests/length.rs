use librsvg::css::{CssNumber, Parse};
use librsvg::length::{
    is_absolute_unit, parse_length, Both, CssLength, Horizontal, Length, LengthUnit, ULength, Unsigned,
    Vertical,
};

fn num(x: f32) -> CssNumber {
    CssNumber(x.to_bits())
}

#[test]
fn parses_default() {
    assert_eq!(
        Length::<Horizontal>::parse_str("42").unwrap(),
        Length::<Horizontal>::new(num(42.0), LengthUnit::Px)
    );

    assert_eq!(
        Length::<Horizontal>::parse_str("-42px").unwrap(),
        Length::<Horizontal>::new(num(-42.0), LengthUnit::Px)
    );
}

#[test]
fn parses_percent() {
    assert_eq!(
        Length::<Horizontal>::parse_str("50.0%").unwrap(),
        Length::<Horizontal>::new(num(0.5), LengthUnit::Percent)
    );
}

#[test]
fn parses_font_em() {
    assert_eq!(
        Length::<Vertical>::parse_str("22.5em").unwrap(),
        Length::<Vertical>::new(num(22.5), LengthUnit::Em)
    );
}

#[test]
fn parses_font_ex() {
    assert_eq!(
        Length::<Vertical>::parse_str("22.5ex").unwrap(),
        Length::<Vertical>::new(num(22.5), LengthUnit::Ex)
    );
}

#[test]
fn parses_physical_units() {
    assert_eq!(
        Length::<Both>::parse_str("72pt").unwrap(),
        Length::<Both>::new(num(72.0), LengthUnit::Pt)
    );

    assert_eq!(
        Length::<Both>::parse_str("-22.5in").unwrap(),
        Length::<Both>::new(num(-22.5), LengthUnit::In)
    );

    assert_eq!(
        Length::<Both>::parse_str("-254cm").unwrap(),
        Length::<Both>::new(num(-254.0), LengthUnit::Cm)
    );

    assert_eq!(
        Length::<Both>::parse_str("254mm").unwrap(),
        Length::<Both>::new(num(254.0), LengthUnit::Mm)
    );

    assert_eq!(
        Length::<Both>::parse_str("60pc").unwrap(),
        Length::<Both>::new(num(60.0), LengthUnit::Pc)
    );
}

#[test]
fn parses_unsigned() {
    assert_eq!(
        ULength::<Horizontal>::parse_str("42").unwrap(),
        ULength::<Horizontal>::new(num(42.0), LengthUnit::Px)
    );

    assert_eq!(
        ULength::<Both>::parse_str("0pt").unwrap(),
        ULength::<Both>::new(num(0.0), LengthUnit::Pt)
    );

    assert!(ULength::<Horizontal>::parse_str("-42px").is_err());
}

#[test]
fn empty_length_yields_error() {
    assert!(Length::<Both>::parse_str("").is_err());
}

#[test]
fn invalid_unit_yields_error() {
    assert!(Length::<Both>::parse_str("8furlong").is_err());
}

#[test]
fn units_are_case_sensitive_and_negative_zero_is_unsigned() {
    assert!(Length::<Both>::parse_str("8PX").is_err());
    assert_eq!(
        ULength::<Both>::parse_str("-0").unwrap(),
        ULength::<Both>::new(num(-0.0), LengthUnit::Px)
    );
}

#[test]
fn command_line_lengths_must_be_absolute() {
    let l: CssLength<Both, Unsigned> = parse_length("2in").unwrap();
    assert_eq!(l.unit, LengthUnit::In);
    assert_eq!(l.length, librsvg::css::CssNumber(2.0f32.to_bits()));
    assert_eq!(
        parse_length::<Both, Unsigned>("50%").unwrap_err(),
        "Invalid value '50%': supported units are px, in, cm, mm, pt, pc"
    );
    assert_eq!(
        parse_length::<Both, Unsigned>("wide").unwrap_err(),
        "Invalid value: The argument 'wide' can not be parsed as a length"
    );
    assert_eq!(
        parse_length::<Both, Unsigned>("-2px").unwrap_err(),
        "Invalid value: The argument '-2px' can not be parsed as a length"
    );
    assert!(is_absolute_unit(LengthUnit::Px) && is_absolute_unit(LengthUnit::Pc));
    assert!(!is_absolute_unit(LengthUnit::Em) && !is_absolute_unit(LengthUnit::Percent));
}
