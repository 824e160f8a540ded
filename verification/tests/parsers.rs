use librsvg::css::{
    finite_f32, CssNumber, CustomIdent, NonNegative, NumberList, NumberListLength, NumberOptionalNumber, Parse,
};

fn num(x: f32) -> CssNumber {
    CssNumber(x.to_bits())
}

#[test]
fn parses_number_optional_number() {
    assert_eq!(
        NumberOptionalNumber::parse_str("1, 2").unwrap(),
        NumberOptionalNumber(num(1.0), num(2.0))
    );
    assert_eq!(
        NumberOptionalNumber::parse_str("1 2").unwrap(),
        NumberOptionalNumber(num(1.0), num(2.0))
    );
    assert_eq!(
        NumberOptionalNumber::parse_str("1").unwrap(),
        NumberOptionalNumber(num(1.0), num(1.0))
    );

    assert_eq!(
        NumberOptionalNumber::parse_str("-1, -2").unwrap(),
        NumberOptionalNumber(num(-1.0), num(-2.0))
    );
    assert_eq!(
        NumberOptionalNumber::parse_str("-1 -2").unwrap(),
        NumberOptionalNumber(num(-1.0), num(-2.0))
    );
    assert_eq!(
        NumberOptionalNumber::parse_str("-1").unwrap(),
        NumberOptionalNumber(num(-1.0), num(-1.0))
    );
}

#[test]
fn invalid_number_optional_number() {
    assert!(NumberOptionalNumber::<CssNumber>::parse_str("").is_err());
    assert!(NumberOptionalNumber::<CssNumber>::parse_str("1x").is_err());
    assert!(NumberOptionalNumber::<CssNumber>::parse_str("x1").is_err());
    assert!(NumberOptionalNumber::<CssNumber>::parse_str("1 x").is_err());
    assert!(NumberOptionalNumber::<CssNumber>::parse_str("1 , x").is_err());
    assert!(NumberOptionalNumber::<CssNumber>::parse_str("1 , 2x").is_err());
    assert!(NumberOptionalNumber::<CssNumber>::parse_str("1 2 x").is_err());
}

#[test]
fn parses_integer() {
    assert_eq!(i32::parse_str("0").unwrap(), 0);
    assert_eq!(i32::parse_str("1").unwrap(), 1);
    assert_eq!(i32::parse_str("-1").unwrap(), -1);

    assert_eq!(u32::parse_str("0").unwrap(), 0);
    assert_eq!(u32::parse_str("1").unwrap(), 1);
}

#[test]
fn invalid_integer() {
    assert!(i32::parse_str("").is_err());
    assert!(i32::parse_str("1x").is_err());
    assert!(i32::parse_str("1.5").is_err());

    assert!(u32::parse_str("").is_err());
    assert!(u32::parse_str("1x").is_err());
    assert!(u32::parse_str("1.5").is_err());
    assert!(u32::parse_str("-1").is_err());
}

#[test]
fn parses_integer_optional_integer() {
    assert_eq!(
        NumberOptionalNumber::parse_str("1, 2").unwrap(),
        NumberOptionalNumber(1, 2)
    );
    assert_eq!(
        NumberOptionalNumber::parse_str("1 2").unwrap(),
        NumberOptionalNumber(1, 2)
    );
    assert_eq!(
        NumberOptionalNumber::parse_str("1").unwrap(),
        NumberOptionalNumber(1, 1)
    );

    assert_eq!(
        NumberOptionalNumber::parse_str("-1, -2").unwrap(),
        NumberOptionalNumber(-1, -2)
    );
    assert_eq!(
        NumberOptionalNumber::parse_str("-1 -2").unwrap(),
        NumberOptionalNumber(-1, -2)
    );
    assert_eq!(
        NumberOptionalNumber::parse_str("-1").unwrap(),
        NumberOptionalNumber(-1, -1)
    );
}

#[test]
fn invalid_integer_optional_integer() {
    assert!(NumberOptionalNumber::<i32>::parse_str("").is_err());
    assert!(NumberOptionalNumber::<i32>::parse_str("1x").is_err());
    assert!(NumberOptionalNumber::<i32>::parse_str("x1").is_err());
    assert!(NumberOptionalNumber::<i32>::parse_str("1 x").is_err());
    assert!(NumberOptionalNumber::<i32>::parse_str("1 , x").is_err());
    assert!(NumberOptionalNumber::<i32>::parse_str("1 , 2x").is_err());
    assert!(NumberOptionalNumber::<i32>::parse_str("1 2 x").is_err());
    assert!(NumberOptionalNumber::<i32>::parse_str("1.5").is_err());
    assert!(NumberOptionalNumber::<i32>::parse_str("1 2.5").is_err());
    assert!(NumberOptionalNumber::<i32>::parse_str("1, 2.5").is_err());
}

#[test]
fn parses_number_list() {
    assert_eq!(
        NumberList::parse_str("5", NumberListLength::Exact(1)).unwrap(),
        NumberList(vec![num(5.0)])
    );

    assert_eq!(
        NumberList::parse_str("1 2 3 4", NumberListLength::Exact(4)).unwrap(),
        NumberList(vec![num(1.0), num(2.0), num(3.0), num(4.0)])
    );

    assert_eq!(
        NumberList::parse_str("", NumberListLength::Unbounded).unwrap(),
        NumberList(vec![])
    );

    assert_eq!(
        NumberList::parse_str("1, 2, 3.0, 4, 5", NumberListLength::Unbounded).unwrap(),
        NumberList(vec![num(1.0), num(2.0), num(3.0), num(4.0), num(5.0)])
    );
}

#[test]
fn errors_on_invalid_number_list() {
    // empty
    assert!(NumberList::parse_str("", NumberListLength::Exact(1)).is_err());

    // garbage
    assert!(NumberList::parse_str("foo", NumberListLength::Exact(1)).is_err());
    assert!(NumberList::parse_str("1foo", NumberListLength::Exact(2)).is_err());
    assert!(NumberList::parse_str("1 foo", NumberListLength::Exact(2)).is_err());
    assert!(NumberList::parse_str("1 foo 2", NumberListLength::Exact(2)).is_err());
    assert!(NumberList::parse_str("1,foo", NumberListLength::Exact(2)).is_err());

    // too many
    assert!(NumberList::parse_str("1 2", NumberListLength::Exact(1)).is_err());

    // extra token
    assert!(NumberList::parse_str("1,", NumberListLength::Exact(1)).is_err());
    assert!(NumberList::parse_str("1,", NumberListLength::Exact(1)).is_err());
    assert!(NumberList::parse_str("1,", NumberListLength::Unbounded).is_err());

    // too few
    assert!(NumberList::parse_str("1", NumberListLength::Exact(2)).is_err());
    assert!(NumberList::parse_str("1 2", NumberListLength::Exact(3)).is_err());
}

#[test]
fn parses_custom_ident() {
    assert_eq!(
        CustomIdent::parse_str("hello").unwrap(),
        CustomIdent("hello".to_string())
    );
}

#[test]
fn invalid_custom_ident_yields_error() {
    assert!(CustomIdent::parse_str("initial").is_err());
    assert!(CustomIdent::parse_str("inherit").is_err());
    assert!(CustomIdent::parse_str("unset").is_err());
    assert!(CustomIdent::parse_str("default").is_err());
    assert!(CustomIdent::parse_str("").is_err());
}

#[test]
fn numbers_must_be_finite_and_non_negative_where_asked() {
    assert_eq!(NonNegative::parse_str("0").unwrap(), NonNegative(num(0.0)));
    assert_eq!(NonNegative::parse_str("2.5").unwrap(), NonNegative(num(2.5)));
    assert!(NonNegative::parse_str("-1").is_err());
    // Too large for an f32: the tokenizer gives an infinity.
    assert!(CssNumber::parse_str("1e50").is_err());
}

#[test]
fn finite_numbers_pass_and_others_fail() {
    assert_eq!(finite_f32(num(1.5)), Ok(num(1.5)));
    assert_eq!(finite_f32(num(-0.0)), Ok(num(-0.0)));
    for x in [f32::INFINITY, f32::NEG_INFINITY, f32::NAN] {
        assert_eq!(
            finite_f32(num(x)),
            Err(librsvg::error::ValueErrorKind::Value("expected finite number".to_string()))
        );
    }
}
