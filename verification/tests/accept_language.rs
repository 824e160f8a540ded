use language_tags::LanguageTag;
use librsvg::accept_language::{AcceptLanguage, Error, LanguageTags, Tag, UserLanguage};

/// The items of a parsed header: the tag's text and the numeric weight, if given.
fn items(a: &AcceptLanguage) -> Vec<(String, Option<f32>)> {
    (0..a.len())
        .map(|i| {
            let it = a.get(i);
            (
                it.tag.get().as_str().to_string(),
                it.weight.0.as_ref().map(|w| w.parse::<f32>().unwrap()),
            )
        })
        .collect()
}

fn item(tag: &str, weight: Option<f32>) -> (String, Option<f32>) {
    (LanguageTag::parse(tag).unwrap().as_str().to_string(), weight)
}

#[test]
fn parses_accept_language() {
    // plain tag
    assert_eq!(
        items(&AcceptLanguage::parse("es-MX").unwrap()),
        vec![item("es-MX", None)]
    );

    // with quality
    assert_eq!(
        items(&AcceptLanguage::parse("es-MX;q=1").unwrap()),
        vec![item("es-MX", Some(1.0))]
    );

    // with quality
    assert_eq!(
        items(&AcceptLanguage::parse("es-MX;q=0").unwrap()),
        vec![item("es-MX", Some(0.0))]
    );

    // zero decimals are allowed
    assert_eq!(
        items(&AcceptLanguage::parse("es-MX;q=0.").unwrap()),
        vec![item("es-MX", Some(0.0))]
    );

    // zero decimals are allowed
    assert_eq!(
        items(&AcceptLanguage::parse("es-MX;q=1.").unwrap()),
        vec![item("es-MX", Some(1.0))]
    );

    // one decimal
    assert_eq!(
        items(&AcceptLanguage::parse("es-MX;q=1.0").unwrap()),
        vec![item("es-MX", Some(1.0))]
    );

    // two decimals
    assert_eq!(
        items(&AcceptLanguage::parse("es-MX;q=1.00").unwrap()),
        vec![item("es-MX", Some(1.0))]
    );

    // three decimals
    assert_eq!(
        items(&AcceptLanguage::parse("es-MX;q=1.000").unwrap()),
        vec![item("es-MX", Some(1.0))]
    );

    // multiple elements
    assert_eq!(
        items(&AcceptLanguage::parse("es-MX, en; q=0.5").unwrap()),
        vec![item("es-MX", None), item("en", Some(0.5))]
    );

    // superfluous whitespace
    assert_eq!(
        items(&AcceptLanguage::parse(",es-MX;q=1.000  , en; q=0.125  ,  ,").unwrap()),
        vec![item("es-MX", Some(1.0)), item("en", Some(0.125))]
    );
}

#[test]
fn empty_lists() {
    assert!(matches!(AcceptLanguage::parse(""), Err(Error::NoElements)));

    assert!(matches!(AcceptLanguage::parse(","), Err(Error::NoElements)));

    assert!(matches!(
        AcceptLanguage::parse(", , ,,,"),
        Err(Error::NoElements)
    ));
}

#[test]
fn ascii_only() {
    assert!(matches!(
        AcceptLanguage::parse("ës"),
        Err(Error::InvalidCharacters)
    ));
}

#[test]
fn invalid_tag() {
    assert!(matches!(
        AcceptLanguage::parse("no_underscores"),
        Err(Error::InvalidLanguageTag(_))
    ));
}

#[test]
fn invalid_weight() {
    assert!(matches!(
        AcceptLanguage::parse("es;"),
        Err(Error::InvalidWeight)
    ));
    assert!(matches!(
        AcceptLanguage::parse("es;q"),
        Err(Error::InvalidWeight)
    ));
    assert!(matches!(
        AcceptLanguage::parse("es;q="),
        Err(Error::InvalidWeight)
    ));
    assert!(matches!(
        AcceptLanguage::parse("es;q=2"),
        Err(Error::InvalidWeight)
    ));
    assert!(matches!(
        AcceptLanguage::parse("es;q=1.1"),
        Err(Error::InvalidWeight)
    ));
    assert!(matches!(
        AcceptLanguage::parse("es;q=1.12"),
        Err(Error::InvalidWeight)
    ));
    assert!(matches!(
        AcceptLanguage::parse("es;q=1.123"),
        Err(Error::InvalidWeight)
    ));

    // Up to three decimals allowed per RFC 7231
    assert!(matches!(
        AcceptLanguage::parse("es;q=0.1234"),
        Err(Error::InvalidWeight)
    ));
}

#[test]
fn weights_are_a_single_digit_without_decimals() {
    // RFC 7231 section 5.3.1: a quality value is 0[.ddd] or 1[.000].
    assert!(matches!(AcceptLanguage::parse("es;q=1x"), Err(Error::InvalidWeight)));
    assert!(matches!(AcceptLanguage::parse("es;q=12"), Err(Error::InvalidWeight)));
    assert!(matches!(AcceptLanguage::parse("es;q=10"), Err(Error::InvalidWeight)));
    assert!(matches!(AcceptLanguage::parse("es;q=00"), Err(Error::InvalidWeight)));
    assert_eq!(items(&AcceptLanguage::parse("es;q=1").unwrap()), vec![item("es", Some(1.0))]);
    assert_eq!(items(&AcceptLanguage::parse("es;q=0").unwrap()), vec![item("es", Some(0.0))]);
}

#[test]
fn accept_language_matches_ranges() {
    let al = AcceptLanguage::parse("de-CH, en;q=0.5").unwrap();
    let user = UserLanguage::AcceptLanguage(al);
    let de = LanguageTags::from(vec![Tag::parse("de").unwrap()]);
    let fr = LanguageTags::from(vec![Tag::parse("fr").unwrap()]);
    assert!(user.any_matches(&de));
    assert!(!user.any_matches(&fr));
}

#[test]
fn checked_matching_reports_tags_that_are_not_ranges() {
    let de = LanguageTags::from(vec![Tag::parse("de").unwrap()]);
    let private = LanguageTags::from(vec![Tag::parse("de-x-private").unwrap()]);

    let al = UserLanguage::AcceptLanguage(AcceptLanguage::parse("de-CH, en;q=0.5").unwrap());
    assert_eq!(al.any_matches_checked(&de), Some(true));
    assert_eq!(al.any_matches_checked(&private), None);

    let user = UserLanguage::LanguageTags(LanguageTags::from(vec![
        Tag::parse("de").unwrap(),
        Tag::parse("en-x-private").unwrap(),
    ]));
    let de_ch = LanguageTags::from(vec![Tag::parse("de-CH").unwrap()]);
    let fr = LanguageTags::from(vec![Tag::parse("fr").unwrap()]);
    // The first range matches before the private-use tag is reached.
    assert_eq!(user.any_matches_checked(&de_ch), Some(true));
    assert!(user.any_matches(&de_ch));
    // Here the private-use tag would be matched.
    assert_eq!(user.any_matches_checked(&fr), None);
}
