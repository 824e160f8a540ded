use librsvg::accept_language::{AcceptLanguage, LanguageTags, Tag, UserLanguage};
use librsvg::cond::{RequiredExtensions, RequiredFeatures, SystemLanguage};

#[test]
fn required_extensions() {
    assert_eq!(
        RequiredExtensions::from_attribute("http://test.org/NotExisting/1.0").unwrap(),
        RequiredExtensions(false)
    );
}

#[test]
fn required_features() {
    assert_eq!(
        RequiredFeatures::from_attribute("http://www.w3.org/TR/SVG11/feature#NotExisting")
            .unwrap(),
        RequiredFeatures(false)
    );

    assert_eq!(
        RequiredFeatures::from_attribute("http://www.w3.org/TR/SVG11/feature#BasicFilter")
            .unwrap(),
        RequiredFeatures(true)
    );

    assert_eq!(
        RequiredFeatures::from_attribute(
            "http://www.w3.org/TR/SVG11/feature#BasicFilter \
             http://www.w3.org/TR/SVG11/feature#NotExisting",
        )
        .unwrap(),
        RequiredFeatures(false)
    );

    assert_eq!(
        RequiredFeatures::from_attribute(
            "http://www.w3.org/TR/SVG11/feature#BasicFilter \
             http://www.w3.org/TR/SVG11/feature#BasicText",
        )
        .unwrap(),
        RequiredFeatures(true)
    );
}

/// The user's languages of the locale "de,en-US".
fn user_language() -> UserLanguage {
    UserLanguage::LanguageTags(LanguageTags::from(vec![
        Tag::parse("de").unwrap(),
        Tag::parse("en-US").unwrap(),
    ]))
}

#[test]
fn system_language() {
    let user_language = user_language();

    assert!(SystemLanguage::from_attribute("").is_err());

    assert!(SystemLanguage::from_attribute("12345").is_err());

    assert_eq!(
        SystemLanguage::from_attribute("fr").unwrap().eval(&user_language),
        false
    );

    assert_eq!(
        SystemLanguage::from_attribute("en").unwrap().eval(&user_language),
        false
    );

    assert_eq!(
        SystemLanguage::from_attribute("de").unwrap().eval(&user_language),
        true
    );

    assert_eq!(
        SystemLanguage::from_attribute("en-US").unwrap().eval(&user_language),
        true
    );

    assert_eq!(
        SystemLanguage::from_attribute("en-GB").unwrap().eval(&user_language),
        false
    );

    assert_eq!(
        SystemLanguage::from_attribute("DE").unwrap().eval(&user_language),
        true
    );

    assert_eq!(
        SystemLanguage::from_attribute("de-LU").unwrap().eval(&user_language),
        true
    );

    assert_eq!(
        SystemLanguage::from_attribute("fr, de").unwrap().eval(&user_language),
        true
    );
}

#[test]
fn required_features_of_blank_attribute_hold() {
    // No words at all: every word is implemented.
    assert_eq!(RequiredFeatures::from_attribute("  \t ").unwrap(), RequiredFeatures(true));
    assert_eq!(RequiredExtensions::from_attribute("").unwrap(), RequiredExtensions(true));
    assert!(RequiredFeatures::from_attribute("org.w3c.svg.static").unwrap().eval());
}

#[test]
fn system_language_error_message() {
    match SystemLanguage::from_attribute("12345") {
        Err(librsvg::error::ValueErrorKind::Parse(m)) => {
            assert!(m.starts_with("invalid language tag: \""));
            assert!(m.ends_with('"'));
        }
        _ => panic!("expected a parse error"),
    }
}

#[test]
fn checked_system_language_evaluation() {
    let user = UserLanguage::AcceptLanguage(AcceptLanguage::parse("es-MX, en").unwrap());
    assert_eq!(SystemLanguage::from_attribute("en").unwrap().eval_checked(&user), Some(true));
    assert_eq!(SystemLanguage::from_attribute("fr, de").unwrap().eval_checked(&user), Some(false));
    assert_eq!(SystemLanguage::from_attribute("en-x-private").unwrap().eval_checked(&user), None);
}
