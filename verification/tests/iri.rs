use librsvg::css::CssParseError;
use librsvg::document::NodeId;
use librsvg::iri::Iri;

#[test]
fn iri_parses_none() {
    assert_eq!(Iri::parse_str("none").unwrap(), Iri::NoResource);
}

#[test]
fn parses_url() {
    assert_eq!(
        Iri::parse_str("url(#bar)").unwrap(),
        Iri::Resource(Box::new(NodeId::Internal("bar".to_string())))
    );

    assert_eq!(
        Iri::parse_str("url(foo#bar)").unwrap(),
        Iri::Resource(Box::new(NodeId::External(
            "foo".to_string(),
            "bar".to_string()
        )))
    );

    // be permissive if the closing ) is missing
    assert_eq!(
        Iri::parse_str("url(#bar").unwrap(),
        Iri::Resource(Box::new(NodeId::Internal("bar".to_string())))
    );
    assert_eq!(
        Iri::parse_str("url(foo#bar").unwrap(),
        Iri::Resource(Box::new(NodeId::External(
            "foo".to_string(),
            "bar".to_string()
        )))
    );

    assert!(Iri::parse_str("").is_err());
    assert!(Iri::parse_str("foo").is_err());
    assert!(Iri::parse_str("url(foo)bar").is_err());
}

#[test]
fn iri_errors_and_get() {
    assert!(matches!(Iri::parse_str(""), Err(CssParseError::EndOfInput)));
    assert!(matches!(Iri::parse_str("url(foo)"), Err(CssParseError::Custom(_))));
    assert_eq!(Iri::parse_str("NONE").unwrap().get(), None);
    let iri = Iri::parse_str("url(#a)").unwrap();
    assert_eq!(iri.get(), Some(&NodeId::Internal("a".to_string())));
}
