use librsvg::error::{ImplementationLimit, LoadingError, RenderingError, ValueErrorKind};
use librsvg::strings::decimal_string;

#[test]
fn value_errors_are_described() {
    assert_eq!(ValueErrorKind::UnknownProperty.to_string(), "unknown property name");
    assert_eq!(ValueErrorKind::parse_error("bad").to_string(), "parse error: bad");
    assert_eq!(ValueErrorKind::value_error("too big").to_string(), "invalid value: too big");
}

#[test]
fn limits_are_described_with_their_values() {
    assert_eq!(
        ImplementationLimit::TooManyReferencedElements.to_string(),
        "exceeded more than 500000 referenced elements"
    );
    assert_eq!(
        ImplementationLimit::TooManyLoadedElements.to_string(),
        "cannot load more than 1000000 XML elements"
    );
}

#[test]
fn loading_and_rendering_errors_are_described() {
    assert_eq!(LoadingError::NoSvgRoot.to_string(), "XML does not have <svg> root");
    assert_eq!(LoadingError::Io("gone".to_string()).to_string(), "I/O error: gone");
    assert_eq!(LoadingError::Other("odd".to_string()).to_string(), "odd");
    assert_eq!(
        LoadingError::LimitExceeded(ImplementationLimit::TooManyLoadedElements).to_string(),
        "cannot load more than 1000000 XML elements"
    );
    assert_eq!(RenderingError::IdNotFound.to_string(), "element id not found");
    assert_eq!(RenderingError::InvalidId("a\"b".to_string()).to_string(), "invalid id: \"a\\\"b\"");
    assert_eq!(RenderingError::Rendering("x".to_string()).to_string(), "rendering error: x");
}

#[test]
fn numbers_are_written_in_decimal() {
    assert_eq!(decimal_string(0), "0");
    assert_eq!(decimal_string(7), "7");
    assert_eq!(decimal_string(10), "10");
    assert_eq!(decimal_string(4096), "4096");
    assert_eq!(decimal_string(u64::MAX), u64::MAX.to_string());
}
