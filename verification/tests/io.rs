use librsvg::io::{content_type_for_gdk_pixbuf, decode_data_uri, IoError, Mime};
use std::str::FromStr;
use librsvg::url_resolver::{human_readable_url, AllowedUrl};

#[test]
fn decodes_data_urls() {
    let d = decode_data_uri("data:text/plain;base64,SGVsbG8=").unwrap();
    assert_eq!(d.data, b"Hello".to_vec());
    assert_eq!(d.content_type.as_deref(), Some("text/plain"));

    let d = decode_data_uri("data:,abc").unwrap();
    assert_eq!(d.data, b"abc".to_vec());
    assert_eq!(d.content_type.as_deref(), Some("text/plain;charset=US-ASCII"));

    // data: URLs cannot have fragment identifiers
    assert_eq!(decode_data_uri("data:,abc#frag"), Err(IoError::BadDataUrl));
    assert_eq!(decode_data_uri("http://example.com/"), Err(IoError::BadDataUrl));
    assert_eq!(decode_data_uri("data:;base64,!!!"), Err(IoError::BadDataUrl));
}

#[test]
fn data_urls_are_shown_briefly() {
    let u = AllowedUrl::parse("data:image/png;base64,AAAA").unwrap();
    assert_eq!(human_readable_url(&u), "data URL");
    let u = AllowedUrl::parse("http://example.com/a.png").unwrap();
    assert_eq!(human_readable_url(&u), "http://example.com/a.png");
    assert!(AllowedUrl::parse("not a url").is_none());
}

#[test]
fn unspecified_mime_type_yields_no_content_type() {
    // Issue #548
    let mime = Mime::from_str("text/plain;charset=US-ASCII").unwrap();
    assert!(content_type_for_gdk_pixbuf(&mime).is_none());
}

#[test]
fn strips_mime_type_parameters() {
    // Issue #699
    let mime = Mime::from_str("image/png;charset=utf-8").unwrap();
    assert_eq!(
        content_type_for_gdk_pixbuf(&mime),
        Some(String::from("image/png"))
    );
}

#[test]
fn mime_types_are_parsed_by_parts() {
    let mime = Mime::from_str(" Image/SVG+XML ; Charset=utf-8").unwrap();
    assert_eq!(mime.type_, "image");
    assert_eq!(mime.subtype, "svg+xml");
    assert_eq!(mime.parameters, vec![("charset".to_string(), "utf-8".to_string())]);
    assert_eq!(content_type_for_gdk_pixbuf(&mime), Some(String::from("image/svg+xml")));
    // the same type with another charset is not the unspecified one
    let mime = Mime::from_str("text/plain;charset=utf-8").unwrap();
    assert_eq!(content_type_for_gdk_pixbuf(&mime), Some(String::from("text/plain")));
    assert!(Mime::from_str("nonsense").is_err());
}
