use librsvg::css::{CssNumber, Parse};
use librsvg::filter::{FilterValue, FilterValueList};
use librsvg::document::NodeId;
use librsvg::filter_func::{
    Blur, Brightness, Contrast, FilterFunction, Grayscale, Invert, Opacity, Saturate, Sepia,
};
use librsvg::length::{Length, LengthUnit};

/// A proportion given as the `f64` that the `f32` read from the input converts to.
fn p(x: f64) -> Option<CssNumber> {
    let f = x as f32;
    assert_eq!(f as f64, x);
    Some(CssNumber(f.to_bits()))
}

#[test]
fn parses_blur() {
    assert_eq!(
        FilterFunction::parse_str("blur()").unwrap(),
        FilterFunction::Blur(Blur {
            std_deviation: None
        })
    );

    assert_eq!(
        FilterFunction::parse_str("blur(5px)").unwrap(),
        FilterFunction::Blur(Blur {
            std_deviation: Some(Length::new(CssNumber(5.0f32.to_bits()), LengthUnit::Px))
        })
    );
}

#[test]
fn parses_brightness() {
    assert_eq!(
        FilterFunction::parse_str("brightness()").unwrap(),
        FilterFunction::Brightness(Brightness { proportion: None })
    );

    assert_eq!(
        FilterFunction::parse_str("brightness(50%)").unwrap(),
        FilterFunction::Brightness(Brightness {
            proportion: p(0.50_f32.into()),
        })
    );
}

#[test]
fn parses_contrast() {
    assert_eq!(
        FilterFunction::parse_str("contrast()").unwrap(),
        FilterFunction::Contrast(Contrast { proportion: None })
    );

    assert_eq!(
        FilterFunction::parse_str("contrast(50%)").unwrap(),
        FilterFunction::Contrast(Contrast {
            proportion: p(0.50_f32.into()),
        })
    );
}

#[test]
fn parses_grayscale() {
    assert_eq!(
        FilterFunction::parse_str("grayscale()").unwrap(),
        FilterFunction::Grayscale(Grayscale { proportion: None })
    );

    assert_eq!(
        FilterFunction::parse_str("grayscale(50%)").unwrap(),
        FilterFunction::Grayscale(Grayscale {
            proportion: p(0.50_f32.into()),
        })
    );
}

#[test]
fn parses_invert() {
    assert_eq!(
        FilterFunction::parse_str("invert()").unwrap(),
        FilterFunction::Invert(Invert { proportion: None })
    );

    assert_eq!(
        FilterFunction::parse_str("invert(50%)").unwrap(),
        FilterFunction::Invert(Invert {
            proportion: p(0.50_f32.into()),
        })
    );
}

#[test]
fn parses_opacity() {
    assert_eq!(
        FilterFunction::parse_str("opacity()").unwrap(),
        FilterFunction::Opacity(Opacity { proportion: None })
    );

    assert_eq!(
        FilterFunction::parse_str("opacity(50%)").unwrap(),
        FilterFunction::Opacity(Opacity {
            proportion: p(0.50_f32.into()),
        })
    );
}

#[test]
fn parses_saturate() {
    assert_eq!(
        FilterFunction::parse_str("saturate()").unwrap(),
        FilterFunction::Saturate(Saturate { proportion: None })
    );

    assert_eq!(
        FilterFunction::parse_str("saturate(50%)").unwrap(),
        FilterFunction::Saturate(Saturate {
            proportion: p(0.50_f32.into()),
        })
    );
}

#[test]
fn parses_sepia() {
    assert_eq!(
        FilterFunction::parse_str("sepia()").unwrap(),
        FilterFunction::Sepia(Sepia { proportion: None })
    );

    assert_eq!(
        FilterFunction::parse_str("sepia(80%)").unwrap(),
        FilterFunction::Sepia(Sepia {
            proportion: p(0.80_f32.into())
        })
    );

    assert_eq!(
        FilterFunction::parse_str("sepia(0.52)").unwrap(),
        FilterFunction::Sepia(Sepia {
            proportion: p(0.52_f32.into())
        })
    );

    // values > 1.0 should be clamped to 1.0
    assert_eq!(
        FilterFunction::parse_str("sepia(1.5)").unwrap(),
        FilterFunction::Sepia(Sepia {
            proportion: p(1.0)
        })
    );

    // negative numbers are invalid.
    assert_eq!(
        FilterFunction::parse_str("sepia(-1)").unwrap(),
        FilterFunction::Sepia(Sepia { proportion: None }),
    );
}

#[test]
fn invalid_blur_yields_error() {
    assert!(FilterFunction::parse_str("blur(foo)").is_err());
    assert!(FilterFunction::parse_str("blur(42 43)").is_err());
}

#[test]
fn invalid_brightness_yields_error() {
    assert!(FilterFunction::parse_str("brightness(foo)").is_err());
}

#[test]
fn invalid_contrast_yields_error() {
    assert!(FilterFunction::parse_str("contrast(foo)").is_err());
}

#[test]
fn invalid_grayscale_yields_error() {
    assert!(FilterFunction::parse_str("grayscale(foo)").is_err());
}

#[test]
fn invalid_invert_yields_error() {
    assert!(FilterFunction::parse_str("invert(foo)").is_err());
}

#[test]
fn invalid_opacity_yields_error() {
    assert!(FilterFunction::parse_str("opacity(foo)").is_err());
}

#[test]
fn invalid_saturate_yields_error() {
    assert!(FilterFunction::parse_str("saturate(foo)").is_err());
}

#[test]
fn invalid_sepia_yields_error() {
    assert!(FilterFunction::parse_str("sepia(foo)").is_err());
}

#[test]
fn filter_function_names_ignore_case_and_need_not_be_closed() {
    assert_eq!(
        FilterFunction::parse_str("SePiA(2)").unwrap(),
        FilterFunction::Sepia(Sepia { proportion: p(1.0) })
    );
    assert_eq!(
        FilterFunction::parse_str("brightness(2").unwrap(),
        FilterFunction::Brightness(Brightness { proportion: p(2.0) })
    );
    assert!(FilterFunction::parse_str("hue-rotate(20deg)").is_err());
    assert!(FilterFunction::parse_str("sepia").is_err());
    assert!(FilterFunction::parse_str("sepia(1) x").is_err());
    // brightness and saturate are not clamped
    assert_eq!(
        FilterFunction::parse_str("saturate(300%)").unwrap(),
        FilterFunction::Saturate(Saturate { proportion: p(3.0) })
    );
}

#[test]
fn parses_filter_value_list() {
    let n1 = NodeId::External("foo.svg".to_string(), "bar".to_string());
    let n2 = NodeId::External("test.svg".to_string(), "baz".to_string());
    assert_eq!(
        FilterValueList::parse_str("url(foo.svg#bar) url(test.svg#baz)").unwrap(),
        FilterValueList(vec![FilterValue::Url(n1), FilterValue::Url(n2)])
    );
}

#[test]
fn detects_invalid_filter_value_list() {
    assert!(FilterValueList::parse_str("none").is_err());
    assert!(FilterValueList::parse_str("").is_err());
    assert!(FilterValueList::parse_str("fail").is_err());
    assert!(FilterValueList::parse_str("url(#test) none").is_err());
}

#[test]
fn filter_value_lists_mix_functions_and_urls() {
    let l = FilterValueList::parse_str("blur() url(#f) sepia(50%)").unwrap();
    assert!(!l.is_empty());
    assert_eq!(
        l,
        FilterValueList(vec![
            FilterValue::Function(FilterFunction::Blur(Blur { std_deviation: None })),
            FilterValue::Url(NodeId::Internal("f".to_string())),
            FilterValue::Function(FilterFunction::Sepia(Sepia { proportion: p(0.5) })),
        ])
    );
    // a URL must name an element
    assert!(FilterValueList::parse_str("url(foo.svg)").is_err());
}
