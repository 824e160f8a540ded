use librsvg::css::{CssNumber, Parse};
use librsvg::document::NodeId;
use librsvg::filter::{FilterValue, FilterValueList};
use librsvg::property_defs::{
    EnableBackground, Filter, PaintOrder, PaintTarget, TextDecoration, WritingMode, XmlLang,
};

fn value(n: CssNumber) -> f64 {
    f64::from(f32::from_bits(n.0))
}

#[test]
fn parses_enable_background() {
    assert_eq!(
        EnableBackground::parse_str("accumulate").unwrap(),
        EnableBackground::Accumulate
    );

    assert_eq!(
        EnableBackground::parse_str("new").unwrap(),
        EnableBackground::New(None)
    );

    // The rectangle is x, y, x + width, y + height.
    match EnableBackground::parse_str("new 1 2 3 4").unwrap() {
        EnableBackground::New(Some(r)) => {
            let (x, y, w, h) = (value(r.x), value(r.y), value(r.width), value(r.height));
            assert_eq!((x, y, x + w, y + h), (1.0, 2.0, 4.0, 6.0));
        }
        other => panic!("unexpected {:?}", other),
    }

    assert!(EnableBackground::parse_str("new foo").is_err());

    assert!(EnableBackground::parse_str("plonk").is_err());
}

#[test]
fn parses_paint_order() {
    assert_eq!(
        PaintOrder::parse_str("normal").unwrap(),
        PaintOrder {
            targets: [PaintTarget::Fill, PaintTarget::Stroke, PaintTarget::Markers]
        }
    );

    assert_eq!(
        PaintOrder::parse_str("markers fill").unwrap(),
        PaintOrder {
            targets: [PaintTarget::Markers, PaintTarget::Fill, PaintTarget::Stroke]
        }
    );

    assert_eq!(
        PaintOrder::parse_str("stroke").unwrap(),
        PaintOrder {
            targets: [PaintTarget::Stroke, PaintTarget::Fill, PaintTarget::Markers]
        }
    );

    assert!(PaintOrder::parse_str("stroke stroke").is_err());
    assert!(PaintOrder::parse_str("markers stroke fill hello").is_err());
}

#[test]
fn parses_text_decoration() {
    assert_eq!(
        TextDecoration::parse_str("none").unwrap(),
        TextDecoration {
            overline: false,
            underline: false,
            strike: false,
        }
    );

    assert_eq!(
        TextDecoration::parse_str("overline").unwrap(),
        TextDecoration {
            overline: true,
            underline: false,
            strike: false,
        }
    );

    assert_eq!(
        TextDecoration::parse_str("underline").unwrap(),
        TextDecoration {
            overline: false,
            underline: true,
            strike: false,
        }
    );

    assert_eq!(
        TextDecoration::parse_str("line-through").unwrap(),
        TextDecoration {
            overline: false,
            underline: false,
            strike: true,
        }
    );

    assert_eq!(
        TextDecoration::parse_str("underline overline").unwrap(),
        TextDecoration {
            overline: true,
            underline: true,
            strike: false,
        }
    );

    assert!(TextDecoration::parse_str("airline").is_err())
}

#[test]
fn paint_order_lists_every_target_once() {
    for s in ["", "fill", "markers", "stroke markers", "Markers Stroke Fill"] {
        let p = PaintOrder::parse_str(s).unwrap();
        let t = p.targets;
        assert!(t[0] != t[1] && t[1] != t[2] && t[0] != t[2]);
    }
}

#[test]
fn parses_filter_property() {
    assert_eq!(Filter::parse_str("none").unwrap(), Filter::NoFilter);
    assert_eq!(Filter::parse_str("  NONE ").unwrap(), Filter::NoFilter);
    assert_eq!(
        Filter::parse_str("url(#a) url(#b)").unwrap(),
        Filter::List(FilterValueList(vec![
            FilterValue::Url(NodeId::Internal("a".to_string())),
            FilterValue::Url(NodeId::Internal("b".to_string())),
        ]))
    );
    assert_eq!(Filter::default(), Filter::NoFilter);
}

#[test]
fn detects_invalid_filter_property() {
    assert!(Filter::parse_str("none url(#a)").is_err());
    assert!(Filter::parse_str("url(#a) none").is_err());
    assert!(Filter::parse_str("").is_err());
    assert!(Filter::parse_str("fail").is_err());
}

#[test]
fn parses_writing_mode() {
    assert_eq!(WritingMode::parse_str("horizontal-tb").unwrap(), WritingMode::HorizontalTb);
    assert_eq!(WritingMode::parse_str("Vertical-LR").unwrap(), WritingMode::VerticalLr);
    assert_eq!(WritingMode::parse_str("lr-tb").unwrap(), WritingMode::LrTb);
    assert_eq!(WritingMode::parse_str("tb").unwrap(), WritingMode::Tb);
    assert!(WritingMode::parse_str("sideways").is_err());
    assert!(WritingMode::parse_str("lr tb").is_err());
    assert_eq!(WritingMode::default(), WritingMode::HorizontalTb);
}

#[test]
fn computes_svg11_writing_modes() {
    assert_eq!(WritingMode::Lr.compute(), WritingMode::HorizontalTb);
    assert_eq!(WritingMode::RlTb.compute(), WritingMode::HorizontalTb);
    assert_eq!(WritingMode::Tb.compute(), WritingMode::VerticalRl);
    assert_eq!(WritingMode::TbRl.compute(), WritingMode::VerticalRl);
    assert_eq!(WritingMode::VerticalLr.compute(), WritingMode::VerticalLr);
}

#[test]
fn computing_a_writing_mode_keeps_its_direction() {
    let all = [
        WritingMode::HorizontalTb,
        WritingMode::VerticalRl,
        WritingMode::VerticalLr,
        WritingMode::Lr,
        WritingMode::LrTb,
        WritingMode::Rl,
        WritingMode::RlTb,
        WritingMode::Tb,
        WritingMode::TbRl,
    ];
    for m in all {
        assert_eq!(m.compute().is_horizontal(), m.is_horizontal());
        assert_eq!(m.compute().compute(), m.compute());
    }
    assert!(WritingMode::Rl.is_horizontal());
    assert!(!WritingMode::TbRl.is_horizontal());
}

#[test]
fn parses_xml_lang() {
    let l = XmlLang::parse_str("es-MX").unwrap();
    assert_eq!(
        l.0.unwrap().get(),
        &language_tags::LanguageTag::parse("es-MX").unwrap()
    );

    assert!(XmlLang::parse_str("").is_err());
}

#[test]
fn xml_lang_errors() {
    assert!(XmlLang::default().0.is_none());
    assert!(matches!(XmlLang::parse_str("12"), Err(librsvg::css::CssParseError::UnexpectedToken)));
    assert!(matches!(XmlLang::parse_str("en fr"), Err(librsvg::css::CssParseError::UnexpectedToken)));
    match XmlLang::parse_str("a-b-c-d-e-f-g-h-i-j-k-l-m-n-o-p-q-r-s-t-u-v-w-x-y-zz-12345678-x") {
        Err(librsvg::css::CssParseError::Custom(librsvg::error::ValueErrorKind::Parse(m))) => {
            assert_eq!(m, "invalid syntax for 'xml:lang' parameter")
        },
        Ok(_) => {},
        Err(e) => panic!("unexpected error {:?}", e),
    }
}
