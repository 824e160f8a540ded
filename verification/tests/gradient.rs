use librsvg::css::Parse;
use librsvg::gradient::{add_color_stop, color_stops, stop_offsets, ColorStop, SpreadMethod, Stop};

#[test]
fn parses_spread_method() {
    assert_eq!(SpreadMethod::parse_str("pad").unwrap(), SpreadMethod::Pad);
    assert_eq!(
        SpreadMethod::parse_str("reflect").unwrap(),
        SpreadMethod::Reflect
    );
    assert_eq!(
        SpreadMethod::parse_str("repeat").unwrap(),
        SpreadMethod::Repeat
    );
    assert!(SpreadMethod::parse_str("foobar").is_err());
}

#[test]
fn spread_method_keywords_ignore_case() {
    assert_eq!(SpreadMethod::parse_str("REFLECT").unwrap(), SpreadMethod::Reflect);
    assert_eq!(SpreadMethod::default(), SpreadMethod::Pad);
}

use librsvg::css::CssNumber;
use librsvg::document::{AcquiredNodes, Document, DocumentBuilder, LoadOptions, Node};
use librsvg::error::AcquireError;
use librsvg::filter::CoordUnits;
use librsvg::gradient::{
    get_unresolved, resolve, ResolvedGradientVariant, StopsSource, TransformSource,
};
use librsvg::length::{Both, Horizontal, Length, LengthUnit, Vertical};

fn attrs(list: &[(&str, &str)]) -> Vec<(String, String)> {
    list.iter().map(|(n, v)| (n.to_string(), v.to_string())).collect()
}

fn builder() -> (DocumentBuilder<String>, Node) {
    let mut b = DocumentBuilder::<String>::new(LoadOptions {
        unlimited_size: false,
        keep_image_data: false,
    });
    let svg = b.append_element("svg", attrs(&[]), None);
    (b, svg)
}

fn px<N, V>(x: f32) -> librsvg::length::CssLength<N, V> {
    librsvg::length::CssLength::new(CssNumber(x.to_bits()), LengthUnit::Px)
}

fn pct<N, V>(x: f32) -> librsvg::length::CssLength<N, V> {
    librsvg::length::CssLength::new(CssNumber(x.to_bits()), LengthUnit::Percent)
}

fn node(doc: &Document<String>, id: &str) -> Node {
    doc.lookup_internal_node(id).unwrap()
}

#[test]
fn gradient_resolved_from_defaults_is_really_resolved() {
    let (mut b, svg) = builder();
    let linear = b.append_element("linearGradient", attrs(&[]), Some(svg));
    let radial = b.append_element("radialGradient", attrs(&[]), Some(svg));
    let doc = b.build().unwrap();

    let (unresolved, _) = get_unresolved(&doc, &linear).unwrap();
    let gradient = unresolved.resolve_from_defaults();
    assert!(gradient.is_resolved());

    let (unresolved, _) = get_unresolved(&doc, &radial).unwrap();
    let gradient = unresolved.resolve_from_defaults();
    assert!(gradient.is_resolved());
}

#[test]
fn only_gradient_elements_are_gradients() {
    let (mut b, svg) = builder();
    let rect = b.append_element("rect", attrs(&[]), Some(svg));
    let doc = b.build().unwrap();
    assert!(get_unresolved(&doc, &rect).is_none());
}

#[test]
fn linear_gradient_defaults() {
    let (mut b, svg) = builder();
    b.append_element("linearGradient", attrs(&[("id", "g")]), Some(svg));
    let doc = b.build().unwrap();
    let g = node(&doc, "g");
    let mut acquired = AcquiredNodes::new(&doc);
    let r = resolve(&mut acquired, &g).unwrap();
    assert_eq!(r.units, CoordUnits::ObjectBoundingBox);
    assert_eq!(r.transform, TransformSource::Identity);
    assert_eq!(r.spread, librsvg::gradient::SpreadMethod::Pad);
    assert_eq!(r.stops, StopsSource::Empty);
    assert_eq!(
        r.variant,
        ResolvedGradientVariant::Linear {
            x1: pct::<Horizontal, _>(0.0),
            y1: pct::<Vertical, _>(0.0),
            x2: pct::<Horizontal, _>(1.0),
            y2: pct::<Vertical, _>(0.0),
        }
    );
}

#[test]
fn radial_focus_defaults_to_center() {
    let (mut b, svg) = builder();
    b.append_element(
        "radialGradient",
        attrs(&[("id", "g"), ("cx", "10"), ("cy", "20"), ("r", "5")]),
        Some(svg),
    );
    let doc = b.build().unwrap();
    let g = node(&doc, "g");
    let mut acquired = AcquiredNodes::new(&doc);
    let r = resolve(&mut acquired, &g).unwrap();
    assert_eq!(
        r.variant,
        ResolvedGradientVariant::Radial {
            cx: px::<Horizontal, _>(10.0),
            cy: px::<Vertical, _>(20.0),
            r: px::<Both, _>(5.0),
            fx: px::<Horizontal, _>(10.0),
            fy: px::<Vertical, _>(20.0),
            fr: pct::<Both, _>(0.0),
        }
    );
}

#[test]
fn fallback_fills_in_missing_parameters() {
    let (mut b, svg) = builder();
    b.append_element(
        "linearGradient",
        attrs(&[("id", "a"), ("x1", "10"), ("href", "#b")]),
        Some(svg),
    );
    let bnode = b.append_element(
        "linearGradient",
        attrs(&[
            ("id", "b"),
            ("x1", "99"),
            ("x2", "20"),
            ("spreadMethod", "reflect"),
            ("gradientUnits", "userSpaceOnUse"),
            ("gradientTransform", "rotate(45)"),
        ]),
        Some(svg),
    );
    b.append_element("stop", attrs(&[("offset", "0")]), Some(bnode));
    let doc = b.build().unwrap();
    let a = node(&doc, "a");
    let mut acquired = AcquiredNodes::new(&doc);
    let r = resolve(&mut acquired, &a).unwrap();
    assert_eq!(r.units, CoordUnits::UserSpaceOnUse);
    assert_eq!(r.spread, librsvg::gradient::SpreadMethod::Reflect);
    assert_eq!(r.transform, TransformSource::Attribute(bnode));
    assert_eq!(r.stops, StopsSource::Children(bnode));
    assert_eq!(
        r.variant,
        ResolvedGradientVariant::Linear {
            x1: px::<Horizontal, _>(10.0),
            y1: pct::<Vertical, _>(0.0),
            x2: px::<Horizontal, _>(20.0),
            y2: pct::<Vertical, _>(0.0),
        }
    );
}

#[test]
fn radial_parameters_do_not_come_from_a_linear_fallback() {
    let (mut b, svg) = builder();
    b.append_element("radialGradient", attrs(&[("id", "a"), ("href", "#b")]), Some(svg));
    b.append_element(
        "linearGradient",
        attrs(&[("id", "b"), ("x1", "10"), ("spreadMethod", "repeat")]),
        Some(svg),
    );
    let doc = b.build().unwrap();
    let a = node(&doc, "a");
    let mut acquired = AcquiredNodes::new(&doc);
    let r = resolve(&mut acquired, &a).unwrap();
    assert_eq!(r.spread, librsvg::gradient::SpreadMethod::Repeat);
    assert_eq!(
        r.variant,
        ResolvedGradientVariant::Radial {
            cx: pct::<Horizontal, _>(0.5),
            cy: pct::<Vertical, _>(0.5),
            r: pct::<Both, _>(0.5),
            fx: pct::<Horizontal, _>(0.5),
            fy: pct::<Vertical, _>(0.5),
            fr: pct::<Both, _>(0.0),
        }
    );
}

#[test]
fn circular_gradient_references_are_errors() {
    let (mut b, svg) = builder();
    b.append_element("linearGradient", attrs(&[("id", "a"), ("href", "#b")]), Some(svg));
    let bnode =
        b.append_element("linearGradient", attrs(&[("id", "b"), ("xlink:href", "#a")]), Some(svg));
    b.append_element("linearGradient", attrs(&[("id", "c"), ("href", "#c")]), Some(svg));
    let doc = b.build().unwrap();
    let a = node(&doc, "a");
    let mut acquired = AcquiredNodes::new(&doc);
    // a reads b, b reads a, and a leads back to b, which was read already.
    assert_eq!(resolve(&mut acquired, &a), Err(AcquireError::CircularReference(bnode)));

    let c = node(&doc, "c");
    let mut acquired = AcquiredNodes::new(&doc);
    assert_eq!(resolve(&mut acquired, &c), Err(AcquireError::CircularReference(c)));
}

#[test]
fn gradient_references_must_name_gradients() {
    let (mut b, svg) = builder();
    b.append_element("linearGradient", attrs(&[("id", "a"), ("href", "#r")]), Some(svg));
    b.append_element("rect", attrs(&[("id", "r")]), Some(svg));
    b.append_element("linearGradient", attrs(&[("id", "m"), ("href", "#missing")]), Some(svg));
    let doc = b.build().unwrap();
    let a = node(&doc, "a");
    let mut acquired = AcquiredNodes::new(&doc);
    assert_eq!(
        resolve(&mut acquired, &a),
        Err(AcquireError::InvalidLinkType(librsvg::document::NodeId::Internal("r".to_string())))
    );
    let m = node(&doc, "m");
    assert_eq!(
        resolve(&mut acquired, &m),
        Err(AcquireError::LinkNotFound(librsvg::document::NodeId::Internal(
            "missing".to_string()
        )))
    );
}

#[test]
fn invalid_common_attribute_stops_reading_attributes() {
    let (mut b, svg) = builder();
    let g = b.append_element(
        "linearGradient",
        attrs(&[("x1", "5"), ("spreadMethod", "sideways"), ("x2", "7")]),
        Some(svg),
    );
    let doc = b.build().unwrap();
    let (unresolved, fallback) = get_unresolved(&doc, &g).unwrap();
    assert!(fallback.is_none());
    assert!(unresolved.spread.is_none());
    let r = unresolved.resolve_from_defaults().into_resolved();
    assert_eq!(
        r.variant,
        ResolvedGradientVariant::Linear {
            x1: pct::<Horizontal, _>(0.0),
            y1: pct::<Vertical, _>(0.0),
            x2: pct::<Horizontal, _>(1.0),
            y2: pct::<Vertical, _>(0.0),
        }
    );
}

#[test]
fn color_stops_never_go_backwards() {
    let mut stops: Vec<ColorStop<&str>> = Vec::new();
    add_color_stop(&mut stops, CssNumber((-0.0f32).to_bits()), "red");
    add_color_stop(&mut stops, CssNumber(0.5f32.to_bits()), "green");
    add_color_stop(&mut stops, CssNumber(0.25f32.to_bits()), "blue");
    add_color_stop(&mut stops, CssNumber(1.0f32.to_bits()), "white");
    let offsets: Vec<f32> = stops.iter().map(|s| f32::from_bits(s.offset.0)).collect();
    assert_eq!(offsets, vec![0.0, 0.5, 0.5, 1.0]);
    assert_eq!(stops[0].offset, CssNumber(0.0f32.to_bits()));
    assert_eq!(stops[2].rgba, "blue");
}

fn offset(x: f32) -> CssNumber {
    CssNumber(x.to_bits())
}

#[test]
fn stop_offsets_are_numbers_or_percentages_clamped_to_unit() {
    let read = |v: &str| {
        let mut s = Stop::new();
        s.set_attributes(&attrs(&[("offset", v)])).map(|()| s.offset)
    };
    assert_eq!(read("0.25"), Ok(offset(0.25)));
    assert_eq!(read("50%"), Ok(offset(0.5)));
    assert_eq!(read("1.5"), Ok(offset(1.0)));
    assert_eq!(read("-3"), Ok(offset(0.0)));
    assert_eq!(read("250%"), Ok(offset(1.0)));
    assert!(read("red").is_err());
    assert!(read("0.5 0.7").is_err());
    assert!(read("").is_err());

    let mut s = Stop::new();
    s.set_attributes(&attrs(&[("offset", "0.1"), ("stop-color", "red"), ("offset", "0.2")])).unwrap();
    assert_eq!(s.offset, offset(0.2));
    assert_eq!(Stop::new().offset, offset(0.0));
}

#[test]
fn gradient_stops_skip_stops_in_error() {
    let mut b = DocumentBuilder::<String>::new(LoadOptions { unlimited_size: false, keep_image_data: false });
    let svg = b.append_element("svg", attrs(&[]), None);
    let g = b.append_element("linearGradient", attrs(&[("id", "g")]), Some(svg));
    b.append_element("stop", attrs(&[("offset", "0.75")]), Some(g));
    b.append_element("stop", attrs(&[("offset", "bad")]), Some(g));
    b.append_element("rect", attrs(&[]), Some(g));
    b.append_element("stop", attrs(&[("offset", "20%")]), Some(g));
    let only_bad = b.append_element("radialGradient", attrs(&[("id", "only_bad")]), Some(svg));
    b.append_element("stop", attrs(&[("offset", "x")]), Some(only_bad));
    let doc = b.build().unwrap();

    let g = node(&doc, "g");
    assert_eq!(stop_offsets(doc.tree_ref(), g.index), vec![offset(0.75), offset(0.2)]);
    let (u, _) = get_unresolved(&doc, &g).unwrap();
    assert_eq!(u.stops, Some(StopsSource::Children(g)));

    let only_bad = node(&doc, "only_bad");
    assert_eq!(stop_offsets(doc.tree_ref(), only_bad.index), vec![]);
    let (u, _) = get_unresolved(&doc, &only_bad).unwrap();
    assert_eq!(u.stops, None);
}

#[test]
fn color_stops_of_a_gradient_are_in_order() {
    let stops = color_stops(&vec![offset(0.75), offset(0.2), offset(1.0)], &vec![1u8, 2, 3]);
    assert_eq!(
        stops,
        vec![
            ColorStop { offset: offset(0.75), rgba: 1u8 },
            ColorStop { offset: offset(0.75), rgba: 2 },
            ColorStop { offset: offset(1.0), rgba: 3 },
        ]
    );
    assert_eq!(color_stops::<u8>(&vec![], &vec![]), vec![]);
}
