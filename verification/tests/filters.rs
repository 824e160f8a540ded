use librsvg::css::{CssNumber, CustomIdent, Parse};
use librsvg::document::{DocumentBuilder, LoadOptions};
use librsvg::filters::component_transfer::{
    get_functions, Channel, FeComponentTransfer, FeFunc, FunctionType, Functions,
};
use librsvg::filters::flood::FeFlood;
use librsvg::filters::composite::Operator;
use librsvg::filters::context::{
    FilterError, FilterInput, FilterOutput, FilterResult, FilterResults, RawInput,
};
use librsvg::rect::IRect;
use librsvg::filters::{Input, PrimitiveParams};

fn num(x: f32) -> CssNumber {
    CssNumber(x.to_bits())
}

fn attrs(list: &[(&str, &str)]) -> Vec<(String, String)> {
    list.iter().map(|(n, v)| (n.to_string(), v.to_string())).collect()
}

#[test]
fn extracts_functions() {
    let mut b = DocumentBuilder::<String>::new(LoadOptions { unlimited_size: false, keep_image_data: false });
    let svg = b.append_element("svg", attrs(&[("xmlns", "http://www.w3.org/2000/svg")]), None);
    let filter = b.append_element("filter", attrs(&[("id", "filter")]), Some(svg));
    let ct = b.append_element("feComponentTransfer", attrs(&[("id", "component_transfer")]), Some(filter));
    // no feFuncR so it should get the defaults
    b.append_element("feFuncG", attrs(&[("type", "table"), ("tableValues", "0.0 1.0 2.0")]), Some(ct));
    b.append_element("feFuncB", attrs(&[("type", "table")]), Some(ct));
    // duplicate this to test that last-one-wins
    b.append_element(
        "feFuncB",
        attrs(&[
            ("type", "discrete"),
            ("tableValues", "0.0, 1.0"),
            ("slope", "1.0"),
            ("intercept", "2.0"),
            ("amplitude", "3.0"),
            ("exponent", "4.0"),
            ("offset", "5.0"),
        ]),
        Some(ct),
    );
    // no feFuncA so it should get the defaults
    let document = b.build().unwrap();

    let component_transfer = document.lookup_internal_node("component_transfer").unwrap();
    let functions = get_functions(document.tree_ref(), component_transfer.index).unwrap();

    assert_eq!(
        functions,
        Functions {
            r: FeFunc::default_for(Channel::R),

            g: FeFunc {
                function_type: FunctionType::Table,
                table_values: vec![num(0.0), num(1.0), num(2.0)],
                ..FeFunc::default_for(Channel::G)
            },

            b: FeFunc {
                function_type: FunctionType::Discrete,
                table_values: vec![num(0.0), num(1.0)],
                slope: num(1.0),
                intercept: num(2.0),
                amplitude: num(3.0),
                exponent: num(4.0),
                offset: num(5.0),
                ..FeFunc::default_for(Channel::B)
            },

            a: FeFunc::default_for(Channel::A),
        }
    );
}

#[test]
fn empty_table_is_identity_and_bad_child_is_an_error() {
    let mut b = DocumentBuilder::<String>::new(LoadOptions { unlimited_size: false, keep_image_data: false });
    let svg = b.append_element("svg", attrs(&[]), None);
    let ct = b.append_element("feComponentTransfer", attrs(&[("id", "ct")]), Some(svg));
    b.append_element("feFuncR", attrs(&[("type", "discrete")]), Some(ct));
    let bad = b.append_element("feComponentTransfer", attrs(&[("id", "bad")]), Some(svg));
    b.append_element("feFuncA", attrs(&[("slope", "x")]), Some(bad));
    let doc = b.build().unwrap();
    let ct = doc.lookup_internal_node("ct").unwrap();
    let f = get_functions(doc.tree_ref(), ct.index).unwrap();
    assert_eq!(f.r.function_type, FunctionType::Identity);
    let bad = doc.lookup_internal_node("bad").unwrap();
    assert!(get_functions(doc.tree_ref(), bad.index).is_err());
}

#[test]
fn parses_function_types_and_operators() {
    assert_eq!(FunctionType::parse_str("Gamma").unwrap(), FunctionType::Gamma);
    assert!(FunctionType::parse_str("tabular").is_err());
    assert_eq!(Operator::parse_str("arithmetic").unwrap(), Operator::Arithmetic);
    assert_eq!(Operator::parse_str("in").unwrap(), Operator::In);
    assert!(Operator::parse_str("under").is_err());
}

#[test]
fn parses_inputs() {
    assert_eq!(Input::parse("SourceAlpha").unwrap().0, Input::SourceAlpha);
    assert_eq!(Input::parse("strokepaint").unwrap().0, Input::StrokePaint);
    assert_eq!(
        Input::parse("blur1").unwrap().0,
        Input::FilterOutput(CustomIdent("blur1".to_string()))
    );
    assert!(Input::parse("inherit").is_err());
}

#[test]
fn primitive_names() {
    assert_eq!(PrimitiveParams::GaussianBlur.name(), "feGaussianBlur");
    let image = librsvg::filters::image::Image { source: librsvg::filters::image::Source::Nothing };
    assert_eq!(PrimitiveParams::Image(image).name(), "feImage");
    assert_eq!(PrimitiveParams::Turbulence.name(), "feTurbulence");
    let tile = PrimitiveParams::Tile(librsvg::filters::tile::Tile { in1: Input::SourceAlpha });
    assert_eq!(tile.name(), "feTile");
    let merge = PrimitiveParams::Merge(vec![]);
    assert_eq!(merge.name(), "feMerge");
}

fn output(tag: u32) -> FilterOutput<u32> {
    FilterOutput { surface: tag, bounds: IRect { x0: 0, y0: 0, x1: 10, y1: 10 } }
}

#[test]
fn stored_results_are_found_by_name() {
    let mut results = FilterResults::<u32>::new();
    match results.get_input_raw(None) {
        Ok(RawInput::SourceGraphic) => {}
        _ => panic!("the first primitive gets the source graphic"),
    }
    results.store_result(FilterResult { name: Some(CustomIdent("a".to_string())), output: output(1) });
    results.store_result(FilterResult { name: None, output: output(2) });
    match results.get_input_raw(None) {
        Ok(RawInput::PrimitiveOutput(o)) => assert_eq!(o.surface, 2),
        _ => panic!("the last result is the default input"),
    }
    let a = Input::FilterOutput(CustomIdent("a".to_string()));
    match results.get_input_raw(Some(&a)) {
        Ok(RawInput::PrimitiveOutput(o)) => assert_eq!(o.surface, 1),
        _ => panic!("the named result"),
    }
    results.store_result(FilterResult { name: Some(CustomIdent("a".to_string())), output: output(3) });
    match results.get_input_raw(Some(&a)) {
        Ok(RawInput::PrimitiveOutput(o)) => assert_eq!(o.surface, 3),
        _ => panic!("the latest result of that name"),
    }
    let b = Input::FilterOutput(CustomIdent("b".to_string()));
    assert!(matches!(results.get_input_raw(Some(&b)), Err(FilterError::InvalidInput)));
    assert!(matches!(results.get_input_raw(Some(&Input::FillPaint)), Ok(RawInput::FillPaint)));
}

#[test]
fn filter_input_surface() {
    let i: FilterInput<u32> = FilterInput::StandardInput(7);
    assert_eq!(*i.surface(), 7);
    let o = FilterInput::PrimitiveOutput(output(9));
    assert_eq!(*o.surface(), 9);
}

use librsvg::filters::merge::{get_parameters, FeMergeNode};
use librsvg::filters::context::FilterError as MergeError;
use librsvg::filters::Primitive;

#[test]
fn extracts_parameters() {
    let mut b = DocumentBuilder::<String>::new(LoadOptions { unlimited_size: false, keep_image_data: false });
    let svg = b.append_element("svg", attrs(&[("xmlns", "http://www.w3.org/2000/svg")]), None);
    let filter = b.append_element("filter", attrs(&[("id", "filter")]), Some(svg));
    let merge = b.append_element("feMerge", attrs(&[("id", "merge")]), Some(filter));
    b.append_element("feMergeNode", attrs(&[("in", "SourceGraphic")]), Some(merge));
    b.append_element("feMergeNode", attrs(&[("in", "SourceAlpha")]), Some(merge));
    let document = b.build().unwrap();

    let merge = document.lookup_internal_node("merge").unwrap();

    let params = get_parameters(document.tree_ref(), merge.index).unwrap();

    assert_eq!(
        &params[..],
        vec![
            FeMergeNode {
                in1: Input::SourceGraphic
            },
            FeMergeNode {
                in1: Input::SourceAlpha
            },
        ]
    );
}

#[test]
fn merge_skips_other_children_and_rejects_invalid_nodes() {
    let mut b = DocumentBuilder::<String>::new(LoadOptions { unlimited_size: false, keep_image_data: false });
    let svg = b.append_element("svg", attrs(&[]), None);
    let merge = b.append_element("feMerge", attrs(&[("id", "merge")]), Some(svg));
    b.append_element("feMergeNode", attrs(&[]), Some(merge));
    b.append_element("desc", attrs(&[]), Some(merge));
    b.append_element("feMergeNode", attrs(&[("in", "blurred")]), Some(merge));
    let bad = b.append_element("feMerge", attrs(&[("id", "bad")]), Some(svg));
    b.append_element("feMergeNode", attrs(&[("in", "SourceGraphic")]), Some(bad));
    b.append_element("feMergeNode", attrs(&[("in", "inherit")]), Some(bad));
    let document = b.build().unwrap();

    let merge = document.lookup_internal_node("merge").unwrap();
    let params = get_parameters(document.tree_ref(), merge.index).unwrap();
    assert_eq!(
        params,
        vec![
            FeMergeNode { in1: Input::Unspecified },
            FeMergeNode { in1: Input::FilterOutput(CustomIdent("blurred".to_string())) },
        ]
    );

    let bad = document.lookup_internal_node("bad").unwrap();
    assert_eq!(
        get_parameters(document.tree_ref(), bad.index),
        Err(MergeError::ChildNodeInError)
    );
}

#[test]
fn primitive_reads_standard_attributes() {
    let mut p = Primitive::new();
    let (in1, in2) = p
        .parse_two_inputs(&attrs(&[
            ("x", "10"),
            ("width", "50%"),
            ("result", "out"),
            ("in", "SourceAlpha"),
            ("in2", "previous"),
        ]))
        .unwrap();
    assert_eq!(in1, Input::SourceAlpha);
    assert_eq!(in2, Input::FilterOutput(CustomIdent("previous".to_string())));
    assert_eq!(p.x.unwrap().length, num(10.0));
    assert_eq!(p.width.unwrap().length, num(0.5));
    assert!(p.y.is_none() && p.height.is_none());
    assert_eq!(p.result, Some(CustomIdent("out".to_string())));

    let mut q = Primitive::new();
    assert_eq!(q.parse_one_input(&attrs(&[("y", "3")])).unwrap(), Input::Unspecified);

    // a negative width is invalid; the attributes before it were read
    let mut r = Primitive::new();
    assert!(r.parse_no_inputs(&attrs(&[("x", "1"), ("width", "-1"), ("y", "2")])).is_err());
    assert_eq!(r.x.unwrap().length, num(1.0));
    assert!(r.y.is_none());
}

#[test]
fn component_transfer_resolves_input_and_functions() {
    let mut b = DocumentBuilder::<String>::new(LoadOptions { unlimited_size: false, keep_image_data: false });
    let svg = b.append_element("svg", attrs(&[]), None);
    let ct = b.append_element("feComponentTransfer", attrs(&[("id", "ct"), ("in", "SourceAlpha")]), Some(svg));
    b.append_element("feFuncA", attrs(&[("type", "linear"), ("slope", "2")]), Some(ct));
    let doc = b.build().unwrap();
    let node = doc.lookup_internal_node("ct").unwrap();

    let mut e = FeComponentTransfer::new();
    e.set_attributes(&attrs(&[("in", "SourceAlpha"), ("result", "out")])).unwrap();
    assert_eq!(e.params.in1, Input::SourceAlpha);
    assert_eq!(e.base.result, Some(CustomIdent("out".to_string())));

    let resolved = e.resolve(doc.tree_ref(), node.index).unwrap();
    assert_eq!(resolved.in1, Input::SourceAlpha);
    assert_eq!(resolved.functions.r, FeFunc::default_for(Channel::R));
    assert_eq!(resolved.functions.a.function_type, FunctionType::Linear);
    assert_eq!(resolved.functions.a.slope, num(2.0));

    let mut bad = FeComponentTransfer::new();
    assert!(bad.set_attributes(&attrs(&[("in", "1")])).is_err());
    assert_eq!(bad.params.in1, Input::Unspecified);
}

#[test]
fn flood_reads_standard_attributes_only() {
    let mut f = FeFlood::new();
    f.set_attributes(&attrs(&[("in", "SourceGraphic"), ("result", "flood")])).unwrap();
    assert_eq!(f.base.result, Some(CustomIdent("flood".to_string())));
    let mut g = FeFlood::new();
    assert!(g.set_attributes(&attrs(&[("x", "nope")])).is_err());
}
