use librsvg::css::CssNumber;
use librsvg::document::{DocumentBuilder, LoadOptions};
use librsvg::filters::lighting::{
    light_source, FeDiffuseLighting, FeDistantLight, FePointLight, FeSpecularLighting, FeSpotLight,
    UntransformedLightSource,
};
use librsvg::filters::FilterResolveError;

fn attrs(list: &[(&str, &str)]) -> Vec<(String, String)> {
    list.iter().map(|(n, v)| (n.to_string(), v.to_string())).collect()
}

/// A number given as the `f64` that the `f32` read from the input converts to.
fn n(x: f64) -> CssNumber {
    let f = x as f32;
    assert_eq!(f as f64, x);
    CssNumber(f.to_bits())
}

#[test]
fn extracts_light_source() {
    let mut b = DocumentBuilder::<String>::new(LoadOptions { unlimited_size: false, keep_image_data: false });
    let svg = b.append_element("svg", attrs(&[("xmlns", "http://www.w3.org/2000/svg")]), None);
    let filter = b.append_element("filter", attrs(&[("id", "filter")]), Some(svg));
    let d = b.append_element("feDiffuseLighting", attrs(&[("id", "diffuse_distant")]), Some(filter));
    b.append_element("feDistantLight", attrs(&[("azimuth", "0.0"), ("elevation", "45.0")]), Some(d));
    let s = b.append_element("feSpecularLighting", attrs(&[("id", "specular_point")]), Some(filter));
    b.append_element("fePointLight", attrs(&[("x", "1.0"), ("y", "2.0"), ("z", "3.0")]), Some(s));
    let d2 = b.append_element("feDiffuseLighting", attrs(&[("id", "diffuse_spot")]), Some(filter));
    b.append_element(
        "feSpotLight",
        attrs(&[
            ("x", "1.0"),
            ("y", "2.0"),
            ("z", "3.0"),
            ("pointsAtX", "4.0"),
            ("pointsAtY", "5.0"),
            ("pointsAtZ", "6.0"),
            ("specularExponent", "7.0"),
            ("limitingConeAngle", "8.0"),
        ]),
        Some(d2),
    );
    let document = b.build().unwrap();
    let tree = document.tree_ref();

    let node = document.lookup_internal_node("diffuse_distant").unwrap();
    assert_eq!(
        light_source(tree, node.index).unwrap(),
        UntransformedLightSource::Distant(FeDistantLight {
            azimuth: n(0.0),
            elevation: n(45.0),
        })
    );

    let node = document.lookup_internal_node("specular_point").unwrap();
    assert_eq!(
        light_source(tree, node.index).unwrap(),
        UntransformedLightSource::Point(FePointLight {
            x: n(1.0),
            y: n(2.0),
            z: n(3.0),
        })
    );

    let node = document.lookup_internal_node("diffuse_spot").unwrap();
    assert_eq!(
        light_source(tree, node.index).unwrap(),
        UntransformedLightSource::Spot(FeSpotLight {
            x: n(1.0),
            y: n(2.0),
            z: n(3.0),
            points_at_x: n(4.0),
            points_at_y: n(5.0),
            points_at_z: n(6.0),
            specular_exponent: n(7.0),
            limiting_cone_angle: Some(n(8.0)),
        })
    );
}

#[test]
fn lighting_needs_exactly_one_valid_light_source() {
    let mut b = DocumentBuilder::<String>::new(LoadOptions { unlimited_size: false, keep_image_data: false });
    let svg = b.append_element("svg", attrs(&[]), None);
    let none = b.append_element("feDiffuseLighting", attrs(&[]), Some(svg));
    b.append_element("desc", attrs(&[]), Some(none));
    let two = b.append_element("feDiffuseLighting", attrs(&[]), Some(svg));
    b.append_element("fePointLight", attrs(&[]), Some(two));
    b.append_element("feDistantLight", attrs(&[]), Some(two));
    let bad = b.append_element("feSpecularLighting", attrs(&[]), Some(svg));
    b.append_element("fePointLight", attrs(&[("x", "far")]), Some(bad));
    let doc = b.build().unwrap();
    let t = doc.tree_ref();
    assert_eq!(light_source(t, none.index), Err(FilterResolveError::InvalidLightSourceCount));
    assert_eq!(light_source(t, two.index), Err(FilterResolveError::InvalidLightSourceCount));
    assert_eq!(light_source(t, bad.index), Err(FilterResolveError::ChildNodeInError));
}

#[test]
fn lighting_primitives_read_their_numbers() {
    let mut d = FeDiffuseLighting::new();
    d.set_attributes(&attrs(&[("surfaceScale", "2"), ("diffuseConstant", "0.5"), ("kernelUnitLength", "1 2")]))
        .unwrap();
    assert_eq!(d.params.surface_scale, n(2.0));
    assert_eq!(d.params.diffuse_constant, n(0.5));
    assert_eq!(d.params.kernel_unit_length, Some((n(1.0), n(2.0))));
    let mut d = FeDiffuseLighting::new();
    assert!(d.set_attributes(&attrs(&[("diffuseConstant", "-1")])).is_err());

    let mut s = FeSpecularLighting::new();
    assert_eq!(s.params.specular_exponent, n(1.0));
    s.set_attributes(&attrs(&[("specularExponent", "20"), ("specularConstant", "3")])).unwrap();
    assert_eq!(s.params.specular_exponent, n(20.0));
    assert_eq!(s.params.specular_constant, n(3.0));
    // a diffuse lighting has no specular exponent to read
    let mut d = FeDiffuseLighting::new();
    assert!(d.set_attributes(&attrs(&[("specularExponent", "x")])).is_ok());
}
