use librsvg::css::{CssNumber, CustomIdent, Parse};
use librsvg::filters::blend::{FeBlend, Mode};
use librsvg::filters::composite::{FeComposite, Operator as CompositeOperator};
use librsvg::filters::displacement_map::{ColorChannel, FeDisplacementMap};
use librsvg::filters::morphology::{morphology_value, FeMorphology, Operator};
use librsvg::rect::IRect;
use librsvg::surface_utils::ImageChannel;
use librsvg::filters::offset::FeOffset;
use librsvg::filters::tile::FeTile;
use librsvg::filters::Input;

fn attrs(list: &[(&str, &str)]) -> Vec<(String, String)> {
    list.iter().map(|(n, v)| (n.to_string(), v.to_string())).collect()
}

fn num(x: f32) -> CssNumber {
    CssNumber(x.to_bits())
}

#[test]
fn parses_blend_modes() {
    assert_eq!(Mode::parse_str("normal").unwrap(), Mode::Normal);
    assert_eq!(Mode::parse_str("color-dodge").unwrap(), Mode::ColorDodge);
    assert_eq!(Mode::parse_str("Hue").unwrap(), Mode::HslHue);
    assert_eq!(Mode::parse_str("luminosity").unwrap(), Mode::HslLuminosity);
    assert!(Mode::parse_str("add").is_err());
    assert_eq!(Mode::default(), Mode::Normal);
}

#[test]
fn blend_reads_inputs_and_mode() {
    let mut f = FeBlend::new();
    f.set_attributes(&attrs(&[("in", "SourceGraphic"), ("in2", "bg"), ("mode", "multiply")])).unwrap();
    assert_eq!(f.params.in1, Input::SourceGraphic);
    assert_eq!(f.params.in2, Input::FilterOutput(CustomIdent("bg".to_string())));
    assert_eq!(f.params.mode, Mode::Multiply);

    let mut f = FeBlend::new();
    assert!(f.set_attributes(&attrs(&[("mode", "nope")])).is_err());
    assert_eq!(f.params.mode, Mode::Normal);
}

#[test]
fn composite_reads_operator_and_coefficients() {
    let mut f = FeComposite::new();
    f.set_attributes(&attrs(&[
        ("operator", "arithmetic"),
        ("k1", "1"),
        ("k2", "0.5"),
        ("k3", "-2"),
        ("k4", "3"),
    ]))
    .unwrap();
    assert_eq!(f.params.operator, CompositeOperator::Arithmetic);
    assert_eq!(
        (f.params.k1, f.params.k2, f.params.k3, f.params.k4),
        (num(1.0), num(0.5), num(-2.0), num(3.0))
    );
    let mut f = FeComposite::new();
    assert!(f.set_attributes(&attrs(&[("k2", "x")])).is_err());
}

#[test]
fn displacement_map_reads_scale_and_channels() {
    let mut f = FeDisplacementMap::default();
    assert_eq!(f.x_channel_selector, ColorChannel::A);
    f.set_attributes(&attrs(&[
        ("in", "SourceGraphic"),
        ("in2", "map"),
        ("scale", "10"),
        ("xChannelSelector", "R"),
        ("yChannelSelector", "g"),
    ]))
    .unwrap();
    assert_eq!(f.scale, num(10.0));
    assert_eq!(f.x_channel_selector, ColorChannel::R);
    assert_eq!(f.y_channel_selector, ColorChannel::G);
    assert_eq!(f.in2, Input::FilterOutput(CustomIdent("map".to_string())));
    let mut f = FeDisplacementMap::default();
    assert!(f.set_attributes(&attrs(&[("xChannelSelector", "X")])).is_err());
}

#[test]
fn morphology_reads_operator_and_radius() {
    let mut f = FeMorphology::new();
    f.set_attributes(&attrs(&[("operator", "dilate"), ("radius", "2 3")])).unwrap();
    assert_eq!(f.params.operator, Operator::Dilate);
    assert_eq!(f.params.radius, (num(2.0), num(3.0)));

    let mut f = FeMorphology::new();
    f.set_attributes(&attrs(&[("radius", "4")])).unwrap();
    assert_eq!(f.params.radius, (num(4.0), num(4.0)));
    assert_eq!(f.params.operator, Operator::Erode);

    // a negative radius is invalid
    let mut f = FeMorphology::new();
    assert!(f.set_attributes(&attrs(&[("radius", "-1")])).is_err());
}

#[test]
fn offset_and_tile_read_their_attributes() {
    let mut f = FeOffset::new();
    f.set_attributes(&attrs(&[("dx", "5"), ("dy", "-3"), ("in", "BackgroundImage")])).unwrap();
    assert_eq!((f.params.dx, f.params.dy), (num(5.0), num(-3.0)));
    assert_eq!(f.params.in1, Input::BackgroundImage);

    let mut t = FeTile::new();
    t.set_attributes(&attrs(&[("in", "FillPaint"), ("result", "tiled")])).unwrap();
    assert_eq!(t.params.in1, Input::FillPaint);
    assert_eq!(t.base.result, Some(CustomIdent("tiled".to_string())));
    let mut t = FeTile::new();
    assert!(t.set_attributes(&attrs(&[("in", "default")])).is_err());
}

fn channel() -> ImageChannel {
    // 3 × 3 values, row by row.
    ImageChannel { width: 3, height: 3, values: vec![10, 20, 30, 40, 50, 60, 70, 80, 90] }
}

#[test]
fn erosion_and_dilation_of_a_window() {
    let s = channel();
    let all = IRect::new(0, 0, 3, 3);
    let centre = IRect::new(0, 0, 2, 2);
    assert_eq!(morphology_value(Operator::Erode, &s, all, centre), 10);
    assert_eq!(morphology_value(Operator::Dilate, &s, all, centre), 50);
    assert_eq!(morphology_value(Operator::Dilate, &s, all, IRect::new(1, 1, 3, 3)), 90);
    // Pixels outside the bounds count as transparent.
    assert_eq!(morphology_value(Operator::Erode, &s, all, IRect::new(-1, 0, 1, 1)), 0);
    assert_eq!(morphology_value(Operator::Erode, &s, IRect::new(1, 1, 3, 3), IRect::new(1, 1, 3, 3)), 50);
    // An empty window.
    assert_eq!(morphology_value(Operator::Erode, &s, all, IRect::new(2, 2, 2, 2)), 255);
    assert_eq!(morphology_value(Operator::Dilate, &s, all, IRect::new(2, 2, 2, 2)), 0);
}

#[test]
fn displacement_map_resolves_to_its_parameters() {
    let mut f = FeDisplacementMap::default();
    f.set_attributes(&attrs(&[("in2", "map"), ("scale", "5"), ("xChannelSelector", "R")])).unwrap();
    let d = f.resolve();
    assert_eq!(d.in1, Input::Unspecified);
    assert_eq!(d.in2, Input::FilterOutput(CustomIdent("map".to_string())));
    assert_eq!(d.scale, num(5.0));
    assert_eq!(d.x_channel_selector, ColorChannel::R);
    assert_eq!(d.y_channel_selector, ColorChannel::A);
}
