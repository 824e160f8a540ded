use librsvg::css::{CssNumber, Parse};
use librsvg::filters::context::FilterError;
use librsvg::filters::convolve_matrix::{ConvolveMatrix, EdgeMode, FeConvolveMatrix};
use librsvg::filters::Input;

fn attrs(list: &[(&str, &str)]) -> Vec<(String, String)> {
    list.iter().map(|(n, v)| (n.to_string(), v.to_string())).collect()
}

fn num(x: f32) -> CssNumber {
    CssNumber(x.to_bits())
}

#[test]
fn parses_edge_modes_and_booleans() {
    assert_eq!(EdgeMode::parse_str("duplicate").unwrap(), EdgeMode::Duplicate);
    assert_eq!(EdgeMode::parse_str("WRAP").unwrap(), EdgeMode::Wrap);
    assert_eq!(EdgeMode::parse_str("none").unwrap(), EdgeMode::Zero);
    assert!(EdgeMode::parse_str("mirror").is_err());
    assert_eq!(bool::parse_str("true").unwrap(), true);
    assert_eq!(bool::parse_str("false").unwrap(), false);
    assert!(bool::parse_str("yes").is_err());
}

#[test]
fn reads_convolve_matrix_attributes() {
    let mut f = FeConvolveMatrix::new();
    f.set_attributes(&attrs(&[
        ("in", "SourceAlpha"),
        ("order", "2 1"),
        ("kernelMatrix", "1, 2"),
        ("divisor", "4"),
        ("bias", "0.5"),
        ("targetX", "1"),
        ("edgeMode", "wrap"),
        ("kernelUnitLength", "2"),
        ("preserveAlpha", "true"),
    ]))
    .unwrap();
    let p = &f.params;
    assert_eq!(p.in1, Input::SourceAlpha);
    assert_eq!(p.order, (2, 1));
    assert_eq!(p.kernel_matrix, Some(vec![num(1.0), num(2.0)]));
    assert_eq!(p.divisor, num(4.0));
    assert_eq!(p.bias, num(0.5));
    assert_eq!(p.target_x, Some(1));
    assert_eq!(p.target_y, None);
    assert_eq!(p.edge_mode, EdgeMode::Wrap);
    assert_eq!(p.kernel_unit_length, Some((num(2.0), num(2.0))));
    assert!(p.preserve_alpha);
}

#[test]
fn kernel_matrix_is_required_and_must_fit_the_order() {
    // the default order is 3 by 3
    let mut f = FeConvolveMatrix::new();
    assert!(f.set_attributes(&attrs(&[("kernelMatrix", "1 1 1 1 1 1 1 1 1")])).is_ok());
    assert_eq!(f.params.kernel_matrix.as_ref().map(|k| k.len()), Some(9));

    let mut f = FeConvolveMatrix::new();
    assert!(f.set_attributes(&attrs(&[("order", "3")])).is_err());
    assert!(f.params.kernel_matrix.is_none());

    let mut f = FeConvolveMatrix::new();
    assert!(f.set_attributes(&attrs(&[("kernelMatrix", "1 2 3")])).is_err());

    // the order is read before the kernel, wherever it stands
    let mut f = FeConvolveMatrix::new();
    assert!(f.set_attributes(&attrs(&[("kernelMatrix", "1 2"), ("order", "2 1")])).is_ok());

    let mut f = FeConvolveMatrix::new();
    assert!(f.set_attributes(&attrs(&[("order", "-1"), ("kernelMatrix", "1")])).is_err());
    assert_eq!(f.params.order, (3, 3));
}

#[test]
fn kernel_is_read_with_at_most_400_numbers() {
    let many = vec!["1"; 401].join(" ");
    let mut f = FeConvolveMatrix::new();
    assert_eq!(f.set_attributes_checked(&attrs(&[("kernelMatrix", many.as_str())])), None);

    let mut f = FeConvolveMatrix::new();
    assert_eq!(
        f.set_attributes_checked(&attrs(&[("order", "20"), ("kernelMatrix", many.as_str())])),
        Some(Ok(()))
    );
    assert_eq!(f.params.kernel_matrix.as_ref().map(|k| k.len()), Some(400));

    let mut f = FeConvolveMatrix::new();
    assert!(matches!(
        f.set_attributes_checked(&attrs(&[("kernelMatrix", "1")])),
        Some(Err(_))
    ));
}

#[test]
fn kernel_target_defaults_to_the_middle_and_must_lie_inside() {
    let mut c = ConvolveMatrix::default();
    c.order = (3, 4);
    assert_eq!(c.target(), Ok((1, 2)));
    c.target_x = Some(2);
    c.target_y = Some(0);
    assert_eq!(c.target(), Ok((2, 0)));
    c.target_x = Some(3);
    assert_eq!(
        c.target(),
        Err(FilterError::InvalidParameter("targetX must be less than orderX".to_string()))
    );
    c.target_x = Some(0);
    c.target_y = Some(4);
    assert_eq!(
        c.target(),
        Err(FilterError::InvalidParameter("targetY must be less than orderY".to_string()))
    );
}
