use librsvg::document::{AcquiredNodes, Document, DocumentBuilder, LoadOptions, NodeId};
use librsvg::error::{ImplementationLimit, RenderingError};
use librsvg::gradient::StopsSource;
use librsvg::paint_server::{PaintServer, PaintSource};

fn attrs(list: &[(&str, &str)]) -> Vec<(String, String)> {
    list.iter().map(|(n, v)| (n.to_string(), v.to_string())).collect()
}

fn document() -> Document<String> {
    let mut b = DocumentBuilder::<String>::new(LoadOptions { unlimited_size: false, keep_image_data: false });
    let svg = b.append_element("svg", attrs(&[]), None);
    let g = b.append_element("linearGradient", attrs(&[("id", "g"), ("x1", "5")]), Some(svg));
    b.append_element("stop", attrs(&[("offset", "0")]), Some(g));
    b.append_element("pattern", attrs(&[("id", "p")]), Some(svg));
    b.append_element("rect", attrs(&[("id", "r")]), Some(svg));
    b.append_element("radialGradient", attrs(&[("id", "loop1"), ("href", "#loop2")]), Some(svg));
    b.append_element("radialGradient", attrs(&[("id", "loop2"), ("href", "#loop1")]), Some(svg));
    b.build().unwrap()
}

fn iri(id: &str, alternate: Option<u32>) -> PaintServer<u32> {
    PaintServer::Iri { iri: NodeId::Internal(id.to_string()), alternate }
}

#[test]
fn plain_paints_resolve_to_themselves() {
    let doc = document();
    let mut acquired = AcquiredNodes::new(&doc);
    assert!(matches!(PaintServer::<u32>::Nothing.resolve(&mut acquired), Ok(PaintSource::Nothing)));
    assert!(matches!(PaintServer::SolidColor(3u32).resolve(&mut acquired), Ok(PaintSource::SolidColor(3))));
}

#[test]
fn references_resolve_to_gradients_and_patterns() {
    let doc = document();
    let mut acquired = AcquiredNodes::new(&doc);
    match iri("g", Some(7)).resolve(&mut acquired) {
        Ok(PaintSource::Gradient(g, alternate)) => {
            assert_eq!(g.stops, StopsSource::Children(doc.lookup_internal_node("g").unwrap()));
            assert_eq!(alternate, Some(7));
        },
        _ => panic!("expected a gradient"),
    }
    match iri("p", None).resolve(&mut acquired) {
        Ok(PaintSource::Pattern(n, None)) => assert_eq!(n, doc.lookup_internal_node("p").unwrap()),
        _ => panic!("expected a pattern"),
    }
}

#[test]
fn unusable_references_fall_back_to_the_alternate_color() {
    let doc = document();
    let mut acquired = AcquiredNodes::new(&doc);
    assert!(matches!(iri("missing", Some(7)).resolve(&mut acquired), Ok(PaintSource::SolidColor(7))));
    assert!(matches!(iri("missing", None).resolve(&mut acquired), Ok(PaintSource::Nothing)));
    assert!(matches!(iri("r", Some(9)).resolve(&mut acquired), Ok(PaintSource::SolidColor(9))));
    assert!(matches!(iri("r", None).resolve(&mut acquired), Ok(PaintSource::Nothing)));
    // A gradient whose references go round in a circle cannot be resolved.
    assert!(matches!(iri("loop1", Some(1)).resolve(&mut acquired), Ok(PaintSource::SolidColor(1))));
    assert!(matches!(iri("loop1", None).resolve(&mut acquired), Ok(PaintSource::Nothing)));
}

#[test]
fn too_many_references_is_an_error() {
    let doc = document();
    let mut acquired = AcquiredNodes::new(&doc);
    let mut limited = false;
    for _ in 0..1_000_010 {
        match iri("p", Some(1)).resolve(&mut acquired) {
            Err(RenderingError::LimitExceeded(ImplementationLimit::TooManyReferencedElements)) => {
                limited = true;
                break;
            },
            Ok(PaintSource::Pattern(..)) => {},
            _ => panic!("unexpected paint source"),
        }
    }
    assert!(limited);
}
