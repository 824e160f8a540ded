use librsvg::document::{AcquiredNodes, DocumentBuilder, LoadOptions, NodeId};
use librsvg::drawing_ctx::{
    acquire_use_target, clip_path_children, element_can_be_used_inside_clip_path,
    element_can_be_used_inside_use_inside_clip_path, link_tag_attributes, UseTarget,
};
use librsvg::error::{AcquireError, ImplementationLimit, RenderingError};
use librsvg::filter::acquire_filter_node;
use librsvg::filters::FilterResolveError;

fn attrs(list: &[(&str, &str)]) -> Vec<(String, String)> {
    list.iter().map(|(n, v)| (n.to_string(), v.to_string())).collect()
}

fn options() -> LoadOptions {
    LoadOptions { unlimited_size: false, keep_image_data: false }
}

#[test]
fn shapes_and_text_can_be_used_in_clip_paths() {
    for name in ["circle", "ellipse", "line", "path", "polygon", "polyline", "rect", "text"] {
        assert!(element_can_be_used_inside_clip_path(name));
        assert!(element_can_be_used_inside_use_inside_clip_path(name));
    }
    assert!(element_can_be_used_inside_clip_path("use"));
    assert!(!element_can_be_used_inside_use_inside_clip_path("use"));
    for name in ["g", "image", "svg", "Rect"] {
        assert!(!element_can_be_used_inside_clip_path(name));
        assert!(!element_can_be_used_inside_use_inside_clip_path(name));
    }
}

#[test]
fn clip_path_draws_only_usable_children_in_order() {
    let mut b = DocumentBuilder::<String>::new(options());
    let svg = b.append_element("svg", attrs(&[]), None);
    let clip = b.append_element("clipPath", attrs(&[("id", "c")]), Some(svg));
    let rect = b.append_element("rect", attrs(&[]), Some(clip));
    b.append_element("g", attrs(&[]), Some(clip));
    let mut clip_node = clip;
    b.append_characters("text between", &mut clip_node);
    let u = b.append_element("use", attrs(&[]), Some(clip));
    let circle = b.append_element("circle", attrs(&[]), Some(clip));
    let doc = b.build().unwrap();
    assert_eq!(
        clip_path_children(doc.tree_ref(), clip.index),
        vec![rect.index, u.index, circle.index]
    );
}

#[test]
fn use_draws_its_target_and_holds_it() {
    let mut b = DocumentBuilder::<String>::new(options());
    let svg = b.append_element("svg", attrs(&[]), None);
    let rect = b.append_element("rect", attrs(&[("id", "r")]), Some(svg));
    let symbol = b.append_element("symbol", attrs(&[("id", "s")]), Some(svg));
    let u = b.append_element("use", attrs(&[("href", "#r")]), Some(svg));
    let doc = b.build().unwrap();

    let mut acquired = AcquiredNodes::new(&doc);
    let link = NodeId::Internal("r".to_string());
    match acquire_use_target(&mut acquired, &u, &link, false, false).unwrap() {
        UseTarget::Element { use_node, target, child, is_symbol } => {
            assert_eq!(child, rect);
            assert!(!is_symbol);
            // while the <use> is held, using it again is a cycle
            assert!(matches!(
                acquire_use_target(&mut acquired, &u, &link, false, false),
                Ok(UseTarget::Nothing)
            ));
            acquired.release(target);
            acquired.release(use_node);
        }
        UseTarget::Nothing => panic!("expected the target"),
    }

    let link = NodeId::Internal("s".to_string());
    match acquire_use_target(&mut acquired, &u, &link, false, false).unwrap() {
        UseTarget::Element { child, is_symbol, .. } => {
            assert_eq!(child, symbol);
            assert!(is_symbol);
        }
        UseTarget::Nothing => panic!("expected the symbol"),
    }
}

#[test]
fn use_draws_nothing_for_missing_empty_or_unclippable_targets() {
    let mut b = DocumentBuilder::<String>::new(options());
    let svg = b.append_element("svg", attrs(&[]), None);
    b.append_element("g", attrs(&[("id", "g")]), Some(svg));
    b.append_element("rect", attrs(&[("id", "r")]), Some(svg));
    let u = b.append_element("use", attrs(&[]), Some(svg));
    let doc = b.build().unwrap();

    let mut acquired = AcquiredNodes::new(&doc);
    let missing = NodeId::Internal("missing".to_string());
    assert!(matches!(
        acquire_use_target(&mut acquired, &u, &missing, false, false),
        Ok(UseTarget::Nothing)
    ));
    let r = NodeId::Internal("r".to_string());
    assert!(matches!(acquire_use_target(&mut acquired, &u, &r, true, false), Ok(UseTarget::Nothing)));
    let g = NodeId::Internal("g".to_string());
    assert!(matches!(acquire_use_target(&mut acquired, &u, &g, false, true), Ok(UseTarget::Nothing)));
    assert!(matches!(
        acquire_use_target(&mut acquired, &u, &r, false, true),
        Ok(UseTarget::Element { .. })
    ));
}

#[test]
fn use_fails_past_the_reference_limit() {
    let mut b = DocumentBuilder::<String>::new(options());
    let svg = b.append_element("svg", attrs(&[]), None);
    b.append_element("rect", attrs(&[("id", "r")]), Some(svg));
    let u = b.append_element("use", attrs(&[]), Some(svg));
    let doc = b.build().unwrap();

    let mut acquired = AcquiredNodes::new(&doc);
    let r = NodeId::Internal("r".to_string());
    for _ in 0..librsvg::document::MAX_REFERENCED_ELEMENTS {
        let a = acquired.acquire(&r).unwrap();
        acquired.release(a);
    }
    assert!(matches!(acquired.acquire(&r), Err(AcquireError::MaxReferencesExceeded)));
    assert_eq!(
        acquire_use_target(&mut acquired, &u, &r, false, false).err(),
        Some(RenderingError::LimitExceeded(ImplementationLimit::TooManyReferencedElements))
    );
}

#[test]
fn filter_references_must_name_valid_filters() {
    let mut b = DocumentBuilder::<String>::new(options());
    let svg = b.append_element("svg", attrs(&[]), None);
    let f = b.append_element("filter", attrs(&[("id", "f"), ("x", "5")]), Some(svg));
    b.append_element("filter", attrs(&[("id", "bad"), ("filterUnits", "pixels")]), Some(svg));
    b.append_element("rect", attrs(&[("id", "r")]), Some(svg));
    let doc = b.build().unwrap();

    let mut acquired = AcquiredNodes::new(&doc);
    let a = acquire_filter_node(&mut acquired, &NodeId::Internal("f".to_string())).unwrap();
    assert_eq!(*a.get(), f);
    acquired.release(a);
    assert_eq!(
        acquire_filter_node(&mut acquired, &NodeId::Internal("bad".to_string())).err(),
        Some(FilterResolveError::ChildNodeInError)
    );
    assert_eq!(
        acquire_filter_node(&mut acquired, &NodeId::Internal("r".to_string())).err(),
        Some(FilterResolveError::ReferenceToNonFilterElement)
    );
    assert_eq!(
        acquire_filter_node(&mut acquired, &NodeId::Internal("nothing".to_string())).err(),
        Some(FilterResolveError::ReferenceToNonFilterElement)
    );
    // the filter was released each time, so it can be acquired again
    assert!(acquire_filter_node(&mut acquired, &NodeId::Internal("f".to_string())).is_ok());
}

#[test]
fn link_targets_are_escaped_inside_the_uri() {
    assert_eq!(link_tag_attributes("https://example.com/"), "uri='https://example.com/'");
    assert_eq!(link_tag_attributes("a'b"), "uri='a\\'b'");
    assert_eq!(link_tag_attributes("c:\\dir\\'x'"), "uri='c:\\\\dir\\\\\\'x\\''");
    assert_eq!(link_tag_attributes(""), "uri=''");
}

/// Reads the quoted `uri` of link tag attributes back, dropping each escaping backslash.
fn read_uri(attrs: &str) -> String {
    let inner = attrs.strip_prefix("uri='").unwrap().strip_suffix('\'').unwrap();
    let mut out = String::new();
    let mut chars = inner.chars();
    while let Some(c) = chars.next() {
        if c == '\\' {
            out.push(chars.next().unwrap());
        } else {
            assert_ne!(c, '\'');
            out.push(c);
        }
    }
    out
}

#[test]
fn escaped_link_targets_read_back() {
    for target in ["plain", "it's", "\\", "''\\\\'", "a\\'b"] {
        assert_eq!(read_uri(&link_tag_attributes(target)), target);
    }
}
