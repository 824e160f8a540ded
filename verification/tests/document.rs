use librsvg::document::{
    AcquiredNodes, DocumentBuilder, LoadOptions, Node, NodeId, NodeStack,
    MAX_REFERENCED_ELEMENTS,
};
use librsvg::error::{AcquireError, NodeIdError};

#[test]
fn parses_node_id() {
    assert_eq!(
        NodeId::parse("#foo").unwrap(),
        NodeId::Internal("foo".to_string())
    );

    assert_eq!(
        NodeId::parse("uri#foo").unwrap(),
        NodeId::External("uri".to_string(), "foo".to_string())
    );

    assert!(matches!(
        NodeId::parse("uri"),
        Err(NodeIdError::NodeIdRequired)
    ));
}

#[test]
fn node_id_needs_a_fragment() {
    assert!(matches!(NodeId::parse("uri#"), Err(NodeIdError::NodeIdRequired)));
    assert!(matches!(NodeId::parse("#"), Err(NodeIdError::NodeIdRequired)));
    assert_eq!(
        NodeId::parse("a#b#c").unwrap(),
        NodeId::External("a#b".to_string(), "c".to_string())
    );
    assert_eq!(NodeId::parse("uri#foo").unwrap().to_string(), "uri#foo");
}

#[test]
fn node_stack_push_pop() {
    let mut s = NodeStack::new();
    let a = Node { doc: 0, index: 1 };
    let b = Node { doc: 0, index: 2 };
    assert!(!s.contains(&a));
    s.push(&a);
    s.push(&b);
    assert!(s.contains(&a) && s.contains(&b));
    assert_eq!(s.pop(), Some(b));
    assert!(!s.contains(&b));
    assert_eq!(s.pop(), Some(a));
    assert_eq!(s.pop(), None);
}

fn attrs(list: &[(&str, &str)]) -> Vec<(String, String)> {
    list.iter().map(|(n, v)| (n.to_string(), v.to_string())).collect()
}

type Builder = DocumentBuilder<String>;

#[test]
fn acquiring_detects_circular_references() {
    let mut b = Builder::new(LoadOptions { unlimited_size: false, keep_image_data: false });
    let svg = b.append_element("svg", attrs(&[]), None);
    let pattern = b.append_element("pattern", attrs(&[("id", "foo")]), Some(svg));
    let _rect = b.append_element("rect", attrs(&[("id", "r"), ("fill", "url(#foo)")]), Some(pattern));
    let doc = b.build().unwrap();

    let mut nodes = AcquiredNodes::new(&doc);
    let foo = NodeId::parse("#foo").unwrap();
    let held = nodes.acquire(&foo).unwrap();
    assert_eq!(*held.get(), pattern);
    assert!(matches!(nodes.acquire(&foo), Err(AcquireError::CircularReference(n)) if n == pattern));
    nodes.release(held);
    let again = nodes.acquire(&foo).unwrap();
    assert_eq!(*again.get(), pattern);
    nodes.release(again);

    // A rect is not accessed by reference: it can be acquired while held.
    let r = NodeId::parse("#r").unwrap();
    let r1 = nodes.acquire(&r).unwrap();
    let r2 = nodes.acquire(&r).unwrap();
    assert_eq!(r1.get(), r2.get());

    assert!(matches!(nodes.acquire(&NodeId::parse("#nothere").unwrap()), Err(AcquireError::LinkNotFound(_))));
}

#[test]
fn acquiring_an_element_with_text_works() {
    let mut b = Builder::new(LoadOptions { unlimited_size: false, keep_image_data: false });
    let mut svg = b.append_element("svg", attrs(&[("id", "top")]), None);
    b.append_characters("hello", &mut svg);
    let doc = b.build().unwrap();
    let mut nodes = AcquiredNodes::new(&doc);
    assert!(nodes.acquire(&NodeId::parse("#top").unwrap()).is_ok());
}

#[test]
fn acquiring_too_many_references_fails() {
    let mut b = Builder::new(LoadOptions { unlimited_size: false, keep_image_data: false });
    let svg = b.append_element("svg", attrs(&[]), None);
    let _g = b.append_element("g", attrs(&[("id", "g")]), Some(svg));
    let doc = b.build().unwrap();
    let mut nodes = AcquiredNodes::new(&doc);
    let g = NodeId::parse("#g").unwrap();
    for _ in 0..MAX_REFERENCED_ELEMENTS {
        assert!(nodes.acquire(&g).is_ok());
    }
    assert!(matches!(nodes.acquire(&g), Err(AcquireError::MaxReferencesExceeded)));
}

#[test]
fn first_id_wins_and_root_must_be_svg() {
    let mut b = Builder::new(LoadOptions { unlimited_size: false, keep_image_data: false });
    let svg = b.append_element("svg", attrs(&[]), None);
    let first = b.append_element("g", attrs(&[("id", "x")]), Some(svg));
    let _second = b.append_element("rect", attrs(&[("id", "x")]), Some(svg));
    let doc = b.build().unwrap();
    assert_eq!(doc.lookup_internal_node("x"), Some(first));
    assert_eq!(doc.lookup_internal_node("y"), None);

    let mut b = Builder::new(LoadOptions { unlimited_size: false, keep_image_data: false });
    let _g = b.append_element("g", attrs(&[]), None);
    assert!(b.build().is_err());
}

#[test]
fn loader_options_are_set_the_builder_way() {
    let l = librsvg::api::Loader::new();
    assert_eq!(l.load_options(), LoadOptions { unlimited_size: false, keep_image_data: false });
    let l = l.with_unlimited_size(true).keep_image_data(true);
    assert_eq!(l.load_options(), LoadOptions { unlimited_size: true, keep_image_data: true });
    assert_eq!(
        l.with_unlimited_size(false).load_options(),
        LoadOptions { unlimited_size: false, keep_image_data: true }
    );
}
