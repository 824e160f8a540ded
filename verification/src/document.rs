//! Main SVG document structure: the tree of nodes, `id` lookups, and the bookkeeping
//! that detects circular references between elements.

use vstd::prelude::*;

use crate::error::{AcquireError, LoadingError, NodeIdError};
use crate::strings::{chars_of, str_eq};
use vstd::string::{StrSliceExecFns, StringExecFns};

verus! {

broadcast use vstd::seq_lib::group_seq_properties;

/// Maximum number of elements that can be referenced through `url(#id)` or `href`
/// while rendering a document.
pub const MAX_REFERENCED_ELEMENTS: usize = 500000;

/// Maximum number of elements that can be loaded from an XML document.
pub const MAX_LOADED_ELEMENTS: usize = 1000000;

/// Identifier of a node
#[derive(Debug, PartialEq, Eq)]
pub enum NodeId {
    /// element id
    Internal(String),
    /// url, element id
    External(String, String),
}

/// The parts of a node identifier: the URL, if any, and the element id.
pub type NodeIdView = (Option<Seq<char>>, Seq<char>);

impl NodeId {
    pub open spec fn view(&self) -> NodeIdView {
        match self {
            NodeId::Internal(id) => (None, id@),
            NodeId::External(url, id) => (Some(url@), id@),
        }
    }
}

/// Index of the last occurrence of `ch` in `c[..end]`.
pub open spec fn rfind(c: Seq<char>, ch: char, end: int) -> Option<int>
    decreases end,
{
    if end <= 0 {
        None
    } else if c[end - 1] == ch {
        Some(end - 1)
    } else {
        rfind(c, ch, end - 1)
    }
}

/// What `href` names: the part after the last `#` is the element id, which must not be
/// empty; the part before it, if not empty, is the URL of another document.
pub open spec fn node_id_spec(href: Seq<char>) -> Option<NodeIdView> {
    match rfind(href, '#', href.len() as int) {
        None => None,
        Some(p) => {
            let id = href.subrange(p + 1, href.len() as int);
            if id.len() == 0 {
                None
            } else if p == 0 {
                Some((None, id))
            } else {
                Some((Some(href.subrange(0, p)), id))
            }
        },
    }
}

proof fn lemma_rfind(c: Seq<char>, ch: char, end: int)
    requires
        0 <= end <= c.len(),
    ensures
        rfind(c, ch, end) matches Some(p) ==> 0 <= p < end && c[p] == ch,
    decreases end,
{
    if end > 0 && c[end - 1] != ch {
        lemma_rfind(c, ch, end - 1);
    }
}

impl NodeId {
    pub fn parse(href: &str) -> (r: Result<NodeId, NodeIdError>)
        ensures
            match r {
                Ok(id) => node_id_spec(href@) == Some(id.view()),
                Err(_) => node_id_spec(href@) is None,
            },
    {
        let chars = chars_of(href);
        let len = chars.len();
        let mut i = len;
        while i > 0 && chars[i - 1] != '#'
            invariant
                i <= len,
                len == chars@.len(),
                chars@ == href@,
                rfind(href@, '#', i as int) == rfind(href@, '#', len as int),
            decreases i,
        {
            i = i - 1;
        }
        proof {
            lemma_rfind(href@, '#', len as int);
        }
        if i == 0 {
            return Err(NodeIdError::NodeIdRequired);
        }
        let p = i - 1;
        if p + 1 == len {
            assert(href@.subrange(p + 1, len as int).len() == 0);
            return Err(NodeIdError::NodeIdRequired);
        }
        let id = href.substring_char(p + 1, len).to_owned();
        if p == 0 {
            Ok(NodeId::Internal(id))
        } else {
            let url = href.substring_char(0, p).to_owned();
            Ok(NodeId::External(url, id))
        }
    }

    /// A copy of this identifier.
    pub fn duplicate(&self) -> (r: NodeId)
        ensures
            r.view() == self.view(),
    {
        match self {
            NodeId::Internal(id) => NodeId::Internal(id.clone()),
            NodeId::External(url, id) => NodeId::External(url.clone(), id.clone()),
        }
    }

    /// The textual form of the identifier: `#id` or `url#id`.
    pub fn to_string(&self) -> (s: String)
        ensures
            s@ == node_id_text(self.view()),
    {
        match self {
            NodeId::Internal(id) => {
                let mut s = String::from_str("#");
                proof {
                    reveal_strlit("#");
                }
                s.append(id.as_str());
                s
            },
            NodeId::External(url, id) => {
                let mut s = url.clone();
                s.append("#");
                proof {
                    reveal_strlit("#");
                }
                s.append(id.as_str());
                s
            },
        }
    }
}

/// The text of a node identifier: `#id`, or `url#id`.
pub open spec fn node_id_text(v: NodeIdView) -> Seq<char> {
    match v {
        (None, id) => seq!['#'] + id,
        (Some(url), id) => url + seq!['#'] + id,
    }
}

proof fn lemma_rfind_last(c: Seq<char>, ch: char, p: int, end: int)
    requires
        0 <= p < end <= c.len(),
        c[p] == ch,
        forall|k: int| p < k < end ==> c[k] != ch,
    ensures
        rfind(c, ch, end) == Some(p),
    decreases end - p,
{
    if end - 1 > p {
        lemma_rfind_last(c, ch, p, end - 1);
    }
}

/// Parsing the text of an identifier gives the identifier back, when its element id is
/// not empty and has no `#`, and its URL, if any, is not empty.
pub proof fn lemma_node_id_roundtrip(v: NodeIdView)
    requires
        v.1.len() > 0,
        !v.1.contains('#'),
        v.0 matches Some(url) ==> url.len() > 0,
    ensures
        node_id_spec(node_id_text(v)) == Some(v),
{
    let t = node_id_text(v);
    let p = t.len() - v.1.len() - 1;
    assert(t[p] == '#');
    assert forall|k: int| p < k < t.len() implies t[k] != '#' by {
        assert(t[k] == v.1[k - p - 1]);
    }
    lemma_rfind_last(t, '#', p, t.len() as int);
    assert(t.subrange(p + 1, t.len() as int) =~= v.1);
    match v.0 {
        Some(url) => {
            assert(t.subrange(0, p) =~= url);
        },
        None => {},
    }
}

// ---------------------------------------------------------------------------
// Nodes and the tree

/// A node of a document: the document it belongs to (`0` for the main document, `k` for
/// the `k`-th external document registered with it) and its index in that document.
#[derive(Debug, Clone, Copy, PartialEq, Eq, Structural)]
pub struct Node {
    pub doc: usize,
    pub index: usize,
}

/// What a node holds.
#[derive(Debug)]
pub enum NodeKind {
    /// An element with its local name, its `id` attribute and all its attributes.
    Element { name: String, id: Option<String>, attributes: Vec<(String, String)> },
    /// Character data; its text is the concatenation of the pieces appended to it.
    Chars,
}

/// Spec-level view of what a node holds.
pub enum NodeKindView {
    Element { name: Seq<char>, id: Option<Seq<char>> },
    Chars,
}

impl NodeKind {
    pub open spec fn view(&self) -> NodeKindView {
        match self {
            NodeKind::Element { name, id, .. } => NodeKindView::Element {
                name: name@,
                id: match id {
                    Some(i) => Some(i@),
                    None => None,
                },
            },
            NodeKind::Chars => NodeKindView::Chars,
        }
    }
}

/// Local names of the elements that are only used through references (paint servers,
/// clipping paths, masks, markers, filters); acquiring one of them puts it on the
/// stack of nodes used to detect circular references.
pub open spec fn is_accessed_by_reference_name(name: Seq<char>) -> bool {
    name == "clipPath"@ || name == "filter"@ || name == "linearGradient"@ || name == "marker"@
        || name == "mask"@ || name == "pattern"@ || name == "radialGradient"@
}

fn name_is_accessed_by_reference(name: &str) -> (r: bool)
    ensures
        r == is_accessed_by_reference_name(name@),
{
    str_eq(name, "clipPath") || str_eq(name, "filter") || str_eq(name, "linearGradient")
        || str_eq(name, "marker") || str_eq(name, "mask") || str_eq(name, "pattern") || str_eq(
        name,
        "radialGradient",
    )
}

/// A tree of nodes stored in an arena.
pub struct Tree {
    kinds: Vec<NodeKind>,
    parents: Vec<Option<usize>>,
    last_children: Vec<Option<usize>>,
    prev_siblings: Vec<Option<usize>>,
    /// Text appended to character nodes, in order: (node index, text).
    pieces: Vec<(usize, String)>,
}

impl Tree {
    pub closed spec fn len(&self) -> nat {
        self.kinds@.len()
    }

    pub closed spec fn kind(&self, i: int) -> NodeKindView {
        self.kinds@[i].view()
    }

    pub closed spec fn parent(&self, i: int) -> Option<usize> {
        self.parents@[i]
    }

    pub closed spec fn last_child(&self, i: int) -> Option<usize> {
        self.last_children@[i]
    }

    pub closed spec fn prev_sibling(&self, i: int) -> Option<usize> {
        self.prev_siblings@[i]
    }

    /// The pieces of text appended to character nodes, in order.
    pub closed spec fn pieces(&self) -> Seq<(usize, Seq<char>)> {
        self.pieces@.map_values(|p: (usize, String)| (p.0, p.1@))
    }

    pub closed spec fn wf(&self) -> bool {
        &&& self.parents@.len() == self.kinds@.len()
        &&& self.last_children@.len() == self.kinds@.len()
        &&& self.prev_siblings@.len() == self.kinds@.len()
        &&& forall|i: int|
            0 <= i < self.kinds@.len() ==> (#[trigger] self.parents@[i] matches Some(p) ==> p
                < self.kinds@.len())
        &&& forall|i: int|
            0 <= i < self.kinds@.len() ==> (#[trigger] self.last_children@[i] matches Some(c) ==> c
                < self.kinds@.len())
        &&& forall|i: int|
            0 <= i < self.kinds@.len() ==> (#[trigger] self.prev_siblings@[i] matches Some(c) ==> c
                < i)
    }

    pub fn new() -> (t: Tree)
        ensures
            t.wf(),
            t.len() == 0,
            t.pieces() == Seq::<(usize, Seq<char>)>::empty(),
    {
        let t = Tree {
            kinds: Vec::new(),
            parents: Vec::new(),
            last_children: Vec::new(),
            prev_siblings: Vec::new(),
            pieces: Vec::new(),
        };
        assert(t.pieces@.map_values(|p: (usize, String)| (p.0, p.1@)) =~= Seq::empty());
        t
    }

    pub fn num_nodes(&self) -> (n: usize)
        ensures
            n == self.len(),
    {
        self.kinds.len()
    }

    /// Adds a node as the last child of `parent`, or as a parentless node.
    pub fn add_node(&mut self, kind: NodeKind, parent: Option<usize>) -> (i: usize)
        requires
            old(self).wf(),
            parent matches Some(p) ==> p < old(self).len(),
            old(self).len() < usize::MAX,
        ensures
            final(self).wf(),
            i == old(self).len(),
            final(self).len() == old(self).len() + 1,
            final(self).kind(i as int) == kind.view(),
            final(self).parent(i as int) == parent,
            final(self).last_child(i as int) is None,
            final(self).prev_sibling(i as int) == match parent {
                Some(p) => old(self).last_child(p as int),
                None => None,
            },
            parent matches Some(p) ==> final(self).last_child(p as int) == Some(i),
            forall|j: int|
                0 <= j < old(self).len() && parent != Some(j as usize) ==> final(self).last_child(j)
                    == old(self).last_child(j),
            forall|j: int|
                0 <= j < old(self).len() ==> final(self).kind(j) == old(self).kind(j)
                    && final(self).parent(j) == old(self).parent(j) && final(self).prev_sibling(j)
                    == old(self).prev_sibling(j),
            final(self).pieces() == old(self).pieces(),
    {
        let i = self.kinds.len();
        let prev = match parent {
            Some(p) => self.last_children[p],
            None => None,
        };
        self.kinds.push(kind);
        self.parents.push(parent);
        self.last_children.push(None);
        self.prev_siblings.push(prev);
        if let Some(p) = parent {
            self.last_children.set(p, Some(i));
        }
        proof {
            assert forall|j: int|
                0 <= j < self.kinds@.len() implies (#[trigger] self.last_children@[j] matches Some(
                c,
            ) ==> c < self.kinds@.len()) by {
                if j < i {
                    if parent != Some(j as usize) {
                        assert(self.last_children@[j] == old(self).last_children@[j]);
                    }
                }
            }
            assert forall|j: int|
                0 <= j < self.kinds@.len() implies (#[trigger] self.parents@[j] matches Some(c)
                ==> c < self.kinds@.len()) by {
                if j < i {
                    assert(self.parents@[j] == old(self).parents@[j]);
                }
            }
            assert forall|j: int|
                0 <= j < self.kinds@.len() implies (#[trigger] self.prev_siblings@[j] matches Some(c)
                ==> c < j) by {
                if j < i {
                    assert(self.prev_siblings@[j] == old(self).prev_siblings@[j]);
                }
            }
        }
        i
    }

    /// Appends a piece of text to the character node `i`.
    pub fn add_piece(&mut self, i: usize, text: String)
        requires
            old(self).wf(),
        ensures
            final(self).wf(),
            final(self).len() == old(self).len(),
            final(self).pieces() == old(self).pieces().push((i, text@)),
            forall|j: int|
                0 <= j < old(self).len() ==> final(self).kind(j) == old(self).kind(j)
                    && final(self).parent(j) == old(self).parent(j) && final(self).last_child(j)
                    == old(self).last_child(j) && final(self).prev_sibling(j) == old(
                    self,
                ).prev_sibling(j),
    {
        let ghost t = text@;
        self.pieces.push((i, text));
        proof {
            assert(self.pieces@.map_values(|p: (usize, String)| (p.0, p.1@)) =~= old(
                self,
            ).pieces@.map_values(|p: (usize, String)| (p.0, p.1@)).push((i, t)));
        }
    }

    pub fn is_element(&self, i: usize) -> (r: bool)
        requires
            i < self.len(),
        ensures
            r == (self.kind(i as int) is Element),
    {
        match &self.kinds[i] {
            NodeKind::Element { .. } => true,
            NodeKind::Chars => false,
        }
    }

    pub fn is_chars(&self, i: usize) -> (r: bool)
        requires
            i < self.len(),
        ensures
            r == (self.kind(i as int) is Chars),
    {
        match &self.kinds[i] {
            NodeKind::Element { .. } => false,
            NodeKind::Chars => true,
        }
    }

    pub fn last_child_of(&self, i: usize) -> (r: Option<usize>)
        requires
            i < self.len(),
            self.wf(),
        ensures
            r == self.last_child(i as int),
            r matches Some(c) ==> c < self.len(),
    {
        self.last_children[i]
    }

    /// The attributes of node `i`, if it is an element: (name, value) pairs in order.
    pub closed spec fn attributes(&self, i: int) -> Option<Seq<(Seq<char>, Seq<char>)>> {
        match self.kinds@[i] {
            NodeKind::Element { attributes, .. } => Some(
                attributes@.map_values(|a: (String, String)| (a.0@, a.1@)),
            ),
            NodeKind::Chars => None,
        }
    }

    pub fn prev_sibling_of(&self, i: usize) -> (r: Option<usize>)
        requires
            i < self.len(),
            self.wf(),
        ensures
            r == self.prev_sibling(i as int),
            r matches Some(c) ==> c < i,
    {
        self.prev_siblings[i]
    }

    /// The attributes of node `i`, if it is an element.
    pub fn element_attributes(&self, i: usize) -> (r: Option<&Vec<(String, String)>>)
        requires
            i < self.len(),
        ensures
            match r {
                Some(a) => self.attributes(i as int) == Some(
                    a@.map_values(|a: (String, String)| (a.0@, a.1@)),
                ),
                None => self.attributes(i as int) is None,
            },
            r is Some <==> self.kind(i as int) is Element,
    {
        match &self.kinds[i] {
            NodeKind::Element { attributes, .. } => Some(attributes),
            NodeKind::Chars => None,
        }
    }

    /// The local name of node `i`, if it is an element.
    pub fn element_name(&self, i: usize) -> (r: Option<&String>)
        requires
            i < self.len(),
        ensures
            match self.kind(i as int) {
                NodeKindView::Element { name, .. } => (r matches Some(n) && n@ == name),
                NodeKindView::Chars => r is None,
            },
    {
        match &self.kinds[i] {
            NodeKind::Element { name, .. } => Some(name),
            NodeKind::Chars => None,
        }
    }

    /// Whether node `i` is an element with the local name `name`.
    pub fn is_element_named(&self, i: usize, name: &str) -> (r: bool)
        requires
            i < self.len(),
        ensures
            r == (self.kind(i as int) matches NodeKindView::Element { name: n, .. } && n == name@),
    {
        match &self.kinds[i] {
            NodeKind::Element { name: n, .. } => str_eq(n.as_str(), name),
            NodeKind::Chars => false,
        }
    }

    /// Whether node `i` is an element that is only used through references.
    pub fn is_accessed_by_reference(&self, i: usize) -> (r: bool)
        requires
            i < self.len(),
        ensures
            r == (self.kind(i as int) matches NodeKindView::Element { name: n, .. }
                && is_accessed_by_reference_name(n)),
    {
        match &self.kinds[i] {
            NodeKind::Element { name: n, .. } => name_is_accessed_by_reference(n.as_str()),
            NodeKind::Chars => false,
        }
    }
}

// ---------------------------------------------------------------------------
// Node stacks

/// Keeps a stack of nodes and can check if a certain node is contained in the stack
///
/// Sometimes parts of the code cannot plainly use the implicit stack of acquired
/// nodes as maintained by DrawingCtx::acquire_node(), and they must keep their
/// own stack of nodes to test for reference cycles.  NodeStack can be used to do that.
pub struct NodeStack(Vec<Node>);

impl View for NodeStack {
    type V = Seq<Node>;

    closed spec fn view(&self) -> Seq<Node> {
        self.0@
    }
}

impl NodeStack {
    pub fn new() -> (s: NodeStack)
        ensures
            s@ == Seq::<Node>::empty(),
    {
        NodeStack(Vec::new())
    }

    pub fn push(&mut self, node: &Node)
        ensures
            final(self)@ == old(self)@.push(*node),
    {
        self.0.push(*node);
    }

    pub fn pop(&mut self) -> (r: Option<Node>)
        ensures
            old(self)@.len() == 0 ==> r is None && final(self)@ == old(self)@,
            old(self)@.len() > 0 ==> r == Some(old(self)@.last()) && final(self)@ == old(
                self,
            )@.drop_last(),
    {
        self.0.pop()
    }

    pub fn contains(&self, node: &Node) -> (r: bool)
        ensures
            r == self@.contains(*node),
    {
        let mut i: usize = 0;
        while i < self.0.len()
            invariant
                i <= self.0@.len(),
                forall|k: int| 0 <= k < i ==> self.0@[k] != *node,
            decreases self.0@.len() - i,
        {
            if self.0[i] == *node {
                return true;
            }
            i = i + 1;
        }
        false
    }
}

/// A node pushed on a stack and then looked up is found there.
pub proof fn lemma_stack_push_contains(s: Seq<Node>, n: Node)
    ensures
        s.push(n).contains(n),
{
    assert(s.push(n)[s.len() as int] == n);
}

/// Popping a stack right after pushing a node gives back that node and the old stack.
pub proof fn lemma_stack_push_pop(s: Seq<Node>, n: Node)
    ensures
        s.push(n).last() == n,
        s.push(n).drop_last() == s,
{
    assert(s.push(n).drop_last() =~= s);
}

// ---------------------------------------------------------------------------
// Documents

/// Options for loading documents.
#[derive(Debug, Clone, Copy, PartialEq, Eq, Structural)]
pub struct LoadOptions {
    /// Whether to turn off size limits.
    pub unlimited_size: bool,
    /// Whether to keep the original (undecoded) image data to embed in output files.
    pub keep_image_data: bool,
}

/// The index of the node registered under `id` in `ids`: the first registration wins.
pub open spec fn lookup_id(ids: Seq<(Seq<char>, usize)>, id: Seq<char>) -> Option<usize>
    decreases ids.len(),
{
    if ids.len() == 0 {
        None
    } else if ids[0].0 == id {
        Some(ids[0].1)
    } else {
        lookup_id(ids.drop_first(), id)
    }
}

proof fn lemma_lookup_id_push(ids: Seq<(Seq<char>, usize)>, e: (Seq<char>, usize), id: Seq<char>)
    ensures
        lookup_id(ids.push(e), id) == match lookup_id(ids, id) {
            Some(n) => Some(n),
            None => if e.0 == id {
                Some(e.1)
            } else {
                None
            },
        },
    decreases ids.len(),
{
    if ids.len() > 0 {
        assert(ids.push(e).drop_first() =~= ids.drop_first().push(e));
        lemma_lookup_id_push(ids.drop_first(), e, id);
    } else {
        assert(ids.push(e).drop_first() =~= Seq::<(Seq<char>, usize)>::empty());
    }
}

proof fn lemma_lookup_id_bound(ids: Seq<(Seq<char>, usize)>, id: Seq<char>, n: nat)
    requires
        forall|k: int| 0 <= k < ids.len() ==> (#[trigger] ids[k]).1 < n,
    ensures
        lookup_id(ids, id) matches Some(i) ==> i < n,
    decreases ids.len(),
{
    if ids.len() > 0 && ids[0].0 != id {
        lemma_lookup_id_bound(ids.drop_first(), id, n);
    }
}

proof fn lemma_lookup_id_in(ids: Seq<(Seq<char>, usize)>, id: Seq<char>)
    ensures
        lookup_id(ids, id) matches Some(i) ==> exists|k: int| 0 <= k < ids.len() && (#[trigger] ids[k]).1 == i,
    decreases ids.len(),
{
    if ids.len() > 0 {
        if ids[0].0 == id {
            assert(ids[0].1 == ids[0].1);
        } else {
            lemma_lookup_id_in(ids.drop_first(), id);
            match lookup_id(ids.drop_first(), id) {
                Some(i) => {
                    let k = choose|k: int| 0 <= k < ids.drop_first().len() && (#[trigger] ids.drop_first()[k]).1 == i;
                    assert(ids[k + 1].1 == i);
                },
                None => {},
            }
        }
    }
}

/// Finds the node registered under `id`.
fn find_id(ids: &Vec<(String, usize)>, id: &str) -> (r: Option<usize>)
    ensures
        r == lookup_id(ids@.map_values(|e: (String, usize)| (e.0@, e.1)), id@),
{
    let ghost v = ids@.map_values(|e: (String, usize)| (e.0@, e.1));
    let mut i: usize = 0;
    while i < ids.len()
        invariant
            i <= ids@.len(),
            v == ids@.map_values(|e: (String, usize)| (e.0@, e.1)),
            lookup_id(v, id@) == lookup_id(v.skip(i as int), id@),
        decreases ids@.len() - i,
    {
        if str_eq(ids[i].0.as_str(), id) {
            return Some(ids[i].1);
        }
        assert(v.skip(i as int).drop_first() =~= v.skip(i + 1));
        i = i + 1;
    }
    assert(v.skip(i as int).len() == 0);
    None
}

/// Used to build a tree of SVG nodes while an XML document is being read.
///
/// This struct holds the document-related state while loading an SVG document from XML:
/// the loading options, the partially-built tree of nodes, the CSS stylesheets that
/// appear while loading the document.
///
/// The XML loader asks a `DocumentBuilder` to
/// [`append_element`][DocumentBuilder::append_element],
/// [`append_characters`][DocumentBuilder::append_characters], etc.  When all the XML has
/// been consumed, the caller can use [`build`][DocumentBuilder::build] to get a
/// fully-loaded [`Document`].
pub struct DocumentBuilder<S> {
    /// Loading options.
    load_options: LoadOptions,
    /// Root node of the tree.
    tree: Option<usize>,
    /// The nodes.
    nodes: Tree,
    /// Mapping from `id` attributes to nodes.
    ids: Vec<(String, usize)>,
    /// Stylesheets defined in the document.
    stylesheets: Vec<S>,
}

impl<S> DocumentBuilder<S> {
    pub closed spec fn root(&self) -> Option<usize> {
        self.tree
    }

    pub closed spec fn tree(&self) -> Tree {
        self.nodes
    }

    pub closed spec fn ids(&self) -> Seq<(Seq<char>, usize)> {
        self.ids@.map_values(|e: (String, usize)| (e.0@, e.1))
    }

    pub closed spec fn stylesheets(&self) -> Seq<S> {
        self.stylesheets@
    }

    pub closed spec fn options(&self) -> LoadOptions {
        self.load_options
    }

    pub closed spec fn wf(&self) -> bool {
        &&& self.nodes.wf()
        &&& (self.tree matches Some(r) ==> r < self.nodes.len())
        &&& forall|k: int|
            0 <= k < self.ids@.len() ==> (#[trigger] self.ids@[k]).1 < self.nodes.len()
                && self.nodes.kind(self.ids@[k].1 as int) is Element
    }

    pub fn new(load_options: LoadOptions) -> (b: DocumentBuilder<S>)
        ensures
            b.wf(),
            b.root() is None,
            b.tree().len() == 0,
            b.ids() == Seq::<(Seq<char>, usize)>::empty(),
            b.stylesheets() == Seq::<S>::empty(),
            b.options() == load_options,
    {
        let b = DocumentBuilder {
            load_options,
            tree: None,
            nodes: Tree::new(),
            ids: Vec::new(),
            stylesheets: Vec::new(),
        };
        assert(b.ids@.map_values(|e: (String, usize)| (e.0@, e.1)) =~= Seq::empty());
        b
    }

    /// Adds a stylesheet in order to the document.
    ///
    /// Stylesheets will later be matched in the order in which they were added.
    pub fn append_stylesheet(&mut self, stylesheet: S)
        ensures
            final(self).stylesheets() == old(self).stylesheets().push(stylesheet),
            final(self).root() == old(self).root(),
            final(self).tree() == old(self).tree(),
            final(self).ids() == old(self).ids(),
            final(self).options() == old(self).options(),
            old(self).wf() ==> final(self).wf(),
    {
        self.stylesheets.push(stylesheet);
    }

    /// Creates an element with the local name `name` and the attributes `attrs` as a
    /// child of `parent`, or as the root of the tree if `parent` is `None`.
    ///
    /// This is the main function to create new SVG elements while parsing XML.  The
    /// element's `id` attribute, if any, is registered unless another element already
    /// has that id.
    pub fn append_element(
        &mut self,
        name: &str,
        attrs: Vec<(String, String)>,
        parent: Option<Node>,
    ) -> (node: Node)
        requires
            old(self).wf(),
            old(self).tree().len() < usize::MAX,
            parent matches Some(p) ==> p.doc == 0 && p.index < old(self).tree().len(),
            parent is None ==> old(self).root() is None,
        ensures
            final(self).wf(),
            node == (Node { doc: 0, index: old(self).tree().len() as usize }),
            final(self).tree().len() == old(self).tree().len() + 1,
            final(self).tree().kind(node.index as int) matches NodeKindView::Element { name: n, id }
                && n == name@ && id == attr_value(
                attrs@.map_values(|a: (String, String)| (a.0@, a.1@)),
                "id"@,
            ),
            final(self).tree().parent(node.index as int) == match parent {
                Some(p) => Some(p.index),
                None => None,
            },
            final(self).root() == match parent {
                Some(_) => old(self).root(),
                None => Some(node.index),
            },
            final(self).ids() == match attr_value(
                attrs@.map_values(|a: (String, String)| (a.0@, a.1@)),
                "id"@,
            ) {
                Some(id) => if lookup_id(old(self).ids(), id) is None {
                    old(self).ids().push((id, node.index))
                } else {
                    old(self).ids()
                },
                None => old(self).ids(),
            },
            final(self).stylesheets() == old(self).stylesheets(),
    {
        let id = find_attribute(&attrs, "id");
        let ghost idv = match id {
            Some(ref i) => Some(i@),
            None => None,
        };
        let id_for_table = match &id {
            Some(i) => Some(i.clone()),
            None => None,
        };
        let owned_name = name.to_owned();
        let parent_index = match parent {
            Some(p) => Some(p.index),
            None => None,
        };
        let index = self.nodes.add_node(
            NodeKind::Element { name: owned_name, id, attributes: attrs },
            parent_index,
        );
        let node = Node { doc: 0, index };

        if let Some(id) = id_for_table {
            // This is so we don't overwrite an existing id
            if find_id(&self.ids, id.as_str()).is_none() {
                let ghost old_ids = self.ids();
                let ghost idval = id@;
                self.ids.push((id, index));
                assert(self.ids() =~= old_ids.push((idval, index)));
            }
        }
        if parent.is_none() {
            self.tree = Some(index);
        }
        node
    }

    /// Creates a node for an XML text element as a child of `parent`.
    ///
    /// When the last child of `parent` is already a character node, the text is appended
    /// to it instead.  Empty text creates nothing.
    pub fn append_characters(&mut self, text: &str, parent: &mut Node)
        requires
            old(self).wf(),
            old(self).tree().len() < usize::MAX,
            old(parent).doc == 0,
            old(parent).index < old(self).tree().len(),
        ensures
            final(self).wf(),
            *final(parent) == *old(parent),
            text@.len() == 0 ==> final(self).tree() == old(self).tree(),
            text@.len() > 0 ==> match old(self).tree().last_child(old(parent).index as int) {
                Some(c) => if old(self).tree().kind(c as int) is Chars {
                    final(self).tree().len() == old(self).tree().len() && final(self).tree().pieces()
                        == old(self).tree().pieces().push((c, text@))
                } else {
                    new_chars_child(old(self).tree(), final(self).tree(), old(parent).index, text@)
                },
                None => new_chars_child(
                    old(self).tree(),
                    final(self).tree(),
                    old(parent).index,
                    text@,
                ),
            },
            final(self).root() == old(self).root(),
            final(self).ids() == old(self).ids(),
            final(self).stylesheets() == old(self).stylesheets(),
    {
        if !text.is_empty() {
            // When the last child is a Chars node we can coalesce
            // the text and avoid screwing up the Pango layouts
            let last = self.nodes.last_child_of(parent.index);
            match last {
                Some(c) => {
                    if self.nodes.is_chars(c) {
                        self.nodes.add_piece(c, text.to_owned());
                        return ;
                    }
                },
                None => {},
            }
            let i = self.nodes.add_node(NodeKind::Chars, Some(parent.index));
            self.nodes.add_piece(i, text.to_owned());
        }
    }

    /// Does the final validation on the `Document` being read, and returns it.
    ///
    /// The root must be an `svg` element.
    pub fn build(self) -> (r: Result<Document<S>, LoadingError>)
        requires
            self.wf(),
        ensures
            match r {
                Ok(doc) => {
                    &&& self.root() matches Some(root)
                    &&& self.tree().kind(root as int) matches NodeKindView::Element { name, .. }
                    &&& name == "svg"@
                    &&& doc.wf()
                    &&& doc.root() == (Node { doc: 0, index: root })
                    &&& doc.tree() == self.tree()
                    &&& doc.ids() == self.ids()
                    &&& doc.stylesheets() == self.stylesheets()
                },
                Err(e) => e == LoadingError::NoSvgRoot && !(self.root() matches Some(root)
                    && self.tree().kind(root as int) matches NodeKindView::Element { name, .. }
                    && name == "svg"@),
            },
    {
        let DocumentBuilder { load_options, tree, nodes, ids, stylesheets } = self;

        match tree {
            Some(root) => {
                if nodes.is_element_named(root, "svg") {
                    Ok(
                        Document {
                            root,
                            nodes,
                            ids,
                            load_options,
                            stylesheets,
                            externs: Vec::new(),
                        },
                    )
                } else {
                    Err(LoadingError::NoSvgRoot)
                }
            },
            None => Err(LoadingError::NoSvgRoot),
        }
    }
}

/// Whether `after` is `before` with one more node: a character node holding `text`,
/// appended as the last child of `parent`.
pub open spec fn new_chars_child(before: Tree, after: Tree, parent: usize, text: Seq<char>) -> bool {
    let i = before.len();
    &&& after.len() == i + 1
    &&& after.kind(i as int) is Chars
    &&& after.parent(i as int) == Some(parent)
    &&& after.last_child(parent as int) == Some(i as usize)
    &&& after.pieces() == before.pieces().push((i as usize, text))
}

/// The value of the first attribute named `name`.
pub open spec fn attr_value(attrs: Seq<(Seq<char>, Seq<char>)>, name: Seq<char>) -> Option<
    Seq<char>,
>
    decreases attrs.len(),
{
    if attrs.len() == 0 {
        None
    } else if attrs[0].0 == name {
        Some(attrs[0].1)
    } else {
        attr_value(attrs.drop_first(), name)
    }
}

fn find_attribute(attrs: &Vec<(String, String)>, name: &str) -> (r: Option<String>)
    ensures
        match r {
            Some(v) => attr_value(attrs@.map_values(|a: (String, String)| (a.0@, a.1@)), name@)
                == Some(v@),
            None => attr_value(attrs@.map_values(|a: (String, String)| (a.0@, a.1@)), name@)
                is None,
        },
{
    let ghost v = attrs@.map_values(|a: (String, String)| (a.0@, a.1@));
    let mut i: usize = 0;
    while i < attrs.len()
        invariant
            i <= attrs@.len(),
            v == attrs@.map_values(|a: (String, String)| (a.0@, a.1@)),
            attr_value(v, name@) == attr_value(v.skip(i as int), name@),
        decreases attrs@.len() - i,
    {
        if str_eq(attrs[i].0.as_str(), name) {
            return Some(attrs[i].1.clone());
        }
        assert(v.skip(i as int).drop_first() =~= v.skip(i + 1));
        i = i + 1;
    }
    assert(v.skip(i as int).len() == 0);
    None
}

/// A loaded SVG file and its derived data.
pub struct Document<S> {
    /// Index of the root node; it is guaranteed to be an `<svg>` element.
    root: usize,
    /// Tree of nodes.
    nodes: Tree,
    /// Mapping from `id` attributes to nodes.
    ids: Vec<(String, usize)>,
    /// Used to load referenced resources.
    load_options: LoadOptions,
    /// Stylesheets defined in the document.
    stylesheets: Vec<S>,
    /// SVG documents referenced from this document, by URL, once loaded.
    externs: Vec<(String, Document<S>)>,
}

impl<S> Document<S> {
    pub closed spec fn root(&self) -> Node {
        Node { doc: 0, index: self.root }
    }

    pub closed spec fn tree(&self) -> Tree {
        self.nodes
    }

    pub closed spec fn ids(&self) -> Seq<(Seq<char>, usize)> {
        self.ids@.map_values(|e: (String, usize)| (e.0@, e.1))
    }

    pub closed spec fn stylesheets(&self) -> Seq<S> {
        self.stylesheets@
    }

    /// The URLs of the external documents registered so far.
    pub closed spec fn extern_urls(&self) -> Seq<Seq<char>> {
        self.externs@.map_values(|e: (String, Document<S>)| e.0@)
    }

    /// The `k`-th external document.
    pub closed spec fn extern_doc(&self, k: int) -> Document<S> {
        self.externs@[k].1
    }

    pub closed spec fn wf(&self) -> bool {
        &&& self.nodes.wf()
        &&& self.root < self.nodes.len()
        &&& self.ids_name_elements()
        &&& self.externs@.len() < usize::MAX
        &&& forall|k: int|
            0 <= k < self.externs@.len() ==> (#[trigger] self.externs@[k]).1.nodes.wf()
                && self.externs@[k].1.ids_name_elements()
    }

    /// Every registered id names an element of the tree.
    pub closed spec fn ids_name_elements(&self) -> bool {
        forall|k: int|
            0 <= k < self.ids@.len() ==> (#[trigger] self.ids@[k]).1 < self.nodes.len()
                && self.nodes.kind(self.ids@[k].1 as int) is Element
    }

    /// In a well-formed document, a node looked up by its id is an element.
    pub proof fn lemma_lookup_names_element(&self, node_id: NodeIdView)
        requires
            self.wf(),
        ensures
            lookup_node_spec(*self, node_id) matches Some(n) ==> self.node_kind(n) matches Some(
                NodeKindView::Element { .. },
            ),
    {
        match node_id {
            (None, id) => {
                lemma_lookup_id_in(self.ids(), id);
                match lookup_id(self.ids(), id) {
                    Some(i) => {
                        let k = choose|k: int| 0 <= k < self.ids().len() && (#[trigger] self.ids()[k]).1 == i;
                        assert(self.ids@[k].1 == i);
                        assert(self.nodes.kind(i as int) is Element);
                        assert(lookup_node_spec(*self, node_id) == Some(Node { doc: 0, index: i }));
                        assert(self.node_kind(Node { doc: 0, index: i }) == Some(self.nodes.kind(i as int)));
                    },
                    None => {},
                }
            },
            (Some(url), id) => {
                lemma_first_index_bound(self.extern_urls(), url);
                match first_index(self.extern_urls(), url) {
                    Some(k) => {
                        let d = self.extern_doc(k);
                        assert(d == self.externs@[k].1);
                        lemma_lookup_id_in(d.ids(), id);
                        match lookup_id(d.ids(), id) {
                            Some(i) => {
                                let j = choose|j: int| 0 <= j < d.ids().len() && (#[trigger] d.ids()[j]).1 == i;
                                assert(d.ids@[j].1 == i);
                                assert(d.nodes.kind(i as int) is Element);
                                let n = Node { doc: (k + 1) as usize, index: i };
                                assert(n.doc - 1 == k);
                                assert(lookup_node_spec(*self, node_id) == Some(n));
                            },
                            None => {},
                        }
                    },
                    None => {},
                }
            },
        }
    }

    /// What a node holds is read from the tree of its document.
    pub proof fn lemma_node_kind_in_tree(&self, node: Node)
        ensures
            self.node_kind(node) == match self.tree_of(node.doc) {
                Some(t) => if node.index < t.len() {
                    Some(t.kind(node.index as int))
                } else {
                    None
                },
                None => None,
            },
    {
    }

    /// What `node` holds, if it names a node of this document or of one of its
    /// registered external documents.
    pub closed spec fn node_kind(&self, node: Node) -> Option<NodeKindView> {
        if node.doc == 0 {
            if node.index < self.nodes.len() {
                Some(self.nodes.kind(node.index as int))
            } else {
                None
            }
        } else if node.doc - 1 < self.externs@.len() {
            let t = self.externs@[node.doc - 1].1.nodes;
            if node.index < t.len() {
                Some(t.kind(node.index as int))
            } else {
                None
            }
        } else {
            None
        }
    }

    /// The tree that holds the nodes of document number `d`, if there is one.
    fn tree_for(&self, d: usize) -> (t: Option<&Tree>)
        ensures
            d == 0 ==> t == Some(&self.nodes),
            d > 0 && d - 1 < self.externs@.len() ==> t == Some(&self.externs@[d - 1].1.nodes),
            d > 0 && d - 1 >= self.externs@.len() ==> t is None,
    {
        if d == 0 {
            Some(&self.nodes)
        } else if d - 1 < self.externs.len() {
            Some(&self.externs[d - 1].1.nodes)
        } else {
            None
        }
    }

    /// The tree that holds the nodes of document number `d`: this document for 0, the
    /// `d`-th registered external document otherwise.
    pub closed spec fn tree_of(&self, d: usize) -> Option<Tree> {
        if d == 0 {
            Some(self.nodes)
        } else if d - 1 < self.externs@.len() {
            Some(self.externs@[d - 1].1.nodes)
        } else {
            None
        }
    }

    /// The attributes of `node`, if it names an element.
    pub open spec fn node_attributes(&self, node: Node) -> Option<Seq<(Seq<char>, Seq<char>)>> {
        match self.tree_of(node.doc) {
            Some(t) => if node.index < t.len() {
                t.attributes(node.index as int)
            } else {
                None
            },
            None => None,
        }
    }

    /// The tree holding the nodes of document number `d`.
    pub fn tree_of_doc(&self, d: usize) -> (t: Option<&Tree>)
        ensures
            t == match self.tree_of(d) {
                Some(x) => Some(&x),
                None => None::<&Tree>,
            },
            self.wf() && t is Some ==> t.unwrap().wf(),
    {
        match self.tree_for(d) {
            Some(t) => Some(t),
            None => None,
        }
    }

    /// The attributes of `node`, if it names an element.
    pub fn attributes_of(&self, node: &Node) -> (r: Option<&Vec<(String, String)>>)
        ensures
            match r {
                Some(a) => self.node_attributes(*node) == Some(
                    a@.map_values(|a: (String, String)| (a.0@, a.1@)),
                ),
                None => self.node_attributes(*node) is None,
            },
    {
        match self.tree_for(node.doc) {
            Some(t) => if node.index < t.num_nodes() {
                t.element_attributes(node.index)
            } else {
                None
            },
            None => None,
        }
    }

    /// The local name of `node`, if it is an element.
    pub fn element_name(&self, node: &Node) -> (r: Option<&String>)
        ensures
            match element_name_of(*self, *node) {
                Some(name) => (r matches Some(n) && n@ == name),
                None => r is None,
            },
    {
        match self.tree_for(node.doc) {
            Some(t) => if node.index < t.num_nodes() {
                t.element_name(node.index)
            } else {
                None
            },
            None => None,
        }
    }

    /// Whether `node` is an element.
    pub fn is_element_node(&self, node: &Node) -> (r: bool)
        ensures
            r == (self.node_kind(*node) matches Some(NodeKindView::Element { .. })),
    {
        match self.tree_for(node.doc) {
            Some(t) => node.index < t.num_nodes() && t.is_element(node.index),
            None => false,
        }
    }

    /// Whether `node` is an element that is only used through references.
    pub fn is_accessed_by_reference(&self, node: &Node) -> (r: bool)
        ensures
            r == (self.node_kind(*node) matches Some(NodeKindView::Element { name, .. })
                && is_accessed_by_reference_name(name)),
    {
        match self.tree_for(node.doc) {
            Some(t) => node.index < t.num_nodes() && t.is_accessed_by_reference(node.index),
            None => false,
        }
    }

    /// The tree of nodes of this document.
    pub fn tree_ref(&self) -> (t: &Tree)
        ensures
            *t == self.tree(),
            self.wf() ==> t.wf(),
    {
        &self.nodes
    }

    /// Gets the root node.  This is guaranteed to be an `<svg>` element.
    pub fn root_node(&self) -> (n: Node)
        ensures
            n == self.root(),
    {
        Node { doc: 0, index: self.root }
    }

    /// Looks up a node in this document by its `id` attribute.
    pub fn lookup_internal_node(&self, id: &str) -> (r: Option<Node>)
        ensures
            r == match lookup_id(self.ids(), id@) {
                Some(i) => Some(Node { doc: 0, index: i }),
                None => None,
            },
    {
        match find_id(&self.ids, id) {
            Some(i) => Some(Node { doc: 0, index: i }),
            None => None,
        }
    }

    /// Registers a loaded external document under its URL.  It gets the document
    /// number `k + 1` where `k` is the number of documents registered before it.
    pub fn add_extern_document(&mut self, url: String, doc: Document<S>)
        ensures
            final(self).extern_urls() == old(self).extern_urls().push(url@),
            final(self).extern_doc(old(self).extern_urls().len() as int) == doc,
            forall|k: int|
                0 <= k < old(self).extern_urls().len() ==> final(self).extern_doc(k) == old(
                    self,
                ).extern_doc(k),
            final(self).root() == old(self).root(),
            final(self).tree() == old(self).tree(),
            final(self).ids() == old(self).ids(),
            old(self).wf() && doc.wf() && old(self).extern_urls().len() + 1 < usize::MAX
                ==> final(self).wf(),
    {
        let ghost u = url@;
        self.externs.push((url, doc));
        assert(self.externs@.map_values(|e: (String, Document<S>)| e.0@) =~= old(
            self,
        ).externs@.map_values(|e: (String, Document<S>)| e.0@).push(u));
    }

    /// Looks up a node in this document or one of its registered external documents
    /// by its `id` attribute.
    pub fn lookup_node(&self, node_id: &NodeId) -> (r: Option<Node>)
        ensures
            r == lookup_node_spec(*self, node_id.view()),
    {
        match node_id {
            NodeId::Internal(id) => self.lookup_internal_node(id.as_str()),
            NodeId::External(url, id) => {
                let mut k: usize = 0;
                let ghost urls = self.extern_urls();
                while k < self.externs.len()
                    invariant
                        k <= self.externs@.len(),
                        urls == self.extern_urls(),
                        node_id.view() == (Some(url@), id@),
                        forall|j: int| 0 <= j < k ==> urls[j] != url@,
                    decreases self.externs@.len() - k,
                {
                    if str_eq(self.externs[k].0.as_str(), url.as_str()) {
                        proof {
                            assert(urls[k as int] == url@);
                            lemma_first_index(urls, url@, k as int);
                            assert(self.extern_doc(k as int) == self.externs@[k as int].1);
                        }
                        let found = self.externs[k].1.lookup_internal_node(id.as_str());
                        return match found {
                            Some(n) => Some(Node { doc: k + 1, index: n.index }),
                            None => None,
                        };
                    }
                    k = k + 1;
                }
                proof {
                    lemma_first_index_none(urls, url@);
                }
                None
            },
        }
    }
}

/// The local name of `node` in `doc`, if it is an element.
pub open spec fn element_name_of<S>(doc: Document<S>, node: Node) -> Option<Seq<char>> {
    match doc.node_kind(node) {
        Some(NodeKindView::Element { name, .. }) => Some(name),
        _ => None,
    }
}

/// Index of the first occurrence of `x` in `s`.
pub open spec fn first_index<A>(s: Seq<A>, x: A) -> Option<int> {
    if exists|i: int| 0 <= i < s.len() && s[i] == x {
        Some(choose|i: int| 0 <= i < s.len() && s[i] == x && forall|j: int| 0 <= j < i ==> s[j] != x)
    } else {
        None
    }
}

proof fn lemma_first_index<A>(s: Seq<A>, x: A, k: int)
    requires
        0 <= k < s.len(),
        s[k] == x,
        forall|j: int| 0 <= j < k ==> s[j] != x,
    ensures
        first_index(s, x) == Some(k),
{
    assert(0 <= k < s.len() && s[k] == x && forall|j: int| 0 <= j < k ==> s[j] != x);
    let c = choose|i: int| 0 <= i < s.len() && s[i] == x && forall|j: int| 0 <= j < i ==> s[j] != x;
    if c < k {
        assert(s[c] != x);
    } else if c > k {
        assert(s[k] != x);
    }
}

proof fn lemma_first_index_bound<A>(s: Seq<A>, x: A)
    ensures
        first_index(s, x) matches Some(k) ==> 0 <= k < s.len() && s[k] == x,
{
    if exists|i: int| 0 <= i < s.len() && s[i] == x {
        let i = choose|i: int| 0 <= i < s.len() && s[i] == x;
        lemma_first_index_witness(s, x, i);
    }
}

proof fn lemma_first_index_witness<A>(s: Seq<A>, x: A, i: int)
    requires
        0 <= i < s.len(),
        s[i] == x,
    ensures
        exists|m: int| 0 <= m < s.len() && s[m] == x && forall|j: int| 0 <= j < m ==> s[j] != x,
    decreases i,
{
    if exists|j: int| 0 <= j < i && s[j] == x {
        let j = choose|j: int| 0 <= j < i && s[j] == x;
        lemma_first_index_witness(s, x, j);
    } else {
        assert(0 <= i < s.len() && s[i] == x && forall|j: int| 0 <= j < i ==> s[j] != x);
    }
}

proof fn lemma_first_index_none<A>(s: Seq<A>, x: A)
    requires
        forall|j: int| 0 <= j < s.len() ==> s[j] != x,
    ensures
        first_index(s, x) is None,
{
}

/// The node that `node_id` names in `doc` or in the external document registered
/// first under the URL it names.
pub open spec fn lookup_node_spec<S>(doc: Document<S>, node_id: NodeIdView) -> Option<Node> {
    match node_id {
        (None, id) => match lookup_id(doc.ids(), id) {
            Some(i) => Some(Node { doc: 0, index: i }),
            None => None,
        },
        (Some(url), id) => match first_index(doc.extern_urls(), url) {
            Some(k) => match lookup_id(doc.extern_doc(k).ids(), id) {
                Some(i) => Some(Node { doc: (k + 1) as usize, index: i }),
                None => None,
            },
            None => None,
        },
    }
}


// ---------------------------------------------------------------------------
// Acquiring nodes

/// The stack after acquiring `node` by reference on `stack`, or `None` when `node` is
/// already on it (a circular reference).
pub open spec fn acquire_ref_result(stack: Seq<Node>, node: Node) -> Option<Seq<Node>> {
    if stack.contains(node) {
        None
    } else {
        Some(stack.push(node))
    }
}

/// What acquiring a node by its id gives.
pub enum AcquireOutcome {
    MaxReferencesExceeded,
    LinkNotFound,
    InvalidLinkType,
    CircularReference(Node),
    /// The node, and whether it is put on the stack of acquired nodes.
    Acquired(Node, bool),
}

/// What acquiring the node named `id` in `doc` gives, as the `count`-th acquisition by
/// id, with the nodes `stack` already acquired by reference: past
/// [`MAX_REFERENCED_ELEMENTS`] acquisitions every one fails; the id must name an element;
/// elements that are only used through references must not be acquired already, and are
/// put on the stack.
pub open spec fn acquire_outcome<S>(
    doc: Document<S>,
    count: nat,
    stack: Seq<Node>,
    id: NodeIdView,
) -> AcquireOutcome {
    if count > MAX_REFERENCED_ELEMENTS {
        AcquireOutcome::MaxReferencesExceeded
    } else {
        match lookup_node_spec(doc, id) {
            None => AcquireOutcome::LinkNotFound,
            Some(n) => match doc.node_kind(n) {
                Some(NodeKindView::Element { name, .. }) => if is_accessed_by_reference_name(name) {
                    if stack.contains(n) {
                        AcquireOutcome::CircularReference(n)
                    } else {
                        AcquireOutcome::Acquired(n, true)
                    }
                } else {
                    AcquireOutcome::Acquired(n, false)
                },
                _ => AcquireOutcome::InvalidLinkType,
            },
        }
    }
}

/// A node that was acquired from [`AcquiredNodes`].  Once it is no longer needed it is
/// handed back with [`AcquiredNodes::release`], which takes it off the stack of nodes
/// used to detect circular references.
#[derive(Debug)]
pub struct AcquiredNode {
    on_stack: bool,
    node: Node,
}

impl AcquiredNode {
    pub closed spec fn node(&self) -> Node {
        self.node
    }

    /// Whether acquiring the node put it on the stack of acquired nodes.
    pub closed spec fn on_stack(&self) -> bool {
        self.on_stack
    }

    pub fn get(&self) -> (n: &Node)
        ensures
            *n == self.node(),
    {
        &self.node
    }
}

/// In a well-formed document, a node acquired by its id is always an element.
pub proof fn lemma_acquired_by_id_is_element<S>(doc: Document<S>, count: nat, stack: Seq<Node>, id: NodeIdView)
    requires
        doc.wf(),
    ensures
        !(acquire_outcome(doc, count, stack, id) is InvalidLinkType),
{
    doc.lemma_lookup_names_element(id);
}

/// Detects circular references between nodes, and enforces referencing limits.
///
/// Consider this fragment of SVG:
///
/// ```xml
/// <pattern id="foo">
///   <rect width="1" height="1" fill="url(#foo)"/>
/// </pattern>
/// ```
///
/// The pattern has a child element that references the pattern itself.  This kind of circular
/// reference is invalid.  The `AcquiredNodes` struct is passed around
/// wherever it may be necessary to resolve references to nodes, or to access nodes
/// "elsewhere" in the DOM that is not the current subtree.
///
/// Also, such constructs that reference other elements can be maliciously arranged like
/// in the billion laughs attack, to cause huge amounts of CPU to be consumed through
/// creating an exponential number of references.  `AcquiredNodes` imposes a hard limit on
/// the number of references that can be resolved for typical, well-behaved SVG documents.
///
/// The [`Self::acquire()`] and [`Self::acquire_ref()`] methods return an [`AcquiredNode`].
/// Once a node has been acquired, it cannot be acquired again until its [`AcquiredNode`]
/// is released.  In the example above, a graphic element would acquire the `pattern`,
/// which would then acquire its `rect` child, which then would fail to re-acquire the
/// `pattern` — thus signaling a circular reference.
///
/// Those methods return an [`AcquireError`] to signal circular references.  Also, they
/// can return [`AcquireError::MaxReferencesExceeded`] if the aforementioned referencing
/// limit is exceeded.
pub struct AcquiredNodes<'i, S> {
    document: &'i Document<S>,
    num_elements_acquired: usize,
    node_stack: NodeStack,
}

impl<'i, S> AcquiredNodes<'i, S> {
    pub closed spec fn document(&self) -> Document<S> {
        *self.document
    }

    /// How many times [`Self::acquire`] has been called.
    pub closed spec fn num_acquired(&self) -> nat {
        self.num_elements_acquired as nat
    }

    /// The nodes acquired by reference and not yet released, innermost last.
    pub closed spec fn stack(&self) -> Seq<Node> {
        self.node_stack@
    }

    /// The document that nodes are acquired from.
    pub fn document_ref(&self) -> (d: &'i Document<S>)
        ensures
            *d == self.document(),
    {
        self.document
    }

    pub fn new(document: &'i Document<S>) -> (a: AcquiredNodes<'i, S>)
        ensures
            a.document() == *document,
            a.num_acquired() == 0,
            a.stack() == Seq::<Node>::empty(),
    {
        AcquiredNodes { document, num_elements_acquired: 0, node_stack: NodeStack::new() }
    }

    /// Acquires a node by its id.
    ///
    /// This is typically used during an "early resolution" stage, when XML `id`s are being
    /// resolved to node references.  Every call counts towards the limit of
    /// [`MAX_REFERENCED_ELEMENTS`]; past it, every call fails.
    pub fn acquire(&mut self, node_id: &NodeId) -> (r: Result<AcquiredNode, AcquireError>)
        requires
            old(self).num_acquired() < usize::MAX,
        ensures
            final(self).document() == old(self).document(),
            final(self).num_acquired() == old(self).num_acquired() + 1,
            match acquire_outcome(
                old(self).document(),
                final(self).num_acquired(),
                old(self).stack(),
                node_id.view(),
            ) {
                AcquireOutcome::MaxReferencesExceeded => (r matches Err(
                    AcquireError::MaxReferencesExceeded,
                )) && final(self).stack() == old(self).stack(),
                AcquireOutcome::LinkNotFound => (r matches Err(AcquireError::LinkNotFound(id))
                    && id.view() == node_id.view()) && final(self).stack() == old(self).stack(),
                AcquireOutcome::InvalidLinkType => (r matches Err(AcquireError::InvalidLinkType(id))
                    && id.view() == node_id.view()) && final(self).stack() == old(self).stack(),
                AcquireOutcome::CircularReference(n) => r == Err::<AcquiredNode, AcquireError>(
                    AcquireError::CircularReference(n),
                ) && final(self).stack() == old(self).stack(),
                AcquireOutcome::Acquired(n, on_stack) => (r matches Ok(a) && a.node() == n
                    && a.on_stack() == on_stack) && final(self).stack() == if on_stack {
                    old(self).stack().push(n)
                } else {
                    old(self).stack()
                },
            },
    {
        self.num_elements_acquired = self.num_elements_acquired + 1;

        // This is a mitigation for SVG files that try to instance a huge number of
        // elements via <use>, recursive patterns, etc.
        if self.num_elements_acquired > MAX_REFERENCED_ELEMENTS {
            return Err(AcquireError::MaxReferencesExceeded);
        }

        let node = match self.document.lookup_node(node_id) {
            Some(n) => n,
            None => return Err(AcquireError::LinkNotFound(node_id.duplicate())),
        };

        if !self.document.is_element_node(&node) {
            return Err(AcquireError::InvalidLinkType(node_id.duplicate()));
        }

        if self.document.is_accessed_by_reference(&node) {
            self.acquire_ref(&node)
        } else {
            Ok(AcquiredNode { on_stack: false, node })
        }
    }

    /// Acquires a node whose reference is already known.
    ///
    /// This is useful for cases where a node is initially referenced by its id with
    /// [`Self::acquire`] and kept around for later use.  During the later use, the node
    /// needs to be re-acquired with this method, so that its child elements that reference
    /// other paint servers will be able to detect circular references to it.
    pub fn acquire_ref(&mut self, node: &Node) -> (r: Result<AcquiredNode, AcquireError>)
        ensures
            final(self).document() == old(self).document(),
            final(self).num_acquired() == old(self).num_acquired(),
            match acquire_ref_result(old(self).stack(), *node) {
                None => r == Err::<AcquiredNode, AcquireError>(AcquireError::CircularReference(*node))
                    && final(self).stack() == old(self).stack(),
                Some(st) => (r matches Ok(a) && a.node() == *node && a.on_stack())
                    && final(self).stack() == st,
            },
    {
        if self.node_stack.contains(node) {
            Err(AcquireError::CircularReference(*node))
        } else {
            self.node_stack.push(node);
            Ok(AcquiredNode { on_stack: true, node: *node })
        }
    }

    /// Hands back a node that was acquired from this object.  A node acquired by
    /// reference is taken off the stack, so that it can be acquired again.  Nodes are
    /// released in the reverse order of their acquisition.
    pub fn release(&mut self, acquired: AcquiredNode)
        requires
            acquired.on_stack() ==> old(self).stack().len() > 0 && old(self).stack().last()
                == acquired.node(),
        ensures
            final(self).document() == old(self).document(),
            final(self).num_acquired() == old(self).num_acquired(),
            final(self).stack() == if acquired.on_stack() {
                old(self).stack().drop_last()
            } else {
                old(self).stack()
            },
    {
        if acquired.on_stack {
            let _ = self.node_stack.pop();
        }
    }
}

/// While a node acquired by reference is held, acquiring it again is a circular
/// reference.
pub proof fn lemma_reacquire_is_circular(stack: Seq<Node>, node: Node)
    requires
        acquire_ref_result(stack, node) is Some,
    ensures
        acquire_ref_result(acquire_ref_result(stack, node).unwrap(), node) is None,
{
    lemma_stack_push_contains(stack, node);
}

/// Releasing a node right after acquiring it by reference gives back the stack as it
/// was, so the node can be acquired again.
pub proof fn lemma_acquire_release(stack: Seq<Node>, node: Node)
    requires
        acquire_ref_result(stack, node) is Some,
    ensures
        acquire_ref_result(stack, node).unwrap().last() == node,
        acquire_ref_result(stack, node).unwrap().drop_last() == stack,
        acquire_ref_result(acquire_ref_result(stack, node).unwrap().drop_last(), node) is Some,
{
    lemma_stack_push_pop(stack, node);
}

/// A node on the stack of acquired nodes cannot be acquired by reference; a node that
/// is not on it always can.
pub proof fn lemma_acquire_ref_iff_not_held(stack: Seq<Node>, node: Node)
    ensures
        acquire_ref_result(stack, node) is None <==> stack.contains(node),
{
}

} // verus!
