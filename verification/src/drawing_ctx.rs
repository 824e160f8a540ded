//! The decisions of the renderer that come before any drawing: which elements a clipping
//! path draws, what a `<use>` element draws, and the attributes of the tags of links.

use vstd::prelude::*;

use crate::document::{
    acquire_outcome, acquire_ref_result, element_name_of, lemma_acquired_by_id_is_element,
    AcquireOutcome, AcquiredNode, AcquiredNodes, Document, Node, NodeId, NodeKindView, Tree,
};
use crate::error::{AcquireError, ImplementationLimit, RenderingError};
use crate::strings::{concat, str_eq};

verus! {

/// The basic shapes and text, which a clipping path draws also through a `<use>`.
///
/// <https://www.w3.org/TR/css-masking-1/#ClipPathElement>
pub open spec fn can_be_used_inside_use_inside_clip_path(name: Seq<char>) -> bool {
    ||| name == "circle"@
    ||| name == "ellipse"@
    ||| name == "line"@
    ||| name == "path"@
    ||| name == "polygon"@
    ||| name == "polyline"@
    ||| name == "rect"@
    ||| name == "text"@
}

/// The elements that a clipping path draws: the basic shapes, text, and `<use>`.
///
/// <https://www.w3.org/TR/css-masking-1/#ClipPathElement>
pub open spec fn can_be_used_inside_clip_path(name: Seq<char>) -> bool {
    can_be_used_inside_use_inside_clip_path(name) || name == "use"@
}

/// Whether an element with the local name `name` is drawn inside a `<clipPath>`.
pub fn element_can_be_used_inside_clip_path(name: &str) -> (r: bool)
    ensures
        r == can_be_used_inside_clip_path(name@),
{
    element_can_be_used_inside_use_inside_clip_path(name) || str_eq(name, "use")
}

/// Whether an element with the local name `name`, referenced by a `<use>` inside a
/// `<clipPath>`, is drawn.
pub fn element_can_be_used_inside_use_inside_clip_path(name: &str) -> (r: bool)
    ensures
        r == can_be_used_inside_use_inside_clip_path(name@),
{
    str_eq(name, "circle") || str_eq(name, "ellipse") || str_eq(name, "line") || str_eq(name, "path")
        || str_eq(name, "polygon") || str_eq(name, "polyline") || str_eq(name, "rect") || str_eq(
        name,
        "text",
    )
}

/// The children that a clipping path draws among the child `c` and the children before
/// it, in document order.
pub open spec fn clip_path_children_from(t: Tree, c: Option<usize>) -> Seq<usize>
    decreases (match c {
        Some(i) => i + 1,
        None => 0,
    }),
{
    match c {
        None => Seq::empty(),
        Some(i) => if i >= t.len() {
            Seq::empty()
        } else {
            let before = match t.prev_sibling(i as int) {
                Some(p) => if p < i {
                    clip_path_children_from(t, Some(p))
                } else {
                    Seq::empty()
                },
                None => Seq::empty(),
            };
            if t.kind(i as int) matches NodeKindView::Element { name, .. }
                && can_be_used_inside_clip_path(name) {
                before.push(i)
            } else {
                before
            }
        },
    }
}

/// The children of the clipping path `node` that it draws, in document order: the
/// elements that can be used inside a clipping path.
pub fn clip_path_children(t: &Tree, node: usize) -> (r: Vec<usize>)
    requires
        t.wf(),
        node < t.len(),
    ensures
        r@ == clip_path_children_from(*t, t.last_child(node as int)),
{
    let mut children: Vec<usize> = Vec::new();
    let mut c = t.last_child_of(node);
    assert(clip_path_children_from(*t, c) + children@ =~= clip_path_children_from(*t, c));
    while c.is_some()
        invariant
            t.wf(),
            c matches Some(i) ==> i < t.len(),
            clip_path_children_from(*t, t.last_child(node as int)) == clip_path_children_from(*t, c)
                + children@,
        decreases (match c {
            Some(i) => i + 1,
            None => 0,
        }),
    {
        let i = c.unwrap();
        let prev = t.prev_sibling_of(i);
        let ghost acc = children@;
        let usable = match t.element_name(i) {
            Some(name) => element_can_be_used_inside_clip_path(name.as_str()),
            None => false,
        };
        if usable {
            children.insert(0, i);
            assert(clip_path_children_from(*t, prev).push(i) + acc =~= clip_path_children_from(*t, prev)
                + children@);
        }
        c = prev;
    }
    assert(Seq::<usize>::empty() + children@ =~= children@);
    children
}

/// What a `<use>` element draws.
pub enum UseTarget {
    /// Nothing.
    Nothing,
    /// The referenced element `child`.  The `<use>` element and its target stay acquired
    /// while the target is drawn, so that references back to either are caught; they are
    /// released afterwards, the target first.
    Element { use_node: AcquiredNode, target: AcquiredNode, child: Node, is_symbol: bool },
}

/// What the `<use>` element `node`, which references `link`, draws, in `doc` with the
/// nodes `stack` held and `count` nodes acquired by id so far.
///
/// A `<use>` that is already being drawn is part of a reference cycle, and draws
/// nothing; so does one whose target is missing or is being drawn already, one whose
/// rectangle is empty, and one inside a clipping path whose target cannot be used there.
/// Past the limit of references, drawing fails.  Otherwise it draws its target.
pub open spec fn use_target_outcome<S>(
    doc: Document<S>,
    count: nat,
    stack: Seq<Node>,
    node: Node,
    link: crate::document::NodeIdView,
    use_rect_is_empty: bool,
    clipping: bool,
) -> Result<Option<Node>, RenderingError> {
    match acquire_ref_result(stack, node) {
        None => Ok(None),
        Some(st) => match acquire_outcome(doc, count + 1, st, link) {
            AcquireOutcome::MaxReferencesExceeded => Err(
                RenderingError::LimitExceeded(ImplementationLimit::TooManyReferencedElements),
            ),
            AcquireOutcome::Acquired(n, _) => if use_rect_is_empty || (clipping && !(element_name_of(
                doc,
                n,
            ) matches Some(name) && can_be_used_inside_use_inside_clip_path(name))) {
                Ok(None)
            } else {
                Ok(Some(n))
            },
            _ => Ok(None),
        },
    }
}

/// Acquires what the `<use>` element `node`, which references `link`, draws; see
/// [`use_target_outcome`].  `use_rect_is_empty` says whether the rectangle of the `<use>`
/// has a zero width or height, and `clipping` whether it is drawn inside a clipping path.
///
/// When it draws its target, the `<use>` element and the target are returned acquired;
/// otherwise nothing is left acquired.
pub fn acquire_use_target<'i, S>(
    acquired_nodes: &mut AcquiredNodes<'i, S>,
    node: &Node,
    link: &NodeId,
    use_rect_is_empty: bool,
    clipping: bool,
) -> (r: Result<UseTarget, RenderingError>)
    requires
        old(acquired_nodes).document().wf(),
        old(acquired_nodes).num_acquired() < usize::MAX,
    ensures
        final(acquired_nodes).document() == old(acquired_nodes).document(),
        final(acquired_nodes).num_acquired() == old(acquired_nodes).num_acquired() + if acquire_ref_result(
            old(acquired_nodes).stack(),
            *node,
        ) is Some {
            1int
        } else {
            0int
        },
        match use_target_outcome(
            old(acquired_nodes).document(),
            old(acquired_nodes).num_acquired(),
            old(acquired_nodes).stack(),
            *node,
            link.view(),
            use_rect_is_empty,
            clipping,
        ) {
            Err(e) => r == Err::<UseTarget, RenderingError>(e) && final(acquired_nodes).stack() == old(
                acquired_nodes,
            ).stack(),
            Ok(None) => (r matches Ok(UseTarget::Nothing)) && final(acquired_nodes).stack() == old(
                acquired_nodes,
            ).stack(),
            Ok(Some(n)) => r matches Ok(UseTarget::Element { use_node, target, child, is_symbol }) && {
                &&& child == n
                &&& is_symbol == (element_name_of(old(acquired_nodes).document(), n) == Some(
                    "symbol"@,
                ))
                &&& use_node.node() == *node && use_node.on_stack()
                &&& target.node() == n
                &&& final(acquired_nodes).stack() == if target.on_stack() {
                    old(acquired_nodes).stack().push(*node).push(n)
                } else {
                    old(acquired_nodes).stack().push(*node)
                }
            },
        },
{
    let ghost doc = acquired_nodes.document();
    let ghost stack0 = acquired_nodes.stack();
    // <use> is an element that is used directly, unlike <pattern>, which is used through
    // a fill="url(#...)" reference.  However, <use> will always reference another
    // element, potentially itself or an ancestor of itself (or another <use> which
    // references the first one, etc.).  So, we acquire the <use> element itself so that
    // circular references can be caught.
    let use_node = match acquired_nodes.acquire_ref(node) {
        Ok(n) => n,
        Err(_) => return Ok(UseTarget::Nothing),
    };
    proof {
        lemma_acquired_by_id_is_element(doc, acquired_nodes.num_acquired() + 1, acquired_nodes.stack(), link.view());
    }
    let target = match acquired_nodes.acquire(link) {
        Ok(a) => a,
        Err(AcquireError::MaxReferencesExceeded) => {
            acquired_nodes.release(use_node);
            return Err(RenderingError::LimitExceeded(ImplementationLimit::TooManyReferencedElements));
        },
        Err(_) => {
            acquired_nodes.release(use_node);
            return Ok(UseTarget::Nothing);
        },
    };
    let child = *target.get();
    // width or height set to 0 disables rendering of the element
    // https://www.w3.org/TR/SVG/struct.html#UseElementWidthAttribute
    let usable = if use_rect_is_empty {
        false
    } else if clipping {
        match acquired_nodes.document_ref().element_name(&child) {
            Some(name) => element_can_be_used_inside_use_inside_clip_path(name.as_str()),
            None => false,
        }
    } else {
        true
    };
    if !usable {
        acquired_nodes.release(target);
        acquired_nodes.release(use_node);
        proof {
            assert(stack0.push(*node).drop_last() =~= stack0);
            assert(stack0.push(*node).push(child).drop_last() =~= stack0.push(*node));
        }
        return Ok(UseTarget::Nothing);
    }
    let is_symbol = match acquired_nodes.document_ref().element_name(&child) {
        Some(name) => str_eq(name.as_str(), "symbol"),
        None => false,
    };
    Ok(UseTarget::Element { use_node, target, child, is_symbol })
}

/// While a `<use>` element is held, as it is while its target is drawn, using it again
/// draws nothing: a `<use>` that references itself, directly or through other elements,
/// ends there.
pub proof fn lemma_held_use_draws_nothing<S>(
    doc: Document<S>,
    count: nat,
    stack: Seq<Node>,
    node: Node,
    link: crate::document::NodeIdView,
    use_rect_is_empty: bool,
    clipping: bool,
)
    requires
        stack.contains(node),
    ensures
        use_target_outcome(doc, count, stack, node, link, use_rect_is_empty, clipping) == Ok::<
            Option<Node>,
            RenderingError,
        >(None),
{
}

/// How a character of a link target is written inside a quoted attribute: quotes and
/// backslashes get a backslash before them.
pub open spec fn escape_char_spec(c: char) -> Seq<char> {
    if c == '\'' || c == '\\' {
        seq!['\\', c]
    } else {
        seq![c]
    }
}

/// `s` with quotes and backslashes escaped with a backslash.
pub open spec fn escaped(s: Seq<char>) -> Seq<char>
    decreases s.len(),
{
    if s.len() == 0 {
        Seq::empty()
    } else {
        escape_char_spec(s[0]) + escaped(s.drop_first())
    }
}

/// Reads back an escaped text: a backslash stands for the character after it.
pub open spec fn unescaped(s: Seq<char>) -> Seq<char>
    decreases s.len(),
{
    if s.len() == 0 {
        Seq::empty()
    } else if s[0] == '\\' && s.len() >= 2 {
        seq![s[1]] + unescaped(s.subrange(2, s.len() as int))
    } else {
        seq![s[0]] + unescaped(s.drop_first())
    }
}

/// Whether `s`, read from the start, holds no quote that a backslash does not escape and
/// does not end in the middle of an escape: quoted, it stays one value.
pub open spec fn quote_safe(s: Seq<char>) -> bool
    decreases s.len(),
{
    if s.len() == 0 {
        true
    } else if s[0] == '\\' {
        s.len() >= 2 && quote_safe(s.subrange(2, s.len() as int))
    } else {
        s[0] != '\'' && quote_safe(s.drop_first())
    }
}

/// The replacement of one match of the pattern `['\\]`: the matched quote or backslash
/// with a backslash before it.  (Anything else is kept as it is.)
fn escape_char(m: &str) -> (r: String)
    ensures
        m@.len() == 1 ==> r@ == escape_char_spec(m@[0]),
{
    proof {
        reveal_strlit("'");
        reveal_strlit("\\");
        reveal_strlit("\\'");
        reveal_strlit("\\\\");
        if m@.len() == 1 {
            assert(m@ =~= seq![m@[0]]);
            assert(m@[0] == '\'' ==> m@ =~= "'"@);
            assert(m@[0] == '\\' ==> m@ =~= "\\"@);
        }
    }
    if str_eq(m, "'") {
        assert("\\'"@ =~= seq!['\\', '\'']);
        "\\'".to_owned()
    } else if str_eq(m, "\\") {
        assert("\\\\"@ =~= seq!['\\', '\\']);
        "\\\\".to_owned()
    } else {
        m.to_owned()
    }
}

/// Escapes quotes and backslashes with a backslash, with `Regex::replace_all` of the
/// `regex` crate: every match of the pattern `['\\]`, which is one quote or one backslash,
/// is replaced by what [`escape_char`] gives for it, and the text between matches is
/// kept.  The contract claims that much of `replace_all`, as its documentation states it,
/// and that the constant pattern compiles.
#[verifier::external_body]
fn escape_link_target(value: &str) -> (r: String)
    ensures
        r@ == escaped(value@),
{
    let re = regex::Regex::new(r"['\\]").unwrap();
    re.replace_all(value, |caps: &regex::Captures<'_>| escape_char(&caps[0])).into_owned()
}

/// The attributes of the Cairo tag that starts a link to `link_target` in a PDF: the
/// target, escaped, as the quoted `uri`.
pub fn link_tag_attributes(link_target: &str) -> (r: String)
    ensures
        r@ == "uri='"@ + escaped(link_target@) + "'"@,
{
    let escaped_target = escape_link_target(link_target);
    let head = concat("uri='", escaped_target.as_str());
    concat(head.as_str(), "'")
}

/// What a link tag holds reads back as the link target: escaping loses nothing.
pub proof fn lemma_escaping_reads_back(s: Seq<char>)
    ensures
        unescaped(escaped(s)) == s,
    decreases s.len(),
{
    if s.len() > 0 {
        let e = escaped(s);
        let rest = escaped(s.drop_first());
        lemma_escaping_reads_back(s.drop_first());
        if s[0] == '\'' || s[0] == '\\' {
            assert(e.subrange(2, e.len() as int) =~= rest);
        } else {
            assert(e.drop_first() =~= rest);
        }
        assert(unescaped(e) =~= s);
    }
}

/// An escaped link target cannot end the quoted `uri` early: it has no quote without a
/// backslash before it.
pub proof fn lemma_escaped_is_quote_safe(s: Seq<char>)
    ensures
        quote_safe(escaped(s)),
    decreases s.len(),
{
    if s.len() > 0 {
        let e = escaped(s);
        let rest = escaped(s.drop_first());
        lemma_escaped_is_quote_safe(s.drop_first());
        if s[0] == '\'' || s[0] == '\\' {
            assert(e.subrange(2, e.len() as int) =~= rest);
        } else {
            assert(e.drop_first() =~= rest);
        }
    }
}

} // verus!
