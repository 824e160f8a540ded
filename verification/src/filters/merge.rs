//! The `feMerge` filter primitive and its `feMergeNode` children.

use vstd::prelude::*;

use crate::document::{NodeKindView, Tree};
use crate::filters::context::FilterError;
use crate::filters::{input_view_spec, Input, InputView, Primitive};
use crate::css::CssParseError;
use crate::strings::str_eq;

verus! {

/// The `feMerge` filter primitive.
#[derive(Debug, PartialEq, Eq)]
pub struct FeMerge {
    pub base: Primitive,
}

impl FeMerge {
    /// A merge with no subregion and no result name.
    pub fn new() -> (m: FeMerge)
        ensures
            m.base.x is None && m.base.y is None && m.base.width is None && m.base.height is None
                && m.base.result is None,
    {
        FeMerge { base: Primitive::new() }
    }

    /// Reads the standard attributes of the primitive; it takes no input of its own.
    pub fn set_attributes(&mut self, attrs: &Vec<(String, String)>) -> (r: Result<(), CssParseError>)
        ensures
            ({
                let (p, _, _, ok) = crate::filters::standard_attributes(
                    old(self).base.view(),
                    InputView::Unspecified,
                    InputView::Unspecified,
                    attrs@.map_values(|a: (String, String)| (a.0@, a.1@)),
                );
                &&& final(self).base.view() == p
                &&& ok <==> r is Ok
            }),
    {
        self.base.parse_no_inputs(attrs)
    }
}

/// The `<feMergeNode>` element.
#[derive(Debug, PartialEq, Eq)]
pub struct FeMergeNode {
    pub in1: Input,
}

/// The input of a merge node after the attributes `attrs`, in order, starting from `in1`;
/// `None` at the first invalid `in`.
pub open spec fn merge_node_attributes(in1: InputView, attrs: Seq<(Seq<char>, Seq<char>)>) -> Option<
    InputView,
>
    decreases attrs.len(),
{
    if attrs.len() == 0 {
        Some(in1)
    } else if attrs[0].0 == "in"@ {
        match input_view_spec(attrs[0].1) {
            Ok((v, _)) => merge_node_attributes(v, attrs.drop_first()),
            Err(_) => None,
        }
    } else {
        merge_node_attributes(in1, attrs.drop_first())
    }
}

impl FeMergeNode {
    /// A merge node with an unspecified input.
    pub fn new() -> (n: FeMergeNode)
        ensures
            n.in1 == Input::Unspecified,
    {
        FeMergeNode { in1: Input::Unspecified }
    }

    /// Reads the input from the `in` attributes, in order; an invalid one is an error.
    pub fn set_attributes(&mut self, attrs: &Vec<(String, String)>) -> (r: Result<(), CssParseError>)
        ensures
            match merge_node_attributes(old(self).in1.view(), attrs@.map_values(|a: (String, String)| (a.0@, a.1@))) {
                Some(v) => r is Ok && final(self).in1.view() == v,
                None => r is Err,
            },
    {
        let ghost av = attrs@.map_values(|a: (String, String)| (a.0@, a.1@));
        let mut i: usize = 0;
        assert(av.skip(0) =~= av);
        while i < attrs.len()
            invariant
                i <= attrs@.len(),
                av == attrs@.map_values(|a: (String, String)| (a.0@, a.1@)),
                merge_node_attributes(old(self).in1.view(), av) == merge_node_attributes(
                    self.in1.view(),
                    av.skip(i as int),
                ),
            decreases attrs@.len() - i,
        {
            assert(av.skip(i as int)[0] == av[i as int]);
            assert(av.skip(i as int).drop_first() =~= av.skip(i + 1));
            if str_eq(attrs[i].0.as_str(), "in") {
                match Input::parse(attrs[i].1.as_str()) {
                    Ok((v, _)) => self.in1 = v,
                    Err(e) => return Err(e),
                }
            }
            i = i + 1;
        }
        assert(av.skip(i as int).len() == 0);
        Ok(())
    }
}

/// What the child `i` of a merge gives: `Some(Some(input))` for a merge node, with its
/// input; `Some(None)` for any other node, which is skipped; `None` for a merge node whose
/// attributes are invalid.
pub open spec fn child_merge_input(t: Tree, i: int) -> Option<Option<InputView>> {
    match t.kind(i) {
        NodeKindView::Element { name, .. } => if name == "feMergeNode"@ {
            match merge_node_attributes(InputView::Unspecified, t.attributes(i).unwrap()) {
                Some(v) => Some(Some(v)),
                None => None,
            }
        } else {
            Some(None)
        },
        _ => Some(None),
    }
}

/// The inputs of the merge nodes among the child `c` and the children before it, in
/// document order, or `None` if one of them has invalid attributes.
pub open spec fn merge_node_inputs(t: Tree, c: Option<usize>) -> Option<Seq<InputView>>
    decreases (match c {
        Some(i) => i + 1,
        None => 0,
    }),
{
    match c {
        None => Some(Seq::empty()),
        Some(i) => if i >= t.len() {
            Some(Seq::empty())
        } else {
            let before = match t.prev_sibling(i as int) {
                Some(p) => if p < i {
                    merge_node_inputs(t, Some(p))
                } else {
                    Some(Seq::empty())
                },
                None => Some(Seq::empty()),
            };
            match (before, child_merge_input(t, i as int)) {
                (Some(b), Some(Some(v))) => Some(b.push(v)),
                (Some(b), Some(None)) => Some(b),
                _ => None,
            }
        },
    }
}

/// `r` followed by `acc`.
pub open spec fn then_inputs(r: Option<Seq<InputView>>, acc: Seq<InputView>) -> Option<Seq<InputView>> {
    match r {
        Some(b) => Some(b + acc),
        None => None,
    }
}

/// Takes a feMerge and walks its children to produce a list of feMergeNode arguments.
pub fn get_parameters(t: &Tree, node: usize) -> (r: Result<Vec<FeMergeNode>, FilterError>)
    requires
        t.wf(),
        node < t.len(),
    ensures
        match merge_node_inputs(*t, t.last_child(node as int)) {
            Some(vs) => (r matches Ok(v) && v@.map_values(|n: FeMergeNode| n.in1.view()) == vs),
            None => r == Err::<Vec<FeMergeNode>, FilterError>(FilterError::ChildNodeInError),
        },
{
    let mut merge_nodes: Vec<FeMergeNode> = Vec::new();
    let mut c = t.last_child_of(node);
    assert(then_inputs(merge_node_inputs(*t, c), Seq::empty()) == merge_node_inputs(*t, c)) by {
        if merge_node_inputs(*t, c) is Some {
            assert(merge_node_inputs(*t, c)->Some_0 + Seq::<InputView>::empty() =~= merge_node_inputs(
                *t,
                c,
            )->Some_0);
        }
    }
    while c.is_some()
        invariant
            t.wf(),
            c matches Some(i) ==> i < t.len(),
            merge_node_inputs(*t, t.last_child(node as int)) == then_inputs(
                merge_node_inputs(*t, c),
                merge_nodes@.map_values(|n: FeMergeNode| n.in1.view()),
            ),
        decreases (match c {
            Some(i) => i + 1,
            None => 0,
        }),
    {
        let i = c.unwrap();
        let prev = t.prev_sibling_of(i);
        let ghost acc = merge_nodes@.map_values(|n: FeMergeNode| n.in1.view());
        if t.is_element_named(i, "feMergeNode") {
            let attrs = t.element_attributes(i).unwrap();
            let mut merge_node = FeMergeNode::new();
            match merge_node.set_attributes(attrs) {
                Ok(()) => {},
                Err(_) => return Err(FilterError::ChildNodeInError),
            }
            let ghost v = merge_node.in1.view();
            merge_nodes.insert(0, merge_node);
            proof {
                assert(merge_nodes@.map_values(|n: FeMergeNode| n.in1.view()) =~= seq![v] + acc);
                if merge_node_inputs(*t, prev) is Some {
                    let b = merge_node_inputs(*t, prev)->Some_0;
                    assert(b.push(v) + acc =~= b + (seq![v] + acc));
                }
            }
        }
        c = prev;
    }
    proof {
        assert(merge_nodes@.map_values(|n: FeMergeNode| n.in1.view()) =~= Seq::<InputView>::empty()
            + merge_nodes@.map_values(|n: FeMergeNode| n.in1.view()));
    }
    Ok(merge_nodes)
}

} // verus!
