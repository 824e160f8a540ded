//! The `feImage` filter primitive: what it references.

use vstd::prelude::*;

use crate::document::{
    acquire_outcome, node_id_spec, AcquireOutcome, AcquiredNodes, Node, NodeId,
};
use crate::filters::context::FilterError;
use vstd::string::StrSliceExecFns;

verus! {

/// What a feImage references for rendering.
#[derive(Debug, PartialEq, Eq)]
pub enum Source {
    /// Nothing is referenced; ignore the filter.
    Nothing,
    /// Reference to a node.
    Node(Node),
    /// Reference to an external image.  This is just a URL.
    ExternalImage(String),
}

/// Resolved `feImage` primitive for rendering.
#[derive(Debug)]
pub struct Image {
    pub source: Source,
}

impl Image {
    /// Resolves the `href` of a `feImage`: a reference to an element of the document,
    /// which is acquired and released again, or else the URL of an external image.  A
    /// reference that cannot be acquired references nothing.
    pub fn resolve<'i, S>(acquired_nodes: &mut AcquiredNodes<'i, S>, href: Option<&str>) -> (r: Image)
        requires
            old(acquired_nodes).num_acquired() < usize::MAX,
        ensures
            final(acquired_nodes).document() == old(acquired_nodes).document(),
            final(acquired_nodes).stack() == old(acquired_nodes).stack(),
            match href {
                None => r.source == Source::Nothing && final(acquired_nodes).num_acquired()
                    == old(acquired_nodes).num_acquired(),
                Some(s) => match node_id_spec(s@) {
                    None => (r.source matches Source::ExternalImage(u) && u@ == s@)
                        && final(acquired_nodes).num_acquired() == old(acquired_nodes).num_acquired(),
                    Some(id) => final(acquired_nodes).num_acquired() == old(
                        acquired_nodes,
                    ).num_acquired() + 1 && match acquire_outcome(
                        old(acquired_nodes).document(),
                        old(acquired_nodes).num_acquired() + 1,
                        old(acquired_nodes).stack(),
                        id,
                    ) {
                        AcquireOutcome::Acquired(n, _) => r.source == Source::Node(n),
                        _ => r.source == Source::Nothing,
                    },
                },
            },
    {
        let source = match href {
            None => Source::Nothing,
            Some(s) => match NodeId::parse(s) {
                Ok(node_id) => match acquired_nodes.acquire(&node_id) {
                    Ok(acquired) => {
                        let n = *acquired.get();
                        acquired_nodes.release(acquired);
                        Source::Node(n)
                    },
                    Err(_) => Source::Nothing,
                },
                Err(_) => Source::ExternalImage(s.to_owned()),
            },
        };
        Image { source }
    }

    /// The node to render, or the URL of the image to render; referencing nothing is an
    /// invalid input.
    pub fn check_source(&self) -> (r: Result<&Source, FilterError>)
        ensures
            self.source == Source::Nothing ==> r == Err::<&Source, FilterError>(FilterError::InvalidInput),
            self.source != Source::Nothing ==> r == Ok::<&Source, FilterError>(&self.source),
    {
        match &self.source {
            Source::Nothing => Err(FilterError::InvalidInput),
            _ => Ok(&self.source),
        }
    }
}

} // verus!
