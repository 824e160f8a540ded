//! SVG paint servers: what a `fill` or `stroke` references, and what it resolves to.

use vstd::prelude::*;

use crate::document::{
    acquire_outcome, element_name_of, lemma_acquired_by_id_is_element, AcquireOutcome,
    AcquiredNodes, Document, Node, NodeId, NodeIdView,
};
use crate::error::{AcquireError, ImplementationLimit, RenderingError};
use crate::gradient::{gradient_of, resolve, resolve_chain, ChainError, ResolvedGradient, UnresolvedGradient};
use crate::strings::str_eq;

verus! {

/// A paint: nothing, a reference to a gradient or pattern with an optional color to use
/// when the reference cannot be used, or a solid color.  `C` is the type of colors.
#[derive(Debug, PartialEq, Eq)]
pub enum PaintServer<C> {
    /// The keyword `none`.
    Nothing,
    Iri { iri: NodeId, alternate: Option<C> },
    SolidColor(C),
}

/// What a paint server resolves to.  A pattern is given by its element, which is
/// resolved when it is drawn.
#[derive(Debug)]
pub enum PaintSource<C> {
    Nothing,
    Gradient(ResolvedGradient, Option<C>),
    Pattern(Node, Option<C>),
    SolidColor(C),
}

/// What a paint source is in specifications; `LimitExceeded` stands for the rendering
/// error of too many referenced elements.
pub enum PaintOutcome<C> {
    Nothing,
    Gradient(UnresolvedGradient, Option<C>),
    Pattern(Node, Option<C>),
    SolidColor(C),
    LimitExceeded,
}

/// What the reference `iri` of a paint server resolves to in `doc`, with `count` nodes
/// acquired by id so far and the nodes `stack` held, and the number of nodes acquired by
/// id then.  A linear or radial gradient is resolved along its chain of references, a
/// pattern is given as it is; anything else, or a reference that cannot be followed, gives
/// the alternate color, or nothing without one.  Too many references is an error.
pub open spec fn iri_outcome<S, C>(
    doc: Document<S>,
    count: nat,
    stack: Seq<Node>,
    iri: NodeIdView,
    alternate: Option<C>,
) -> (PaintOutcome<C>, nat) {
    let failed = match alternate {
        Some(c) => PaintOutcome::SolidColor(c),
        None => PaintOutcome::Nothing,
    };
    match acquire_outcome(doc, count + 1, stack, iri) {
        AcquireOutcome::MaxReferencesExceeded => (PaintOutcome::LimitExceeded, count + 1),
        AcquireOutcome::Acquired(n, on_stack) => {
            let held = if on_stack {
                stack.push(n)
            } else {
                stack
            };
            match element_name_of(doc, n) {
                Some(name) => if name == "linearGradient"@ || name == "radialGradient"@ {
                    let (g, f) = gradient_of(doc, n).unwrap();
                    let (res, c2) = resolve_chain(doc, count + 1, held, Seq::empty(), g, f);
                    match res {
                        Ok(rg) => (PaintOutcome::Gradient(rg, alternate), c2),
                        Err(ChainError::MaxReferencesExceeded) => (PaintOutcome::LimitExceeded, c2),
                        Err(_) => (failed, c2),
                    }
                } else if name == "pattern"@ {
                    (PaintOutcome::Pattern(n, alternate), count + 1)
                } else {
                    (failed, count + 1)
                },
                None => (failed, count + 1),
            }
        },
        _ => (failed, count + 1),
    }
}

/// Whether the paint source `s` is the outcome `o`.
pub open spec fn source_is<C>(r: Result<PaintSource<C>, RenderingError>, o: PaintOutcome<C>) -> bool {
    match o {
        PaintOutcome::Nothing => r matches Ok(PaintSource::Nothing),
        PaintOutcome::Gradient(rg, alt) => r matches Ok(PaintSource::Gradient(g, a)) && g.as_unresolved() == rg && a == alt,
        PaintOutcome::Pattern(n, alt) => r matches Ok(PaintSource::Pattern(m, a)) && m == n && a == alt,
        PaintOutcome::SolidColor(c) => r matches Ok(PaintSource::SolidColor(d)) && d == c,
        PaintOutcome::LimitExceeded => r == Err::<PaintSource<C>, RenderingError>(
            RenderingError::LimitExceeded(ImplementationLimit::TooManyReferencedElements),
        ),
    }
}

impl<C: Copy> PaintServer<C> {
    /// Resolves the paint server: the referenced gradient or pattern, or the color to
    /// use.  What is acquired to follow a reference is released again.
    pub fn resolve<'i, S>(&self, acquired_nodes: &mut AcquiredNodes<'i, S>) -> (r: Result<
        PaintSource<C>,
        RenderingError,
    >)
        requires
            old(acquired_nodes).document().wf(),
            old(acquired_nodes).num_acquired() + 1 < usize::MAX,
        ensures
            final(acquired_nodes).document() == old(acquired_nodes).document(),
            final(acquired_nodes).stack() == old(acquired_nodes).stack(),
            match self {
                PaintServer::Nothing => (r matches Ok(PaintSource::Nothing))
                    && final(acquired_nodes).num_acquired() == old(acquired_nodes).num_acquired(),
                PaintServer::SolidColor(c) => (r matches Ok(PaintSource::SolidColor(d)) && d == *c)
                    && final(acquired_nodes).num_acquired() == old(acquired_nodes).num_acquired(),
                PaintServer::Iri { iri, alternate } => {
                    let (o, count) = iri_outcome(
                        old(acquired_nodes).document(),
                        old(acquired_nodes).num_acquired(),
                        old(acquired_nodes).stack(),
                        iri.view(),
                        *alternate,
                    );
                    source_is(r, o) && final(acquired_nodes).num_acquired() == count
                },
            },
    {
        match self {
            PaintServer::Nothing => Ok(PaintSource::Nothing),
            PaintServer::SolidColor(c) => Ok(PaintSource::SolidColor(*c)),
            PaintServer::Iri { iri, alternate } => {
                let ghost doc = acquired_nodes.document();
                let ghost stack0 = acquired_nodes.stack();
                let alternate = *alternate;
                let failed = match alternate {
                    Some(c) => PaintSource::SolidColor(c),
                    None => PaintSource::Nothing,
                };
                proof {
                    lemma_acquired_by_id_is_element(doc, acquired_nodes.num_acquired() + 1, stack0, iri.view());
                }
                let acquired = match acquired_nodes.acquire(iri) {
                    Ok(a) => a,
                    Err(AcquireError::MaxReferencesExceeded) => {
                        return Err(RenderingError::LimitExceeded(ImplementationLimit::TooManyReferencedElements));
                    },
                    Err(_) => return Ok(failed),
                };
                let node = *acquired.get();
                let (is_gradient, is_pattern) = match acquired_nodes.document_ref().element_name(&node) {
                    Some(name) => (
                        str_eq(name.as_str(), "linearGradient") || str_eq(name.as_str(), "radialGradient"),
                        str_eq(name.as_str(), "pattern"),
                    ),
                    None => (false, false),
                };
                let result = if is_gradient {
                    match resolve(acquired_nodes, &node) {
                        Ok(g) => Ok(PaintSource::Gradient(g, alternate)),
                        Err(AcquireError::MaxReferencesExceeded) => Err(
                            RenderingError::LimitExceeded(ImplementationLimit::TooManyReferencedElements),
                        ),
                        Err(_) => Ok(failed),
                    }
                } else if is_pattern {
                    Ok(PaintSource::Pattern(node, alternate))
                } else {
                    Ok(failed)
                };
                acquired_nodes.release(acquired);
                proof {
                    assert(stack0.push(node).drop_last() =~= stack0);
                }
                result
            },
        }
    }
}

} // verus!
