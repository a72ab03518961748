//! Node abstraction shared by all A2L node types. Each node type implements its
//! own `parse` / `write_body`; there is no inheritance hierarchy.

use crate::a2l::block::{Block, Tree};
use crate::a2l::error::{Failure, Result};
use crate::a2l::writer::{Page, Writer, Written, Stopped};
use vstd::prelude::*;

verus! {

/// An A2L node type (one implementor per A2L keyword).
pub trait Node: Sized + View {
    /// The A2L keyword of this node.
    spec fn keyword_text() -> Seq<char>;

    /// The node that a block stands for, or how reading it fails.
    spec fn parsed(tree: Tree) -> std::result::Result<Self::V, Failure>;

    /// Whether the blocks within that have no type of their own stand in the node as they
    /// stand in a block, down to the lines and the numbers of their tokens.
    open spec fn keeps(&self, tree: Tree) -> bool {
        true
    }

    /// What is written between `/begin` and `/end`.
    spec fn body(v: Self::V, p: Page) -> Written;

    /// What is written as a whole.
    spec fn block(v: Self::V, p: Page) -> Written;

    /// The A2L keyword of this node (e.g. `ANNOTATION`).
    fn keyword() -> (r: &'static str)
        ensures
            r@ == Self::keyword_text(),
    ;

    /// Parses a node from a block whose keyword has already been verified to
    /// match [`Node::keyword`].
    fn parse(block: &Block) -> (r: Result<Self>)
        ensures
            match r {
                Ok(v) => {
                    &&& Self::parsed(block@) == Ok::<Self::V, Failure>(v@)
                    &&& v.keeps(block@)
                },
                Err(e) => Self::parsed(block@) == Err::<Self::V, Failure>(e@),
            },
    ;

    /// Writes the block contents, without the `/begin` `/end` wrapper (the
    /// wrapper is emitted by [`Writer::block`]).
    fn write_body(&self, w: &mut Writer) -> (r: Result<()>)
        ensures
            match r {
                Ok(()) => Self::body(self@, old(w)@) == Ok::<Page, Stopped>(final(w)@),
                Err(e) => Self::body(self@, old(w)@) == Err::<Page, Stopped>(final(w)@.stopped(e@)),
            },
    ;

    /// Writes the node as a full block, including `/begin` and `/end`.
    fn write_block(&self, w: &mut Writer) -> (r: Result<()>)
        ensures
            match r {
                Ok(()) => Self::block(self@, old(w)@) == Ok::<Page, Stopped>(final(w)@),
                Err(e) => Self::block(self@, old(w)@) == Err::<Page, Stopped>(final(w)@.stopped(e@)),
            },
    ;
}

/// A block around what is written within it.
pub open spec fn enclosed(keyword: Seq<char>, body: Written) -> Written {
    match body {
        Ok(p) => Ok(p.end(keyword)),
        Err(f) => Err(f),
    }
}

} // verus!
