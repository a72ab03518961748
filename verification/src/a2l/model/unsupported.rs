//! Lossless storage and writing of A2L blocks without a typed model.
//! Parameters and child blocks retain their token order for reliable round trips.

use crate::a2l::block::{bare_items, copy_items, trees, Block, Item, Tree, TreeItem};
use crate::a2l::error::{Failure, Result};
use crate::a2l::model::parts::Child;
use crate::a2l::token::{bare, Tok};
use crate::views::no_text;
use crate::a2l::writer::{Page, Writer, Written};
use vstd::prelude::*;

verus! {

/// A block as it was read. Two are the same if their tokens have the same texts.
#[derive(Debug, PartialEq, Eq)]
pub struct UnsupportedNode {
    pub keyword: String,
    pub items: Vec<Item>,
}

/// [`UnsupportedNode`] as a mathematical value.
pub struct UnsupportedNodeView {
    pub keyword: Seq<char>,
    pub items: Seq<TreeItem>,
}

impl View for UnsupportedNode {
    type V = UnsupportedNodeView;

    open spec fn view(&self) -> UnsupportedNodeView {
        UnsupportedNodeView { keyword: self.keyword@, items: bare_items(trees(self.items@)) }
    }
}

impl Clone for UnsupportedNode {
    fn clone(&self) -> (r: Self)
        ensures
            r@ == self@,
            trees(r.items@) == trees(self.items@),
    {
        UnsupportedNode { keyword: self.keyword.clone(), items: copy_items(&self.items) }
    }
}

/// A token as it stands in a text.
pub open spec fn token_text(t: Tok) -> Seq<char> {
    if t.quoted {
        "\""@ + t.text + "\""@
    } else {
        t.text
    }
}

/// A line of parameters with one more behind it.
pub open spec fn with_token(line: Seq<char>, t: Tok) -> Seq<char> {
    if line.len() > 0 {
        line + " "@ + token_text(t)
    } else {
        token_text(t)
    }
}

/// The line of parameters, if there are any.
pub open spec fn flushed(line: Seq<char>, p: Page) -> Page {
    if line.len() > 0 {
        p.line(line)
    } else {
        p
    }
}

/// What is written for the items from an index on, behind parameters that are not written
/// yet: a line for each run of parameters, and the blocks between them.
pub open spec fn items_on(items: Seq<TreeItem>, i: int, line: Seq<char>, p: Page) -> Page
    decreases items, items.len() - i,
{
    if i < 0 || i >= items.len() {
        flushed(line, p)
    } else {
        match items[i] {
            TreeItem::Param(t) => items_on(items, i + 1, with_token(line, t), p),
            TreeItem::Child(b) => items_on(
                items,
                i + 1,
                Seq::empty(),
                items_on(b.items, 0, Seq::empty(), flushed(line, p).begin(b.keyword)).end(
                    b.keyword,
                ),
            ),
        }
    }
}

impl UnsupportedNode {
    /// What is kept of a block.
    pub open spec fn of(tree: Tree) -> UnsupportedNodeView {
        UnsupportedNodeView { keyword: tree.keyword, items: bare_items(tree.items) }
    }

    /// The block that a node is written as.
    pub open spec fn on(v: UnsupportedNodeView, p: Page) -> Page {
        items_on(v.items, 0, Seq::empty(), p.begin(v.keyword)).end(v.keyword)
    }

    pub fn from_block(block: &Block) -> (r: Self)
        ensures
            r@ == UnsupportedNode::of(block@),
            trees(r.items@) == block@.items,
    {
        UnsupportedNode { keyword: block.keyword.clone(), items: copy_items(&block.items) }
    }

    pub fn write_block(&self, w: &mut Writer) -> (r: Result<()>)
        ensures
            r is Ok,
            final(w)@ == UnsupportedNode::on(self@, old(w)@),
    {
        w.begin_block(self.keyword.as_str());
        write_items(&self.items, w);
        w.end_block(self.keyword.as_str());
        Ok(())
    }
}

impl Child for UnsupportedNode {
    open spec fn parsed(tree: Tree) -> std::result::Result<UnsupportedNodeView, Failure> {
        Ok(UnsupportedNode::of(tree))
    }

    open spec fn kept(&self, tree: Tree) -> bool {
        self.keyword@ == tree.keyword && trees(self.items@) == tree.items
    }

    open spec fn written(v: UnsupportedNodeView, p: Page) -> Written {
        Ok(UnsupportedNode::on(v, p))
    }

    fn read(block: &Block) -> (r: Result<Self>) {
        Ok(UnsupportedNode::from_block(block))
    }

    fn write(&self, w: &mut Writer) -> (r: Result<()>) {
        self.write_block(w)
    }
}

fn write_items(items: &Vec<Item>, w: &mut Writer)
    ensures
        final(w)@ == items_on(bare_items(trees(items@)), 0, Seq::empty(), old(w)@),
    decreases items,
{
    let mut params = no_text();
    let mut i: usize = 0;
    while i < items.len()
        invariant
            i <= items@.len(),
            items_on(bare_items(trees(items@)), 0, Seq::empty(), old(w)@) == items_on(
                bare_items(trees(items@)),
                i as int,
                params@,
                w@,
            ),
        decreases items@.len() - i,
    {
        proof {
            assert(trees(items@)[i as int] == items@[i as int]@);
        }
        match &items[i] {
            Item::Param(t) => {
                let ghost before = params@;
                if params.as_str().unicode_len() > 0 {
                    params.append(" ");
                }
                if t.quoted {
                    params.append("\"");
                    params.append(t.text.as_str());
                    params.append("\"");
                } else {
                    params.append(t.text.as_str());
                }
                proof {
                    assert(params@ =~= with_token(before, bare(t@)));
                }
            },
            Item::Child(b) => {
                if params.as_str().unicode_len() > 0 {
                    w.line(params.as_str());
                }
                params = no_text();
                w.begin_block(b.keyword.as_str());
                proof {
                    assert(decreases_to!(items => items@[i as int]));
                    assert(decreases_to!(items@[i as int] => b));
                }
                write_items(&b.items, w);
                w.end_block(b.keyword.as_str());
            },
        }
        i += 1;
    }
    if params.as_str().unicode_len() > 0 {
        w.line(params.as_str());
    }
}

} // verus!
