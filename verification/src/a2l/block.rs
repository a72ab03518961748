//! The tree of blocks that `/begin` and `/end` form.

use crate::a2l::error::{Error, Failure, Result};
use crate::a2l::token::{bare, toks, Tok, Token};
use crate::text::{eq_ignore_case, same_ignore_case, same_text};
use vstd::prelude::*;

verus! {

/// A parameter or a nested block.
#[derive(Debug, PartialEq, Eq)]
pub enum Item {
    Param(Token),
    Child(Block),
}

/// A block: its keyword, the line of its `/begin`, and what stands in it.
#[derive(Debug, PartialEq, Eq)]
pub struct Block {
    pub keyword: String,
    pub line: u32,
    pub items: Vec<Item>,
}

/// An [`Item`] as a mathematical value.
pub enum TreeItem {
    Param(Tok),
    Child(Tree),
}

/// A [`Block`] as a mathematical value.
pub struct Tree {
    pub keyword: Seq<char>,
    pub line: int,
    pub items: Seq<TreeItem>,
}

/// Items as mathematical values.
pub open spec fn trees(items: Seq<Item>) -> Seq<TreeItem>
    decreases items,
{
    Seq::new(
        items.len(),
        |i: int|
            if 0 <= i < items.len() {
                match items[i] {
                    Item::Param(t) => TreeItem::Param(t@),
                    Item::Child(b) => TreeItem::Child(
                        Tree { keyword: b.keyword@, line: b.line as int, items: trees(b.items@) },
                    ),
                }
            } else {
                arbitrary()
            },
    )
}

/// Items by the texts of their tokens alone.
pub open spec fn bare_items(items: Seq<TreeItem>) -> Seq<TreeItem>
    decreases items,
{
    Seq::new(
        items.len(),
        |i: int|
            if 0 <= i < items.len() {
                match items[i] {
                    TreeItem::Param(t) => TreeItem::Param(bare(t)),
                    TreeItem::Child(b) => TreeItem::Child(
                        Tree { keyword: b.keyword, line: 0, items: bare_items(b.items) },
                    ),
                }
            } else {
                arbitrary()
            },
    )
}

/// A block by the texts of its tokens alone.
pub open spec fn bare_tree(t: Tree) -> Tree {
    Tree { keyword: t.keyword, line: 0, items: bare_items(t.items) }
}

impl View for Item {
    type V = TreeItem;

    open spec fn view(&self) -> TreeItem {
        match self {
            Item::Param(t) => TreeItem::Param(t@),
            Item::Child(b) => TreeItem::Child(b@),
        }
    }
}

impl View for Block {
    type V = Tree;

    open spec fn view(&self) -> Tree {
        Tree { keyword: self.keyword@, line: self.line as int, items: trees(self.items@) }
    }
}

proof fn lemma_trees_push(items: Seq<Item>, item: Item)
    ensures
        trees(items.push(item)) == trees(items).push(item@),
{
    assert(trees(items.push(item)) =~= trees(items).push(item@));
}

/// The blocks among items, in order.
pub open spec fn children_of(items: Seq<TreeItem>) -> Seq<Tree>
    decreases items.len(),
{
    if items.len() == 0 {
        Seq::empty()
    } else {
        match items.last() {
            TreeItem::Child(b) => children_of(items.drop_last()).push(b),
            TreeItem::Param(_) => children_of(items.drop_last()),
        }
    }
}

/// The parameters among items, in order.
pub open spec fn params_of(items: Seq<TreeItem>) -> Seq<Tok>
    decreases items.len(),
{
    if items.len() == 0 {
        Seq::empty()
    } else {
        match items.last() {
            TreeItem::Param(t) => params_of(items.drop_last()).push(t),
            TreeItem::Child(_) => params_of(items.drop_last()),
        }
    }
}

/// The first block that has the keyword.
pub open spec fn first_named(blocks: Seq<Tree>, keyword: Seq<char>) -> Option<Tree>
    decreases blocks.len(),
{
    if blocks.len() == 0 {
        None
    } else if blocks[0].keyword == keyword {
        Some(blocks[0])
    } else {
        first_named(blocks.drop_first(), keyword)
    }
}

/// The blocks that have the keyword, in order.
pub open spec fn all_named(blocks: Seq<Tree>, keyword: Seq<char>) -> Seq<Tree>
    decreases blocks.len(),
{
    if blocks.len() == 0 {
        Seq::empty()
    } else if blocks.last().keyword == keyword {
        all_named(blocks.drop_last(), keyword).push(blocks.last())
    } else {
        all_named(blocks.drop_last(), keyword)
    }
}

/// The views of borrowed blocks.
pub open spec fn block_views(blocks: Seq<&Block>) -> Seq<Tree> {
    Seq::new(blocks.len(), |i: int| blocks[i]@)
}

/// The views of borrowed tokens.
pub open spec fn token_views(tokens: Seq<&Token>) -> Seq<Tok> {
    Seq::new(tokens.len(), |i: int| tokens[i]@)
}

impl Clone for Block {
    fn clone(&self) -> (r: Self)
        ensures
            r@ == self@,
        decreases self,
    {
        Block {
            keyword: self.keyword.clone(),
            line: self.line,
            items: copy_items(&self.items),
        }
    }
}

/// A copy of items.
pub(crate) fn copy_items(items: &Vec<Item>) -> (r: Vec<Item>)
    ensures
        trees(r@) == trees(items@),
    decreases items,
{
    let mut out: Vec<Item> = Vec::new();
    let mut i: usize = 0;
    while i < items.len()
        invariant
            i <= items.len(),
            trees(out@) =~= trees(items@).subrange(0, i as int),
        decreases items.len() - i,
    {
        let ghost before = out@;
        let item = match &items[i] {
            Item::Param(t) => Item::Param(t.clone()),
            Item::Child(b) => {
                proof {
                    assert(decreases_to!(items => items@[i as int]));
                    assert(decreases_to!(items@[i as int] => b));
                }
                Item::Child(
                    Block {
                        keyword: b.keyword.clone(),
                        line: b.line,
                        items: copy_items(&b.items),
                    },
                )
            },
        };
        out.push(item);
        proof {
            lemma_trees_push(before, item);
        }
        i += 1;
    }
    proof {
        assert(trees(items@).subrange(0, items@.len() as int) =~= trees(items@));
    }
    out
}

impl Clone for Item {
    fn clone(&self) -> (r: Self)
        ensures
            r@ == self@,
    {
        match self {
            Item::Param(t) => Item::Param(t.clone()),
            Item::Child(b) => Item::Child(b.clone()),
        }
    }
}

impl Block {
    /// The nested blocks.
    pub fn children(&self) -> (r: Vec<&Block>)
        ensures
            block_views(r@) == children_of(self@.items),
    {
        let mut out: Vec<&Block> = Vec::new();
        let mut i: usize = 0;
        proof {
            assert(block_views(out@) =~= children_of(self@.items.subrange(0, 0)));
        }
        while i < self.items.len()
            invariant
                i <= self.items.len(),
                block_views(out@) == children_of(self@.items.subrange(0, i as int)),
            decreases self.items.len() - i,
        {
            let ghost before = block_views(out@);
            proof {
                let next = self@.items.subrange(0, i + 1);
                assert(next.drop_last() =~= self@.items.subrange(0, i as int));
                assert(next.last() == self.items@[i as int]@);
            }
            match &self.items[i] {
                Item::Child(b) => {
                    out.push(b);
                    proof {
                        assert(block_views(out@) =~= before.push(b@));
                    }
                },
                Item::Param(_) => {},
            }
            i += 1;
        }
        proof {
            assert(self@.items.subrange(0, i as int) =~= self@.items);
        }
        out
    }

    /// The first nested block that has the keyword.
    pub fn child(&self, keyword: &str) -> (r: Option<&Block>)
        ensures
            match r {
                Some(b) => first_named(children_of(self@.items), keyword@) == Some(b@),
                None => first_named(children_of(self@.items), keyword@) is None,
            },
    {
        let blocks = self.children();
        let ghost all = block_views(blocks@);
        let mut i: usize = 0;
        proof {
            assert(all.skip(0) =~= all);
        }
        while i < blocks.len()
            invariant
                i <= blocks.len(),
                all == block_views(blocks@),
                all == children_of(self@.items),
                first_named(all, keyword@) == first_named(all.skip(i as int), keyword@),
            decreases blocks.len() - i,
        {
            proof {
                assert(all.skip(i as int)[0] == blocks@[i as int]@);
                assert(all.skip(i as int).drop_first() =~= all.skip(i + 1));
            }
            let b = blocks[i];
            if same_text(b.keyword.as_str(), keyword) {
                return Some(b);
            }
            i += 1;
        }
        None
    }

    /// The nested blocks that have the keyword.
    pub fn children_named(&self, keyword: &str) -> (r: Vec<&Block>)
        ensures
            block_views(r@) == all_named(children_of(self@.items), keyword@),
    {
        let blocks = self.children();
        let ghost all = block_views(blocks@);
        let mut out: Vec<&Block> = Vec::new();
        let mut i: usize = 0;
        proof {
            assert(block_views(out@) =~= all_named(all.subrange(0, 0), keyword@));
        }
        while i < blocks.len()
            invariant
                i <= blocks.len(),
                all == block_views(blocks@),
                block_views(out@) == all_named(all.subrange(0, i as int), keyword@),
            decreases blocks.len() - i,
        {
            let ghost before = block_views(out@);
            proof {
                let next = all.subrange(0, i + 1);
                assert(next.drop_last() =~= all.subrange(0, i as int));
                assert(next.last() == blocks@[i as int]@);
            }
            let b = blocks[i];
            if same_text(b.keyword.as_str(), keyword) {
                out.push(b);
                proof {
                    assert(block_views(out@) =~= before.push(b@));
                }
            }
            i += 1;
        }
        proof {
            assert(all.subrange(0, i as int) =~= all);
        }
        out
    }

    /// The parameters of the block itself.
    pub fn params(&self) -> (r: Vec<&Token>)
        ensures
            token_views(r@) == params_of(self@.items),
    {
        let mut out: Vec<&Token> = Vec::new();
        let mut i: usize = 0;
        proof {
            assert(token_views(out@) =~= params_of(self@.items.subrange(0, 0)));
        }
        while i < self.items.len()
            invariant
                i <= self.items.len(),
                token_views(out@) == params_of(self@.items.subrange(0, i as int)),
            decreases self.items.len() - i,
        {
            let ghost before = token_views(out@);
            proof {
                let next = self@.items.subrange(0, i + 1);
                assert(next.drop_last() =~= self@.items.subrange(0, i as int));
                assert(next.last() == self.items@[i as int]@);
            }
            match &self.items[i] {
                Item::Param(t) => {
                    out.push(t);
                    proof {
                        assert(token_views(out@) =~= before.push(t@));
                    }
                },
                Item::Child(_) => {},
            }
            i += 1;
        }
        proof {
            assert(self@.items.subrange(0, i as int) =~= self@.items);
        }
        out
    }
}

/// Items with the position behind them, or how finding them fails.
pub type Grown = std::result::Result<(Seq<TreeItem>, int), Failure>;

/// What is found after an item.
pub open spec fn grown_after(item: TreeItem, rest: Grown) -> Grown {
    match rest {
        Ok((items, next)) => Ok((seq![item] + items, next)),
        Err(f) => Err(f),
    }
}

/// What is found after items.
pub open spec fn grown_behind(done: Seq<TreeItem>, rest: Grown) -> Grown {
    match rest {
        Ok((items, next)) => Ok((done + items, next)),
        Err(f) => Err(f),
    }
}

/// The items from a position up to the `/end` of the enclosing block, given by its keyword
/// and line, or up to the end of the tokens where no block encloses them.
pub open spec fn grow(s: Seq<Tok>, pos: int, enclosing: Option<(Seq<char>, int)>) -> Grown
    decreases s.len() - pos,
{
    if pos < 0 || pos >= s.len() {
        match enclosing {
            Some((keyword, line)) => Err(Failure::Parse(line, "missing /end "@ + keyword)),
            None => Ok((Seq::empty(), pos)),
        }
    } else if s[pos].is_word("/begin"@) {
        if pos + 1 >= s.len() {
            Err(Failure::Parse(s[pos].line, "expected keyword after /begin"@))
        } else {
            match grow(s, pos + 2, Some((s[pos + 1].text, s[pos].line))) {
                Ok((items, next)) => if pos < next <= s.len() {
                    grown_after(
                        TreeItem::Child(
                            Tree { keyword: s[pos + 1].text, line: s[pos].line, items },
                        ),
                        grow(s, next, enclosing),
                    )
                } else {
                    arbitrary()
                },
                Err(f) => Err(f),
            }
        }
    } else if s[pos].is_word("/end"@) {
        if pos + 1 >= s.len() {
            Err(Failure::Parse(s[pos].line, "expected keyword after /end"@))
        } else {
            match enclosing {
                Some((keyword, _)) => if same_ignore_case(s[pos + 1].text, keyword) {
                    Ok((Seq::empty(), pos + 2))
                } else {
                    Err(
                        Failure::Parse(
                            s[pos].line,
                            "/end "@ + s[pos + 1].text + " does not match /begin "@ + keyword,
                        ),
                    )
                },
                None => Err(Failure::Parse(s[pos].line, "/end without matching /begin"@)),
            }
        }
    } else {
        grown_after(TreeItem::Param(s[pos]), grow(s, pos + 1, enclosing))
    }
}

/// The block without a keyword that holds everything in a token sequence, or how the
/// nesting fails.
pub open spec fn tree_of(s: Seq<Tok>) -> std::result::Result<Tree, Failure> {
    match grow(s, 0, None) {
        Ok((items, _)) => Ok(Tree { keyword: Seq::empty(), line: 0, items }),
        Err(f) => Err(f),
    }
}

proof fn lemma_grown_step(done: Seq<TreeItem>, item: TreeItem, rest: Grown)
    ensures
        grown_behind(done, grown_after(item, rest)) == grown_behind(done.push(item), rest),
{
    if let Ok((items, _)) = rest {
        assert(done + (seq![item] + items) =~= done.push(item) + items);
    }
}

/// Arranges tokens as a tree. The result is a block without a keyword that holds
/// everything.
pub fn build_block_tree(tokens: &[Token]) -> (r: Result<Block>)
    ensures
        match r {
            Ok(b) => tree_of(toks(tokens@)) == Ok::<Tree, Failure>(b@),
            Err(e) => tree_of(toks(tokens@)) == Err::<Tree, Failure>(e@),
        },
{
    match build_inner(tokens, 0, None) {
        Ok((items, _)) => {
            let keyword = "".to_string();
            proof {
                reveal_strlit("");
                assert(keyword@ =~= Seq::<char>::empty());
            }
            Ok(Block { keyword, line: 0, items })
        },
        Err(e) => Err(e),
    }
}

/// The enclosing block as mathematical values.
spec fn around(enclosing: Option<(&str, u32)>) -> Option<(Seq<char>, int)> {
    match enclosing {
        Some((k, l)) => Some((k@, l as int)),
        None => None,
    }
}

fn build_inner(tokens: &[Token], start: usize, enclosing: Option<(&str, u32)>) -> (r: Result<
    (Vec<Item>, usize),
>)
    requires
        start <= tokens@.len(),
    ensures
        match r {
            Ok((items, next)) => {
                &&& grow(toks(tokens@), start as int, around(enclosing)) == Ok::<
                    (Seq<TreeItem>, int),
                    Failure,
                >((trees(items@), next as int))
                &&& start <= next <= tokens@.len()
            },
            Err(e) => grow(toks(tokens@), start as int, around(enclosing)) == Err::<
                (Seq<TreeItem>, int),
                Failure,
            >(e@),
        },
    decreases tokens@.len() - start,
{
    let mut items: Vec<Item> = Vec::new();
    let mut pos: usize = start;
    let ghost s = toks(tokens@);
    let ghost whole = grow(s, start as int, around(enclosing));
    proof {
        assert(trees(items@) =~= Seq::<TreeItem>::empty());
        if let Ok((all, _)) = whole {
            assert(Seq::<TreeItem>::empty() + all =~= all);
        }
    }
    while pos < tokens.len()
        invariant
            start <= pos <= tokens@.len(),
            s == toks(tokens@),
            whole == grow(s, start as int, around(enclosing)),
            whole == grown_behind(trees(items@), grow(s, pos as int, around(enclosing))),
        decreases tokens@.len() - pos,
    {
        let t = &tokens[pos];
        let ghost done = items@;
        proof {
            assert(s[pos as int] == t@);
        }
        if t.is_begin() {
            if pos + 1 >= tokens.len() {
                return Err(Error::parse(t.line, "expected keyword after /begin".to_string()));
            }
            let keyword = tokens[pos + 1].text.clone();
            match build_inner(tokens, pos + 2, Some((keyword.as_str(), t.line))) {
                Err(e) => {
                    return Err(e);
                },
                Ok((inner, next)) => {
                    let child = Item::Child(Block { keyword, line: t.line, items: inner });
                    proof {
                        lemma_grown_step(
                            trees(done),
                            child@,
                            grow(s, next as int, around(enclosing)),
                        );
                        lemma_trees_push(done, child);
                    }
                    items.push(child);
                    pos = next;
                },
            }
        } else if t.is_end() {
            if pos + 1 >= tokens.len() {
                return Err(Error::parse(t.line, "expected keyword after /end".to_string()));
            }
            let named = tokens[pos + 1].text.as_str();
            match enclosing {
                Some((keyword, _)) => {
                    if eq_ignore_case(named, keyword) {
                        proof {
                            assert(trees(items@) + Seq::<TreeItem>::empty() =~= trees(items@));
                        }
                        return Ok((items, pos + 2));
                    }
                    let mut message = "/end ".to_string();
                    message.append(named);
                    message.append(" does not match /begin ");
                    message.append(keyword);
                    return Err(Error::parse(t.line, message));
                },
                None => {
                    return Err(Error::parse(t.line, "/end without matching /begin".to_string()));
                },
            }
        } else {
            let param = Item::Param(t.clone());
            proof {
                lemma_grown_step(
                    trees(done),
                    param@,
                    grow(s, pos + 1, around(enclosing)),
                );
                lemma_trees_push(done, param);
            }
            items.push(param);
            pos += 1;
        }
    }
    match enclosing {
        Some((keyword, line)) => {
            let mut message = "missing /end ".to_string();
            message.append(keyword);
            Err(Error::parse(line, message))
        },
        None => {
            proof {
                assert(trees(items@) + Seq::<TreeItem>::empty() =~= trees(items@));
            }
            Ok((items, pos))
        },
    }
}

} // verus!
