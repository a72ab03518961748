//! What it takes that a node reads back from what is written for it.

use crate::a2l::block::{bare_items, bare_tree, children_of, params_of, Tree, TreeItem};
use crate::a2l::error::Failure;
use crate::a2l::model::base::{
    is_refresh_unit, lemma_refresh_unit, ReferenceFields, ReferenceFieldsView,
};
use crate::a2l::model::enums::{A2lKeyword, ScalingUnits};
use crate::a2l::model::parts::{
    children_parsed, children_written, dims_after, hex_form, listed, node_parsed, node_written,
    read_dims, Child,
};
use crate::a2l::model::unsupported::{UnsupportedNode, UnsupportedNodeView};
use crate::a2l::node::Node;
use crate::a2l::number::{JointNum, Num};
use crate::a2l::params::{int_in, integer, law_integer_of_dec, Cur};
use crate::a2l::spell::{
    adds, bares, indents_by_blanks, is_word_text, lemma_marks_blank, lemma_marks_blanks,
    lemma_marks_word, lemma_repeated_blank, lemma_shows_blank, lemma_shows_join,
    lemma_shows_line, lemma_shows_nothing, lemma_spells_join, lemma_spells_quoted,
    lemma_spells_word, marks, plain, put_before, shows, spells, string,
};
use crate::a2l::token::{bare, ends_word, is_blank, Tok};
use crate::a2l::tree_laws::{
    flat, is_param, lemma_unsupported_shown, sound, tokens_at,
};
use crate::a2l::writer::{escaped, in_columns, quoted, Page};
use crate::numeral::{law_magnitude_of_dec, law_magnitude_of_hex, lemma_digits_grow};
use crate::text::{dec, dec_int, hex, is_space, lemma_differ, trimmed_end};
use vstd::prelude::*;

verus! {

/// The floating-point number that a text stands for, as the application reads it.
pub type Numbers = spec_fn(Seq<char>) -> Option<Num>;

/// What two texts that stand for numbers give together, as the application works it out.
pub type Joints = spec_fn(Seq<char>, Seq<char>) -> Option<JointNum>;

/// How a project is written and read back.
pub struct Setting {
    pub numbers: Numbers,
    pub joints: Joints,
    /// Whether A2ML blocks are written.
    pub a2ml: bool,
}

/// Whether a page is laid out so that what is written on it reads back.
pub open spec fn suits(p: Page, f: Setting) -> bool {
    &&& indents_by_blanks(p)
    &&& f.a2ml ==> p.style.write_a2ml
}

/// Whether the application has filled in the numbers of tokens that follow each other.
pub open spec fn toks_numbered(s: Seq<Tok>, f: Setting) -> bool {
    &&& forall|i: int| 0 <= i < s.len() ==> (#[trigger] s[i]).number == (f.numbers)(s[i].text)
    &&& toks_joined(s, f)
}

/// Whether the application has filled in what each token gives together with the next.
#[verifier::opaque]
pub open spec fn toks_joined(s: Seq<Tok>, f: Setting) -> bool {
    forall|i: int| 0 <= i < s.len() - 1 ==> #[trigger] joined_at(s, i, f)
}

/// Whether the application has filled in what a token gives together with the next.
pub open spec fn joined_at(s: Seq<Tok>, i: int, f: Setting) -> bool {
    s[i].joint == (f.joints)(s[i].text, s[i + 1].text)
}

/// Whether the application has filled in the numbers of items from an index on.
pub open spec fn numbered(items: Seq<TreeItem>, i: int, f: Setting) -> bool
    decreases items, items.len() - i,
{
    if i < 0 || i >= items.len() {
        true
    } else {
        numbered(items, i + 1, f) && match items[i] {
            TreeItem::Param(t) => {
                &&& t.number == (f.numbers)(t.text)
                &&& i + 1 < items.len() && items[i + 1] is Param ==> t.joint == (f.joints)(
                    t.text,
                    items[i + 1]->Param_0.text,
                )
            },
            TreeItem::Child(b) => numbered(b.items, 0, f),
        }
    }
}

/// Whether the application has filled in the numbers of an item: that of a parameter, also
/// together with a parameter behind it, and those within a block.
pub open spec fn item_numbered(items: Seq<TreeItem>, i: int, f: Setting) -> bool {
    match items[i] {
        TreeItem::Param(t) => {
            &&& t.number == (f.numbers)(t.text)
            &&& i + 1 < items.len() && items[i + 1] is Param ==> t.joint == (f.joints)(
                t.text,
                items[i + 1]->Param_0.text,
            )
        },
        TreeItem::Child(b) => numbered(b.items, 0, f),
    }
}

/// Parameters as items.
pub open spec fn param_items(x: Seq<Tok>) -> Seq<TreeItem> {
    Seq::new(x.len(), |i: int| TreeItem::Param(x[i]))
}

/// Blocks as items.
pub open spec fn child_items(c: Seq<Tree>) -> Seq<TreeItem> {
    Seq::new(c.len(), |i: int| TreeItem::Child(c[i]))
}

/// A block that holds parameters and then blocks.
pub open spec fn shape_of(keyword: Seq<char>, x: Seq<Tok>, c: Seq<Tree>) -> Tree {
    Tree { keyword, line: 0, items: param_items(x) + child_items(c) }
}

/// The tokens of a block.
pub open spec fn block_tokens(t: Tree) -> Seq<Tok> {
    seq![plain("/begin"@), plain(t.keyword)] + flat(t.items, 0) + seq![
        plain("/end"@),
        plain(t.keyword),
    ]
}

/// The tokens of blocks from an index on.
pub open spec fn blocks_tokens(c: Seq<Tree>, i: int) -> Seq<Tok>
    decreases c.len() - i,
{
    if i < 0 || i >= c.len() {
        Seq::empty()
    } else {
        block_tokens(c[i]) + blocks_tokens(c, i + 1)
    }
}

/// Whether a block can be written and found again.
pub open spec fn sound_tree(t: Tree) -> bool {
    &&& t.line == 0
    &&& is_word_text(t.keyword)
    &&& sound(t.items, 0)
}

/// Whether every token can be a parameter.
pub open spec fn all_params(x: Seq<Tok>) -> bool {
    forall|i: int| 0 <= i < x.len() ==> is_param(#[trigger] x[i])
}

proof fn lemma_flat_shape(x: Seq<Tok>, c: Seq<Tree>, i: int)
    requires
        0 <= i <= x.len() + c.len(),
    ensures
        flat(param_items(x) + child_items(c), i) == if i < x.len() {
            x.skip(i) + blocks_tokens(c, 0)
        } else {
            blocks_tokens(c, i - x.len())
        },
    decreases x.len() + c.len() - i,
{
    let items = param_items(x) + child_items(c);
    if i < x.len() {
        lemma_flat_shape(x, c, i + 1);
        assert(items[i] == TreeItem::Param(x[i]));
        assert(seq![x[i]] + (x.skip(i + 1) + blocks_tokens(c, 0)) =~= x.skip(i) + blocks_tokens(
            c,
            0,
        ));
        if i + 1 == x.len() {
            assert(seq![x[i]] =~= x.skip(i));
        }
    } else if i < x.len() + c.len() {
        lemma_flat_shape(x, c, i + 1);
        assert(items[i] == TreeItem::Child(c[i - x.len()]));
    }
}

/// The tokens of a block that holds parameters and then blocks.
pub(crate) proof fn lemma_shape_tokens(x: Seq<Tok>, c: Seq<Tree>)
    ensures
        flat(param_items(x) + child_items(c), 0) == x + blocks_tokens(c, 0),
{
    lemma_flat_shape(x, c, 0);
    if x.len() > 0 {
        assert(x.skip(0) =~= x);
    } else {
        assert(x + blocks_tokens(c, 0) =~= blocks_tokens(c, 0));
    }
}

proof fn lemma_sound_shape_from(x: Seq<Tok>, c: Seq<Tree>, i: int)
    requires
        0 <= i <= x.len() + c.len(),
        all_params(x),
        forall|k: int| 0 <= k < c.len() ==> sound_tree(#[trigger] c[k]),
    ensures
        sound(param_items(x) + child_items(c), i),
    decreases x.len() + c.len() - i,
{
    let items = param_items(x) + child_items(c);
    if i < x.len() + c.len() {
        lemma_sound_shape_from(x, c, i + 1);
        if i < x.len() {
            assert(items[i] == TreeItem::Param(x[i]));
            assert(is_param(x[i]));
        } else {
            assert(items[i] == TreeItem::Child(c[i - x.len()]));
            assert(sound_tree(c[i - x.len()]));
        }
    }
}

/// A block that holds parameters and then sound blocks is sound.
pub(crate) proof fn lemma_sound_shape(keyword: Seq<char>, x: Seq<Tok>, c: Seq<Tree>)
    requires
        is_word_text(keyword),
        all_params(x),
        forall|k: int| 0 <= k < c.len() ==> sound_tree(#[trigger] c[k]),
    ensures
        sound_tree(shape_of(keyword, x, c)),
{
    lemma_sound_shape_from(x, c, 0);
}

proof fn lemma_params_found(items: Seq<TreeItem>, x: Seq<Tok>, c: Seq<Tree>, n: int, f: Setting)
    requires
        0 <= n <= items.len(),
        bare_items(items) == param_items(x) + child_items(c),
        numbered(items, 0, f),
    ensures
        n <= x.len() ==> {
            &&& bares(params_of(items.subrange(0, n))) == x.subrange(0, n)
            &&& children_of(items.subrange(0, n)) == Seq::<Tree>::empty()
        },
        n > x.len() ==> {
            &&& bares(params_of(items.subrange(0, n))) == x
            &&& children_of(items.subrange(0, n)).len() == n - x.len()
            &&& forall|k: int|
                0 <= k < n - x.len() ==> {
                    &&& bare_tree(#[trigger] children_of(items.subrange(0, n))[k]) == c[k]
                    &&& numbered(children_of(items.subrange(0, n))[k].items, 0, f)
                }
        },
        forall|k: int|
            0 <= k < params_of(items.subrange(0, n)).len() ==> items[k] == TreeItem::Param(
                #[trigger] params_of(items.subrange(0, n))[k],
            ),
    decreases n,
{
    let s = items.subrange(0, n);
    if n == 0 {
        assert(s =~= Seq::<TreeItem>::empty());
        assert(bares(params_of(s)) =~= x.subrange(0, 0));
    } else {
        lemma_params_found(items, x, c, n - 1, f);
        let before = items.subrange(0, n - 1);
        assert(s.drop_last() =~= before);
        assert(s.last() == items[n - 1]);
        lemma_numbered_at(items, 0, n - 1, f);
        assert(bare_items(items).len() == items.len());
        let want = (param_items(x) + child_items(c))[n - 1];
        assert(bare_items(items)[n - 1] == want);
        if n - 1 < x.len() {
            assert(want == TreeItem::Param(x[n - 1]));
            let t = items[n - 1]->Param_0;
            assert(bare(t) == x[n - 1]);
            assert(bares(params_of(before).push(t)) =~= bares(params_of(before)).push(bare(t)));
            assert(x.subrange(0, n) =~= x.subrange(0, n - 1).push(x[n - 1]));
        } else {
            assert(want == TreeItem::Child(c[n - 1 - x.len()]));
            let b = items[n - 1]->Child_0;
            assert(bare_tree(b) == c[n - 1 - x.len()]);
            if n - 1 == x.len() {
                assert(x.subrange(0, n - 1) =~= x);
            }
        }
    }
}

proof fn lemma_numbered_at(items: Seq<TreeItem>, i: int, k: int, f: Setting)
    requires
        0 <= i <= k < items.len(),
        numbered(items, i, f),
    ensures
        item_numbered(items, k, f),
    decreases k - i,
{
    if i < k {
        lemma_numbered_at(items, i + 1, k, f);
    }
}

/// What is found in a block that has the texts of a shape.
pub(crate) proof fn lemma_shape_found(tree: Tree, keyword: Seq<char>, x: Seq<Tok>, c: Seq<Tree>, f: Setting)
    requires
        bare_tree(tree) == shape_of(keyword, x, c),
        numbered(tree.items, 0, f),
    ensures
        tree.keyword == keyword,
        bares(params_of(tree.items)) == x,
        toks_numbered(params_of(tree.items), f),
        tokens_at(params_of(tree.items), 0, x),
        params_of(tree.items).len() == x.len(),
        children_of(tree.items).len() == c.len(),
        forall|k: int|
            0 <= k < c.len() ==> {
                &&& bare_tree(#[trigger] children_of(tree.items)[k]) == c[k]
                &&& numbered(children_of(tree.items)[k].items, 0, f)
            },
{
    let items = tree.items;
    let n = items.len() as int;
    assert(bare_items(items).len() == n);
    assert(n == x.len() + c.len());
    lemma_params_found(items, x, c, n, f);
    assert(items.subrange(0, n) =~= items);
    let s = params_of(items);
    if n <= x.len() {
        assert(x.subrange(0, n) =~= x);
    }
    assert(bares(s).len() == s.len());
    assert forall|k: int| 0 <= k < s.len() implies (#[trigger] s[k]).number == (f.numbers)(
        s[k].text,
    ) by {
        lemma_numbered_at(items, 0, k, f);
        assert(items[k] == TreeItem::Param(s[k]));
    }
    assert(toks_joined(s, f)) by {
        reveal(toks_joined);
        assert forall|k: int| 0 <= k < s.len() - 1 implies #[trigger] joined_at(s, k, f) by {
            lemma_numbered_at(items, 0, k, f);
            assert(items[k] == TreeItem::Param(s[k]));
            assert(items[k + 1] == TreeItem::Param(s[k + 1]));
        }
    }
    assert(bares(s).len() == s.len());
    assert forall|k: int| 0 <= k < x.len() implies bare(#[trigger] s[0 + k]) == x[k] by {
        assert(bares(s)[k] == bare(s[k]));
    }
}

/// A node type that reads back from what is written for it.
pub trait Faithful: Node {
    /// Whether the node can be written and read back, given how the application reads
    /// numbers.
    spec fn fits(v: Self::V, f: Setting) -> bool;

    /// The block that the node is written as.
    spec fn shape(v: Self::V) -> Tree;

    /// A node that fits is written as its block.
    proof fn law_shown(v: Self::V, p: Page, f: Setting)
        requires
            Self::fits(v, f),
            suits(p, f),
        ensures
            sound_tree(Self::shape(v)),
            Self::block(v, p) matches Ok(q) && shows(p, q, block_tokens(Self::shape(v))) && q.depth
                == p.depth && q.style == p.style,
    ;

    /// A node that fits is read from its block.
    proof fn law_parsed(v: Self::V, tree: Tree, f: Setting)
        requires
            Self::fits(v, f),
            bare_tree(tree) == Self::shape(v),
            numbered(tree.items, 0, f),
        ensures
            Self::parsed(tree) == Ok::<Self::V, Failure>(v),
    ;
}

/// Blocks within a node that read back from what is written for them.
pub trait FaithfulChild: Child {
    /// Whether the block can be written and read back.
    spec fn fits(v: Self::V, f: Setting) -> bool;

    /// The block as it is written.
    spec fn shape(v: Self::V) -> Tree;

    /// What fits is written as its block.
    proof fn law_shown(v: Self::V, p: Page, f: Setting)
        requires
            Self::fits(v, f),
            suits(p, f),
        ensures
            sound_tree(Self::shape(v)),
            Self::written(v, p) matches Ok(q) && shows(p, q, block_tokens(Self::shape(v)))
                && q.depth == p.depth && q.style == p.style,
    ;

    /// What fits is read from its block.
    proof fn law_parsed(v: Self::V, tree: Tree, f: Setting)
        requires
            Self::fits(v, f),
            bare_tree(tree) == Self::shape(v),
            numbered(tree.items, 0, f),
        ensures
            Self::parsed(tree) == Ok::<Self::V, Failure>(v),
    ;
}

/// A node that fits is written as its block, whatever type it is of.
pub(crate) proof fn lemma_node_shown<T: Faithful>(v: T::V, p: Page, f: Setting)
    requires
        T::fits(v, f),
        suits(p, f),
    ensures
        sound_tree(T::shape(v)),
        node_written::<T>(v, p) matches Ok(q) && shows(p, q, block_tokens(T::shape(v))) && q.depth
            == p.depth && q.style == p.style,
{
    reveal(node_written);
    T::law_shown(v, p, f);
}

/// A node that fits is read from its block, whatever type it is of.
pub(crate) proof fn lemma_node_read<T: Faithful>(v: T::V, tree: Tree, f: Setting)
    requires
        T::fits(v, f),
        bare_tree(tree) == T::shape(v),
        numbered(tree.items, 0, f),
    ensures
        node_parsed::<T>(tree) == Ok::<T::V, Failure>(v),
{
    reveal(node_parsed);
    T::law_parsed(v, tree, f);
}

/// Whether all blocks of a list can be written and read back.
pub open spec fn all_fit<T: FaithfulChild>(s: Seq<T::V>, f: Setting) -> bool {
    forall|i: int| 0 <= i < s.len() ==> T::fits(#[trigger] s[i], f)
}

/// The blocks of a list as they are written.
pub open spec fn shapes<T: FaithfulChild>(s: Seq<T::V>) -> Seq<Tree> {
    Seq::new(s.len(), |i: int| T::shape(s[i]))
}

proof fn lemma_children_shown_from<T: FaithfulChild>(
    s: Seq<T::V>,
    i: int,
    spaced: bool,
    p: Page,
    f: Setting,
)
    requires
        0 <= i <= s.len(),
        all_fit::<T>(s, f),
        suits(p, f),
    ensures
        children_written::<T>(s, i, spaced, p) matches Ok(q) && shows(
            p,
            q,
            blocks_tokens(shapes::<T>(s), i),
        ) && q.depth == p.depth && q.style == p.style,
    decreases s.len() - i,
{
    if i >= s.len() {
        lemma_shows_nothing(p);
    } else {
        let p1 = if spaced {
            p.blank()
        } else {
            p
        };
        let none = Seq::<Tok>::empty();
        if spaced {
            lemma_shows_blank(p);
        } else {
            lemma_shows_nothing(p);
        }
        assert(T::fits(s[i], f));
        T::law_shown(s[i], p1, f);
        let p2 = T::written(s[i], p1)->Ok_0;
        let x = block_tokens(T::shape(s[i]));
        lemma_shows_join(p, p1, p2, none, x);
        lemma_children_shown_from::<T>(s, i + 1, spaced, p2, f);
        let p3 = children_written::<T>(s, i + 1, spaced, p2)->Ok_0;
        let y = blocks_tokens(shapes::<T>(s), i + 1);
        lemma_shows_join(p, p2, p3, none + x, y);
        assert(shapes::<T>(s)[i] == T::shape(s[i]));
        assert(none + x + y =~= blocks_tokens(shapes::<T>(s), i));
    }
}

/// Blocks that fit are written one after the other.
pub(crate) proof fn lemma_children_shown<T: FaithfulChild>(
    s: Seq<T::V>,
    spaced: bool,
    p: Page,
    f: Setting,
)
    requires
        all_fit::<T>(s, f),
        suits(p, f),
    ensures
        children_written::<T>(s, 0, spaced, p) matches Ok(q) && shows(
            p,
            q,
            blocks_tokens(shapes::<T>(s), 0),
        ) && q.depth == p.depth && q.style == p.style,
{
    lemma_children_shown_from::<T>(s, 0, spaced, p, f);
}

/// Blocks that fit have sound shapes.
pub(crate) proof fn lemma_shapes_sound<T: FaithfulChild>(s: Seq<T::V>, p: Page, f: Setting)
    requires
        all_fit::<T>(s, f),
        suits(p, f),
    ensures
        forall|k: int| 0 <= k < s.len() ==> sound_tree(#[trigger] shapes::<T>(s)[k]),
        shapes::<T>(s).len() == s.len(),
{
    assert forall|k: int| 0 <= k < s.len() implies sound_tree(#[trigger] shapes::<T>(s)[k]) by {
        assert(T::fits(s[k], f));
        T::law_shown(s[k], p, f);
    }
}

proof fn lemma_children_read_from<T: FaithfulChild>(
    s: Seq<T::V>,
    blocks: Seq<Tree>,
    i: int,
    f: Setting,
)
    requires
        0 <= i <= s.len(),
        all_fit::<T>(s, f),
        blocks.len() == s.len(),
        forall|k: int|
            0 <= k < s.len() ==> {
                &&& bare_tree(#[trigger] blocks[k]) == shapes::<T>(s)[k]
                &&& numbered(blocks[k].items, 0, f)
            },
    ensures
        children_parsed::<T>(blocks, i) == Ok::<Seq<T::V>, Failure>(s.skip(i)),
    decreases s.len() - i,
{
    if i >= s.len() {
        assert(s.skip(i) =~= Seq::<T::V>::empty());
    } else {
        lemma_children_read_from::<T>(s, blocks, i + 1, f);
        assert(bare_tree(blocks[i]) == shapes::<T>(s)[i]);
        assert(T::fits(s[i], f));
        T::law_parsed(s[i], blocks[i], f);
        assert(seq![s[i]] + s.skip(i + 1) =~= s.skip(i));
    }
}

/// Blocks that fit are read from their blocks.
pub(crate) proof fn lemma_children_read<T: FaithfulChild>(s: Seq<T::V>, blocks: Seq<Tree>, f: Setting)
    requires
        all_fit::<T>(s, f),
        blocks.len() == s.len(),
        forall|k: int|
            0 <= k < s.len() ==> {
                &&& bare_tree(#[trigger] blocks[k]) == shapes::<T>(s)[k]
                &&& numbered(blocks[k].items, 0, f)
            },
    ensures
        children_parsed::<T>(blocks, 0) == Ok::<Seq<T::V>, Failure>(s),
{
    lemma_children_read_from::<T>(s, blocks, 0, f);
    assert(s.skip(0) =~= s);
}

/// A text that has no blanks or quotes and does not start with a slash is a parameter.
pub(crate) proof fn lemma_param_text(w: Seq<char>)
    requires
        w.len() > 0,
        w[0] != '/',
        forall|i: int| 0 <= i < w.len() ==> !ends_word(#[trigger] w[i]),
    ensures
        is_param(plain(w)),
{
    reveal_strlit("/begin");
    reveal_strlit("/end");
    lemma_differ(w, "/begin"@, 0);
    lemma_differ(w, "/end"@, 0);
}

/// Whether a text is made of letters, digits and underscores.
pub open spec fn is_keyword(w: Seq<char>) -> bool {
    &&& w.len() > 0
    &&& forall|i: int|
        0 <= i < w.len() ==> ('A' <= #[trigger] w[i] && w[i] <= 'Z') || ('a' <= w[i] && w[i] <= 'z')
            || ('0' <= w[i] && w[i] <= '9') || w[i] == '_'
}

/// A keyword is a parameter.
pub(crate) proof fn lemma_keyword_param(w: Seq<char>)
    requires
        is_keyword(w),
    ensures
        is_param(plain(w)),
        is_word_text(w),
{
    assert forall|i: int| 0 <= i < w.len() implies !ends_word(#[trigger] w[i]) by {
    }
    lemma_param_text(w);
}

/// A string is a parameter.
pub(crate) proof fn lemma_string_param(s: Seq<char>)
    ensures
        is_param(string(escaped(s))),
{
    crate::a2l::spell::law_escaped_is_content(s);
}

/// A decimal number is a parameter.
pub(crate) proof fn lemma_dec_param(n: int)
    ensures
        is_param(plain(dec_int(n))),
{
    let w = dec_int(n);
    if n < 0 {
        let d = dec((-n) as nat);
        law_magnitude_of_dec((-n) as nat);
        assert forall|i: int| 0 <= i < w.len() implies !ends_word(#[trigger] w[i]) by {
            if i > 0 {
                assert(w[i] == d[i - 1]);
            }
        }
    } else {
        law_magnitude_of_dec(n as nat);
    }
    lemma_param_text(w);
}

/// A hexadecimal number is a parameter.
pub(crate) proof fn lemma_hex_param(n: nat)
    ensures
        is_param(plain(hex_form(n))),
{
    reveal_strlit("0x");
    law_magnitude_of_hex(n);
    let w = hex_form(n);
    assert forall|i: int| 0 <= i < w.len() implies !ends_word(#[trigger] w[i]) by {
        if i >= 2 {
            assert(w[i] == hex(n)[i - 2]);
        }
    }
    lemma_param_text(w);
}

/// A keyword and what follows it in a line.
pub(crate) proof fn lemma_shows_tagged(p: Page, tag: Seq<char>, value: Seq<char>, x: Seq<Tok>)
    requires
        is_word_text(tag),
        spells(value, x),
        indents_by_blanks(p),
    ensures
        shows(p, p.word(tag, value), seq![plain(tag)] + x),
        p.word(tag, value).depth == p.depth,
        p.word(tag, value).style == p.style,
{
    lemma_spells_word(tag);
    lemma_spells_join(tag, seq![plain(tag)], value, x);
    lemma_shows_line(p, tag + " "@ + value, seq![plain(tag)] + x);
}

/// A word behind a keyword.
pub(crate) proof fn lemma_shows_word(p: Page, tag: Seq<char>, value: Seq<char>)
    requires
        is_word_text(tag),
        is_word_text(value),
        indents_by_blanks(p),
    ensures
        shows(p, p.word(tag, value), seq![plain(tag), plain(value)]),
        p.word(tag, value).depth == p.depth,
        p.word(tag, value).style == p.style,
{
    lemma_spells_word(value);
    lemma_shows_tagged(p, tag, value, seq![plain(value)]);
    assert(seq![plain(tag)] + seq![plain(value)] =~= seq![plain(tag), plain(value)]);
}

/// A string behind a keyword.
pub(crate) proof fn lemma_shows_quote(p: Page, tag: Seq<char>, value: Seq<char>)
    requires
        is_word_text(tag),
        indents_by_blanks(p),
    ensures
        shows(p, p.quote(tag, value), seq![plain(tag), string(escaped(value))]),
        p.quote(tag, value).depth == p.depth,
        p.quote(tag, value).style == p.style,
{
    lemma_spells_quoted(value);
    lemma_shows_tagged(p, tag, quoted(value), seq![string(escaped(value))]);
    assert(seq![plain(tag)] + seq![string(escaped(value))] =~= seq![
        plain(tag),
        string(escaped(value)),
    ]);
}

/// A word in its own line.
pub(crate) proof fn lemma_shows_word_line(p: Page, value: Seq<char>)
    requires
        is_word_text(value),
        indents_by_blanks(p),
    ensures
        shows(p, p.line(value), seq![plain(value)]),
        p.line(value).depth == p.depth,
        p.line(value).style == p.style,
{
    lemma_spells_word(value);
    lemma_shows_line(p, value, seq![plain(value)]);
}

/// A string in its own line.
pub(crate) proof fn lemma_shows_quote_line(p: Page, value: Seq<char>)
    requires
        indents_by_blanks(p),
    ensures
        shows(p, p.quote_line(value), seq![string(escaped(value))]),
        p.quote_line(value).depth == p.depth,
        p.quote_line(value).style == p.style,
{
    lemma_spells_quoted(value);
    lemma_shows_line(p, quoted(value), seq![string(escaped(value))]);
}

/// A block around what is shown within it.
pub(crate) proof fn lemma_shows_block(
    p: Page,
    head: Seq<char>,
    h: Seq<Tok>,
    keyword: Seq<char>,
    q: Page,
    x: Seq<Tok>,
    shape: Tree,
)
    requires
        indents_by_blanks(p),
        is_word_text(keyword),
        spells(head, seq![plain(keyword)] + h),
        shows(p.begin(head), q, x),
        q.depth == p.depth + 1,
        shape.keyword == keyword,
        flat(shape.items, 0) == h + x,
    ensures
        shows(p, q.end(keyword), block_tokens(shape)),
        q.end(keyword).depth == p.depth,
        q.end(keyword).style == p.style,
{
    crate::a2l::tree_laws::lemma_shows_begin(p, head, seq![plain(keyword)] + h);
    let open = seq![plain("/begin"@)] + (seq![plain(keyword)] + h);
    lemma_shows_join(p, p.begin(head), q, open, x);
    crate::a2l::tree_laws::lemma_shows_end(q, keyword);
    let close = seq![plain("/end"@), plain(keyword)];
    lemma_shows_join(p, q, q.end(keyword), open + x, close);
    assert(open + x + close =~= block_tokens(shape));
}

impl FaithfulChild for UnsupportedNode {
    open spec fn fits(v: UnsupportedNodeView, f: Setting) -> bool {
        is_word_text(v.keyword) && sound(v.items, 0)
    }

    open spec fn shape(v: UnsupportedNodeView) -> Tree {
        Tree { keyword: v.keyword, line: 0, items: v.items }
    }

    proof fn law_shown(v: UnsupportedNodeView, p: Page, f: Setting) {
        lemma_unsupported_shown(v, p);
    }

    proof fn law_parsed(v: UnsupportedNodeView, tree: Tree, f: Setting) {
    }
}

/// What two lists of parameters make is a list of parameters.
pub(crate) proof fn lemma_all_params_join(x: Seq<Tok>, y: Seq<Tok>)
    requires
        all_params(x),
        all_params(y),
    ensures
        all_params(x + y),
{
    assert forall|i: int| 0 <= i < (x + y).len() implies is_param(#[trigger] (x + y)[i]) by {
        if i < x.len() {
            assert((x + y)[i] == x[i]);
        } else {
            assert((x + y)[i] == y[i - x.len()]);
        }
    }
}

/// A keyword is a word.
pub(crate) proof fn lemma_keyword_word(w: Seq<char>)
    requires
        is_keyword(w),
    ensures
        is_word_text(w),
{
    lemma_keyword_param(w);
}

/// Whether a number can be written and read back: its text is a word that the application
/// reads as the number.
pub open spec fn num_fits(n: Num, f: Setting) -> bool {
    is_param(plain(n.text)) && (f.numbers)(n.text) == Some(n)
}

/// Two words with a blank between them.
pub(crate) proof fn lemma_spells_pair(a: Seq<char>, b: Seq<char>)
    requires
        is_word_text(a),
        is_word_text(b),
    ensures
        spells(a + " "@ + b, seq![plain(a), plain(b)]),
{
    lemma_spells_word(a);
    lemma_spells_word(b);
    lemma_spells_join(a, seq![plain(a)], b, seq![plain(b)]);
    assert(seq![plain(a)] + seq![plain(b)] =~= seq![plain(a), plain(b)]);
}

/// Integers as tokens.
pub open spec fn int_tokens(d: Seq<i32>) -> Seq<Tok> {
    Seq::new(d.len(), |i: int| plain(dec_int(d[i] as int)))
}

/// A list of integers spells them.
pub(crate) proof fn lemma_spells_ints(d: Seq<i32>)
    requires
        d.len() > 0,
    ensures
        spells(listed(d), int_tokens(d)),
    decreases d.len(),
{
    let last = dec_int(d.last() as int);
    lemma_dec_param(d.last() as int);
    lemma_spells_word(last);
    if d.len() == 1 {
        assert(int_tokens(d) =~= seq![plain(last)]);
    } else {
        lemma_spells_ints(d.drop_last());
        lemma_spells_join(listed(d.drop_last()), int_tokens(d.drop_last()), last, seq![plain(last)]);
        assert(int_tokens(d.drop_last()) + seq![plain(last)] =~= int_tokens(d));
    }
}

/// Integers are parameters.
pub(crate) proof fn lemma_int_params(d: Seq<i32>)
    ensures
        all_params(int_tokens(d)),
{
    assert forall|i: int| 0 <= i < d.len() implies is_param(#[trigger] int_tokens(d)[i]) by {
        lemma_dec_param(d[i] as int);
    }
}

/// Whether no integer stands at a position.
pub open spec fn no_int_at(s: Seq<Tok>, pos: int) -> bool {
    0 <= pos < s.len() ==> int_in(s[pos].text, i32::MIN as int, i32::MAX as int) is None
}

/// A keyword that starts with a letter is no integer.
pub(crate) proof fn lemma_no_int(w: Seq<char>)
    requires
        w.len() > 0,
        'A' <= w[0] && w[0] <= 'Z',
    ensures
        integer(w, true) is None,
{
    lemma_digits_grow(w, 1, 10);
    let one = w.subrange(0, 1);
    assert(one.last() == w[0]);
    assert(one.drop_last() =~= Seq::<char>::empty());
}

proof fn lemma_dims_read_from(c: Cur, d: Seq<i32>, done: Seq<i32>)
    requires
        c.pos >= 0,
        done.len() + d.len() <= 5,
        tokens_at(c.toks, c.pos, int_tokens(d)),
        no_int_at(c.toks, c.pos + d.len()) || done.len() + d.len() == 5,
    ensures
        dims_after(c, done) == (done + d, Cur { pos: c.pos + d.len(), ..c }),
    decreases d.len(),
{
    if d.len() == 0 {
        assert(done + d =~= done);
    } else {
        assert(bare(c.toks[c.pos + 0]) == int_tokens(d)[0]);
        law_integer_of_dec(d[0] as int);
        let rest = d.drop_first();
        assert forall|k: int| 0 <= k < rest.len() implies bare(
            #[trigger] c.step().toks[c.step().pos + k],
        ) == int_tokens(rest)[k] by {
            assert(bare(c.toks[c.pos + (k + 1)]) == int_tokens(d)[k + 1]);
        }
        lemma_dims_read_from(c.step(), rest, done.push(d[0]));
        assert(done.push(d[0]) + rest =~= done + d);
    }
}

/// Dimensions read back from their tokens, if no integer follows them.
pub(crate) proof fn lemma_dims_read(c: Cur, d: Seq<i32>)
    requires
        c.pos >= 0,
        d.len() <= 5,
        tokens_at(c.toks, c.pos, int_tokens(d)),
        no_int_at(c.toks, c.pos + d.len()) || d.len() == 5,
    ensures
        read_dims(c) == Ok::<(Seq<i32>, Cur), Failure>((d, Cur { pos: c.pos + d.len(), ..c })),
{
    lemma_dims_read_from(c, d, Seq::empty());
    assert(Seq::<i32>::empty() + d =~= d);
}

/// The unit of a refresh rate is found by its number.
pub(crate) proof fn lemma_refresh_found(u: ScalingUnits)
    ensures
        exists|unit: Option<ScalingUnits>| is_refresh_unit(u.number() as int, unit),
        (choose|unit: Option<ScalingUnits>| is_refresh_unit(u.number() as int, unit)) == Some(u),
        u.number() != 2147483647,
{
    assert(is_refresh_unit(u.number() as int, Some(u)));
    let other = choose|unit: Option<ScalingUnits>| is_refresh_unit(u.number() as int, unit);
    lemma_refresh_unit(u.number() as int, Some(u), other);
}

/// References as tokens.
pub open spec fn ref_tokens(refs: Seq<Seq<char>>) -> Seq<Tok> {
    Seq::new(refs.len(), |i: int| plain(refs[i]))
}

/// Whether references can be written and read back: each is a word that does not end in
/// whitespace.
pub open spec fn refs_fit(refs: Seq<Seq<char>>) -> bool {
    forall|i: int| 0 <= i < refs.len() ==> is_param(plain(#[trigger] refs[i])) && !is_space(refs[i].last())
}

/// References are parameters.
pub(crate) proof fn lemma_ref_params(refs: Seq<Seq<char>>)
    requires
        refs_fit(refs),
    ensures
        all_params(ref_tokens(refs)),
{
    assert forall|i: int| 0 <= i < refs.len() implies is_param(#[trigger] ref_tokens(refs)[i]) by {
        assert(is_param(plain(refs[i])));
    }
}

proof fn lemma_trimmed_behind(a: Seq<char>, b: Seq<char>)
    requires
        forall|i: int| 0 <= i < b.len() ==> is_space(#[trigger] b[i]),
    ensures
        trimmed_end(a + b) == trimmed_end(a),
    decreases b.len(),
{
    if b.len() == 0 {
        assert(a + b =~= a);
    } else {
        let t = a + b;
        assert(t.last() == b.last());
        assert(is_space(b[b.len() - 1]));
        assert(t.drop_last() =~= a + b.drop_last());
        assert forall|i: int| 0 <= i < b.drop_last().len() implies is_space(
            #[trigger] b.drop_last()[i],
        ) by {
            assert(b.drop_last()[i] == b[i]);
        }
        lemma_trimmed_behind(a, b.drop_last());
    }
}

/// What separates a reference from the next one.
spec fn separator(n: int, columns: int, margin: Seq<char>) -> Seq<char> {
    if n % (if columns > 1 { columns } else { 1 }) == 0 {
        "\n"@ + margin
    } else {
        " "@
    }
}

proof fn lemma_columns_marks(
    refs: Seq<Seq<char>>,
    n: int,
    columns: int,
    margin: Seq<char>,
    rest: Seq<char>,
)
    requires
        0 <= n <= refs.len(),
        refs_fit(refs),
        forall|i: int| 0 <= i < margin.len() ==> is_blank(#[trigger] margin[i]),
    ensures
        marks(in_columns(refs, n, columns, margin) + rest) == put_before(
            ref_tokens(refs.subrange(0, n)),
            marks(rest),
        ),
    decreases n,
{
    if n == 0 {
        lemma_marks_blanks(margin, rest);
        if let Some(y) = marks(rest) {
            assert(ref_tokens(refs.subrange(0, 0)) + y =~= y);
        }
    } else {
        reveal_strlit("\n");
        reveal_strlit(" ");
        let sep = separator(n, columns, margin);
        let w = refs[n - 1];
        assert(is_param(plain(w)));
        let before = in_columns(refs, n - 1, columns, margin);
        assert(in_columns(refs, n, columns, margin) + rest =~= before + (w + (sep + rest)));
        lemma_columns_marks(refs, n - 1, columns, margin, w + (sep + rest));
        lemma_marks_word(w, sep + rest);
        if n % (if columns > 1 { columns } else { 1 }) == 0 {
            assert(sep + rest =~= seq!['\n'] + (margin + rest));
            lemma_marks_blank('\n', margin + rest);
            lemma_marks_blanks(margin, rest);
        } else {
            assert(sep + rest =~= seq![' '] + rest);
            lemma_marks_blank(' ', rest);
        }
        if let Some(y) = marks(rest) {
            assert(ref_tokens(refs.subrange(0, n - 1)) + (seq![plain(w)] + y) =~= ref_tokens(
                refs.subrange(0, n),
            ) + y);
        }
    }
}

/// References that fit are written as their tokens.
pub(crate) proof fn lemma_refs_shown(p: Page, refs: Seq<Seq<char>>)
    requires
        refs_fit(refs),
        indents_by_blanks(p),
    ensures
        shows(p, p.references(refs), ref_tokens(refs)),
        p.references(refs).depth == p.depth,
        p.references(refs).style == p.style,
{
    let n = refs.len() as int;
    if n == 0 {
        lemma_shows_nothing(p);
        assert(ref_tokens(refs) =~= Seq::<Tok>::empty());
    } else {
        reveal(adds);
        reveal_strlit("\n");
        reveal_strlit(" ");
        let columns = p.style.columns;
        let margin = p.margin();
        lemma_repeated_blank(p.style.indent, p.depth);
        let w = refs[n - 1];
        assert(is_param(plain(w)) && !is_space(w.last()));
        let before = in_columns(refs, n - 1, columns, margin);
        let sep = separator(n, columns, margin);
        let whole = in_columns(refs, n, columns, margin);
        assert(whole =~= (before + w) + sep);
        assert forall|i: int| 0 <= i < sep.len() implies is_space(#[trigger] sep[i]) by {
            if sep.len() > 1 && i > 0 {
                assert(sep[i] == margin[i - 1]);
                assert(is_blank(margin[i - 1]));
            }
        }
        lemma_trimmed_behind(before + w, sep);
        assert((before + w).last() == w.last());
        assert(trimmed_end(whole) == before + w);
        let q = p.references(refs);
        let d = q.text.skip(p.text.len() as int);
        assert(d =~= before + w + "\n"@);
        assert(q.text.subrange(0, p.text.len() as int) =~= p.text);
        assert forall|rest: Seq<char>| #![trigger marks(d + rest)] marks(d + rest) == put_before(
            ref_tokens(refs),
            marks(rest),
        ) by {
            let tail = seq!['\n'] + rest;
            assert(d + rest =~= before + (w + tail));
            lemma_columns_marks(refs, n - 1, columns, margin, w + tail);
            lemma_marks_word(w, tail);
            lemma_marks_blank('\n', rest);
            if let Some(y) = marks(rest) {
                assert(ref_tokens(refs.subrange(0, n - 1)) + (seq![plain(w)] + y) =~= ref_tokens(
                    refs,
                ) + y);
            }
        }
    }
}

proof fn lemma_refs_read_from(c: Cur, refs: Seq<Seq<char>>, done: Seq<Seq<char>>)
    requires
        tokens_at(c.toks, c.pos, ref_tokens(refs)),
        c.pos + refs.len() == c.toks.len(),
    ensures
        ReferenceFields::rest(ReferenceFieldsView { references: done }, c)
            == (ReferenceFieldsView { references: done + refs }),
    decreases refs.len(),
{
    if refs.len() == 0 {
        assert(done + refs =~= done);
    } else {
        assert(bare(c.toks[c.pos + 0]) == ref_tokens(refs)[0]);
        let rest = refs.drop_first();
        assert forall|k: int| 0 <= k < rest.len() implies bare(
            #[trigger] c.step().toks[c.step().pos + k],
        ) == ref_tokens(rest)[k] by {
            assert(bare(c.toks[c.pos + (k + 1)]) == ref_tokens(refs)[k + 1]);
        }
        lemma_refs_read_from(c.step(), rest, done.push(refs[0]));
        assert(done.push(refs[0]) + rest =~= done + refs);
    }
}

/// References read back from their tokens.
pub(crate) proof fn lemma_refs_read(c: Cur, refs: Seq<Seq<char>>)
    requires
        tokens_at(c.toks, c.pos, ref_tokens(refs)),
        c.pos + refs.len() == c.toks.len(),
    ensures
        ReferenceFields::rest(ReferenceFields::blank(), c) == (ReferenceFieldsView {
            references: refs,
        }),
{
    lemma_refs_read_from(c, refs, Seq::empty());
    assert(Seq::<Seq<char>>::empty() + refs =~= refs);
}

/// Enumerations whose keywords are parameters.
pub trait KeywordText: A2lKeyword {
    /// The keyword of a value is a parameter.
    proof fn lemma_word(self)
        ensures
            self.word() matches Some(w) ==> is_param(plain(w)),
    ;
}

} // verus!
