//! Trees are found again in what is written for them.

use crate::a2l::block::{
    bare_items, grow, grown_after, grown_behind, tree_of, Grown, Tree, TreeItem,
};
use crate::a2l::error::Failure;
use crate::a2l::model::unsupported::{
    flushed, items_on, token_text, with_token, UnsupportedNode, UnsupportedNodeView,
};
use crate::a2l::spell::{
    bares, indents_by_blanks, is_content, is_word_text, lemma_marks_of_shown, lemma_shows_join,
    lemma_shows_line, lemma_shows_nothing, lemma_spells_content, lemma_spells_join,
    lemma_spells_word, plain, shows, spells, string,
};
use crate::a2l::token::{bare, lex, tokens_of, Tok};
use crate::a2l::writer::Page;
use crate::text::{lemma_differ, lemma_same, same_ignore_case};
use vstd::prelude::*;

verus! {

/// The tokens of items from an index on.
pub open spec fn flat(items: Seq<TreeItem>, i: int) -> Seq<Tok>
    decreases items, items.len() - i,
{
    if i < 0 || i >= items.len() {
        Seq::empty()
    } else {
        match items[i] {
            TreeItem::Param(t) => seq![t] + flat(items, i + 1),
            TreeItem::Child(b) => seq![plain("/begin"@), plain(b.keyword)] + flat(b.items, 0)
                + seq![plain("/end"@), plain(b.keyword)] + flat(items, i + 1),
        }
    }
}

/// Whether a token can be a parameter: it neither starts nor ends a block.
pub open spec fn is_param(t: Tok) -> bool {
    &&& t == bare(t)
    &&& !t.is_word("/begin"@)
    &&& !t.is_word("/end"@)
    &&& if t.quoted { is_content(t.text) } else { is_word_text(t.text) }
}

/// Whether items from an index on can be written and found again.
pub open spec fn sound(items: Seq<TreeItem>, i: int) -> bool
    decreases items, items.len() - i,
{
    if i < 0 || i >= items.len() {
        true
    } else {
        sound(items, i + 1) && match items[i] {
            TreeItem::Param(t) => is_param(t),
            TreeItem::Child(b) => b.line == 0 && is_word_text(b.keyword) && sound(b.items, 0),
        }
    }
}

pub(crate) proof fn lemma_bare_items_first(item: TreeItem, rest: Seq<TreeItem>)
    ensures
        bare_items(seq![item] + rest) == bare_items(seq![item]) + bare_items(rest),
{
    let all = seq![item] + rest;
    assert forall|i: int| 0 <= i < all.len() implies bare_items(all)[i] == (bare_items(seq![item])
        + bare_items(rest))[i] by {
        if i > 0 {
            assert(all[i] == rest[i - 1]);
        } else {
            assert(all[0] == item);
            assert(seq![item][0] == item);
        }
    }
    assert(bare_items(all) =~= bare_items(seq![item]) + bare_items(rest));
}

/// Whether the tokens from a position on are the given ones.
pub open spec fn tokens_at(s: Seq<Tok>, pos: int, x: Seq<Tok>) -> bool {
    &&& 0 <= pos
    &&& pos + x.len() <= s.len()
    &&& forall|k: int| 0 <= k < x.len() ==> bare(#[trigger] s[pos + k]) == x[k]
}

pub(crate) proof fn lemma_tokens_at_split(s: Seq<Tok>, pos: int, x: Seq<Tok>, y: Seq<Tok>)
    requires
        tokens_at(s, pos, x + y),
    ensures
        tokens_at(s, pos, x),
        tokens_at(s, pos + x.len(), y),
{
    assert forall|k: int| 0 <= k < x.len() implies bare(#[trigger] s[pos + k]) == x[k] by {
        assert((x + y)[k] == x[k]);
    }
    assert forall|k: int| 0 <= k < y.len() implies bare(#[trigger] s[pos + x.len() + k])
        == y[k] by {
        assert((x + y)[x.len() + k] == y[k]);
        assert(s[pos + (x.len() + k)] == s[pos + x.len() + k]);
    }
}

proof fn lemma_begin_end_words()
    ensures
        same_ignore_case("/begin"@, "/begin"@),
        same_ignore_case("/end"@, "/end"@),
        !same_ignore_case("/end"@, "/begin"@),
{
    reveal_strlit("/begin");
    reveal_strlit("/end");
    lemma_same("/begin"@);
    lemma_same("/end"@);
    lemma_differ("/end"@, "/begin"@, 0);
}

proof fn lemma_grown_join(r: TreeItem, rs: Seq<TreeItem>, rest: Grown)
    ensures
        grown_after(r, grown_behind(rs, rest)) == grown_behind(seq![r] + rs, rest),
{
    if let Ok((items, _)) = rest {
        assert(seq![r] + (rs + items) =~= seq![r] + rs + items);
    }
}

/// Tokens of sound items grow into those items, whatever follows.
pub(crate) proof fn lemma_grow(
    s: Seq<Tok>,
    pos: int,
    items: Seq<TreeItem>,
    i: int,
    enclosing: Option<(Seq<char>, int)>,
) -> (r: Seq<TreeItem>)
    requires
        0 <= i <= items.len(),
        sound(items, i),
        tokens_at(s, pos, flat(items, i)),
    ensures
        bare_items(r) == items.skip(i),
        grow(s, pos, enclosing) == grown_behind(
            r,
            grow(s, pos + flat(items, i).len(), enclosing),
        ),
    decreases items, items.len() - i,
{
    if i >= items.len() {
        let r = Seq::<TreeItem>::empty();
        assert(bare_items(r) =~= items.skip(i));
        if let Ok((x, _)) = grow(s, pos, enclosing) {
            assert(r + x =~= x);
        }
        r
    } else {
        lemma_begin_end_words();
        match items[i] {
            TreeItem::Param(t) => {
                lemma_tokens_at_split(s, pos, seq![t], flat(items, i + 1));
                assert(s[pos + 0] == s[pos]);
                assert(bare(s[pos]) == t);
                let rs = lemma_grow(s, pos + 1, items, i + 1, enclosing);
                let first = TreeItem::Param(s[pos]);
                let r = seq![first] + rs;
                lemma_bare_items_first(first, rs);
                assert(bare_items(seq![first]) =~= seq![items[i]]);
                assert(bare_items(r) =~= items.skip(i));
                lemma_grown_join(first, rs, grow(s, pos + flat(items, i).len(), enclosing));
                r
            },
            TreeItem::Child(b) => {
                let open = seq![plain("/begin"@), plain(b.keyword)];
                let close = seq![plain("/end"@), plain(b.keyword)];
                let body = flat(b.items, 0);
                let tail = flat(items, i + 1);
                assert(flat(items, i) =~= open + (body + (close + tail)));
                lemma_tokens_at_split(s, pos, open, body + (close + tail));
                lemma_tokens_at_split(s, pos + 2, body, close + tail);
                lemma_tokens_at_split(s, pos + 2 + body.len(), close, tail);
                assert(bare(s[pos + 0]) == plain("/begin"@));
                assert(bare(s[pos + 1]) == plain(b.keyword));
                let e = pos + 2 + body.len();
                assert(bare(s[e + 0]) == plain("/end"@));
                assert(bare(s[e + 1]) == plain(b.keyword));
                assert(s[pos].is_word("/begin"@));
                let inner = Some((s[pos + 1].text, s[pos].line));
                let kids = lemma_grow(s, pos + 2, b.items, 0, inner);
                assert(b.items.skip(0) =~= b.items);
                lemma_same(b.keyword);
                assert(s[e].is_word("/end"@));
                assert(!s[e].is_word("/begin"@));
                assert(grow(s, e, inner) == Ok::<(Seq<TreeItem>, int), Failure>(
                    (Seq::empty(), e + 2),
                ));
                assert(kids + Seq::<TreeItem>::empty() =~= kids);
                let rs = lemma_grow(s, e + 2, items, i + 1, enclosing);
                let first = TreeItem::Child(
                    Tree { keyword: s[pos + 1].text, line: s[pos].line, items: kids },
                );
                let r = seq![first] + rs;
                lemma_bare_items_first(first, rs);
                assert(bare_items(seq![first]) =~= seq![items[i]]);
                assert(bare_items(r) =~= items.skip(i));
                lemma_grown_join(first, rs, grow(s, pos + flat(items, i).len(), enclosing));
                r
            },
        }
    }
}

/// The tokens of sound items, whatever their lines and numbers, form a tree of those items.
pub proof fn law_tree_of_tokens(s: Seq<Tok>, items: Seq<TreeItem>)
    requires
        sound(items, 0),
        bares(s) == flat(items, 0),
    ensures
        tree_of(s) matches Ok(root) && bare_items(root.items) == items,
{
    assert forall|k: int| 0 <= k < s.len() implies bare(#[trigger] s[0 + k]) == flat(
        items,
        0,
    )[k] by {
        assert(bares(s)[k] == bare(s[k]));
    }
    assert(bares(s).len() == s.len());
    let r = lemma_grow(s, 0, items, 0, None);
    assert(items.skip(0) =~= items);
    assert(r + Seq::<TreeItem>::empty() =~= r);
}

/// The start of a block shows its mark and what its keyword spells.
pub(crate) proof fn lemma_shows_begin(p: Page, keyword: Seq<char>, x: Seq<Tok>)
    requires
        spells(keyword, x),
        indents_by_blanks(p),
    ensures
        shows(p, p.begin(keyword), seq![plain("/begin"@)] + x),
        p.begin(keyword).depth == p.depth + 1,
        p.begin(keyword).style == p.style,
{
    reveal_strlit("/begin ");
    reveal_strlit("/begin");
    reveal_strlit(" ");
    assert("/begin "@ + keyword =~= "/begin"@ + " "@ + keyword);
    assert(is_word_text("/begin"@));
    lemma_spells_word("/begin"@);
    lemma_spells_join("/begin"@, seq![plain("/begin"@)], keyword, x);
    lemma_shows_line(p, "/begin "@ + keyword, seq![plain("/begin"@)] + x);
}

/// The end of a block shows its mark and its keyword.
pub(crate) proof fn lemma_shows_end(p: Page, keyword: Seq<char>)
    requires
        is_word_text(keyword),
        indents_by_blanks(p),
        p.depth > 0,
    ensures
        shows(p, p.end(keyword), seq![plain("/end"@), plain(keyword)]),
        p.end(keyword).depth == p.depth - 1,
        p.end(keyword).style == p.style,
{
    reveal_strlit("/end ");
    reveal_strlit("/end");
    reveal_strlit(" ");
    assert("/end "@ + keyword =~= "/end"@ + " "@ + keyword);
    assert(is_word_text("/end"@));
    lemma_spells_word("/end"@);
    lemma_spells_word(keyword);
    lemma_spells_join("/end"@, seq![plain("/end"@)], keyword, seq![plain(keyword)]);
    assert(seq![plain("/end"@)] + seq![plain(keyword)] =~= seq![plain("/end"@), plain(keyword)]);
    let q = Page { depth: (p.depth - 1) as nat, ..p };
    lemma_shows_line(q, "/end "@ + keyword, seq![plain("/end"@), plain(keyword)]);
}

/// A parameter spells itself.
pub(crate) proof fn lemma_spells_token(t: Tok)
    requires
        is_param(t),
    ensures
        spells(token_text(t), seq![t]),
        token_text(t).len() > 0,
{
    if t.quoted {
        reveal_strlit("\"");
        lemma_spells_content(t.text);
        assert(string(t.text) == t);
    } else {
        lemma_spells_word(t.text);
        assert(plain(t.text) == t);
    }
}

/// What is written for sound items shows their tokens, behind those of the parameters that
/// were not written yet.
proof fn lemma_items_shown(items: Seq<TreeItem>, i: int, line: Seq<char>, x: Seq<Tok>, p: Page)
    requires
        0 <= i <= items.len(),
        sound(items, i),
        indents_by_blanks(p),
        if line.len() == 0 {
            x.len() == 0
        } else {
            spells(line, x)
        },
    ensures
        shows(p, items_on(items, i, line, p), x + flat(items, i)),
        items_on(items, i, line, p).depth == p.depth,
        items_on(items, i, line, p).style == p.style,
    decreases items, items.len() - i,
{
    let none = Seq::<Tok>::empty();
    if i >= items.len() {
        assert(x + none =~= x);
        if line.len() > 0 {
            lemma_shows_line(p, line, x);
        } else {
            lemma_shows_nothing(p);
            assert(x =~= none);
        }
    } else {
        match items[i] {
            TreeItem::Param(t) => {
                lemma_spells_token(t);
                if line.len() > 0 {
                    lemma_spells_join(line, x, token_text(t), seq![t]);
                } else {
                    assert(x + seq![t] =~= seq![t]);
                }
                lemma_items_shown(items, i + 1, with_token(line, t), x + seq![t], p);
                assert(x + (seq![t] + flat(items, i + 1)) =~= x + seq![t] + flat(items, i + 1));
            },
            TreeItem::Child(b) => {
                let p1 = flushed(line, p);
                if line.len() > 0 {
                    lemma_shows_line(p, line, x);
                } else {
                    lemma_shows_nothing(p);
                    assert(x =~= none);
                }
                lemma_spells_word(b.keyword);
                lemma_shows_begin(p1, b.keyword, seq![plain(b.keyword)]);
                let p2 = p1.begin(b.keyword);
                let open = seq![plain("/begin"@)] + seq![plain(b.keyword)];
                assert(open =~= seq![plain("/begin"@), plain(b.keyword)]);
                lemma_shows_join(p, p1, p2, x, open);
                lemma_items_shown(b.items, 0, Seq::empty(), none, p2);
                let p3 = items_on(b.items, 0, Seq::empty(), p2);
                let body = flat(b.items, 0);
                assert(none + body =~= body);
                lemma_shows_join(p, p2, p3, x + open, body);
                lemma_shows_end(p3, b.keyword);
                let p4 = p3.end(b.keyword);
                let close = seq![plain("/end"@), plain(b.keyword)];
                lemma_shows_join(p, p3, p4, x + open + body, close);
                lemma_items_shown(items, i + 1, Seq::empty(), none, p4);
                let p5 = items_on(items, i + 1, Seq::empty(), p4);
                let tail = flat(items, i + 1);
                assert(none + tail =~= tail);
                lemma_shows_join(p, p4, p5, x + open + body + close, tail);
                assert(x + (open + body + close + tail) =~= x + open + body + close + tail);
            },
        }
    }
}

/// What is written for a block without a typed model shows the tokens of the block.
pub(crate) proof fn lemma_unsupported_shown(v: UnsupportedNodeView, p: Page)
    requires
        is_word_text(v.keyword),
        sound(v.items, 0),
        indents_by_blanks(p),
    ensures
        shows(
            p,
            UnsupportedNode::on(v, p),
            seq![plain("/begin"@), plain(v.keyword)] + flat(v.items, 0) + seq![
                plain("/end"@),
                plain(v.keyword),
            ],
        ),
        UnsupportedNode::on(v, p).depth == p.depth,
        UnsupportedNode::on(v, p).style == p.style,
{
    let none = Seq::<Tok>::empty();
    lemma_spells_word(v.keyword);
    lemma_shows_begin(p, v.keyword, seq![plain(v.keyword)]);
    let p2 = p.begin(v.keyword);
    let open = seq![plain("/begin"@)] + seq![plain(v.keyword)];
    assert(open =~= seq![plain("/begin"@), plain(v.keyword)]);
    lemma_items_shown(v.items, 0, Seq::empty(), none, p2);
    let p3 = items_on(v.items, 0, Seq::empty(), p2);
    assert(none + flat(v.items, 0) =~= flat(v.items, 0));
    lemma_shows_join(p, p2, p3, open, flat(v.items, 0));
    lemma_shows_end(p3, v.keyword);
    lemma_shows_join(
        p,
        p3,
        p3.end(v.keyword),
        open + flat(v.items, 0),
        seq![plain("/end"@), plain(v.keyword)],
    );
}

/// A block without a typed model is kept without loss: the text that it is written as has
/// tokens, they form a tree, and the tree holds that block and nothing else.
pub proof fn law_unsupported_lossless(v: UnsupportedNodeView, p: Page)
    requires
        p.text.len() == 0,
        indents_by_blanks(p),
        is_word_text(v.keyword),
        sound(v.items, 0),
    ensures
        tokens_of(UnsupportedNode::on(v, p).text) matches Ok(s) && tree_of(s) matches Ok(root)
            && bare_items(root.items) == seq![
            TreeItem::Child(Tree { keyword: v.keyword, line: 0, items: v.items }),
        ],
{
    lemma_unsupported_shown(v, p);
    let x = seq![plain("/begin"@), plain(v.keyword)] + flat(v.items, 0) + seq![
        plain("/end"@),
        plain(v.keyword),
    ];
    let q = UnsupportedNode::on(v, p);
    lemma_marks_of_shown(p, q, x);
    let all = seq![TreeItem::Child(Tree { keyword: v.keyword, line: 0, items: v.items })];
    assert(flat(all, 1) =~= Seq::<Tok>::empty());
    assert(flat(all, 0) =~= x);
    assert(sound(all, 1));
    assert(sound(all, 0));
    let s = lex(q.text, 0, 1)->Ok_0;
    law_tree_of_tokens(s, all);
}

} // verus!
