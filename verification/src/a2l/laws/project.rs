//! Projects read back from what is written for them.

use crate::a2l::block::{
    Tree, TreeItem, bare_items, bare_tree, children_of, first_named, grow, tree_of,
};
use crate::a2l::error::Failure;
use crate::a2l::faithful::{
    Faithful, FaithfulChild, Joints, Numbers, Setting, all_fit, all_params, block_tokens, blocks_tokens, joined_at,
    lemma_children_read, lemma_children_shown, lemma_keyword_word, lemma_node_read,
    lemma_node_shown, lemma_shape_found, lemma_shape_tokens, lemma_shapes_sound, lemma_shows_block,
    lemma_shows_quote_line, lemma_shows_word_line, lemma_sound_shape, lemma_string_param, numbered,
    shape_of, shapes, toks_joined, toks_numbered,
};
use crate::a2l::model::header::Header;
use crate::a2l::model::module::Module;
use crate::a2l::model::parts::{Child, children_written};
use crate::a2l::model::project::{Project, ProjectChild, ProjectChildView, ProjectView, project_of};
use crate::a2l::model::unsupported::UnsupportedNode;
use crate::a2l::node::Node;
use crate::a2l::params::Cur;
use crate::a2l::spell::{
    bares, indents_by_blanks, law_unescaped_of_escaped, lemma_marks_of_shown, lemma_shows_join,
    lemma_spells_word, plain, string,
};
use crate::a2l::token::{Tok, bare, lex, tokens_of};
use crate::a2l::tree_laws::{flat, is_param, law_tree_of_tokens, lemma_shows_begin, sound};
use crate::a2l::writer::{Page, escaped, Stopped};
use vstd::prelude::*;

verus! {

impl FaithfulChild for ProjectChild {
    open spec fn fits(v: ProjectChildView, f: Setting) -> bool {
        match v {
            ProjectChildView::Header(n) => <Header as Faithful>::fits(n, f),
            ProjectChildView::Module(n) => <Module as Faithful>::fits(n, f),
            ProjectChildView::Unsupported(n) => <UnsupportedNode as FaithfulChild>::fits(n, f) && n.keyword != "HEADER"@ && n.keyword != "MODULE"@,
        }
    }

    open spec fn shape(v: ProjectChildView) -> Tree {
        match v {
            ProjectChildView::Header(n) => <Header as Faithful>::shape(n),
            ProjectChildView::Module(n) => <Module as Faithful>::shape(n),
            ProjectChildView::Unsupported(n) => <UnsupportedNode as FaithfulChild>::shape(n),
        }
    }

    proof fn law_shown(v: ProjectChildView, p: Page, f: Setting) {
        match v {
            ProjectChildView::Header(n) => {
                lemma_node_shown::<Header>(n, p, f);
            },
            ProjectChildView::Module(n) => {
                lemma_node_shown::<Module>(n, p, f);
            },
            ProjectChildView::Unsupported(n) => {
                <UnsupportedNode as FaithfulChild>::law_shown(n, p, f);
            },
        }
    }

    proof fn law_parsed(v: ProjectChildView, tree: Tree, f: Setting) {
        match v {
            ProjectChildView::Header(n) => {
                reveal_strlit("HEADER");
                assert(bare_tree(tree).keyword == "HEADER"@);
                lemma_node_read::<Header>(n, tree, f);
            },
            ProjectChildView::Module(n) => {
                reveal_strlit("MODULE");
                reveal_strlit("HEADER");
                assert("MODULE"@[0] != "HEADER"@[0]);
                assert(bare_tree(tree).keyword == "MODULE"@);
                lemma_node_read::<Module>(n, tree, f);
            },
            ProjectChildView::Unsupported(n) => {
                <UnsupportedNode as FaithfulChild>::law_parsed(n, tree, f);
            },
        }
    }
}

/// The parameters of a project.
pub open spec fn project_params(v: ProjectView) -> Seq<Tok> {
    seq![plain(v.named.name), string(escaped(v.named.description->Some_0))]
}

impl Faithful for Project {
    open spec fn fits(v: ProjectView, f: Setting) -> bool {
        &&& is_param(plain(v.named.name))
        &&& v.named.description is Some
        &&& all_fit::<ProjectChild>(v.children, f)
    }

    open spec fn shape(v: ProjectView) -> Tree {
        shape_of("PROJECT"@, project_params(v), shapes::<ProjectChild>(v.children))
    }

    proof fn law_shown(v: ProjectView, p: Page, f: Setting) {
        reveal_strlit("PROJECT");
        lemma_keyword_word("PROJECT"@);
        lemma_spells_word("PROJECT"@);
        let h = Seq::<Tok>::empty();
        assert(seq![plain("PROJECT"@)] + h =~= seq![plain("PROJECT"@)]);
        crate::a2l::tree_laws::lemma_shows_begin(p, "PROJECT"@, seq![plain("PROJECT"@)] + h);
        let p0 = p.begin("PROJECT"@);
        lemma_shows_word_line(p0, v.named.name);
        let p1 = p0.line(v.named.name);
        let text = v.named.description->Some_0;
        lemma_shows_quote_line(p1, text);
        let p2 = p1.quote_line(text);
        let a = seq![plain(v.named.name)];
        let b = seq![string(escaped(text))];
        lemma_shows_join(p0, p1, p2, a, b);
        lemma_children_shown::<ProjectChild>(v.children, true, p2, f);
        lemma_shapes_sound::<ProjectChild>(v.children, p, f);
        let q = children_written::<ProjectChild>(v.children, 0, true, p2)->Ok_0;
        let kids = shapes::<ProjectChild>(v.children);
        let y = blocks_tokens(kids, 0);
        lemma_shows_join(p0, p2, q, a + b, y);
        let x = project_params(v);
        assert(a + b =~= x);
        lemma_string_param(text);
        assert(all_params(x));
        lemma_shape_tokens(x, kids);
        lemma_sound_shape("PROJECT"@, x, kids);
        assert(h + (x + y) =~= x + y);
        assert(Self::body(v, p1) == Ok::<Page, Stopped>(q));
        lemma_shows_block(p, "PROJECT"@, h, "PROJECT"@, q, x + y, Self::shape(v));
    }

    proof fn law_parsed(v: ProjectView, tree: Tree, f: Setting) {
        let x = project_params(v);
        let kids = shapes::<ProjectChild>(v.children);
        lemma_shape_found(tree, "PROJECT"@, x, kids, f);
        let c = Cur::start(tree);
        law_unescaped_of_escaped(v.named.description->Some_0);
        assert(bare(c.toks[0int + 0]) == x[0]);
        assert(bare(c.toks[0int + 1]) == x[1]);
        lemma_children_read::<ProjectChild>(v.children, children_of(tree.items), f);
    }
}

/// Tokens with the numbers that the application has filled in, also those that each gives
/// together with the next.
pub open spec fn with_numbers(s: Seq<Tok>, numbers: Numbers, joints: Joints) -> Seq<Tok> {
    Seq::new(
        s.len(),
        |i: int|
            Tok {
                number: numbers(s[i].text),
                joint: if i + 1 < s.len() {
                    joints(s[i].text, s[i + 1].text)
                } else {
                    None
                },
                ..s[i]
            },
    )
}

/// Whether tokens are those of a text with the numbers filled in: those of the parameters, and
/// those that a parameter gives together with the one right behind it.
pub open spec fn is_filled(s: Seq<Tok>, t: Seq<Tok>, f: Setting) -> bool {
    &&& bares(t) == bares(s)
    &&& tree_of(t) matches Ok(root) ==> numbered(root.items, 0, f)
}

/// Items that are grown from tokens with their numbers have their numbers.
proof fn lemma_grow_numbered(s: Seq<Tok>, pos: int, enclosing: Option<(Seq<char>, int)>, f: Setting)
    requires
        0 <= pos <= s.len(),
        toks_numbered(s, f),
    ensures
        grow(s, pos, enclosing) matches Ok((items, next)) ==> {
            &&& numbered(items, 0, f)
            &&& pos <= next <= s.len()
            &&& items.len() > 0 && items[0] is Param ==> pos < s.len() && items[0]
                == TreeItem::Param(s[pos])
        },
    decreases s.len() - pos,
{
    if pos < s.len() {
        if s[pos].is_word("/begin"@) {
            if pos + 1 < s.len() {
                let inner = Some((s[pos + 1].text, s[pos].line));
                lemma_grow_numbered(s, pos + 2, inner, f);
                if let Ok((kids, next)) = grow(s, pos + 2, inner) {
                    lemma_grow_numbered(s, next, enclosing, f);
                    if let Ok((rest, _)) = grow(s, next, enclosing) {
                        let first = TreeItem::Child(
                            Tree { keyword: s[pos + 1].text, line: s[pos].line, items: kids },
                        );
                        lemma_numbered_first(first, rest, f);
                    }
                }
            }
        } else if !s[pos].is_word("/end"@) {
            lemma_grow_numbered(s, pos + 1, enclosing, f);
            if let Ok((rest, _)) = grow(s, pos + 1, enclosing) {
                assert(s[pos].number == (f.numbers)(s[pos].text));
                if pos + 1 < s.len() {
                    reveal(toks_joined);
                    assert(joined_at(s, pos, f));
                }
                assert((seq![TreeItem::Param(s[pos])] + rest)[0] == TreeItem::Param(s[pos]));
                lemma_numbered_first(TreeItem::Param(s[pos]), rest, f);
            }
        }
    }
}

proof fn lemma_numbered_first(first: TreeItem, rest: Seq<TreeItem>, f: Setting)
    requires
        numbered(rest, 0, f),
        match first {
            TreeItem::Param(t) => {
                &&& t.number == (f.numbers)(t.text)
                &&& rest.len() > 0 && rest[0] is Param ==> t.joint == (f.joints)(
                    t.text,
                    rest[0]->Param_0.text,
                )
            },
            TreeItem::Child(b) => numbered(b.items, 0, f),
        },
    ensures
        numbered(seq![first] + rest, 0, f),
{
    lemma_numbered_shift(first, rest, 0, f);
    let all = seq![first] + rest;
    assert(all[0] == first);
    if rest.len() > 0 {
        assert(all[1] == rest[0]);
    }
}

proof fn lemma_numbered_shift(first: TreeItem, rest: Seq<TreeItem>, i: int, f: Setting)
    requires
        0 <= i <= rest.len(),
        numbered(rest, i, f),
    ensures
        numbered(seq![first] + rest, i + 1, f),
    decreases rest.len() - i,
{
    let all = seq![first] + rest;
    if i < rest.len() {
        assert(all[i + 1] == rest[i]);
        if i + 1 < rest.len() {
            assert(all[i + 2] == rest[i + 1]);
        }
        lemma_numbered_shift(first, rest, i + 1, f);
    }
}

/// A project that fits reads back from the text that it is written as: the text has tokens,
/// and however their numbers are filled in, they stand for the project. A project with A2ML
/// blocks fits where they are written.
pub proof fn law_project_of_filled(
    v: ProjectView,
    p: Page,
    numbers: Numbers,
    joints: Joints,
    t: Seq<Tok>,
)
    requires
        Project::fits(v, Setting { numbers, joints, a2ml: p.style.write_a2ml }),
        p.text.len() == 0,
        indents_by_blanks(p),
    ensures
        Project::block(v, p) matches Ok(q) && tokens_of(q.text) matches Ok(s) && (is_filled(
            s,
            t,
            Setting { numbers, joints, a2ml: p.style.write_a2ml },
        ) ==> project_of(t) == Ok::<ProjectView, Failure>(v)),
{
    let g = Setting { numbers, joints, a2ml: p.style.write_a2ml };
    Project::law_shown(v, p, g);
    let q = Project::block(v, p)->Ok_0;
    let shape = Project::shape(v);
    let x = block_tokens(shape);
    lemma_marks_of_shown(p, q, x);
    let s = lex(q.text, 0, 1)->Ok_0;
    if is_filled(s, t, g) {
        let all = seq![TreeItem::Child(shape)];
        assert(flat(all, 1) =~= Seq::<Tok>::empty());
        assert(flat(all, 0) =~= x);
        assert(sound(all, 1));
        assert(sound(all, 0));
        law_tree_of_tokens(t, all);
        let root = tree_of(t)->Ok_0;
        assert(bare_items(root.items).len() == root.items.len());
        assert(bare_items(root.items)[0] == TreeItem::Child(shape));
        let tree = root.items[0]->Child_0;
        assert(bare_tree(tree) == shape);
        assert(root.items.drop_last() =~= Seq::<TreeItem>::empty());
        assert(root.items.last() == root.items[0]);
        assert(children_of(root.items.drop_last()) =~= Seq::<Tree>::empty());
        assert(children_of(root.items) =~= seq![tree]);
        assert(first_named(children_of(root.items), "PROJECT"@) == Some(tree));
        assert(numbered(tree.items, 0, g));
        Project::law_parsed(v, tree, g);
    }
}

/// A project that fits reads back from the text that it is written as, with the numbers of the
/// tokens filled in one by one.
pub proof fn law_project_of_written(v: ProjectView, p: Page, numbers: Numbers, joints: Joints)
    requires
        Project::fits(v, Setting { numbers, joints, a2ml: p.style.write_a2ml }),
        p.text.len() == 0,
        indents_by_blanks(p),
    ensures
        Project::block(v, p) matches Ok(q) && tokens_of(q.text) matches Ok(s) && project_of(
            with_numbers(s, numbers, joints),
        ) == Ok::<ProjectView, Failure>(v),
{
    let g = Setting { numbers, joints, a2ml: p.style.write_a2ml };
    law_project_of_filled(v, p, numbers, joints, Seq::empty());
    let s = tokens_of(Project::block(v, p)->Ok_0.text)->Ok_0;
    let t = with_numbers(s, numbers, joints);
    assert(bares(t) =~= bares(s));
    assert(toks_joined(t, g)) by {
        reveal(toks_joined);
    }
    lemma_grow_numbered(t, 0, None, g);
    law_project_of_filled(v, p, numbers, joints, t);
}

} // verus!
