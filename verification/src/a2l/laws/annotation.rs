//! Annotations read back from what is written for them.

use crate::a2l::block::Tree;
use crate::a2l::error::Failure;
use crate::a2l::faithful::{
    Faithful, Setting, all_params, blocks_tokens, is_keyword, lemma_all_params_join,
    lemma_keyword_param, lemma_keyword_word, lemma_shape_found, lemma_shape_tokens,
    lemma_shows_block, lemma_shows_quote, lemma_sound_shape, lemma_string_param, shape_of,
    toks_numbered,
};
use crate::a2l::model::annotation::{Annotation, AnnotationView};
use crate::a2l::node::Node;
use crate::a2l::params::Cur;
use crate::a2l::spell::{
    indents_by_blanks, law_unescaped_of_escaped, lemma_shows_join, lemma_shows_nothing,
    lemma_spells_word, plain, shows, string,
};
use crate::a2l::token::{Tok, bare};
use crate::a2l::tree_laws::{lemma_shows_begin, lemma_tokens_at_split, tokens_at};
use crate::a2l::writer::{Page, escaped, Stopped};
use crate::text::{lemma_differ, lemma_same};
use vstd::prelude::*;

verus! {

/// The parameters at the start of the block.
pub open spec fn annotation_head(v: AnnotationView) -> Seq<Tok> {
    Seq::<Tok>::empty()
}

/// The parameters of `ANNOTATION_ORIGIN`.
#[verifier::opaque]
pub open spec fn annotation_part_0(v: AnnotationView) -> Seq<Tok> {
    if v.origin is Some {
        seq![plain("ANNOTATION_ORIGIN"@), string(escaped(v.origin->Some_0))]
    } else { Seq::<Tok>::empty() }
}

/// The parameters from `ANNOTATION_ORIGIN` on.
pub open spec fn annotation_from_0(v: AnnotationView) -> Seq<Tok> {
    annotation_part_0(v) + annotation_from_1(v)
}

/// What is written for `ANNOTATION_ORIGIN`.
#[verifier::opaque]
pub open spec fn annotation_page_0(v: AnnotationView, p: Page) -> Page {
    match v.origin { Some(x) => p.quote("ANNOTATION_ORIGIN"@, x), None => p }
}

/// What is written from `ANNOTATION_ORIGIN` on.
pub open spec fn annotation_pages_0(v: AnnotationView, p: Page) -> Page {
    annotation_pages_1(v, annotation_page_0(v, p))
}

/// The parameters of `ANNOTATION_LABEL`.
#[verifier::opaque]
pub open spec fn annotation_part_1(v: AnnotationView) -> Seq<Tok> {
    if v.label is Some {
        seq![plain("ANNOTATION_LABEL"@), string(escaped(v.label->Some_0))]
    } else { Seq::<Tok>::empty() }
}

/// The parameters from `ANNOTATION_LABEL` on.
pub open spec fn annotation_from_1(v: AnnotationView) -> Seq<Tok> {
    annotation_part_1(v) + annotation_from_2(v)
}

/// What is written for `ANNOTATION_LABEL`.
#[verifier::opaque]
pub open spec fn annotation_page_1(v: AnnotationView, p: Page) -> Page {
    match v.label { Some(x) => p.quote("ANNOTATION_LABEL"@, x), None => p }
}

/// What is written from `ANNOTATION_LABEL` on.
pub open spec fn annotation_pages_1(v: AnnotationView, p: Page) -> Page {
    annotation_pages_2(v, annotation_page_1(v, p))
}

/// No parameter follows the last one.
pub open spec fn annotation_from_2(v: AnnotationView) -> Seq<Tok> {
    Seq::empty()
}

/// Nothing is written behind the last parameter.
pub open spec fn annotation_pages_2(v: AnnotationView, p: Page) -> Page {
    p
}

proof fn lemma_annotation_part_1(v: AnnotationView, p: Page, f: Setting)
    requires
        Annotation::fits(v, f),
        indents_by_blanks(p),
    ensures
        shows(p, annotation_page_1(v, p), annotation_part_1(v)),
        annotation_page_1(v, p).depth == p.depth,
        annotation_page_1(v, p).style == p.style,
        all_params(annotation_part_1(v)),
{
    reveal(annotation_page_1);
    reveal(annotation_part_1);
    if v.label is Some {
        reveal_strlit("ANNOTATION_LABEL");
        assert(is_keyword("ANNOTATION_LABEL"@));
        lemma_keyword_param("ANNOTATION_LABEL"@);
        lemma_shows_quote(p, "ANNOTATION_LABEL"@, v.label->Some_0);
        reveal_strlit("ANNOTATION_LABEL");
        assert(is_keyword("ANNOTATION_LABEL"@));
        lemma_keyword_param("ANNOTATION_LABEL"@);
        lemma_string_param(v.label->Some_0);
        assert(all_params(seq![plain("ANNOTATION_LABEL"@), string(escaped(v.label->Some_0))]));
        
    } else {
        lemma_shows_nothing(p);
    }
}

proof fn lemma_annotation_part_0(v: AnnotationView, p: Page, f: Setting)
    requires
        Annotation::fits(v, f),
        indents_by_blanks(p),
    ensures
        shows(p, annotation_page_0(v, p), annotation_part_0(v)),
        annotation_page_0(v, p).depth == p.depth,
        annotation_page_0(v, p).style == p.style,
        all_params(annotation_part_0(v)),
{
    reveal(annotation_page_0);
    reveal(annotation_part_0);
    if v.origin is Some {
        reveal_strlit("ANNOTATION_ORIGIN");
        assert(is_keyword("ANNOTATION_ORIGIN"@));
        lemma_keyword_param("ANNOTATION_ORIGIN"@);
        lemma_shows_quote(p, "ANNOTATION_ORIGIN"@, v.origin->Some_0);
        reveal_strlit("ANNOTATION_ORIGIN");
        assert(is_keyword("ANNOTATION_ORIGIN"@));
        lemma_keyword_param("ANNOTATION_ORIGIN"@);
        lemma_string_param(v.origin->Some_0);
        assert(all_params(seq![plain("ANNOTATION_ORIGIN"@), string(escaped(v.origin->Some_0))]));
        
    } else {
        lemma_shows_nothing(p);
    }
}

proof fn lemma_annotation_shown_2(v: AnnotationView, p: Page, f: Setting)
    ensures
        shows(p, annotation_pages_2(v, p), annotation_from_2(v)),
        annotation_pages_2(v, p).depth == p.depth,
        annotation_pages_2(v, p).style == p.style,
        all_params(annotation_from_2(v)),
{
    lemma_shows_nothing(p);
}

proof fn lemma_annotation_shown_1(v: AnnotationView, p: Page, f: Setting)
    requires
        Annotation::fits(v, f),
        indents_by_blanks(p),
    ensures
        shows(p, annotation_pages_1(v, p), annotation_from_1(v)),
        annotation_pages_1(v, p).depth == p.depth,
        annotation_pages_1(v, p).style == p.style,
        all_params(annotation_from_1(v)),
{
    lemma_annotation_part_1(v, p, f);
    let q = annotation_page_1(v, p);
    lemma_annotation_shown_2(v, q, f);
    lemma_shows_join(p, q, annotation_pages_2(v, q), annotation_part_1(v), annotation_from_2(v));
    lemma_all_params_join(annotation_part_1(v), annotation_from_2(v));
}

proof fn lemma_annotation_shown_0(v: AnnotationView, p: Page, f: Setting)
    requires
        Annotation::fits(v, f),
        indents_by_blanks(p),
    ensures
        shows(p, annotation_pages_0(v, p), annotation_from_0(v)),
        annotation_pages_0(v, p).depth == p.depth,
        annotation_pages_0(v, p).style == p.style,
        all_params(annotation_from_0(v)),
{
    lemma_annotation_part_0(v, p, f);
    let q = annotation_page_0(v, p);
    lemma_annotation_shown_1(v, q, f);
    lemma_shows_join(p, q, annotation_pages_1(v, q), annotation_part_0(v), annotation_from_1(v));
    lemma_all_params_join(annotation_part_0(v), annotation_from_1(v));
}

/// What is written for the parameters at the start.
#[verifier::opaque]
pub open spec fn annotation_opening(v: AnnotationView, p0: Page) -> Page {
    p0
}

proof fn lemma_annotation_opening(v: AnnotationView, p0: Page, f: Setting)
    requires
        Annotation::fits(v, f),
        indents_by_blanks(p0),
    ensures
        shows(p0, annotation_opening(v, p0), Seq::<Tok>::empty()),
        annotation_opening(v, p0).depth == p0.depth,
        annotation_opening(v, p0).style == p0.style,
        all_params(annotation_head(v)),
{
    reveal(annotation_opening);
    lemma_shows_nothing(p0);
    let x0 = Seq::<Tok>::empty();
    assert(x0 =~= Seq::<Tok>::empty());
}

proof fn lemma_annotation_body(v: AnnotationView, p: Page, f: Setting)
    requires
        Annotation::fits(v, f),
    ensures
        Annotation::body(v, p) == Ok::<Page, Stopped>(annotation_pages_0(v, annotation_opening(v, p))),
{
    reveal(annotation_opening);
    let q0 = annotation_opening(v, p);
    let q1 = match v.origin { Some(x) => q0.quote("ANNOTATION_ORIGIN"@, x), None => q0 };
    assert(q1 == annotation_page_0(v, q0)) by {
        reveal(annotation_page_0);
    }
    let q2 = match v.label { Some(x) => q1.quote("ANNOTATION_LABEL"@, x), None => q1 };
    assert(q2 == annotation_page_1(v, q1)) by {
        reveal(annotation_page_1);
    }
}

proof fn lemma_annotation_step_0(w: AnnotationView, v: AnnotationView, c: Cur, f: Setting)
    requires
        Annotation::fits(v, f),
        v.origin is Some,
        tokens_at(c.toks, c.pos, seq![plain("ANNOTATION_ORIGIN"@), string(escaped(v.origin->Some_0))]),
        toks_numbered(c.toks, f),
    ensures
        Annotation::option(w, c) == Ok::<(AnnotationView, Cur), Failure>(
            (AnnotationView { origin: v.origin, ..w }, Cur { pos: c.pos + 2, ..c }),
        ),
{
    reveal_strlit("ANNOTATION_ORIGIN");
    reveal_strlit("ANNOTATION_LABEL");
    lemma_differ("ANNOTATION_ORIGIN"@, "ANNOTATION_LABEL"@, 0);
    lemma_same("ANNOTATION_ORIGIN"@);
    assert(bare(c.toks[c.pos + 0]) == (seq![plain("ANNOTATION_ORIGIN"@), string(escaped(v.origin->Some_0))])[0]);
    assert(bare(c.toks[c.pos + 1]) == (seq![plain("ANNOTATION_ORIGIN"@), string(escaped(v.origin->Some_0))])[1]);
    law_unescaped_of_escaped(v.origin->Some_0);
}

proof fn lemma_annotation_step_1(w: AnnotationView, v: AnnotationView, c: Cur, f: Setting)
    requires
        Annotation::fits(v, f),
        v.label is Some,
        tokens_at(c.toks, c.pos, seq![plain("ANNOTATION_LABEL"@), string(escaped(v.label->Some_0))]),
        toks_numbered(c.toks, f),
    ensures
        Annotation::option(w, c) == Ok::<(AnnotationView, Cur), Failure>(
            (AnnotationView { label: v.label, ..w }, Cur { pos: c.pos + 2, ..c }),
        ),
{
    reveal_strlit("ANNOTATION_LABEL");
    lemma_same("ANNOTATION_LABEL"@);
    assert(bare(c.toks[c.pos + 0]) == (seq![plain("ANNOTATION_LABEL"@), string(escaped(v.label->Some_0))])[0]);
    assert(bare(c.toks[c.pos + 1]) == (seq![plain("ANNOTATION_LABEL"@), string(escaped(v.label->Some_0))])[1]);
    law_unescaped_of_escaped(v.label->Some_0);
}

proof fn lemma_annotation_read_2(v: AnnotationView, c: Cur, f: Setting)
    requires
        Annotation::fits(v, f),
        tokens_at(c.toks, c.pos, annotation_from_2(v)),
        c.pos + annotation_from_2(v).len() == c.toks.len(),
        toks_numbered(c.toks, f),
    ensures
        Annotation::options(v, c) matches Ok((w, _)) && w == (v),
{
}

proof fn lemma_annotation_read_1(v: AnnotationView, c: Cur, f: Setting)
    requires
        Annotation::fits(v, f),
        tokens_at(c.toks, c.pos, annotation_from_1(v)),
        c.pos + annotation_from_1(v).len() == c.toks.len(),
        toks_numbered(c.toks, f),
    ensures
        Annotation::options(AnnotationView { label: None, ..v }, c) matches Ok((w, _)) && w == (v),
{
    reveal(annotation_part_1);
    let t = annotation_part_1(v);
    if v.label is Some {
        lemma_tokens_at_split(c.toks, c.pos, t, annotation_from_2(v));
        let c2 = Cur { pos: c.pos + 2, ..c };
        lemma_annotation_step_1(AnnotationView { label: None, ..v }, v, c, f);
        lemma_annotation_read_2(v, c2, f);
    } else {
        assert(t + annotation_from_2(v) =~= annotation_from_2(v));
        lemma_annotation_read_2(v, c, f);
    }
}

proof fn lemma_annotation_read_0(v: AnnotationView, c: Cur, f: Setting)
    requires
        Annotation::fits(v, f),
        tokens_at(c.toks, c.pos, annotation_from_0(v)),
        c.pos + annotation_from_0(v).len() == c.toks.len(),
        toks_numbered(c.toks, f),
    ensures
        Annotation::options(AnnotationView { origin: None, label: None }, c) matches Ok((w, _)) && w == (v),
{
    reveal(annotation_part_0);
    let t = annotation_part_0(v);
    if v.origin is Some {
        lemma_tokens_at_split(c.toks, c.pos, t, annotation_from_1(v));
        let c2 = Cur { pos: c.pos + 2, ..c };
        lemma_annotation_step_0(AnnotationView { origin: None, label: None }, v, c, f);
        lemma_annotation_read_1(v, c2, f);
    } else {
        assert(t + annotation_from_1(v) =~= annotation_from_1(v));
        lemma_annotation_read_1(v, c, f);
    }
}

impl Faithful for Annotation {
    open spec fn fits(v: AnnotationView, f: Setting) -> bool {
        true
    }

    open spec fn shape(v: AnnotationView) -> Tree {
        shape_of("ANNOTATION"@, annotation_head(v) + annotation_from_0(v), Seq::empty())
    }

    proof fn law_shown(v: AnnotationView, p: Page, f: Setting) {
        reveal_strlit("ANNOTATION");
        lemma_keyword_word("ANNOTATION"@);
        lemma_spells_word("ANNOTATION"@);
        let h = Seq::<Tok>::empty();
        assert(seq![plain("ANNOTATION"@)] + h =~= seq![plain("ANNOTATION"@)]);
        crate::a2l::tree_laws::lemma_shows_begin(p, "ANNOTATION"@, seq![plain("ANNOTATION"@)] + h);
        let p0 = p.begin("ANNOTATION"@);
        lemma_annotation_body(v, p0, f);
        lemma_annotation_opening(v, p0, f);
        let p1 = annotation_opening(v, p0);
        lemma_annotation_shown_0(v, p1, f);
        let p2 = annotation_pages_0(v, p1);
        let hx = Seq::<Tok>::empty();
        let from = annotation_from_0(v);
        lemma_shows_join(p0, p1, p2, hx, from);
        let q = p2;
        let kids = Seq::<Tree>::empty();
        let y = Seq::<Tok>::empty();
        assert(blocks_tokens(kids, 0) =~= y);
        assert(hx + from + y =~= hx + from);
        let x = annotation_head(v) + from;
        lemma_shape_tokens(x, kids);
        lemma_all_params_join(annotation_head(v), from);
        lemma_sound_shape("ANNOTATION"@, x, kids);
        assert(annotation_head(v) =~= h + hx);
        assert(h + (hx + from + y) =~= x + y);
        lemma_shows_block(p, "ANNOTATION"@, h, "ANNOTATION"@, q, hx + from + y, Self::shape(v));
    }

    proof fn law_parsed(v: AnnotationView, tree: Tree, f: Setting) {
        let x = annotation_head(v) + annotation_from_0(v);
        let kids = Seq::<Tree>::empty();
        lemma_shape_found(tree, "ANNOTATION"@, x, kids, f);
        let c = Cur::start(tree);
        lemma_tokens_at_split(c.toks, 0, annotation_head(v), annotation_from_0(v));
        let c1 = c;
        lemma_annotation_read_0(v, c1, f);
    }
}

} // verus!
