//! Frames read back from what is written for them.

use crate::a2l::block::{Tree, children_of};
use crate::a2l::error::Failure;
use crate::a2l::faithful::{
    Faithful, Setting, all_fit, all_params, blocks_tokens, is_keyword, lemma_all_params_join,
    lemma_children_read, lemma_children_shown, lemma_dec_param, lemma_keyword_param,
    lemma_keyword_word, lemma_ref_params, lemma_refs_read, lemma_shape_found, lemma_shape_tokens,
    lemma_shapes_sound, lemma_shows_block, lemma_shows_quote_line, lemma_shows_word,
    lemma_shows_word_line, lemma_sound_shape, lemma_string_param, ref_tokens, refs_fit, shape_of,
    shapes, toks_numbered,
};
use crate::a2l::model::function::{Frame, FrameView, frame_lines};
use crate::a2l::model::parts::children_written;
use crate::a2l::model::unsupported::UnsupportedNode;
use crate::a2l::node::Node;
use crate::a2l::params::{Cur, law_integer_of_dec};
use crate::a2l::spell::{
    indents_by_blanks, law_unescaped_of_escaped, lemma_shows_join, lemma_shows_nothing,
    lemma_spells_join, lemma_spells_word, plain, shows, string,
};
use crate::a2l::token::{Tok, bare};
use crate::a2l::tree_laws::{is_param, lemma_shows_begin, lemma_tokens_at_split, tokens_at};
use crate::a2l::writer::{Page, escaped};
use crate::text::{dec_int, lemma_same};
use vstd::prelude::*;

verus! {

proof fn lemma_frame_shown(refs: Seq<Seq<char>>, n: int, p: Page)
    requires
        0 < n <= refs.len(),
        refs_fit(refs),
        indents_by_blanks(p),
    ensures
        shows(
            p,
            frame_lines(refs, n, p),
            seq![plain("FRAME_MEASUREMENT"@)] + ref_tokens(refs.subrange(0, n)),
        ),
        frame_lines(refs, n, p).depth == p.depth,
        frame_lines(refs, n, p).style == p.style,
    decreases n,
{
    let w = refs[n - 1];
    assert(is_param(plain(w)));
    if n == 1 {
        reveal_strlit("FRAME_MEASUREMENT");
        lemma_keyword_param("FRAME_MEASUREMENT"@);
        lemma_shows_word(p, "FRAME_MEASUREMENT"@, w);
        assert(seq![plain("FRAME_MEASUREMENT"@)] + ref_tokens(refs.subrange(0, 1)) =~= seq![
            plain("FRAME_MEASUREMENT"@),
            plain(w),
        ]);
    } else {
        lemma_frame_shown(refs, n - 1, p);
        let q = frame_lines(refs, n - 1, p);
        let x = seq![plain("FRAME_MEASUREMENT"@)] + ref_tokens(refs.subrange(0, n - 1));
        lemma_shows_word_line(q, w);
        lemma_shows_join(p, q, q.line(w), x, seq![plain(w)]);
        assert(x + seq![plain(w)] =~= seq![plain("FRAME_MEASUREMENT"@)] + ref_tokens(
            refs.subrange(0, n),
        ));
    }
}

/// The parameters at the start of the block.
pub open spec fn frame_head(v: FrameView) -> Seq<Tok> {
    seq![
        plain(v.named.name),
        string(escaped(v.named.description->Some_0)),
        plain(dec_int(v.scaling_unit as int)),
        plain(dec_int(v.rate as int))
    ]
}

/// The parameters of `FRAME_MEASUREMENT`.
#[verifier::opaque]
pub open spec fn frame_part_0(v: FrameView) -> Seq<Tok> {
    if v.frame_measurements is Some {
        seq![plain("FRAME_MEASUREMENT"@)] + ref_tokens(v.frame_measurements->Some_0)
    } else { Seq::<Tok>::empty() }
}

/// The parameters from `FRAME_MEASUREMENT` on.
pub open spec fn frame_from_0(v: FrameView) -> Seq<Tok> {
    frame_part_0(v) + frame_from_1(v)
}

/// What is written for `FRAME_MEASUREMENT`.
#[verifier::opaque]
pub open spec fn frame_page_0(v: FrameView, p: Page) -> Page {
    match v.frame_measurements { Some(refs) => frame_lines(refs, refs.len() as int, p), None => p }
}

/// What is written from `FRAME_MEASUREMENT` on.
pub open spec fn frame_pages_0(v: FrameView, p: Page) -> Page {
    frame_pages_1(v, frame_page_0(v, p))
}

/// The parameters behind the last keyword.
pub open spec fn frame_from_1(v: FrameView) -> Seq<Tok> {
    Seq::empty()
}

/// What is written behind the last keyword.
pub open spec fn frame_pages_1(v: FrameView, p: Page) -> Page {
    p
}

proof fn lemma_frame_part_0(v: FrameView, p: Page, f: Setting)
    requires
        Frame::fits(v, f),
        indents_by_blanks(p),
    ensures
        shows(p, frame_page_0(v, p), frame_part_0(v)),
        frame_page_0(v, p).depth == p.depth,
        frame_page_0(v, p).style == p.style,
        all_params(frame_part_0(v)),
{
    reveal(frame_page_0);
    reveal(frame_part_0);
    if v.frame_measurements is Some {
        reveal_strlit("FRAME_MEASUREMENT");
        assert(is_keyword("FRAME_MEASUREMENT"@));
        lemma_keyword_param("FRAME_MEASUREMENT"@);
        lemma_frame_shown(v.frame_measurements->Some_0, v.frame_measurements->Some_0.len() as int, p);
        assert(
            v.frame_measurements->Some_0.subrange(
                0,
                v.frame_measurements->Some_0.len() as int
            ) =~= v.frame_measurements->Some_0
        );
        reveal_strlit("FRAME_MEASUREMENT");
        assert(is_keyword("FRAME_MEASUREMENT"@));
        lemma_keyword_param("FRAME_MEASUREMENT"@);
        assert(all_params(seq![plain("FRAME_MEASUREMENT"@)]));
        lemma_ref_params(v.frame_measurements->Some_0);
        lemma_all_params_join(seq![plain("FRAME_MEASUREMENT"@)], ref_tokens(v.frame_measurements->Some_0));
    } else {
        lemma_shows_nothing(p);
    }
}

proof fn lemma_frame_shown_1(v: FrameView, p: Page, f: Setting)
    requires
        Frame::fits(v, f),
        indents_by_blanks(p),
    ensures
        shows(p, frame_pages_1(v, p), frame_from_1(v)),
        frame_pages_1(v, p).depth == p.depth,
        frame_pages_1(v, p).style == p.style,
        all_params(frame_from_1(v)),
{
    lemma_shows_nothing(p);
}

proof fn lemma_frame_shown_0(v: FrameView, p: Page, f: Setting)
    requires
        Frame::fits(v, f),
        indents_by_blanks(p),
    ensures
        shows(p, frame_pages_0(v, p), frame_from_0(v)),
        frame_pages_0(v, p).depth == p.depth,
        frame_pages_0(v, p).style == p.style,
        all_params(frame_from_0(v)),
{
    lemma_frame_part_0(v, p, f);
    let q = frame_page_0(v, p);
    lemma_frame_shown_1(v, q, f);
    lemma_shows_join(p, q, frame_pages_1(v, q), frame_part_0(v), frame_from_1(v));
    lemma_all_params_join(frame_part_0(v), frame_from_1(v));
}

/// What is written for the parameters at the start.
#[verifier::opaque]
pub open spec fn frame_opening(v: FrameView, p0: Page) -> Page {
    let p1 = match v.named.description { Some(x) => p0.quote_line(x), None => p0.quote_line(""@) };
    let p2 = p1.line(dec_int(v.scaling_unit as int));
    let p3 = p2.line(dec_int(v.rate as int));
    p3
}

proof fn lemma_frame_opening(v: FrameView, p0: Page, f: Setting)
    requires
        Frame::fits(v, f),
        indents_by_blanks(p0),
    ensures
        shows(
            p0,
            frame_opening(v, p0),
            seq![
                string(escaped(v.named.description->Some_0)),
                plain(dec_int(v.scaling_unit as int)),
                plain(dec_int(v.rate as int))
            ]
        ),
        frame_opening(v, p0).depth == p0.depth,
        frame_opening(v, p0).style == p0.style,
        all_params(frame_head(v)),
{
    reveal(frame_opening);
    lemma_shows_nothing(p0);
    let x0 = Seq::<Tok>::empty();
    let p1 = match v.named.description { Some(x) => p0.quote_line(x), None => p0.quote_line(""@) };
    assert(
        shows(
            p0,
            p1,
            seq![string(escaped(v.named.description->Some_0))]
        ) && p1.depth == p0.depth && p1.style == p0.style
    ) by {
        let p = p0;
        lemma_shows_quote_line(p, v.named.description->Some_0);
    }
    lemma_shows_join(p0, p0, p1, x0, seq![string(escaped(v.named.description->Some_0))]);
    let x1 = x0 + seq![string(escaped(v.named.description->Some_0))];
    let p2 = p1.line(dec_int(v.scaling_unit as int));
    assert(
        shows(
            p1,
            p2,
            seq![plain(dec_int(v.scaling_unit as int))]
        ) && p2.depth == p1.depth && p2.style == p1.style
    ) by {
        let p = p1;
        lemma_dec_param(v.scaling_unit as int);
        lemma_shows_word_line(p, dec_int(v.scaling_unit as int));
    }
    lemma_shows_join(p0, p1, p2, x1, seq![plain(dec_int(v.scaling_unit as int))]);
    let x2 = x1 + seq![plain(dec_int(v.scaling_unit as int))];
    let p3 = p2.line(dec_int(v.rate as int));
    assert(shows(p2, p3, seq![plain(dec_int(v.rate as int))]) && p3.depth == p2.depth && p3.style == p2.style) by {
        let p = p2;
        lemma_dec_param(v.rate as int);
        lemma_shows_word_line(p, dec_int(v.rate as int));
    }
    lemma_shows_join(p0, p2, p3, x2, seq![plain(dec_int(v.rate as int))]);
    let x3 = x2 + seq![plain(dec_int(v.rate as int))];
    assert(
        x3 =~= seq![
            string(escaped(v.named.description->Some_0)),
            plain(dec_int(v.scaling_unit as int)),
            plain(dec_int(v.rate as int))
        ]
    );
    lemma_string_param(v.named.description->Some_0);
    lemma_dec_param(v.scaling_unit as int);
    lemma_dec_param(v.rate as int);
}

proof fn lemma_frame_body(v: FrameView, p: Page, f: Setting)
    requires
        Frame::fits(v, f),
    ensures
        Frame::body(v, p) == children_written::<UnsupportedNode>(
            v.children,
            0,
            false,
            frame_pages_0(v, frame_opening(v, p))
        ),
{
    reveal(frame_opening);
    let q0 = frame_opening(v, p);
    let q1 = match v.frame_measurements { Some(refs) => frame_lines(refs, refs.len() as int, q0), None => q0 };
    assert(q1 == frame_page_0(v, q0)) by {
        reveal(frame_page_0);
    }
}

proof fn lemma_frame_head(v: FrameView, c: Cur, f: Setting)
    requires
        Frame::fits(v, f),
        tokens_at(c.toks, c.pos, frame_head(v)),
        toks_numbered(c.toks, f),
    ensures
        Frame::head(c) == Ok::<(FrameView, Cur), Failure>(
            (FrameView { frame_measurements: None, children: Seq::empty(), ..v }, Cur { pos: c.pos + 4, ..c }),
        ),
{
    law_unescaped_of_escaped(v.named.description->Some_0);
    law_integer_of_dec(v.scaling_unit as int);
    law_integer_of_dec(v.rate as int);
    assert(bare(c.toks[c.pos + 0]) == frame_head(v)[0]);
    assert(bare(c.toks[c.pos + 1]) == frame_head(v)[1]);
    assert(bare(c.toks[c.pos + 2]) == frame_head(v)[2]);
    assert(bare(c.toks[c.pos + 3]) == frame_head(v)[3]);
}

proof fn lemma_frame_step_0(w: FrameView, v: FrameView, c: Cur, f: Setting)
    requires
        Frame::fits(v, f),
        v.frame_measurements is Some,
        tokens_at(c.toks, c.pos, seq![plain("FRAME_MEASUREMENT"@)] + ref_tokens(v.frame_measurements->Some_0)),
        toks_numbered(c.toks, f),
        c.pos + 1 + v.frame_measurements->Some_0.len() == c.toks.len(),
    ensures
        Frame::option(w, c) == Ok::<(FrameView, Cur), Failure>(
            (
                FrameView { frame_measurements: v.frame_measurements, ..w },
                Cur { pos: c.pos + 1 + ref_tokens(v.frame_measurements->Some_0).len(), ..c }
            ),
        ),
{
    reveal_strlit("FRAME_MEASUREMENT");
    lemma_same("FRAME_MEASUREMENT"@);
    assert(
        bare(c.toks[c.pos + 0]) == (
            seq![plain("FRAME_MEASUREMENT"@)] + ref_tokens(v.frame_measurements->Some_0)
        )[0]
    );
    lemma_tokens_at_split(
        c.toks,
        c.pos,
        seq![plain("FRAME_MEASUREMENT"@)],
        ref_tokens(v.frame_measurements->Some_0)
    );
    lemma_refs_read(c.step(), v.frame_measurements->Some_0);
}

proof fn lemma_frame_read_1(v: FrameView, c: Cur, f: Setting)
    requires
        Frame::fits(v, f),
        tokens_at(c.toks, c.pos, frame_from_1(v)),
        c.pos + frame_from_1(v).len() == c.toks.len(),
        toks_numbered(c.toks, f),
    ensures
        Frame::options(
            FrameView { children: Seq::empty(), ..v },
            c
        ) matches Ok((w, _)) && w == (FrameView { children: Seq::empty(), ..v }),
{
}

proof fn lemma_frame_read_0(v: FrameView, c: Cur, f: Setting)
    requires
        Frame::fits(v, f),
        tokens_at(c.toks, c.pos, frame_from_0(v)),
        c.pos + frame_from_0(v).len() == c.toks.len(),
        toks_numbered(c.toks, f),
    ensures
        Frame::options(
            FrameView { frame_measurements: None, children: Seq::empty(), ..v },
            c
        ) matches Ok((w, _)) && w == (FrameView { children: Seq::empty(), ..v }),
{
    reveal(frame_part_0);
    let t = frame_part_0(v);
    if v.frame_measurements is Some {
        lemma_tokens_at_split(c.toks, c.pos, t, frame_from_1(v));
        let c2 = Cur { pos: c.pos + 1 + ref_tokens(v.frame_measurements->Some_0).len(), ..c };
        lemma_frame_step_0(FrameView { frame_measurements: None, children: Seq::empty(), ..v }, v, c, f);
        lemma_frame_read_1(v, c2, f);
    } else {
        assert(t + frame_from_1(v) =~= frame_from_1(v));
        lemma_frame_read_1(v, c, f);
    }
}

impl Faithful for Frame {
    open spec fn fits(v: FrameView, f: Setting) -> bool {
        &&& is_param(plain(v.named.name))
        &&& v.named.description is Some
        &&& (v.frame_measurements matches Some(x) ==> x.len() > 0 && refs_fit(x))
        &&& all_fit::<UnsupportedNode>(v.children, f)
    }

    open spec fn shape(v: FrameView) -> Tree {
        shape_of("FRAME"@, frame_head(v) + frame_from_0(v), shapes::<UnsupportedNode>(v.children))
    }

    proof fn law_shown(v: FrameView, p: Page, f: Setting) {
        reveal_strlit("FRAME");
        lemma_keyword_word("FRAME"@);
        reveal_strlit("FRAME ");
        reveal_strlit(" ");
        assert("FRAME "@ + v.named.name =~= "FRAME"@ + " "@ + v.named.name);
        lemma_spells_word("FRAME"@);
        lemma_spells_word(v.named.name);
        lemma_spells_join("FRAME"@, seq![plain("FRAME"@)], v.named.name, seq![plain(v.named.name)]);
        let h = seq![plain(v.named.name)];
        crate::a2l::tree_laws::lemma_shows_begin(p, "FRAME "@ + v.named.name, seq![plain("FRAME"@)] + h);
        let p0 = p.begin("FRAME "@ + v.named.name);
        lemma_frame_body(v, p0, f);
        lemma_frame_opening(v, p0, f);
        let p1 = frame_opening(v, p0);
        lemma_frame_shown_0(v, p1, f);
        let p2 = frame_pages_0(v, p1);
        let hx = seq![
            string(escaped(v.named.description->Some_0)),
            plain(dec_int(v.scaling_unit as int)),
            plain(dec_int(v.rate as int))
        ];
        let from = frame_from_0(v);
        lemma_shows_join(p0, p1, p2, hx, from);
        lemma_children_shown::<UnsupportedNode>(v.children, false, p2, f);
        lemma_shapes_sound::<UnsupportedNode>(v.children, p, f);
        let q = children_written::<UnsupportedNode>(v.children, 0, false, p2)->Ok_0;
        let kids = shapes::<UnsupportedNode>(v.children);
        let y = blocks_tokens(kids, 0);
        lemma_shows_join(p0, p2, q, hx + from, y);
        let x = frame_head(v) + from;
        lemma_shape_tokens(x, kids);
        lemma_all_params_join(frame_head(v), from);
        lemma_sound_shape("FRAME"@, x, kids);
        assert(frame_head(v) =~= h + hx);
        assert(h + (hx + from + y) =~= x + y);
        lemma_shows_block(p, "FRAME "@ + v.named.name, h, "FRAME"@, q, hx + from + y, Self::shape(v));
    }

    proof fn law_parsed(v: FrameView, tree: Tree, f: Setting) {
        let x = frame_head(v) + frame_from_0(v);
        let kids = shapes::<UnsupportedNode>(v.children);
        lemma_shape_found(tree, "FRAME"@, x, kids, f);
        let c = Cur::start(tree);
        lemma_tokens_at_split(c.toks, 0, frame_head(v), frame_from_0(v));
        lemma_frame_head(v, c, f);
        let c1 = Cur { pos: 4, ..c };
        lemma_frame_read_0(v, c1, f);
        lemma_children_read::<UnsupportedNode>(v.children, children_of(tree.items), f);
    }
}

} // verus!
