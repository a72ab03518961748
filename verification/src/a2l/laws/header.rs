//! Headers read back from what is written for them.

use crate::a2l::block::Tree;
use crate::a2l::error::Failure;
use crate::a2l::faithful::{
    Faithful, Setting, all_params, blocks_tokens, is_keyword, lemma_all_params_join,
    lemma_keyword_param, lemma_keyword_word, lemma_shape_found, lemma_shape_tokens,
    lemma_shows_block, lemma_shows_quote, lemma_shows_quote_line, lemma_shows_word,
    lemma_sound_shape, lemma_string_param, shape_of, toks_numbered,
};
use crate::a2l::model::header::{Header, HeaderView};
use crate::a2l::node::Node;
use crate::a2l::params::Cur;
use crate::a2l::spell::{
    indents_by_blanks, law_unescaped_of_escaped, lemma_shows_join, lemma_shows_nothing,
    lemma_spells_word, plain, shows, string,
};
use crate::a2l::token::{Tok, bare};
use crate::a2l::tree_laws::{is_param, lemma_shows_begin, lemma_tokens_at_split, tokens_at};
use crate::a2l::writer::{Page, escaped, unescaped, Stopped};
use crate::text::{lemma_differ, lemma_same};
use vstd::prelude::*;

verus! {

/// The parameters at the start of the block.
pub open spec fn header_head(v: HeaderView) -> Seq<Tok> {
    seq![string(escaped(v.comment))]
}

/// The parameters of `VERSION`.
#[verifier::opaque]
pub open spec fn header_part_0(v: HeaderView) -> Seq<Tok> {
    if v.version is Some {
        seq![plain("VERSION"@), string(escaped(v.version->Some_0))]
    } else { Seq::<Tok>::empty() }
}

/// The parameters from `VERSION` on.
pub open spec fn header_from_0(v: HeaderView) -> Seq<Tok> {
    header_part_0(v) + header_from_1(v)
}

/// What is written for `VERSION`.
#[verifier::opaque]
pub open spec fn header_page_0(v: HeaderView, p: Page) -> Page {
    match v.version { Some(x) if x.len() > 0 => p.quote("VERSION"@, x), _ => p }
}

/// What is written from `VERSION` on.
pub open spec fn header_pages_0(v: HeaderView, p: Page) -> Page {
    header_pages_1(v, header_page_0(v, p))
}

/// The parameters of `PROJECT_NO`.
#[verifier::opaque]
pub open spec fn header_part_1(v: HeaderView) -> Seq<Tok> {
    if v.project_no is Some {
        seq![plain("PROJECT_NO"@), plain(v.project_no->Some_0)]
    } else { Seq::<Tok>::empty() }
}

/// The parameters from `PROJECT_NO` on.
pub open spec fn header_from_1(v: HeaderView) -> Seq<Tok> {
    header_part_1(v) + header_from_2(v)
}

/// What is written for `PROJECT_NO`.
#[verifier::opaque]
pub open spec fn header_page_1(v: HeaderView, p: Page) -> Page {
    match v.project_no { Some(x) if x.len() > 0 => p.word("PROJECT_NO"@, x), _ => p }
}

/// What is written from `PROJECT_NO` on.
pub open spec fn header_pages_1(v: HeaderView, p: Page) -> Page {
    header_pages_2(v, header_page_1(v, p))
}

/// No parameter follows the last one.
pub open spec fn header_from_2(v: HeaderView) -> Seq<Tok> {
    Seq::empty()
}

/// Nothing is written behind the last parameter.
pub open spec fn header_pages_2(v: HeaderView, p: Page) -> Page {
    p
}

proof fn lemma_header_part_1(v: HeaderView, p: Page, f: Setting)
    requires
        Header::fits(v, f),
        indents_by_blanks(p),
    ensures
        shows(p, header_page_1(v, p), header_part_1(v)),
        header_page_1(v, p).depth == p.depth,
        header_page_1(v, p).style == p.style,
        all_params(header_part_1(v)),
{
    reveal(header_page_1);
    reveal(header_part_1);
    if v.project_no is Some {
        reveal_strlit("PROJECT_NO");
        assert(is_keyword("PROJECT_NO"@));
        lemma_keyword_param("PROJECT_NO"@);
        lemma_shows_word(p, "PROJECT_NO"@, v.project_no->Some_0);
        reveal_strlit("PROJECT_NO");
        assert(is_keyword("PROJECT_NO"@));
        lemma_keyword_param("PROJECT_NO"@);
        assert(all_params(seq![plain("PROJECT_NO"@), plain(v.project_no->Some_0)]));
        
    } else {
        lemma_shows_nothing(p);
    }
}

proof fn lemma_header_part_0(v: HeaderView, p: Page, f: Setting)
    requires
        Header::fits(v, f),
        indents_by_blanks(p),
    ensures
        shows(p, header_page_0(v, p), header_part_0(v)),
        header_page_0(v, p).depth == p.depth,
        header_page_0(v, p).style == p.style,
        all_params(header_part_0(v)),
{
    reveal(header_page_0);
    reveal(header_part_0);
    if v.version is Some {
        reveal_strlit("VERSION");
        assert(is_keyword("VERSION"@));
        lemma_keyword_param("VERSION"@);
        lemma_shows_quote(p, "VERSION"@, v.version->Some_0);
        reveal_strlit("VERSION");
        assert(is_keyword("VERSION"@));
        lemma_keyword_param("VERSION"@);
        lemma_string_param(v.version->Some_0);
        assert(all_params(seq![plain("VERSION"@), string(escaped(v.version->Some_0))]));
        
    } else {
        lemma_shows_nothing(p);
    }
}

proof fn lemma_header_shown_2(v: HeaderView, p: Page, f: Setting)
    ensures
        shows(p, header_pages_2(v, p), header_from_2(v)),
        header_pages_2(v, p).depth == p.depth,
        header_pages_2(v, p).style == p.style,
        all_params(header_from_2(v)),
{
    lemma_shows_nothing(p);
}

proof fn lemma_header_shown_1(v: HeaderView, p: Page, f: Setting)
    requires
        Header::fits(v, f),
        indents_by_blanks(p),
    ensures
        shows(p, header_pages_1(v, p), header_from_1(v)),
        header_pages_1(v, p).depth == p.depth,
        header_pages_1(v, p).style == p.style,
        all_params(header_from_1(v)),
{
    lemma_header_part_1(v, p, f);
    let q = header_page_1(v, p);
    lemma_header_shown_2(v, q, f);
    lemma_shows_join(p, q, header_pages_2(v, q), header_part_1(v), header_from_2(v));
    lemma_all_params_join(header_part_1(v), header_from_2(v));
}

proof fn lemma_header_shown_0(v: HeaderView, p: Page, f: Setting)
    requires
        Header::fits(v, f),
        indents_by_blanks(p),
    ensures
        shows(p, header_pages_0(v, p), header_from_0(v)),
        header_pages_0(v, p).depth == p.depth,
        header_pages_0(v, p).style == p.style,
        all_params(header_from_0(v)),
{
    lemma_header_part_0(v, p, f);
    let q = header_page_0(v, p);
    lemma_header_shown_1(v, q, f);
    lemma_shows_join(p, q, header_pages_1(v, q), header_part_0(v), header_from_1(v));
    lemma_all_params_join(header_part_0(v), header_from_1(v));
}

/// What is written for the parameters at the start.
#[verifier::opaque]
pub open spec fn header_opening(v: HeaderView, p0: Page) -> Page {
    let p1 = p0.quote_line(v.comment);
    p1
}

proof fn lemma_header_opening(v: HeaderView, p0: Page, f: Setting)
    requires
        Header::fits(v, f),
        indents_by_blanks(p0),
    ensures
        shows(p0, header_opening(v, p0), seq![string(escaped(v.comment))]),
        header_opening(v, p0).depth == p0.depth,
        header_opening(v, p0).style == p0.style,
        all_params(header_head(v)),
{
    reveal(header_opening);
    lemma_shows_nothing(p0);
    let x0 = Seq::<Tok>::empty();
    let p1 = p0.quote_line(v.comment);
    assert(shows(p0, p1, seq![string(escaped(v.comment))]) && p1.depth == p0.depth && p1.style == p0.style) by {
        let p = p0;
        lemma_shows_quote_line(p, v.comment);
    }
    lemma_shows_join(p0, p0, p1, x0, seq![string(escaped(v.comment))]);
    let x1 = x0 + seq![string(escaped(v.comment))];
    assert(x1 =~= seq![string(escaped(v.comment))]);
    lemma_string_param(v.comment);
}

proof fn lemma_header_body(v: HeaderView, p: Page, f: Setting)
    requires
        Header::fits(v, f),
    ensures
        Header::body(v, p) == Ok::<Page, Stopped>(header_pages_0(v, header_opening(v, p))),
{
    reveal(header_opening);
    let q0 = header_opening(v, p);
    let q1 = match v.version { Some(x) if x.len() > 0 => q0.quote("VERSION"@, x), _ => q0 };
    assert(q1 == header_page_0(v, q0)) by {
        reveal(header_page_0);
    }
    let q2 = match v.project_no { Some(x) if x.len() > 0 => q1.word("PROJECT_NO"@, x), _ => q1 };
    assert(q2 == header_page_1(v, q1)) by {
        reveal(header_page_1);
    }
}

proof fn lemma_header_head(v: HeaderView, c: Cur, f: Setting)
    requires
        Header::fits(v, f),
        tokens_at(c.toks, c.pos, header_head(v)),
        toks_numbered(c.toks, f),
    ensures
        Header::head(c) == Ok::<(HeaderView, Cur), Failure>(
            (HeaderView { version: None, project_no: None, ..v }, Cur { pos: c.pos + 1, ..c }),
        ),
{
    law_unescaped_of_escaped(v.comment);
    assert(bare(c.toks[c.pos + 0]) == header_head(v)[0]);
}

proof fn lemma_header_step_0(w: HeaderView, v: HeaderView, c: Cur, f: Setting)
    requires
        Header::fits(v, f),
        v.version is Some,
        tokens_at(c.toks, c.pos, seq![plain("VERSION"@), string(escaped(v.version->Some_0))]),
        toks_numbered(c.toks, f),
    ensures
        Header::option(w, c) == Ok::<(HeaderView, Cur), Failure>(
            (HeaderView { version: v.version, ..w }, Cur { pos: c.pos + 2, ..c }),
        ),
{
    reveal_strlit("VERSION");
    lemma_same("VERSION"@);
    assert(bare(c.toks[c.pos + 0]) == (seq![plain("VERSION"@), string(escaped(v.version->Some_0))])[0]);
    assert(bare(c.toks[c.pos + 1]) == (seq![plain("VERSION"@), string(escaped(v.version->Some_0))])[1]);
    law_unescaped_of_escaped(v.version->Some_0);
}

proof fn lemma_header_step_1(w: HeaderView, v: HeaderView, c: Cur, f: Setting)
    requires
        Header::fits(v, f),
        v.project_no is Some,
        tokens_at(c.toks, c.pos, seq![plain("PROJECT_NO"@), plain(v.project_no->Some_0)]),
        toks_numbered(c.toks, f),
    ensures
        Header::option(w, c) == Ok::<(HeaderView, Cur), Failure>(
            (HeaderView { project_no: v.project_no, ..w }, Cur { pos: c.pos + 2, ..c }),
        ),
{
    reveal_strlit("PROJECT_NO");
    reveal_strlit("VERSION");
    lemma_differ("PROJECT_NO"@, "VERSION"@, 0);
    lemma_same("PROJECT_NO"@);
    assert(bare(c.toks[c.pos + 0]) == (seq![plain("PROJECT_NO"@), plain(v.project_no->Some_0)])[0]);
    assert(bare(c.toks[c.pos + 1]) == (seq![plain("PROJECT_NO"@), plain(v.project_no->Some_0)])[1]);
    
}

proof fn lemma_header_read_2(v: HeaderView, c: Cur, f: Setting)
    requires
        Header::fits(v, f),
        tokens_at(c.toks, c.pos, header_from_2(v)),
        c.pos + header_from_2(v).len() == c.toks.len(),
        toks_numbered(c.toks, f),
    ensures
        Header::options(v, c) matches Ok((w, _)) && w == (v),
{
}

proof fn lemma_header_read_1(v: HeaderView, c: Cur, f: Setting)
    requires
        Header::fits(v, f),
        tokens_at(c.toks, c.pos, header_from_1(v)),
        c.pos + header_from_1(v).len() == c.toks.len(),
        toks_numbered(c.toks, f),
    ensures
        Header::options(HeaderView { project_no: None, ..v }, c) matches Ok((w, _)) && w == (v),
{
    reveal(header_part_1);
    let t = header_part_1(v);
    if v.project_no is Some {
        lemma_tokens_at_split(c.toks, c.pos, t, header_from_2(v));
        let c2 = Cur { pos: c.pos + 2, ..c };
        lemma_header_step_1(HeaderView { project_no: None, ..v }, v, c, f);
        lemma_header_read_2(v, c2, f);
    } else {
        assert(t + header_from_2(v) =~= header_from_2(v));
        lemma_header_read_2(v, c, f);
    }
}

proof fn lemma_header_read_0(v: HeaderView, c: Cur, f: Setting)
    requires
        Header::fits(v, f),
        tokens_at(c.toks, c.pos, header_from_0(v)),
        c.pos + header_from_0(v).len() == c.toks.len(),
        toks_numbered(c.toks, f),
    ensures
        Header::options(HeaderView { version: None, project_no: None, ..v }, c) matches Ok((w, _)) && w == (v),
{
    reveal(header_part_0);
    let t = header_part_0(v);
    if v.version is Some {
        lemma_tokens_at_split(c.toks, c.pos, t, header_from_1(v));
        let c2 = Cur { pos: c.pos + 2, ..c };
        lemma_header_step_0(HeaderView { version: None, project_no: None, ..v }, v, c, f);
        lemma_header_read_1(v, c2, f);
    } else {
        assert(t + header_from_1(v) =~= header_from_1(v));
        lemma_header_read_1(v, c, f);
    }
}

impl Faithful for Header {
    open spec fn fits(v: HeaderView, f: Setting) -> bool {
        &&& (v.version matches Some(x) ==> x.len() > 0)
        &&& (v.project_no matches Some(x) ==> is_param(plain(x)) && unescaped(x) == x)
    }

    open spec fn shape(v: HeaderView) -> Tree {
        shape_of("HEADER"@, header_head(v) + header_from_0(v), Seq::empty())
    }

    proof fn law_shown(v: HeaderView, p: Page, f: Setting) {
        reveal_strlit("HEADER");
        lemma_keyword_word("HEADER"@);
        lemma_spells_word("HEADER"@);
        let h = Seq::<Tok>::empty();
        assert(seq![plain("HEADER"@)] + h =~= seq![plain("HEADER"@)]);
        crate::a2l::tree_laws::lemma_shows_begin(p, "HEADER"@, seq![plain("HEADER"@)] + h);
        let p0 = p.begin("HEADER"@);
        lemma_header_body(v, p0, f);
        lemma_header_opening(v, p0, f);
        let p1 = header_opening(v, p0);
        lemma_header_shown_0(v, p1, f);
        let p2 = header_pages_0(v, p1);
        let hx = seq![string(escaped(v.comment))];
        let from = header_from_0(v);
        lemma_shows_join(p0, p1, p2, hx, from);
        let q = p2;
        let kids = Seq::<Tree>::empty();
        let y = Seq::<Tok>::empty();
        assert(blocks_tokens(kids, 0) =~= y);
        assert(hx + from + y =~= hx + from);
        let x = header_head(v) + from;
        lemma_shape_tokens(x, kids);
        lemma_all_params_join(header_head(v), from);
        lemma_sound_shape("HEADER"@, x, kids);
        assert(header_head(v) =~= h + hx);
        assert(h + (hx + from + y) =~= x + y);
        lemma_shows_block(p, "HEADER"@, h, "HEADER"@, q, hx + from + y, Self::shape(v));
    }

    proof fn law_parsed(v: HeaderView, tree: Tree, f: Setting) {
        let x = header_head(v) + header_from_0(v);
        let kids = Seq::<Tree>::empty();
        lemma_shape_found(tree, "HEADER"@, x, kids, f);
        let c = Cur::start(tree);
        lemma_tokens_at_split(c.toks, 0, header_head(v), header_from_0(v));
        lemma_header_head(v, c, f);
        let c1 = Cur { pos: 1, ..c };
        lemma_header_read_0(v, c1, f);
    }
}

} // verus!
