//! Conversion methods read back from what is written for them.

use crate::a2l::block::{Tree, bare_tree, children_of};
use crate::a2l::error::Failure;
use crate::a2l::faithful::{Faithful, KeywordText, Setting, all_params, block_tokens, blocks_tokens, is_keyword, joined_at, lemma_all_params_join, lemma_dec_param, lemma_keyword_param, lemma_keyword_word, lemma_shape_found, lemma_shape_tokens, lemma_shows_block, lemma_shows_quote_line, lemma_shows_tagged, lemma_shows_word, lemma_shows_word_line, lemma_sound_shape, lemma_spells_pair, lemma_string_param, num_fits, shape_of, toks_joined, toks_numbered};
use crate::a2l::model::compu::{
    BitOperation, BitOperationView, CompuMethod, CompuMethodView, FixAxisParList,
    FixAxisParListView, Formula, FormulaView, RationalCoeffs,
};
use crate::a2l::model::enums::{A2lKeyword, ConversionType};
use crate::a2l::node::Node;
use crate::a2l::number::Num;
use crate::a2l::params::{Cur, law_integer_of_dec};
use crate::a2l::spell::{
    indents_by_blanks, is_content, law_unescaped_of_escaped, lemma_shows_join, lemma_shows_line,
    lemma_shows_nothing, lemma_spells_content, lemma_spells_join, lemma_spells_word, plain, shows,
    string,
};
use crate::a2l::token::{Tok, bare};
use crate::a2l::tree_laws::{is_param, lemma_shows_begin, lemma_tokens_at_split, tokens_at};
use crate::a2l::writer::{Page, escaped, Stopped};
use crate::text::{dec_int, lemma_differ, lemma_same};
use vstd::prelude::*;

verus! {

/// The parameters of the block.
pub open spec fn formula_params(v: FormulaView) -> Seq<Tok> {
    Seq::<Tok>::empty() + (
        seq![string(v.formula)] + (
            if v.formula_inv is Some {
                seq![plain("FORMULA_INV"@), string(v.formula_inv->Some_0)]
            } else { Seq::<Tok>::empty() }
        )
    )
}

impl Faithful for Formula {
    open spec fn fits(v: FormulaView, f: Setting) -> bool {
        &&& v.formula.len() > 0
        &&& is_content(v.formula)
        &&& (v.formula_inv matches Some(x) ==> x.len() > 0 && is_content(x))
    }

    open spec fn shape(v: FormulaView) -> Tree {
        shape_of("FORMULA"@, formula_params(v), Seq::empty())
    }

    proof fn law_shown(v: FormulaView, p: Page, f: Setting) {
        reveal_strlit("FORMULA");
        lemma_keyword_word("FORMULA"@);
        let h = Seq::<Tok>::empty();
        let x = seq![string(v.formula)] + (
            if v.formula_inv is Some {
                seq![plain("FORMULA_INV"@), string(v.formula_inv->Some_0)]
            } else { Seq::<Tok>::empty() }
        );
        lemma_spells_word("FORMULA"@);
        assert(seq![plain("FORMULA"@)] + h =~= seq![plain("FORMULA"@)]);
        crate::a2l::tree_laws::lemma_shows_begin(p, "FORMULA"@, seq![plain("FORMULA"@)] + h);
        let p0 = p.begin("FORMULA"@);
        lemma_spells_content(v.formula);
        lemma_shows_line(p0, "\""@ + v.formula + "\""@, seq![string(v.formula)]);
        let p1 = p0.line("\""@ + v.formula + "\""@);
        let y1 = if v.formula_inv is Some {
            seq![plain("FORMULA_INV"@), string(v.formula_inv->Some_0)]
        } else { Seq::<Tok>::empty() };
        let q0 = match v.formula_inv {
            Some(x) if x.len() > 0 => p1.word("FORMULA_INV"@, "\""@ + x + "\""@),
            _ => p1
        };
        reveal_strlit("FORMULA_INV");
        lemma_keyword_param("FORMULA_INV"@);
        assert(shows(p1, q0, y1) && q0.depth == p1.depth && q0.style == p1.style) by {
            if v.formula_inv is Some {
                let x = v.formula_inv->Some_0;
                lemma_spells_content(x);
                lemma_shows_tagged(p1, "FORMULA_INV"@, "\""@ + x + "\""@, seq![string(x)]);
                assert(seq![plain("FORMULA_INV"@)] + seq![string(x)] =~= y1);
            } else {
                lemma_shows_nothing(p1);
            }
        }
        lemma_shows_join(p0, p1, q0, seq![string(v.formula)], y1);
        assert(shows(p0, q0, x));
        let q = q0;
        let kids = Seq::<Tree>::empty();
        let y = Seq::<Tok>::empty();
        assert(blocks_tokens(kids, 0) =~= y);
        assert(x + y =~= x);
        assert(all_params(x));
        assert(all_params(h));
        lemma_all_params_join(h, x);
        lemma_shape_tokens(h + x, kids);
        lemma_sound_shape("FORMULA"@, h + x, kids);
        assert(h + (x + y) =~= h + x + y);
        assert(Self::body(v, p0) == Ok::<Page, Stopped>(q));
        lemma_shows_block(p, "FORMULA"@, h, "FORMULA"@, q, x + y, Self::shape(v));
    }

    proof fn law_parsed(v: FormulaView, tree: Tree, f: Setting) {
        let h = Seq::<Tok>::empty();
        let x = seq![string(v.formula)] + (
            if v.formula_inv is Some {
                seq![plain("FORMULA_INV"@), string(v.formula_inv->Some_0)]
            } else { Seq::<Tok>::empty() }
        );
        let kids = Seq::<Tree>::empty();
        lemma_shape_found(tree, "FORMULA"@, h + x, kids, f);
        let c = Cur::start(tree);
        lemma_tokens_at_split(c.toks, 0, h, x);
        assert(h + x =~= x);
        assert(bare(c.toks[0int + 0]) == x[0]);
        if v.formula_inv is Some {
            assert(bare(c.toks[0int + 2]) == x[2]);
        }
    }
}

/// The parameters at the start of the block.
pub open spec fn compu_method_head(v: CompuMethodView) -> Seq<Tok> {
    seq![
        plain(v.name),
        string(escaped(v.description->Some_0)),
        plain(v.conversion_type.word()->Some_0),
        string(v.format),
        string(v.unit)
    ]
}

/// The parameters of `COEFFS_LINEAR`.
#[verifier::opaque]
pub open spec fn compu_method_part_0(v: CompuMethodView) -> Seq<Tok> {
    if v.conversion_type == ConversionType::LINEAR {
        seq![plain("COEFFS_LINEAR"@), plain(v.coeffs.factor.text), plain(v.coeffs.offset.text)]
    } else { Seq::<Tok>::empty() }
}

/// The parameters from `COEFFS_LINEAR` on.
pub open spec fn compu_method_from_0(v: CompuMethodView) -> Seq<Tok> {
    compu_method_part_0(v) + compu_method_from_1(v)
}

/// What is written for `COEFFS_LINEAR`.
#[verifier::opaque]
pub open spec fn compu_method_page_0(v: CompuMethodView, p: Page) -> Page {
    if v.conversion_type == ConversionType::LINEAR {
        p.word("COEFFS_LINEAR"@, v.coeffs.factor.text + " "@ + v.coeffs.offset.text)
    } else { p }
}

/// What is written from `COEFFS_LINEAR` on.
pub open spec fn compu_method_pages_0(v: CompuMethodView, p: Page) -> Page {
    compu_method_pages_1(v, compu_method_page_0(v, p))
}

/// The parameters of `COEFFS`.
#[verifier::opaque]
pub open spec fn compu_method_part_1(v: CompuMethodView) -> Seq<Tok> {
    if v.conversion_type == ConversionType::RAT_FUNC {
        seq![
            plain("COEFFS"@),
            plain(v.coeffs.coeffs[0].text),
            plain(v.coeffs.coeffs[1].text),
            plain(v.coeffs.coeffs[2].text),
            plain(v.coeffs.coeffs[3].text),
            plain(v.coeffs.coeffs[4].text),
            plain(v.coeffs.coeffs[5].text)
        ]
    } else { Seq::<Tok>::empty() }
}

/// The parameters from `COEFFS` on.
pub open spec fn compu_method_from_1(v: CompuMethodView) -> Seq<Tok> {
    compu_method_part_1(v) + compu_method_from_2(v)
}

/// What is written for `COEFFS`.
#[verifier::opaque]
pub open spec fn compu_method_page_1(v: CompuMethodView, p: Page) -> Page {
    if v.conversion_type == ConversionType::RAT_FUNC {
        p.word(
            "COEFFS"@,
            v.coeffs.coeffs[0].text + " "@ + v.coeffs.coeffs[1].text + " "@ + v.coeffs.coeffs[2].text + " "@ + v.coeffs.coeffs[3].text + " "@ + v.coeffs.coeffs[4].text + " "@ + v.coeffs.coeffs[5].text
        )
    } else { p }
}

/// What is written from `COEFFS` on.
pub open spec fn compu_method_pages_1(v: CompuMethodView, p: Page) -> Page {
    compu_method_pages_2(v, compu_method_page_1(v, p))
}

/// The parameters of `COMPU_TAB_REF`.
#[verifier::opaque]
pub open spec fn compu_method_part_2(v: CompuMethodView) -> Seq<Tok> {
    if v.compu_tab_ref is Some {
        seq![plain("COMPU_TAB_REF"@), plain(v.compu_tab_ref->Some_0)]
    } else { Seq::<Tok>::empty() }
}

/// The parameters from `COMPU_TAB_REF` on.
pub open spec fn compu_method_from_2(v: CompuMethodView) -> Seq<Tok> {
    compu_method_part_2(v) + compu_method_from_3(v)
}

/// What is written for `COMPU_TAB_REF`.
#[verifier::opaque]
pub open spec fn compu_method_page_2(v: CompuMethodView, p: Page) -> Page {
    if (
        v.conversion_type == ConversionType::TAB_INTP || v.conversion_type == ConversionType::TAB_NOINTP || v.conversion_type == ConversionType::TAB_VERB
    ) { match v.compu_tab_ref { Some(x) => p.word("COMPU_TAB_REF"@, x), None => p } } else { p }
}

/// What is written from `COMPU_TAB_REF` on.
pub open spec fn compu_method_pages_2(v: CompuMethodView, p: Page) -> Page {
    compu_method_pages_3(v, compu_method_page_2(v, p))
}

/// The parameters of `STATUS_STRING_REF`.
#[verifier::opaque]
pub open spec fn compu_method_part_3(v: CompuMethodView) -> Seq<Tok> {
    if v.status_string_ref is Some {
        seq![plain("STATUS_STRING_REF"@), plain(v.status_string_ref->Some_0)]
    } else { Seq::<Tok>::empty() }
}

/// The parameters from `STATUS_STRING_REF` on.
pub open spec fn compu_method_from_3(v: CompuMethodView) -> Seq<Tok> {
    compu_method_part_3(v) + compu_method_from_4(v)
}

/// What is written for `STATUS_STRING_REF`.
#[verifier::opaque]
pub open spec fn compu_method_page_3(v: CompuMethodView, p: Page) -> Page {
    match v.status_string_ref { Some(x) if x.len() > 0 => p.word("STATUS_STRING_REF"@, x), _ => p }
}

/// What is written from `STATUS_STRING_REF` on.
pub open spec fn compu_method_pages_3(v: CompuMethodView, p: Page) -> Page {
    compu_method_pages_4(v, compu_method_page_3(v, p))
}

/// The parameters of `REF_UNIT`.
#[verifier::opaque]
pub open spec fn compu_method_part_4(v: CompuMethodView) -> Seq<Tok> {
    if v.ref_unit is Some { seq![plain("REF_UNIT"@), plain(v.ref_unit->Some_0)] } else { Seq::<Tok>::empty() }
}

/// The parameters from `REF_UNIT` on.
pub open spec fn compu_method_from_4(v: CompuMethodView) -> Seq<Tok> {
    compu_method_part_4(v) + compu_method_from_5(v)
}

/// What is written for `REF_UNIT`.
#[verifier::opaque]
pub open spec fn compu_method_page_4(v: CompuMethodView, p: Page) -> Page {
    match v.ref_unit { Some(x) if x.len() > 0 => p.word("REF_UNIT"@, x), _ => p }
}

/// What is written from `REF_UNIT` on.
pub open spec fn compu_method_pages_4(v: CompuMethodView, p: Page) -> Page {
    compu_method_pages_5(v, compu_method_page_4(v, p))
}

/// The parameters behind the last keyword.
pub open spec fn compu_method_from_5(v: CompuMethodView) -> Seq<Tok> {
    Seq::empty()
}

/// What is written behind the last keyword.
pub open spec fn compu_method_pages_5(v: CompuMethodView, p: Page) -> Page {
    p
}

proof fn lemma_compu_method_part_4(v: CompuMethodView, p: Page, f: Setting)
    requires
        CompuMethod::fits(v, f),
        indents_by_blanks(p),
    ensures
        shows(p, compu_method_page_4(v, p), compu_method_part_4(v)),
        compu_method_page_4(v, p).depth == p.depth,
        compu_method_page_4(v, p).style == p.style,
        all_params(compu_method_part_4(v)),
{
    reveal(compu_method_page_4);
    reveal(compu_method_part_4);
    if v.ref_unit is Some {
        reveal_strlit("REF_UNIT");
        assert(is_keyword("REF_UNIT"@));
        lemma_keyword_param("REF_UNIT"@);
        lemma_shows_word(p, "REF_UNIT"@, v.ref_unit->Some_0);
        reveal_strlit("REF_UNIT");
        assert(is_keyword("REF_UNIT"@));
        lemma_keyword_param("REF_UNIT"@);
        assert(all_params(seq![plain("REF_UNIT"@), plain(v.ref_unit->Some_0)]));
        
    } else {
        lemma_shows_nothing(p);
    }
}

proof fn lemma_compu_method_part_3(v: CompuMethodView, p: Page, f: Setting)
    requires
        CompuMethod::fits(v, f),
        indents_by_blanks(p),
    ensures
        shows(p, compu_method_page_3(v, p), compu_method_part_3(v)),
        compu_method_page_3(v, p).depth == p.depth,
        compu_method_page_3(v, p).style == p.style,
        all_params(compu_method_part_3(v)),
{
    reveal(compu_method_page_3);
    reveal(compu_method_part_3);
    if v.status_string_ref is Some {
        reveal_strlit("STATUS_STRING_REF");
        assert(is_keyword("STATUS_STRING_REF"@));
        lemma_keyword_param("STATUS_STRING_REF"@);
        lemma_shows_word(p, "STATUS_STRING_REF"@, v.status_string_ref->Some_0);
        reveal_strlit("STATUS_STRING_REF");
        assert(is_keyword("STATUS_STRING_REF"@));
        lemma_keyword_param("STATUS_STRING_REF"@);
        assert(all_params(seq![plain("STATUS_STRING_REF"@), plain(v.status_string_ref->Some_0)]));
        
    } else {
        lemma_shows_nothing(p);
    }
}

proof fn lemma_compu_method_part_2(v: CompuMethodView, p: Page, f: Setting)
    requires
        CompuMethod::fits(v, f),
        indents_by_blanks(p),
    ensures
        shows(p, compu_method_page_2(v, p), compu_method_part_2(v)),
        compu_method_page_2(v, p).depth == p.depth,
        compu_method_page_2(v, p).style == p.style,
        all_params(compu_method_part_2(v)),
{
    reveal(compu_method_page_2);
    reveal(compu_method_part_2);
    if v.compu_tab_ref is Some {
        reveal_strlit("COMPU_TAB_REF");
        assert(is_keyword("COMPU_TAB_REF"@));
        lemma_keyword_param("COMPU_TAB_REF"@);
        lemma_shows_word(p, "COMPU_TAB_REF"@, v.compu_tab_ref->Some_0);
        reveal_strlit("COMPU_TAB_REF");
        assert(is_keyword("COMPU_TAB_REF"@));
        lemma_keyword_param("COMPU_TAB_REF"@);
        assert(all_params(seq![plain("COMPU_TAB_REF"@), plain(v.compu_tab_ref->Some_0)]));
        
    } else {
        lemma_shows_nothing(p);
    }
}

proof fn lemma_compu_method_part_1(v: CompuMethodView, p: Page, f: Setting)
    requires
        CompuMethod::fits(v, f),
        indents_by_blanks(p),
    ensures
        shows(p, compu_method_page_1(v, p), compu_method_part_1(v)),
        compu_method_page_1(v, p).depth == p.depth,
        compu_method_page_1(v, p).style == p.style,
        all_params(compu_method_part_1(v)),
{
    reveal(compu_method_page_1);
    reveal(compu_method_part_1);
    if v.conversion_type == ConversionType::RAT_FUNC {
        reveal_strlit("COEFFS");
        assert(is_keyword("COEFFS"@));
        lemma_keyword_param("COEFFS"@);
        assert(num_fits(v.coeffs.coeffs[0], f));
        assert(num_fits(v.coeffs.coeffs[1], f));
        assert(num_fits(v.coeffs.coeffs[2], f));
        assert(num_fits(v.coeffs.coeffs[3], f));
        assert(num_fits(v.coeffs.coeffs[4], f));
        assert(num_fits(v.coeffs.coeffs[5], f));
        lemma_spells_word(v.coeffs.coeffs[0].text);
        lemma_spells_word(v.coeffs.coeffs[1].text);
        lemma_spells_join(
            v.coeffs.coeffs[0].text,
            seq![plain(v.coeffs.coeffs[0].text)],
            v.coeffs.coeffs[1].text,
            seq![plain(v.coeffs.coeffs[1].text)]
        );
        lemma_spells_word(v.coeffs.coeffs[2].text);
        lemma_spells_join(
            v.coeffs.coeffs[0].text + " "@ + v.coeffs.coeffs[1].text,
            seq![plain(v.coeffs.coeffs[0].text)] + seq![plain(v.coeffs.coeffs[1].text)],
            v.coeffs.coeffs[2].text,
            seq![plain(v.coeffs.coeffs[2].text)]
        );
        lemma_spells_word(v.coeffs.coeffs[3].text);
        lemma_spells_join(
            v.coeffs.coeffs[0].text + " "@ + v.coeffs.coeffs[1].text + " "@ + v.coeffs.coeffs[2].text,
            seq![
                plain(v.coeffs.coeffs[0].text)
            ] + seq![plain(v.coeffs.coeffs[1].text)] + seq![plain(v.coeffs.coeffs[2].text)],
            v.coeffs.coeffs[3].text,
            seq![plain(v.coeffs.coeffs[3].text)]
        );
        lemma_spells_word(v.coeffs.coeffs[4].text);
        lemma_spells_join(
            v.coeffs.coeffs[0].text + " "@ + v.coeffs.coeffs[1].text + " "@ + v.coeffs.coeffs[2].text + " "@ + v.coeffs.coeffs[3].text,
            seq![
                plain(v.coeffs.coeffs[0].text)
            ] + seq![plain(v.coeffs.coeffs[1].text)] + seq![plain(v.coeffs.coeffs[2].text)] + seq![plain(v.coeffs.coeffs[3].text)],
            v.coeffs.coeffs[4].text,
            seq![plain(v.coeffs.coeffs[4].text)]
        );
        lemma_spells_word(v.coeffs.coeffs[5].text);
        lemma_spells_join(
            v.coeffs.coeffs[0].text + " "@ + v.coeffs.coeffs[1].text + " "@ + v.coeffs.coeffs[2].text + " "@ + v.coeffs.coeffs[3].text + " "@ + v.coeffs.coeffs[4].text,
            seq![
                plain(v.coeffs.coeffs[0].text)
            ] + seq![plain(v.coeffs.coeffs[1].text)] + seq![plain(v.coeffs.coeffs[2].text)] + seq![plain(v.coeffs.coeffs[3].text)] + seq![plain(v.coeffs.coeffs[4].text)],
            v.coeffs.coeffs[5].text,
            seq![plain(v.coeffs.coeffs[5].text)]
        );
        lemma_shows_tagged(
            p,
            "COEFFS"@,
            v.coeffs.coeffs[0].text + " "@ + v.coeffs.coeffs[1].text + " "@ + v.coeffs.coeffs[2].text + " "@ + v.coeffs.coeffs[3].text + " "@ + v.coeffs.coeffs[4].text + " "@ + v.coeffs.coeffs[5].text,
            seq![
                plain(v.coeffs.coeffs[0].text)
            ] + seq![plain(v.coeffs.coeffs[1].text)] + seq![plain(v.coeffs.coeffs[2].text)] + seq![plain(v.coeffs.coeffs[3].text)] + seq![plain(v.coeffs.coeffs[4].text)] + seq![plain(v.coeffs.coeffs[5].text)]
        );
        assert(
            seq![plain("COEFFS"@)] + (
                seq![
                    plain(v.coeffs.coeffs[0].text)
                ] + seq![plain(v.coeffs.coeffs[1].text)] + seq![plain(v.coeffs.coeffs[2].text)] + seq![plain(v.coeffs.coeffs[3].text)] + seq![plain(v.coeffs.coeffs[4].text)] + seq![plain(v.coeffs.coeffs[5].text)]
            ) =~= seq![plain("COEFFS"@), plain(v.coeffs.coeffs[0].text), plain(v.coeffs.coeffs[1].text), plain(v.coeffs.coeffs[2].text), plain(v.coeffs.coeffs[3].text), plain(v.coeffs.coeffs[4].text), plain(v.coeffs.coeffs[5].text)]
        );
        reveal_strlit("COEFFS");
        assert(is_keyword("COEFFS"@));
        lemma_keyword_param("COEFFS"@);
        assert(
            all_params(
                seq![
                    plain("COEFFS"@),
                    plain(v.coeffs.coeffs[0].text),
                    plain(v.coeffs.coeffs[1].text),
                    plain(v.coeffs.coeffs[2].text),
                    plain(v.coeffs.coeffs[3].text),
                    plain(v.coeffs.coeffs[4].text),
                    plain(v.coeffs.coeffs[5].text)
                ]
            )
        );
        
    } else {
        lemma_shows_nothing(p);
    }
}

proof fn lemma_compu_method_part_0(v: CompuMethodView, p: Page, f: Setting)
    requires
        CompuMethod::fits(v, f),
        indents_by_blanks(p),
    ensures
        shows(p, compu_method_page_0(v, p), compu_method_part_0(v)),
        compu_method_page_0(v, p).depth == p.depth,
        compu_method_page_0(v, p).style == p.style,
        all_params(compu_method_part_0(v)),
{
    reveal(compu_method_page_0);
    reveal(compu_method_part_0);
    if v.conversion_type == ConversionType::LINEAR {
        reveal_strlit("COEFFS_LINEAR");
        assert(is_keyword("COEFFS_LINEAR"@));
        lemma_keyword_param("COEFFS_LINEAR"@);
        lemma_spells_pair(v.coeffs.factor.text, v.coeffs.offset.text);
        lemma_shows_tagged(
            p,
            "COEFFS_LINEAR"@,
            v.coeffs.factor.text + " "@ + v.coeffs.offset.text,
            seq![plain(v.coeffs.factor.text), plain(v.coeffs.offset.text)]
        );
        assert(
            seq![plain("COEFFS_LINEAR"@)] + seq![
                plain(v.coeffs.factor.text),
                plain(v.coeffs.offset.text)
            ] =~= seq![
                plain("COEFFS_LINEAR"@),
                plain(v.coeffs.factor.text),
                plain(v.coeffs.offset.text)
            ]
        );
        reveal_strlit("COEFFS_LINEAR");
        assert(is_keyword("COEFFS_LINEAR"@));
        lemma_keyword_param("COEFFS_LINEAR"@);
        assert(
            all_params(
                seq![
                    plain("COEFFS_LINEAR"@),
                    plain(v.coeffs.factor.text),
                    plain(v.coeffs.offset.text)
                ]
            )
        );
        
    } else {
        lemma_shows_nothing(p);
    }
}

proof fn lemma_compu_method_shown_5(v: CompuMethodView, p: Page, f: Setting)
    requires
        CompuMethod::fits(v, f),
        indents_by_blanks(p),
    ensures
        shows(p, compu_method_pages_5(v, p), compu_method_from_5(v)),
        compu_method_pages_5(v, p).depth == p.depth,
        compu_method_pages_5(v, p).style == p.style,
        all_params(compu_method_from_5(v)),
{
    lemma_shows_nothing(p);
}

proof fn lemma_compu_method_shown_4(v: CompuMethodView, p: Page, f: Setting)
    requires
        CompuMethod::fits(v, f),
        indents_by_blanks(p),
    ensures
        shows(p, compu_method_pages_4(v, p), compu_method_from_4(v)),
        compu_method_pages_4(v, p).depth == p.depth,
        compu_method_pages_4(v, p).style == p.style,
        all_params(compu_method_from_4(v)),
{
    lemma_compu_method_part_4(v, p, f);
    let q = compu_method_page_4(v, p);
    lemma_compu_method_shown_5(v, q, f);
    lemma_shows_join(p, q, compu_method_pages_5(v, q), compu_method_part_4(v), compu_method_from_5(v));
    lemma_all_params_join(compu_method_part_4(v), compu_method_from_5(v));
}

proof fn lemma_compu_method_shown_3(v: CompuMethodView, p: Page, f: Setting)
    requires
        CompuMethod::fits(v, f),
        indents_by_blanks(p),
    ensures
        shows(p, compu_method_pages_3(v, p), compu_method_from_3(v)),
        compu_method_pages_3(v, p).depth == p.depth,
        compu_method_pages_3(v, p).style == p.style,
        all_params(compu_method_from_3(v)),
{
    lemma_compu_method_part_3(v, p, f);
    let q = compu_method_page_3(v, p);
    lemma_compu_method_shown_4(v, q, f);
    lemma_shows_join(p, q, compu_method_pages_4(v, q), compu_method_part_3(v), compu_method_from_4(v));
    lemma_all_params_join(compu_method_part_3(v), compu_method_from_4(v));
}

proof fn lemma_compu_method_shown_2(v: CompuMethodView, p: Page, f: Setting)
    requires
        CompuMethod::fits(v, f),
        indents_by_blanks(p),
    ensures
        shows(p, compu_method_pages_2(v, p), compu_method_from_2(v)),
        compu_method_pages_2(v, p).depth == p.depth,
        compu_method_pages_2(v, p).style == p.style,
        all_params(compu_method_from_2(v)),
{
    lemma_compu_method_part_2(v, p, f);
    let q = compu_method_page_2(v, p);
    lemma_compu_method_shown_3(v, q, f);
    lemma_shows_join(p, q, compu_method_pages_3(v, q), compu_method_part_2(v), compu_method_from_3(v));
    lemma_all_params_join(compu_method_part_2(v), compu_method_from_3(v));
}

proof fn lemma_compu_method_shown_1(v: CompuMethodView, p: Page, f: Setting)
    requires
        CompuMethod::fits(v, f),
        indents_by_blanks(p),
    ensures
        shows(p, compu_method_pages_1(v, p), compu_method_from_1(v)),
        compu_method_pages_1(v, p).depth == p.depth,
        compu_method_pages_1(v, p).style == p.style,
        all_params(compu_method_from_1(v)),
{
    lemma_compu_method_part_1(v, p, f);
    let q = compu_method_page_1(v, p);
    lemma_compu_method_shown_2(v, q, f);
    lemma_shows_join(p, q, compu_method_pages_2(v, q), compu_method_part_1(v), compu_method_from_2(v));
    lemma_all_params_join(compu_method_part_1(v), compu_method_from_2(v));
}

proof fn lemma_compu_method_shown_0(v: CompuMethodView, p: Page, f: Setting)
    requires
        CompuMethod::fits(v, f),
        indents_by_blanks(p),
    ensures
        shows(p, compu_method_pages_0(v, p), compu_method_from_0(v)),
        compu_method_pages_0(v, p).depth == p.depth,
        compu_method_pages_0(v, p).style == p.style,
        all_params(compu_method_from_0(v)),
{
    lemma_compu_method_part_0(v, p, f);
    let q = compu_method_page_0(v, p);
    lemma_compu_method_shown_1(v, q, f);
    lemma_shows_join(p, q, compu_method_pages_1(v, q), compu_method_part_0(v), compu_method_from_1(v));
    lemma_all_params_join(compu_method_part_0(v), compu_method_from_1(v));
}

/// What is written for the parameters at the start.
#[verifier::opaque]
pub open spec fn compu_method_opening(v: CompuMethodView, p0: Page) -> Page {
    let p1 = match v.description { Some(x) => p0.quote_line(x), None => p0.quote_line(""@) };
    let p2 = match v.conversion_type.word() { Some(kw) => p1.line(kw), None => p1 };
    let p3 = p2.line("\""@ + v.format + "\" \""@ + v.unit + "\""@);
    p3
}

proof fn lemma_compu_method_opening(v: CompuMethodView, p0: Page, f: Setting)
    requires
        CompuMethod::fits(v, f),
        indents_by_blanks(p0),
    ensures
        shows(
            p0,
            compu_method_opening(v, p0),
            seq![
                string(escaped(v.description->Some_0)),
                plain(v.conversion_type.word()->Some_0),
                string(v.format),
                string(v.unit)
            ]
        ),
        compu_method_opening(v, p0).depth == p0.depth,
        compu_method_opening(v, p0).style == p0.style,
        all_params(compu_method_head(v)),
{
    reveal(compu_method_opening);
    lemma_shows_nothing(p0);
    let x0 = Seq::<Tok>::empty();
    let p1 = match v.description { Some(x) => p0.quote_line(x), None => p0.quote_line(""@) };
    assert(
        shows(
            p0,
            p1,
            seq![string(escaped(v.description->Some_0))]
        ) && p1.depth == p0.depth && p1.style == p0.style
    ) by {
        let p = p0;
        lemma_shows_quote_line(p, v.description->Some_0);
    }
    lemma_shows_join(p0, p0, p1, x0, seq![string(escaped(v.description->Some_0))]);
    let x1 = x0 + seq![string(escaped(v.description->Some_0))];
    let p2 = match v.conversion_type.word() { Some(kw) => p1.line(kw), None => p1 };
    assert(
        shows(
            p1,
            p2,
            seq![plain(v.conversion_type.word()->Some_0)]
        ) && p2.depth == p1.depth && p2.style == p1.style
    ) by {
        let p = p1;
        v.conversion_type.lemma_word();
        lemma_shows_word_line(p, v.conversion_type.word()->Some_0);
    }
    lemma_shows_join(p0, p1, p2, x1, seq![plain(v.conversion_type.word()->Some_0)]);
    let x2 = x1 + seq![plain(v.conversion_type.word()->Some_0)];
    let p3 = p2.line("\""@ + v.format + "\" \""@ + v.unit + "\""@);
    assert(
        shows(
            p2,
            p3,
            seq![string(v.format), string(v.unit)]
        ) && p3.depth == p2.depth && p3.style == p2.style
    ) by {
        let p = p2;
        reveal_strlit("\"");
        reveal_strlit("\" \"");
        reveal_strlit(" ");
        let a = "\""@ + v.format + "\""@;
        let b = "\""@ + v.unit + "\""@;
        assert("\""@ + v.format + "\" \""@ + v.unit + "\""@ =~= a + " "@ + b);
        lemma_spells_content(v.format);
        lemma_spells_content(v.unit);
        lemma_spells_join(a, seq![string(v.format)], b, seq![string(v.unit)]);
        assert(seq![string(v.format)] + seq![string(v.unit)] =~= seq![string(v.format), string(v.unit)]);
        lemma_shows_line(p, "\""@ + v.format + "\" \""@ + v.unit + "\""@, seq![string(v.format), string(v.unit)]);
    }
    lemma_shows_join(p0, p2, p3, x2, seq![string(v.format), string(v.unit)]);
    let x3 = x2 + seq![string(v.format), string(v.unit)];
    assert(
        x3 =~= seq![
            string(escaped(v.description->Some_0)),
            plain(v.conversion_type.word()->Some_0),
            string(v.format),
            string(v.unit)
        ]
    );
    lemma_string_param(v.description->Some_0);
    v.conversion_type.lemma_word();
}

proof fn lemma_compu_method_body(v: CompuMethodView, p: Page, f: Setting)
    requires
        CompuMethod::fits(v, f),
    ensures
        CompuMethod::body(v, p) == match v.inline_formula {
            Some(x) => Formula::block(x, compu_method_pages_0(v, compu_method_opening(v, p))),
            None => Ok(compu_method_pages_0(v, compu_method_opening(v, p)))
        },
{
    reveal(compu_method_opening);
    let q0 = compu_method_opening(v, p);
    let q1 = if v.conversion_type == ConversionType::LINEAR {
        q0.word("COEFFS_LINEAR"@, v.coeffs.factor.text + " "@ + v.coeffs.offset.text)
    } else { q0 };
    assert(q1 == compu_method_page_0(v, q0)) by {
        reveal(compu_method_page_0);
    }
    let q2 = if v.conversion_type == ConversionType::RAT_FUNC {
        q1.word(
            "COEFFS"@,
            v.coeffs.coeffs[0].text + " "@ + v.coeffs.coeffs[1].text + " "@ + v.coeffs.coeffs[2].text + " "@ + v.coeffs.coeffs[3].text + " "@ + v.coeffs.coeffs[4].text + " "@ + v.coeffs.coeffs[5].text
        )
    } else { q1 };
    assert(q2 == compu_method_page_1(v, q1)) by {
        reveal(compu_method_page_1);
    }
    let q3 = if (
        v.conversion_type == ConversionType::TAB_INTP || v.conversion_type == ConversionType::TAB_NOINTP || v.conversion_type == ConversionType::TAB_VERB
    ) { match v.compu_tab_ref { Some(x) => q2.word("COMPU_TAB_REF"@, x), None => q2 } } else { q2 };
    assert(q3 == compu_method_page_2(v, q2)) by {
        reveal(compu_method_page_2);
    }
    let q4 = match v.status_string_ref { Some(x) if x.len() > 0 => q3.word("STATUS_STRING_REF"@, x), _ => q3 };
    assert(q4 == compu_method_page_3(v, q3)) by {
        reveal(compu_method_page_3);
    }
    let q5 = match v.ref_unit { Some(x) if x.len() > 0 => q4.word("REF_UNIT"@, x), _ => q4 };
    assert(q5 == compu_method_page_4(v, q4)) by {
        reveal(compu_method_page_4);
    }
}

proof fn lemma_compu_method_head(v: CompuMethodView, c: Cur, f: Setting)
    requires
        CompuMethod::fits(v, f),
        tokens_at(c.toks, c.pos, compu_method_head(v)),
        toks_numbered(c.toks, f),
    ensures
        CompuMethod::head(c) == Ok::<(CompuMethodView, Cur), Failure>(
            (
                CompuMethodView {
                    coeffs: RationalCoeffs::blank(),
                    compu_tab_ref: None,
                    status_string_ref: None,
                    ref_unit: None,
                    inline_formula: None,
                    ..v
                },
                Cur { pos: c.pos + 5, ..c }
            ),
        ),
{
    law_unescaped_of_escaped(v.description->Some_0);
    v.conversion_type.law_named_of_word();
    assert(bare(c.toks[c.pos + 0]) == compu_method_head(v)[0]);
    assert(bare(c.toks[c.pos + 1]) == compu_method_head(v)[1]);
    assert(bare(c.toks[c.pos + 2]) == compu_method_head(v)[2]);
    assert(bare(c.toks[c.pos + 3]) == compu_method_head(v)[3]);
    assert(bare(c.toks[c.pos + 4]) == compu_method_head(v)[4]);
}

proof fn lemma_compu_method_step_0(w: CompuMethodView, v: CompuMethodView, c: Cur, f: Setting)
    requires
        CompuMethod::fits(v, f),
        v.conversion_type == ConversionType::LINEAR,
        tokens_at(
            c.toks,
            c.pos,
            seq![plain("COEFFS_LINEAR"@), plain(v.coeffs.factor.text), plain(v.coeffs.offset.text)]
        ),
        toks_numbered(c.toks, f),
        w.coeffs == RationalCoeffs::blank(),
    ensures
        CompuMethod::option(w, c) == Ok::<(CompuMethodView, Cur), Failure>(
            (CompuMethodView { coeffs: v.coeffs, ..w }, Cur { pos: c.pos + 3, ..c }),
        ),
{
    reveal(toks_joined);
    assert(joined_at(c.toks, c.pos + 1, f));
    reveal_strlit("COEFFS_LINEAR");
    reveal_strlit("COEFFS");
    lemma_differ("COEFFS_LINEAR"@, "COEFFS"@, 0);
    lemma_same("COEFFS_LINEAR"@);
    assert(
        bare(c.toks[c.pos + 0]) == (
            seq![plain("COEFFS_LINEAR"@), plain(v.coeffs.factor.text), plain(v.coeffs.offset.text)]
        )[0]
    );
    assert(
        bare(c.toks[c.pos + 1]) == (
            seq![plain("COEFFS_LINEAR"@), plain(v.coeffs.factor.text), plain(v.coeffs.offset.text)]
        )[1]
    );
    assert(
        bare(c.toks[c.pos + 2]) == (
            seq![plain("COEFFS_LINEAR"@), plain(v.coeffs.factor.text), plain(v.coeffs.offset.text)]
        )[2]
    );
    
}

proof fn lemma_compu_method_step_1(w: CompuMethodView, v: CompuMethodView, c: Cur, f: Setting)
    requires
        CompuMethod::fits(v, f),
        v.conversion_type == ConversionType::RAT_FUNC,
        tokens_at(
            c.toks,
            c.pos,
            seq![
                plain("COEFFS"@),
                plain(v.coeffs.coeffs[0].text),
                plain(v.coeffs.coeffs[1].text),
                plain(v.coeffs.coeffs[2].text),
                plain(v.coeffs.coeffs[3].text),
                plain(v.coeffs.coeffs[4].text),
                plain(v.coeffs.coeffs[5].text)
            ]
        ),
        toks_numbered(c.toks, f),
        w.coeffs == RationalCoeffs::blank(),
    ensures
        CompuMethod::option(w, c) == Ok::<(CompuMethodView, Cur), Failure>(
            (CompuMethodView { coeffs: v.coeffs, ..w }, Cur { pos: c.pos + 7, ..c }),
        ),
{
    reveal(toks_joined);
    assert(joined_at(c.toks, c.pos + 2, f));
    reveal_strlit("COEFFS");
    lemma_same("COEFFS"@);
    assert(
        bare(c.toks[c.pos + 0]) == (
            seq![
                plain("COEFFS"@),
                plain(v.coeffs.coeffs[0].text),
                plain(v.coeffs.coeffs[1].text),
                plain(v.coeffs.coeffs[2].text),
                plain(v.coeffs.coeffs[3].text),
                plain(v.coeffs.coeffs[4].text),
                plain(v.coeffs.coeffs[5].text)
            ]
        )[0]
    );
    assert(
        bare(c.toks[c.pos + 1]) == (
            seq![
                plain("COEFFS"@),
                plain(v.coeffs.coeffs[0].text),
                plain(v.coeffs.coeffs[1].text),
                plain(v.coeffs.coeffs[2].text),
                plain(v.coeffs.coeffs[3].text),
                plain(v.coeffs.coeffs[4].text),
                plain(v.coeffs.coeffs[5].text)
            ]
        )[1]
    );
    assert(
        bare(c.toks[c.pos + 2]) == (
            seq![
                plain("COEFFS"@),
                plain(v.coeffs.coeffs[0].text),
                plain(v.coeffs.coeffs[1].text),
                plain(v.coeffs.coeffs[2].text),
                plain(v.coeffs.coeffs[3].text),
                plain(v.coeffs.coeffs[4].text),
                plain(v.coeffs.coeffs[5].text)
            ]
        )[2]
    );
    assert(
        bare(c.toks[c.pos + 3]) == (
            seq![
                plain("COEFFS"@),
                plain(v.coeffs.coeffs[0].text),
                plain(v.coeffs.coeffs[1].text),
                plain(v.coeffs.coeffs[2].text),
                plain(v.coeffs.coeffs[3].text),
                plain(v.coeffs.coeffs[4].text),
                plain(v.coeffs.coeffs[5].text)
            ]
        )[3]
    );
    assert(
        bare(c.toks[c.pos + 4]) == (
            seq![
                plain("COEFFS"@),
                plain(v.coeffs.coeffs[0].text),
                plain(v.coeffs.coeffs[1].text),
                plain(v.coeffs.coeffs[2].text),
                plain(v.coeffs.coeffs[3].text),
                plain(v.coeffs.coeffs[4].text),
                plain(v.coeffs.coeffs[5].text)
            ]
        )[4]
    );
    assert(
        bare(c.toks[c.pos + 5]) == (
            seq![
                plain("COEFFS"@),
                plain(v.coeffs.coeffs[0].text),
                plain(v.coeffs.coeffs[1].text),
                plain(v.coeffs.coeffs[2].text),
                plain(v.coeffs.coeffs[3].text),
                plain(v.coeffs.coeffs[4].text),
                plain(v.coeffs.coeffs[5].text)
            ]
        )[5]
    );
    assert(
        bare(c.toks[c.pos + 6]) == (
            seq![
                plain("COEFFS"@),
                plain(v.coeffs.coeffs[0].text),
                plain(v.coeffs.coeffs[1].text),
                plain(v.coeffs.coeffs[2].text),
                plain(v.coeffs.coeffs[3].text),
                plain(v.coeffs.coeffs[4].text),
                plain(v.coeffs.coeffs[5].text)
            ]
        )[6]
    );
    assert(num_fits(v.coeffs.coeffs[0], f));
    assert(num_fits(v.coeffs.coeffs[1], f));
    assert(num_fits(v.coeffs.coeffs[2], f));
    assert(num_fits(v.coeffs.coeffs[3], f));
    assert(num_fits(v.coeffs.coeffs[4], f));
    assert(num_fits(v.coeffs.coeffs[5], f));
    assert(
        seq![
            v.coeffs.coeffs[0],
            v.coeffs.coeffs[1],
            v.coeffs.coeffs[2],
            v.coeffs.coeffs[3],
            v.coeffs.coeffs[4],
            v.coeffs.coeffs[5]
        ] =~= v.coeffs.coeffs
    );
}

proof fn lemma_compu_method_step_2(w: CompuMethodView, v: CompuMethodView, c: Cur, f: Setting)
    requires
        CompuMethod::fits(v, f),
        v.compu_tab_ref is Some,
        tokens_at(c.toks, c.pos, seq![plain("COMPU_TAB_REF"@), plain(v.compu_tab_ref->Some_0)]),
        toks_numbered(c.toks, f),
    ensures
        CompuMethod::option(w, c) == Ok::<(CompuMethodView, Cur), Failure>(
            (CompuMethodView { compu_tab_ref: v.compu_tab_ref, ..w }, Cur { pos: c.pos + 2, ..c }),
        ),
{
    reveal_strlit("COMPU_TAB_REF");
    reveal_strlit("COEFFS");
    lemma_differ("COMPU_TAB_REF"@, "COEFFS"@, 0);
    reveal_strlit("COEFFS_LINEAR");
    lemma_differ("COMPU_TAB_REF"@, "COEFFS_LINEAR"@, 2);
    lemma_same("COMPU_TAB_REF"@);
    assert(bare(c.toks[c.pos + 0]) == (seq![plain("COMPU_TAB_REF"@), plain(v.compu_tab_ref->Some_0)])[0]);
    assert(bare(c.toks[c.pos + 1]) == (seq![plain("COMPU_TAB_REF"@), plain(v.compu_tab_ref->Some_0)])[1]);
    
}

proof fn lemma_compu_method_step_3(w: CompuMethodView, v: CompuMethodView, c: Cur, f: Setting)
    requires
        CompuMethod::fits(v, f),
        v.status_string_ref is Some,
        tokens_at(c.toks, c.pos, seq![plain("STATUS_STRING_REF"@), plain(v.status_string_ref->Some_0)]),
        toks_numbered(c.toks, f),
    ensures
        CompuMethod::option(w, c) == Ok::<(CompuMethodView, Cur), Failure>(
            (CompuMethodView { status_string_ref: v.status_string_ref, ..w }, Cur { pos: c.pos + 2, ..c }),
        ),
{
    reveal_strlit("STATUS_STRING_REF");
    reveal_strlit("COEFFS");
    lemma_differ("STATUS_STRING_REF"@, "COEFFS"@, 0);
    reveal_strlit("COEFFS_LINEAR");
    lemma_differ("STATUS_STRING_REF"@, "COEFFS_LINEAR"@, 0);
    reveal_strlit("COMPU_TAB_REF");
    lemma_differ("STATUS_STRING_REF"@, "COMPU_TAB_REF"@, 0);
    lemma_same("STATUS_STRING_REF"@);
    assert(bare(c.toks[c.pos + 0]) == (seq![plain("STATUS_STRING_REF"@), plain(v.status_string_ref->Some_0)])[0]);
    assert(bare(c.toks[c.pos + 1]) == (seq![plain("STATUS_STRING_REF"@), plain(v.status_string_ref->Some_0)])[1]);
    
}

proof fn lemma_compu_method_step_4(w: CompuMethodView, v: CompuMethodView, c: Cur, f: Setting)
    requires
        CompuMethod::fits(v, f),
        v.ref_unit is Some,
        tokens_at(c.toks, c.pos, seq![plain("REF_UNIT"@), plain(v.ref_unit->Some_0)]),
        toks_numbered(c.toks, f),
    ensures
        CompuMethod::option(w, c) == Ok::<(CompuMethodView, Cur), Failure>(
            (CompuMethodView { ref_unit: v.ref_unit, ..w }, Cur { pos: c.pos + 2, ..c }),
        ),
{
    reveal_strlit("REF_UNIT");
    reveal_strlit("COEFFS");
    lemma_differ("REF_UNIT"@, "COEFFS"@, 0);
    reveal_strlit("COEFFS_LINEAR");
    lemma_differ("REF_UNIT"@, "COEFFS_LINEAR"@, 0);
    reveal_strlit("COMPU_TAB_REF");
    lemma_differ("REF_UNIT"@, "COMPU_TAB_REF"@, 0);
    reveal_strlit("STATUS_STRING_REF");
    lemma_differ("REF_UNIT"@, "STATUS_STRING_REF"@, 0);
    lemma_same("REF_UNIT"@);
    assert(bare(c.toks[c.pos + 0]) == (seq![plain("REF_UNIT"@), plain(v.ref_unit->Some_0)])[0]);
    assert(bare(c.toks[c.pos + 1]) == (seq![plain("REF_UNIT"@), plain(v.ref_unit->Some_0)])[1]);
    
}

proof fn lemma_compu_method_read_5(v: CompuMethodView, c: Cur, f: Setting)
    requires
        CompuMethod::fits(v, f),
        tokens_at(c.toks, c.pos, compu_method_from_5(v)),
        c.pos + compu_method_from_5(v).len() == c.toks.len(),
        toks_numbered(c.toks, f),
    ensures
        CompuMethod::options(
            CompuMethodView { inline_formula: None, ..v },
            c
        ) matches Ok((w, _)) && w == (CompuMethodView { inline_formula: None, ..v }),
{
}

proof fn lemma_compu_method_read_4(v: CompuMethodView, c: Cur, f: Setting)
    requires
        CompuMethod::fits(v, f),
        tokens_at(c.toks, c.pos, compu_method_from_4(v)),
        c.pos + compu_method_from_4(v).len() == c.toks.len(),
        toks_numbered(c.toks, f),
    ensures
        CompuMethod::options(
            CompuMethodView { ref_unit: None, inline_formula: None, ..v },
            c
        ) matches Ok((w, _)) && w == (CompuMethodView { inline_formula: None, ..v }),
{
    reveal(compu_method_part_4);
    let t = compu_method_part_4(v);
    if v.ref_unit is Some {
        lemma_tokens_at_split(c.toks, c.pos, t, compu_method_from_5(v));
        let c2 = Cur { pos: c.pos + 2, ..c };
        lemma_compu_method_step_4(CompuMethodView { ref_unit: None, inline_formula: None, ..v }, v, c, f);
        lemma_compu_method_read_5(v, c2, f);
    } else {
        assert(t + compu_method_from_5(v) =~= compu_method_from_5(v));
        lemma_compu_method_read_5(v, c, f);
    }
}

proof fn lemma_compu_method_read_3(v: CompuMethodView, c: Cur, f: Setting)
    requires
        CompuMethod::fits(v, f),
        tokens_at(c.toks, c.pos, compu_method_from_3(v)),
        c.pos + compu_method_from_3(v).len() == c.toks.len(),
        toks_numbered(c.toks, f),
    ensures
        CompuMethod::options(
            CompuMethodView { status_string_ref: None, ref_unit: None, inline_formula: None, ..v },
            c
        ) matches Ok((w, _)) && w == (CompuMethodView { inline_formula: None, ..v }),
{
    reveal(compu_method_part_3);
    let t = compu_method_part_3(v);
    if v.status_string_ref is Some {
        lemma_tokens_at_split(c.toks, c.pos, t, compu_method_from_4(v));
        let c2 = Cur { pos: c.pos + 2, ..c };
        lemma_compu_method_step_3(
            CompuMethodView { status_string_ref: None, ref_unit: None, inline_formula: None, ..v },
            v,
            c,
            f
        );
        lemma_compu_method_read_4(v, c2, f);
    } else {
        assert(t + compu_method_from_4(v) =~= compu_method_from_4(v));
        lemma_compu_method_read_4(v, c, f);
    }
}

proof fn lemma_compu_method_read_2(v: CompuMethodView, c: Cur, f: Setting)
    requires
        CompuMethod::fits(v, f),
        tokens_at(c.toks, c.pos, compu_method_from_2(v)),
        c.pos + compu_method_from_2(v).len() == c.toks.len(),
        toks_numbered(c.toks, f),
    ensures
        CompuMethod::options(
            CompuMethodView {
                compu_tab_ref: None,
                status_string_ref: None,
                ref_unit: None,
                inline_formula: None,
                ..v
            },
            c
        ) matches Ok((w, _)) && w == (CompuMethodView { inline_formula: None, ..v }),
{
    reveal(compu_method_part_2);
    let t = compu_method_part_2(v);
    if v.compu_tab_ref is Some {
        lemma_tokens_at_split(c.toks, c.pos, t, compu_method_from_3(v));
        let c2 = Cur { pos: c.pos + 2, ..c };
        lemma_compu_method_step_2(
            CompuMethodView {
                compu_tab_ref: None,
                status_string_ref: None,
                ref_unit: None,
                inline_formula: None,
                ..v
            },
            v,
            c,
            f
        );
        lemma_compu_method_read_3(v, c2, f);
    } else {
        assert(t + compu_method_from_3(v) =~= compu_method_from_3(v));
        lemma_compu_method_read_3(v, c, f);
    }
}

proof fn lemma_compu_method_read_1(v: CompuMethodView, c: Cur, f: Setting)
    requires
        CompuMethod::fits(v, f),
        tokens_at(c.toks, c.pos, compu_method_from_1(v)),
        c.pos + compu_method_from_1(v).len() == c.toks.len(),
        toks_numbered(c.toks, f),
    ensures
        CompuMethod::options(
            CompuMethodView {
                coeffs: if v.conversion_type == ConversionType::LINEAR { v.coeffs } else { RationalCoeffs::blank() },
                compu_tab_ref: None,
                status_string_ref: None,
                ref_unit: None,
                inline_formula: None,
                ..v
            },
            c
        ) matches Ok((w, _)) && w == (CompuMethodView { inline_formula: None, ..v }),
{
    reveal(compu_method_part_1);
    let t = compu_method_part_1(v);
    if v.conversion_type == ConversionType::RAT_FUNC {
        lemma_tokens_at_split(c.toks, c.pos, t, compu_method_from_2(v));
        let c2 = Cur { pos: c.pos + 7, ..c };
        lemma_compu_method_step_1(
            CompuMethodView {
                coeffs: if v.conversion_type == ConversionType::LINEAR { v.coeffs } else { RationalCoeffs::blank() },
                compu_tab_ref: None,
                status_string_ref: None,
                ref_unit: None,
                inline_formula: None,
                ..v
            },
            v,
            c,
            f
        );
        lemma_compu_method_read_2(v, c2, f);
    } else {
        assert(t + compu_method_from_2(v) =~= compu_method_from_2(v));
        lemma_compu_method_read_2(v, c, f);
    }
}

proof fn lemma_compu_method_read_0(v: CompuMethodView, c: Cur, f: Setting)
    requires
        CompuMethod::fits(v, f),
        tokens_at(c.toks, c.pos, compu_method_from_0(v)),
        c.pos + compu_method_from_0(v).len() == c.toks.len(),
        toks_numbered(c.toks, f),
    ensures
        CompuMethod::options(
            CompuMethodView {
                coeffs: RationalCoeffs::blank(),
                compu_tab_ref: None,
                status_string_ref: None,
                ref_unit: None,
                inline_formula: None,
                ..v
            },
            c
        ) matches Ok((w, _)) && w == (CompuMethodView { inline_formula: None, ..v }),
{
    reveal(compu_method_part_0);
    let t = compu_method_part_0(v);
    if v.conversion_type == ConversionType::LINEAR {
        lemma_tokens_at_split(c.toks, c.pos, t, compu_method_from_1(v));
        let c2 = Cur { pos: c.pos + 3, ..c };
        lemma_compu_method_step_0(
            CompuMethodView {
                coeffs: RationalCoeffs::blank(),
                compu_tab_ref: None,
                status_string_ref: None,
                ref_unit: None,
                inline_formula: None,
                ..v
            },
            v,
            c,
            f
        );
        lemma_compu_method_read_1(v, c2, f);
    } else {
        assert(t + compu_method_from_1(v) =~= compu_method_from_1(v));
        lemma_compu_method_read_1(v, c, f);
    }
}

impl Faithful for CompuMethod {
    open spec fn fits(v: CompuMethodView, f: Setting) -> bool {
        &&& is_param(plain(v.name))
        &&& v.description is Some
        &&& v.conversion_type.word() is Some
        &&& is_content(v.format) && is_content(v.unit)
        &&& (
            v.conversion_type == ConversionType::LINEAR ==> {
                &&& num_fits(v.coeffs.factor, f)
                &&& num_fits(v.coeffs.offset, f)
                &&& v.coeffs.factor.nan || v.coeffs.factor.key != 0
                &&& (f.joints)(v.coeffs.factor.text, v.coeffs.offset.text) matches Some(joint)
                    && v.coeffs == RationalCoeffs::linear(
                    RationalCoeffs::blank(),
                    v.coeffs.factor,
                    joint,
                )
            }
        )
        &&& (
            v.conversion_type == ConversionType::RAT_FUNC ==> {
                &&& v.coeffs.coeffs.len() == 6
                &&& forall|i: int| 0 <= i < 6 ==> num_fits(#[trigger] v.coeffs.coeffs[i], f)
                &&& (f.joints)(v.coeffs.coeffs[1].text, v.coeffs.coeffs[2].text) matches Some(joint)
                    && v.coeffs == RationalCoeffs::rational(v.coeffs.coeffs, joint)
            }
        )
        &&& (
            v.compu_tab_ref matches Some(x) ==> (
                v.conversion_type == ConversionType::TAB_INTP || v.conversion_type == ConversionType::TAB_NOINTP || v.conversion_type == ConversionType::TAB_VERB
            ) && is_param(plain(x))
        )
        &&& (v.status_string_ref matches Some(x) ==> is_param(plain(x)))
        &&& (v.ref_unit matches Some(x) ==> is_param(plain(x)))
        &&& (
            v.conversion_type != ConversionType::LINEAR && v.conversion_type != ConversionType::RAT_FUNC ==> v.coeffs == RationalCoeffs::blank()
        )
        &&& (v.inline_formula matches Some(x) ==> <Formula as Faithful>::fits(x, f))
    }

    open spec fn shape(v: CompuMethodView) -> Tree {
        shape_of(
            "COMPU_METHOD"@,
            compu_method_head(v) + compu_method_from_0(v),
            (
                if v.inline_formula is Some {
                    seq![<Formula as Faithful>::shape(v.inline_formula->Some_0)]
                } else { Seq::<Tree>::empty() }
            )
        )
    }

    proof fn law_shown(v: CompuMethodView, p: Page, f: Setting) {
        reveal_strlit("COMPU_METHOD");
        lemma_keyword_word("COMPU_METHOD"@);
        reveal_strlit("COMPU_METHOD ");
        reveal_strlit(" ");
        assert("COMPU_METHOD "@ + v.name =~= "COMPU_METHOD"@ + " "@ + v.name);
        lemma_spells_word("COMPU_METHOD"@);
        lemma_spells_word(v.name);
        lemma_spells_join("COMPU_METHOD"@, seq![plain("COMPU_METHOD"@)], v.name, seq![plain(v.name)]);
        let h = seq![plain(v.name)];
        crate::a2l::tree_laws::lemma_shows_begin(p, "COMPU_METHOD "@ + v.name, seq![plain("COMPU_METHOD"@)] + h);
        let p0 = p.begin("COMPU_METHOD "@ + v.name);
        lemma_compu_method_body(v, p0, f);
        lemma_compu_method_opening(v, p0, f);
        let p1 = compu_method_opening(v, p0);
        lemma_compu_method_shown_0(v, p1, f);
        let p2 = compu_method_pages_0(v, p1);
        let hx = seq![
            string(escaped(v.description->Some_0)),
            plain(v.conversion_type.word()->Some_0),
            string(v.format),
            string(v.unit)
        ];
        let from = compu_method_from_0(v);
        lemma_shows_join(p0, p1, p2, hx, from);
        let kids = if v.inline_formula is Some {
            seq![<Formula as Faithful>::shape(v.inline_formula->Some_0)]
        } else { Seq::<Tree>::empty() };
        let y = blocks_tokens(kids, 0);
        let q = match v.inline_formula { Some(x) => Formula::block(x, p2)->Ok_0, None => p2 };
        if v.inline_formula is Some {
            <Formula as Faithful>::law_shown(v.inline_formula->Some_0, p2, f);
            assert(blocks_tokens(kids, 1) =~= Seq::<Tok>::empty());
            assert(y =~= block_tokens(kids[0]));
        } else {
            lemma_shows_nothing(p2);
            assert(y =~= Seq::<Tok>::empty());
        }
        lemma_shows_join(p0, p2, q, hx + from, y);
        let x = compu_method_head(v) + from;
        lemma_shape_tokens(x, kids);
        lemma_all_params_join(compu_method_head(v), from);
        lemma_sound_shape("COMPU_METHOD"@, x, kids);
        assert(compu_method_head(v) =~= h + hx);
        assert(h + (hx + from + y) =~= x + y);
        lemma_shows_block(p, "COMPU_METHOD "@ + v.name, h, "COMPU_METHOD"@, q, hx + from + y, Self::shape(v));
    }

    proof fn law_parsed(v: CompuMethodView, tree: Tree, f: Setting) {
        let x = compu_method_head(v) + compu_method_from_0(v);
        let kids = (
            if v.inline_formula is Some {
                seq![<Formula as Faithful>::shape(v.inline_formula->Some_0)]
            } else { Seq::<Tree>::empty() }
        );
        lemma_shape_found(tree, "COMPU_METHOD"@, x, kids, f);
        let c = Cur::start(tree);
        lemma_tokens_at_split(c.toks, 0, compu_method_head(v), compu_method_from_0(v));
        lemma_compu_method_head(v, c, f);
        let c1 = Cur { pos: 5, ..c };
        lemma_compu_method_read_0(v, c1, f);
        let blocks = children_of(tree.items);
        if v.inline_formula is Some {
            assert(bare_tree(blocks[0]) == kids[0]);
            reveal_strlit("FORMULA");
            lemma_same("FORMULA"@);
            <Formula as Faithful>::law_parsed(v.inline_formula->Some_0, blocks[0], f);
        }
    }
}

/// Numbers as tokens.
pub open spec fn num_tokens(s: Seq<Num>) -> Seq<Tok> {
    Seq::new(s.len(), |i: int| plain(s[i].text))
}

/// Whether all numbers can be written and read back.
pub open spec fn nums_fit(s: Seq<Num>, f: Setting) -> bool {
    forall|i: int| 0 <= i < s.len() ==> num_fits(#[trigger] s[i], f)
}

proof fn lemma_numbers_shown(s: Seq<Num>, n: int, p: Page, f: Setting)
    requires
        0 <= n <= s.len(),
        indents_by_blanks(p),
        nums_fit(s, f),
    ensures
        shows(p, FixAxisParList::lines(s, n, p), num_tokens(s.subrange(0, n))),
        FixAxisParList::lines(s, n, p).depth == p.depth,
        FixAxisParList::lines(s, n, p).style == p.style,
        all_params(num_tokens(s.subrange(0, n))),
    decreases n,
{
    if n == 0 {
        lemma_shows_nothing(p);
        assert(num_tokens(s.subrange(0, 0)) =~= Seq::<Tok>::empty());
    } else {
        lemma_numbers_shown(s, n - 1, p, f);
        let q = FixAxisParList::lines(s, n - 1, p);
        let w = s[n - 1].text;
        assert(num_fits(s[n - 1], f));
        lemma_shows_word_line(q, w);
        let x = num_tokens(s.subrange(0, n - 1));
        lemma_shows_join(p, q, q.line(w), x, seq![plain(w)]);
        lemma_all_params_join(x, seq![plain(w)]);
        assert(x + seq![plain(w)] =~= num_tokens(s.subrange(0, n)));
    }
}

/// The parameters at the start of the block.
pub open spec fn fix_axis_par_list_head(v: FixAxisParListView) -> Seq<Tok> {
    Seq::<Tok>::empty()
}

/// The parameters behind the last keyword.
pub open spec fn fix_axis_par_list_from_0(v: FixAxisParListView) -> Seq<Tok> {
    num_tokens(v.values)
}

/// What is written behind the last keyword.
pub open spec fn fix_axis_par_list_pages_0(v: FixAxisParListView, p: Page) -> Page {
    FixAxisParList::lines(v.values, v.values.len() as int, p)
}

proof fn lemma_fix_axis_par_list_values(v: FixAxisParListView, c: Cur, i: int, f: Setting)
    requires
        FixAxisParList::fits(v, f),
        0 <= i <= v.values.len(),
        tokens_at(c.toks, c.pos, num_tokens(v.values).skip(i)),
        c.pos + (v.values.len() - i) == c.toks.len(),
        toks_numbered(c.toks, f),
    ensures
        FixAxisParList::options(
            FixAxisParListView { values: v.values.subrange(0, i) },
            c
        ) matches Ok((w, _)) && w == (v),
    decreases v.values.len() - i,
{
    let n = v.values.len() as int;
    if i < n {
        let t = num_tokens(v.values);
        assert(bare(c.toks[c.pos + 0]) == t.skip(i)[0]);
        assert(num_fits(v.values[i], f));
        assert(v.values.subrange(0, i).push(v.values[i]) =~= v.values.subrange(0, i + 1));
        assert forall|k: int| 0 <= k < t.skip(i + 1).len() implies bare(
            #[trigger] c.step().toks[c.step().pos + k],
        ) == t.skip(i + 1)[k] by {
            assert(bare(c.toks[c.pos + (k + 1)]) == t.skip(i)[k + 1]);
        }
        lemma_fix_axis_par_list_values(v, c.step(), i + 1, f);
    } else {
        assert(v.values.subrange(0, n) =~= v.values);
    }
}

proof fn lemma_fix_axis_par_list_shown_0(v: FixAxisParListView, p: Page, f: Setting)
    requires
        FixAxisParList::fits(v, f),
        indents_by_blanks(p),
    ensures
        shows(p, fix_axis_par_list_pages_0(v, p), fix_axis_par_list_from_0(v)),
        fix_axis_par_list_pages_0(v, p).depth == p.depth,
        fix_axis_par_list_pages_0(v, p).style == p.style,
        all_params(fix_axis_par_list_from_0(v)),
{
    lemma_numbers_shown(v.values, v.values.len() as int, p, f);
    assert(v.values.subrange(0, v.values.len() as int) =~= v.values);
}

/// What is written for the parameters at the start.
#[verifier::opaque]
pub open spec fn fix_axis_par_list_opening(v: FixAxisParListView, p0: Page) -> Page {
    p0
}

proof fn lemma_fix_axis_par_list_opening(v: FixAxisParListView, p0: Page, f: Setting)
    requires
        FixAxisParList::fits(v, f),
        indents_by_blanks(p0),
    ensures
        shows(p0, fix_axis_par_list_opening(v, p0), Seq::<Tok>::empty()),
        fix_axis_par_list_opening(v, p0).depth == p0.depth,
        fix_axis_par_list_opening(v, p0).style == p0.style,
        all_params(fix_axis_par_list_head(v)),
{
    reveal(fix_axis_par_list_opening);
    lemma_shows_nothing(p0);
    let x0 = Seq::<Tok>::empty();
    assert(x0 =~= Seq::<Tok>::empty());
}

proof fn lemma_fix_axis_par_list_body(v: FixAxisParListView, p: Page, f: Setting)
    requires
        FixAxisParList::fits(v, f),
    ensures
        FixAxisParList::body(v, p) == Ok::<Page, Stopped>(
            fix_axis_par_list_pages_0(v, fix_axis_par_list_opening(v, p))
        ),
{
    reveal(fix_axis_par_list_opening);
    let q0 = fix_axis_par_list_opening(v, p);
}

proof fn lemma_fix_axis_par_list_read_0(v: FixAxisParListView, c: Cur, f: Setting)
    requires
        FixAxisParList::fits(v, f),
        tokens_at(c.toks, c.pos, fix_axis_par_list_from_0(v)),
        c.pos + fix_axis_par_list_from_0(v).len() == c.toks.len(),
        toks_numbered(c.toks, f),
    ensures
        FixAxisParList::options(FixAxisParListView { values: Seq::empty() }, c) matches Ok((w, _)) && w == (v),
{
    assert(num_tokens(v.values).skip(0) =~= num_tokens(v.values));
    assert(v.values.subrange(0, 0) =~= Seq::empty());
    lemma_fix_axis_par_list_values(v, c, 0, f);
}

impl Faithful for FixAxisParList {
    open spec fn fits(v: FixAxisParListView, f: Setting) -> bool {
        &&& nums_fit(v.values, f)
    }

    open spec fn shape(v: FixAxisParListView) -> Tree {
        shape_of("FIX_AXIS_PAR_LIST"@, fix_axis_par_list_head(v) + fix_axis_par_list_from_0(v), Seq::empty())
    }

    proof fn law_shown(v: FixAxisParListView, p: Page, f: Setting) {
        reveal_strlit("FIX_AXIS_PAR_LIST");
        lemma_keyword_word("FIX_AXIS_PAR_LIST"@);
        lemma_spells_word("FIX_AXIS_PAR_LIST"@);
        let h = Seq::<Tok>::empty();
        assert(seq![plain("FIX_AXIS_PAR_LIST"@)] + h =~= seq![plain("FIX_AXIS_PAR_LIST"@)]);
        crate::a2l::tree_laws::lemma_shows_begin(p, "FIX_AXIS_PAR_LIST"@, seq![plain("FIX_AXIS_PAR_LIST"@)] + h);
        let p0 = p.begin("FIX_AXIS_PAR_LIST"@);
        lemma_fix_axis_par_list_body(v, p0, f);
        lemma_fix_axis_par_list_opening(v, p0, f);
        let p1 = fix_axis_par_list_opening(v, p0);
        lemma_fix_axis_par_list_shown_0(v, p1, f);
        let p2 = fix_axis_par_list_pages_0(v, p1);
        let hx = Seq::<Tok>::empty();
        let from = fix_axis_par_list_from_0(v);
        lemma_shows_join(p0, p1, p2, hx, from);
        let q = p2;
        let kids = Seq::<Tree>::empty();
        let y = Seq::<Tok>::empty();
        assert(blocks_tokens(kids, 0) =~= y);
        assert(hx + from + y =~= hx + from);
        let x = fix_axis_par_list_head(v) + from;
        lemma_shape_tokens(x, kids);
        lemma_all_params_join(fix_axis_par_list_head(v), from);
        lemma_sound_shape("FIX_AXIS_PAR_LIST"@, x, kids);
        assert(fix_axis_par_list_head(v) =~= h + hx);
        assert(h + (hx + from + y) =~= x + y);
        lemma_shows_block(p, "FIX_AXIS_PAR_LIST"@, h, "FIX_AXIS_PAR_LIST"@, q, hx + from + y, Self::shape(v));
    }

    proof fn law_parsed(v: FixAxisParListView, tree: Tree, f: Setting) {
        let x = fix_axis_par_list_head(v) + fix_axis_par_list_from_0(v);
        let kids = Seq::<Tree>::empty();
        lemma_shape_found(tree, "FIX_AXIS_PAR_LIST"@, x, kids, f);
        let c = Cur::start(tree);
        lemma_tokens_at_split(c.toks, 0, fix_axis_par_list_head(v), fix_axis_par_list_from_0(v));
        let c1 = c;
        lemma_fix_axis_par_list_read_0(v, c1, f);
    }
}

proof fn lemma_bit_operation_next(w: BitOperationView, c: Cur, w2: BitOperationView, c2: Cur)
    requires
        c.more(),
        0 <= c2.left() < c.left(),
        BitOperation::option(w, c) == Ok::<(BitOperationView, Cur), Failure>((w2, c2)),
    ensures
        BitOperation::options(w, c) == BitOperation::options(w2, c2),
{
}

/// The parameters of the block.
pub open spec fn bit_operation_params(v: BitOperationView) -> Seq<Tok> {
    Seq::<Tok>::empty() + (
        (
            if v.bit_operation.word() is Some {
                seq![plain(v.bit_operation.word()->Some_0), plain(dec_int(v.count as int))]
            } else { Seq::<Tok>::empty() }
        ) + (if v.sign_extend { seq![plain("SIGN_EXTEND"@)] } else { Seq::<Tok>::empty() })
    )
}

impl Faithful for BitOperation {
    open spec fn fits(v: BitOperationView, f: Setting) -> bool {
        &&& (v.bit_operation.word() is None ==> v.count == 0)
    }

    open spec fn shape(v: BitOperationView) -> Tree {
        shape_of("BIT_OPERATION"@, bit_operation_params(v), Seq::empty())
    }

    proof fn law_shown(v: BitOperationView, p: Page, f: Setting) {
        reveal_strlit("BIT_OPERATION");
        lemma_keyword_word("BIT_OPERATION"@);
        let h = Seq::<Tok>::empty();
        let x = (
            if v.bit_operation.word() is Some {
                seq![plain(v.bit_operation.word()->Some_0), plain(dec_int(v.count as int))]
            } else { Seq::<Tok>::empty() }
        ) + (if v.sign_extend { seq![plain("SIGN_EXTEND"@)] } else { Seq::<Tok>::empty() });
        lemma_spells_word("BIT_OPERATION"@);
        assert(seq![plain("BIT_OPERATION"@)] + h =~= seq![plain("BIT_OPERATION"@)]);
        crate::a2l::tree_laws::lemma_shows_begin(p, "BIT_OPERATION"@, seq![plain("BIT_OPERATION"@)] + h);
        let p0 = p.begin("BIT_OPERATION"@);
        let y0 = (
            if v.bit_operation.word() is Some {
                seq![plain(v.bit_operation.word()->Some_0), plain(dec_int(v.count as int))]
            } else { Seq::<Tok>::empty() }
        );
        let y1 = (if v.sign_extend { seq![plain("SIGN_EXTEND"@)] } else { Seq::<Tok>::empty() });
        let p1 = match v.bit_operation.word() { Some(kw) => p0.word(kw, dec_int(v.count as int)), None => p0 };
        let q0 = if v.sign_extend { p1.line("SIGN_EXTEND"@) } else { p1 };
        reveal_strlit("SIGN_EXTEND");
        lemma_keyword_param("SIGN_EXTEND"@);
        v.bit_operation.lemma_word();
        lemma_dec_param(v.count as int);
        lemma_shows_nothing(p0);
        if v.bit_operation.word() is Some {
            lemma_shows_word(p0, v.bit_operation.word()->Some_0, dec_int(v.count as int));
        }
        lemma_shows_nothing(p1);
        if v.sign_extend {
            lemma_shows_word_line(p1, "SIGN_EXTEND"@);
        }
        lemma_shows_join(p0, p1, q0, y0, y1);
        assert(shows(p0, q0, x));
        let q = q0;
        let kids = Seq::<Tree>::empty();
        let y = Seq::<Tok>::empty();
        assert(blocks_tokens(kids, 0) =~= y);
        assert(x + y =~= x);
        lemma_all_params_join(y0, y1);
        assert(all_params(h));
        lemma_all_params_join(h, x);
        lemma_shape_tokens(h + x, kids);
        lemma_sound_shape("BIT_OPERATION"@, h + x, kids);
        assert(h + (x + y) =~= h + x + y);
        assert(Self::body(v, p0) == Ok::<Page, Stopped>(q));
        lemma_shows_block(p, "BIT_OPERATION"@, h, "BIT_OPERATION"@, q, x + y, Self::shape(v));
    }

    proof fn law_parsed(v: BitOperationView, tree: Tree, f: Setting) {
        let h = Seq::<Tok>::empty();
        let x = (
            if v.bit_operation.word() is Some {
                seq![plain(v.bit_operation.word()->Some_0), plain(dec_int(v.count as int))]
            } else { Seq::<Tok>::empty() }
        ) + (if v.sign_extend { seq![plain("SIGN_EXTEND"@)] } else { Seq::<Tok>::empty() });
        let kids = Seq::<Tree>::empty();
        lemma_shape_found(tree, "BIT_OPERATION"@, h + x, kids, f);
        let c = Cur::start(tree);
        lemma_tokens_at_split(c.toks, 0, h, x);
        let y0 = (
            if v.bit_operation.word() is Some {
                seq![plain(v.bit_operation.word()->Some_0), plain(dec_int(v.count as int))]
            } else { Seq::<Tok>::empty() }
        );
        let y1 = (if v.sign_extend { seq![plain("SIGN_EXTEND"@)] } else { Seq::<Tok>::empty() });
        assert(h + x =~= x);
        lemma_tokens_at_split(c.toks, 0, y0, y1);
        let w1 = BitOperationView { bit_operation: v.bit_operation, count: v.count, sign_extend: false };
        let c1 = Cur { pos: y0.len() as int, ..c };
        reveal_strlit("LEFT_SHIFT");
        reveal_strlit("RIGHT_SHIFT");
        reveal_strlit("SIGN_EXTEND");
        lemma_same("LEFT_SHIFT"@);
        lemma_same("RIGHT_SHIFT"@);
        lemma_same("SIGN_EXTEND"@);
        lemma_differ("RIGHT_SHIFT"@, "LEFT_SHIFT"@, 0);
        lemma_differ("SIGN_EXTEND"@, "LEFT_SHIFT"@, 0);
        lemma_differ("SIGN_EXTEND"@, "RIGHT_SHIFT"@, 0);
        law_integer_of_dec(v.count as int);
        if v.bit_operation.word() is Some {
            assert(bare(c.toks[0int + 0]) == y0[0]);
            assert(bare(c.toks[0int + 1]) == y0[1]);
            lemma_bit_operation_next(BitOperation::blank(), c, w1, c1);
        } else {
            assert(w1 == BitOperation::blank());
        }
        if v.sign_extend {
            assert(bare(c1.toks[c1.pos + 0]) == y1[0]);
            lemma_bit_operation_next(w1, c1, v, c1.step());
        }
    }
}

} // verus!
