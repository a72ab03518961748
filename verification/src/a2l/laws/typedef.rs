//! Type definitions read back from what is written for them.

use crate::a2l::block::{Tree, bare_tree, children_of};
use crate::a2l::error::Failure;
use crate::a2l::faithful::{
    Faithful, FaithfulChild, KeywordText, Setting, all_fit, all_params, blocks_tokens, int_tokens,
    is_keyword, lemma_all_params_join, lemma_children_read, lemma_children_shown, lemma_dec_param,
    lemma_dims_read, lemma_hex_param, lemma_int_params, lemma_keyword_param, lemma_keyword_word,
    lemma_no_int, lemma_node_read, lemma_node_shown, lemma_shape_found, lemma_shape_tokens,
    lemma_shapes_sound, lemma_shows_block, lemma_shows_quote, lemma_shows_quote_line,
    lemma_shows_tagged, lemma_shows_word, lemma_shows_word_line, lemma_sound_shape,
    lemma_spells_ints, lemma_spells_pair, lemma_string_param, no_int_at, num_fits, shape_of,
    shapes, toks_numbered,
};
use crate::a2l::model::base::{ByteOrder, ConversionRefFieldsView, RecordLayoutRefFieldsView};
use crate::a2l::model::enums::{
    A2lKeyword, AddrType, DepositType, EncodingType, IndexMode, MonotonyType,
};
use crate::a2l::model::parts::{children_written, hex_form, listed, word_or};
use crate::a2l::model::typedef::{
    ArComponent, ArComponentView, Overwrite, OverwriteView, StructureComponent,
    StructureComponentChild, StructureComponentChildView, StructureComponentView, TypedefAxis,
    TypedefAxisView, TypedefBlob, TypedefBlobView, TypedefCharacteristic,
    TypedefCharacteristicView, TypedefMeasurement, TypedefMeasurementView, TypedefStructure,
    TypedefStructureChild, TypedefStructureChildView, TypedefStructureView,
};
use crate::a2l::model::unsupported::UnsupportedNode;
use crate::a2l::node::Node;
use crate::a2l::number::{num_max, num_min, num_zero};
use crate::a2l::params::{Cur, law_integer_of_dec, law_integer_of_hex};
use crate::a2l::spell::{
    indents_by_blanks, law_unescaped_of_escaped, lemma_shows_join, lemma_shows_line,
    lemma_shows_nothing, lemma_spells_join, lemma_spells_word, plain, shows, string,
};
use crate::a2l::token::{Tok, bare};
use crate::a2l::tree_laws::{is_param, lemma_shows_begin, lemma_tokens_at_split, tokens_at};
use crate::a2l::writer::{Page, escaped, Stopped};
use crate::text::{dec, dec_int, lemma_differ, lemma_same, same_ignore_case};
use vstd::prelude::*;

verus! {

/// The parameters at the start of the block.
pub open spec fn typedef_axis_head(v: TypedefAxisView) -> Seq<Tok> {
    seq![
        plain(v.named.name),
        string(escaped(v.named.description->Some_0)),
        plain(v.input_quantity->Some_0),
        plain(v.rec.record_layout),
        plain(v.rec.max_diff.text),
        plain(v.conv.conversion),
        plain(dec_int(v.max_axis_points as int)),
        plain(v.conv.lower_limit.text),
        plain(v.conv.upper_limit.text)
    ]
}

/// The parameters of `FORMAT`.
#[verifier::opaque]
pub open spec fn typedef_axis_part_0(v: TypedefAxisView) -> Seq<Tok> {
    if v.conv.format is Some {
        seq![plain("FORMAT"@), string(escaped(v.conv.format->Some_0))]
    } else { Seq::<Tok>::empty() }
}

/// The parameters from `FORMAT` on.
pub open spec fn typedef_axis_from_0(v: TypedefAxisView) -> Seq<Tok> {
    typedef_axis_part_0(v) + typedef_axis_from_1(v)
}

/// What is written for `FORMAT`.
#[verifier::opaque]
pub open spec fn typedef_axis_page_0(v: TypedefAxisView, p: Page) -> Page {
    match v.conv.format { Some(x) if x.len() > 0 => p.quote("FORMAT"@, x), _ => p }
}

/// What is written from `FORMAT` on.
pub open spec fn typedef_axis_pages_0(v: TypedefAxisView, p: Page) -> Page {
    typedef_axis_pages_1(v, typedef_axis_page_0(v, p))
}

/// The parameters of `PHYS_UNIT`.
#[verifier::opaque]
pub open spec fn typedef_axis_part_1(v: TypedefAxisView) -> Seq<Tok> {
    if v.conv.phys_unit is Some {
        seq![plain("PHYS_UNIT"@), string(escaped(v.conv.phys_unit->Some_0))]
    } else { Seq::<Tok>::empty() }
}

/// The parameters from `PHYS_UNIT` on.
pub open spec fn typedef_axis_from_1(v: TypedefAxisView) -> Seq<Tok> {
    typedef_axis_part_1(v) + typedef_axis_from_2(v)
}

/// What is written for `PHYS_UNIT`.
#[verifier::opaque]
pub open spec fn typedef_axis_page_1(v: TypedefAxisView, p: Page) -> Page {
    match v.conv.phys_unit { Some(x) if x.len() > 0 => p.quote("PHYS_UNIT"@, x), _ => p }
}

/// What is written from `PHYS_UNIT` on.
pub open spec fn typedef_axis_pages_1(v: TypedefAxisView, p: Page) -> Page {
    typedef_axis_pages_2(v, typedef_axis_page_1(v, p))
}

/// The parameters of `BYTE_ORDER`.
#[verifier::opaque]
pub open spec fn typedef_axis_part_2(v: TypedefAxisView) -> Seq<Tok> {
    if v.conv.byte_order.word() is Some {
        seq![plain("BYTE_ORDER"@), plain(v.conv.byte_order.word()->Some_0)]
    } else { Seq::<Tok>::empty() }
}

/// The parameters from `BYTE_ORDER` on.
pub open spec fn typedef_axis_from_2(v: TypedefAxisView) -> Seq<Tok> {
    typedef_axis_part_2(v) + typedef_axis_from_3(v)
}

/// What is written for `BYTE_ORDER`.
#[verifier::opaque]
pub open spec fn typedef_axis_page_2(v: TypedefAxisView, p: Page) -> Page {
    match v.conv.byte_order.word() { Some(kw) => p.word("BYTE_ORDER"@, kw), None => p }
}

/// What is written from `BYTE_ORDER` on.
pub open spec fn typedef_axis_pages_2(v: TypedefAxisView, p: Page) -> Page {
    typedef_axis_pages_3(v, typedef_axis_page_2(v, p))
}

/// The parameters of `EXTENDED_LIMITS`.
#[verifier::opaque]
pub open spec fn typedef_axis_part_3(v: TypedefAxisView) -> Seq<Tok> {
    if v.rec.extended_limits is Some {
        seq![
            plain("EXTENDED_LIMITS"@),
            plain(v.rec.extended_limits->Some_0.0.text),
            plain(v.rec.extended_limits->Some_0.1.text)
        ]
    } else { Seq::<Tok>::empty() }
}

/// The parameters from `EXTENDED_LIMITS` on.
pub open spec fn typedef_axis_from_3(v: TypedefAxisView) -> Seq<Tok> {
    typedef_axis_part_3(v) + typedef_axis_from_4(v)
}

/// What is written for `EXTENDED_LIMITS`.
#[verifier::opaque]
pub open spec fn typedef_axis_page_3(v: TypedefAxisView, p: Page) -> Page {
    match v.rec.extended_limits {
        Some((lo, hi)) => p.line("EXTENDED_LIMITS "@ + lo.text + " "@ + hi.text),
        None => p
    }
}

/// What is written from `EXTENDED_LIMITS` on.
pub open spec fn typedef_axis_pages_3(v: TypedefAxisView, p: Page) -> Page {
    typedef_axis_pages_4(v, typedef_axis_page_3(v, p))
}

/// The parameters of `STEP_SIZE`.
#[verifier::opaque]
pub open spec fn typedef_axis_part_4(v: TypedefAxisView) -> Seq<Tok> {
    if v.rec.step_size is Some {
        seq![plain("STEP_SIZE"@), plain(v.rec.step_size->Some_0.text)]
    } else { Seq::<Tok>::empty() }
}

/// The parameters from `STEP_SIZE` on.
pub open spec fn typedef_axis_from_4(v: TypedefAxisView) -> Seq<Tok> {
    typedef_axis_part_4(v) + typedef_axis_from_5(v)
}

/// What is written for `STEP_SIZE`.
#[verifier::opaque]
pub open spec fn typedef_axis_page_4(v: TypedefAxisView, p: Page) -> Page {
    match v.rec.step_size { Some(x) => p.word("STEP_SIZE"@, x.text), None => p }
}

/// What is written from `STEP_SIZE` on.
pub open spec fn typedef_axis_pages_4(v: TypedefAxisView, p: Page) -> Page {
    typedef_axis_pages_5(v, typedef_axis_page_4(v, p))
}

/// The parameters of `MONOTONY`.
#[verifier::opaque]
pub open spec fn typedef_axis_part_5(v: TypedefAxisView) -> Seq<Tok> {
    if v.monotony.word() is Some {
        seq![plain("MONOTONY"@), plain(v.monotony.word()->Some_0)]
    } else { Seq::<Tok>::empty() }
}

/// The parameters from `MONOTONY` on.
pub open spec fn typedef_axis_from_5(v: TypedefAxisView) -> Seq<Tok> {
    typedef_axis_part_5(v) + typedef_axis_from_6(v)
}

/// What is written for `MONOTONY`.
#[verifier::opaque]
pub open spec fn typedef_axis_page_5(v: TypedefAxisView, p: Page) -> Page {
    match v.monotony.word() { Some(kw) => p.word("MONOTONY"@, kw), None => p }
}

/// What is written from `MONOTONY` on.
pub open spec fn typedef_axis_pages_5(v: TypedefAxisView, p: Page) -> Page {
    typedef_axis_pages_6(v, typedef_axis_page_5(v, p))
}

/// The parameters of `DEPOSIT`.
#[verifier::opaque]
pub open spec fn typedef_axis_part_6(v: TypedefAxisView) -> Seq<Tok> {
    if v.deposit.word() is Some {
        seq![plain("DEPOSIT"@), plain(v.deposit.word()->Some_0)]
    } else { Seq::<Tok>::empty() }
}

/// The parameters from `DEPOSIT` on.
pub open spec fn typedef_axis_from_6(v: TypedefAxisView) -> Seq<Tok> {
    typedef_axis_part_6(v) + typedef_axis_from_7(v)
}

/// What is written for `DEPOSIT`.
#[verifier::opaque]
pub open spec fn typedef_axis_page_6(v: TypedefAxisView, p: Page) -> Page {
    match v.deposit.word() { Some(kw) => p.word("DEPOSIT"@, kw), None => p }
}

/// What is written from `DEPOSIT` on.
pub open spec fn typedef_axis_pages_6(v: TypedefAxisView, p: Page) -> Page {
    typedef_axis_pages_7(v, typedef_axis_page_6(v, p))
}

/// The parameters behind the last keyword.
pub open spec fn typedef_axis_from_7(v: TypedefAxisView) -> Seq<Tok> {
    Seq::empty()
}

/// What is written behind the last keyword.
pub open spec fn typedef_axis_pages_7(v: TypedefAxisView, p: Page) -> Page {
    p
}

proof fn lemma_typedef_axis_part_6(v: TypedefAxisView, p: Page, f: Setting)
    requires
        TypedefAxis::fits(v, f),
        indents_by_blanks(p),
    ensures
        shows(p, typedef_axis_page_6(v, p), typedef_axis_part_6(v)),
        typedef_axis_page_6(v, p).depth == p.depth,
        typedef_axis_page_6(v, p).style == p.style,
        all_params(typedef_axis_part_6(v)),
{
    reveal(typedef_axis_page_6);
    reveal(typedef_axis_part_6);
    if v.deposit.word() is Some {
        reveal_strlit("DEPOSIT");
        assert(is_keyword("DEPOSIT"@));
        lemma_keyword_param("DEPOSIT"@);
        v.deposit.lemma_word();
        lemma_shows_word(p, "DEPOSIT"@, v.deposit.word()->Some_0);
        reveal_strlit("DEPOSIT");
        assert(is_keyword("DEPOSIT"@));
        lemma_keyword_param("DEPOSIT"@);
        v.deposit.lemma_word();
        assert(all_params(seq![plain("DEPOSIT"@), plain(v.deposit.word()->Some_0)]));
        
    } else {
        lemma_shows_nothing(p);
    }
}

proof fn lemma_typedef_axis_part_5(v: TypedefAxisView, p: Page, f: Setting)
    requires
        TypedefAxis::fits(v, f),
        indents_by_blanks(p),
    ensures
        shows(p, typedef_axis_page_5(v, p), typedef_axis_part_5(v)),
        typedef_axis_page_5(v, p).depth == p.depth,
        typedef_axis_page_5(v, p).style == p.style,
        all_params(typedef_axis_part_5(v)),
{
    reveal(typedef_axis_page_5);
    reveal(typedef_axis_part_5);
    if v.monotony.word() is Some {
        reveal_strlit("MONOTONY");
        assert(is_keyword("MONOTONY"@));
        lemma_keyword_param("MONOTONY"@);
        v.monotony.lemma_word();
        lemma_shows_word(p, "MONOTONY"@, v.monotony.word()->Some_0);
        reveal_strlit("MONOTONY");
        assert(is_keyword("MONOTONY"@));
        lemma_keyword_param("MONOTONY"@);
        v.monotony.lemma_word();
        assert(all_params(seq![plain("MONOTONY"@), plain(v.monotony.word()->Some_0)]));
        
    } else {
        lemma_shows_nothing(p);
    }
}

proof fn lemma_typedef_axis_part_4(v: TypedefAxisView, p: Page, f: Setting)
    requires
        TypedefAxis::fits(v, f),
        indents_by_blanks(p),
    ensures
        shows(p, typedef_axis_page_4(v, p), typedef_axis_part_4(v)),
        typedef_axis_page_4(v, p).depth == p.depth,
        typedef_axis_page_4(v, p).style == p.style,
        all_params(typedef_axis_part_4(v)),
{
    reveal(typedef_axis_page_4);
    reveal(typedef_axis_part_4);
    if v.rec.step_size is Some {
        reveal_strlit("STEP_SIZE");
        assert(is_keyword("STEP_SIZE"@));
        lemma_keyword_param("STEP_SIZE"@);
        lemma_shows_word(p, "STEP_SIZE"@, v.rec.step_size->Some_0.text);
        reveal_strlit("STEP_SIZE");
        assert(is_keyword("STEP_SIZE"@));
        lemma_keyword_param("STEP_SIZE"@);
        assert(all_params(seq![plain("STEP_SIZE"@), plain(v.rec.step_size->Some_0.text)]));
        
    } else {
        lemma_shows_nothing(p);
    }
}

proof fn lemma_typedef_axis_part_3(v: TypedefAxisView, p: Page, f: Setting)
    requires
        TypedefAxis::fits(v, f),
        indents_by_blanks(p),
    ensures
        shows(p, typedef_axis_page_3(v, p), typedef_axis_part_3(v)),
        typedef_axis_page_3(v, p).depth == p.depth,
        typedef_axis_page_3(v, p).style == p.style,
        all_params(typedef_axis_part_3(v)),
{
    reveal(typedef_axis_page_3);
    reveal(typedef_axis_part_3);
    if v.rec.extended_limits is Some {
        reveal_strlit("EXTENDED_LIMITS");
        assert(is_keyword("EXTENDED_LIMITS"@));
        lemma_keyword_param("EXTENDED_LIMITS"@);
        let (lo, hi) = v.rec.extended_limits->Some_0;
        reveal_strlit("EXTENDED_LIMITS ");
        reveal_strlit("EXTENDED_LIMITS");
        reveal_strlit(" ");
        assert(
            "EXTENDED_LIMITS "@ + lo.text + " "@ + hi.text =~= "EXTENDED_LIMITS"@ + " "@ + (lo.text + " "@ + hi.text)
        );
        lemma_spells_pair(lo.text, hi.text);
        lemma_shows_tagged(p, "EXTENDED_LIMITS"@, lo.text + " "@ + hi.text, seq![plain(lo.text), plain(hi.text)]);
        assert(
            seq![plain("EXTENDED_LIMITS"@)] + seq![plain(lo.text), plain(hi.text)] =~= seq![
                plain("EXTENDED_LIMITS"@),
                plain(lo.text),
                plain(hi.text)
            ]
        );
        reveal_strlit("EXTENDED_LIMITS");
        assert(is_keyword("EXTENDED_LIMITS"@));
        lemma_keyword_param("EXTENDED_LIMITS"@);
        assert(
            all_params(
                seq![
                    plain("EXTENDED_LIMITS"@),
                    plain(v.rec.extended_limits->Some_0.0.text),
                    plain(v.rec.extended_limits->Some_0.1.text)
                ]
            )
        );
        
    } else {
        lemma_shows_nothing(p);
    }
}

proof fn lemma_typedef_axis_part_2(v: TypedefAxisView, p: Page, f: Setting)
    requires
        TypedefAxis::fits(v, f),
        indents_by_blanks(p),
    ensures
        shows(p, typedef_axis_page_2(v, p), typedef_axis_part_2(v)),
        typedef_axis_page_2(v, p).depth == p.depth,
        typedef_axis_page_2(v, p).style == p.style,
        all_params(typedef_axis_part_2(v)),
{
    reveal(typedef_axis_page_2);
    reveal(typedef_axis_part_2);
    if v.conv.byte_order.word() is Some {
        reveal_strlit("BYTE_ORDER");
        assert(is_keyword("BYTE_ORDER"@));
        lemma_keyword_param("BYTE_ORDER"@);
        v.conv.byte_order.lemma_word();
        lemma_shows_word(p, "BYTE_ORDER"@, v.conv.byte_order.word()->Some_0);
        reveal_strlit("BYTE_ORDER");
        assert(is_keyword("BYTE_ORDER"@));
        lemma_keyword_param("BYTE_ORDER"@);
        v.conv.byte_order.lemma_word();
        assert(all_params(seq![plain("BYTE_ORDER"@), plain(v.conv.byte_order.word()->Some_0)]));
        
    } else {
        lemma_shows_nothing(p);
    }
}

proof fn lemma_typedef_axis_part_1(v: TypedefAxisView, p: Page, f: Setting)
    requires
        TypedefAxis::fits(v, f),
        indents_by_blanks(p),
    ensures
        shows(p, typedef_axis_page_1(v, p), typedef_axis_part_1(v)),
        typedef_axis_page_1(v, p).depth == p.depth,
        typedef_axis_page_1(v, p).style == p.style,
        all_params(typedef_axis_part_1(v)),
{
    reveal(typedef_axis_page_1);
    reveal(typedef_axis_part_1);
    if v.conv.phys_unit is Some {
        reveal_strlit("PHYS_UNIT");
        assert(is_keyword("PHYS_UNIT"@));
        lemma_keyword_param("PHYS_UNIT"@);
        lemma_shows_quote(p, "PHYS_UNIT"@, v.conv.phys_unit->Some_0);
        reveal_strlit("PHYS_UNIT");
        assert(is_keyword("PHYS_UNIT"@));
        lemma_keyword_param("PHYS_UNIT"@);
        lemma_string_param(v.conv.phys_unit->Some_0);
        assert(all_params(seq![plain("PHYS_UNIT"@), string(escaped(v.conv.phys_unit->Some_0))]));
        
    } else {
        lemma_shows_nothing(p);
    }
}

proof fn lemma_typedef_axis_part_0(v: TypedefAxisView, p: Page, f: Setting)
    requires
        TypedefAxis::fits(v, f),
        indents_by_blanks(p),
    ensures
        shows(p, typedef_axis_page_0(v, p), typedef_axis_part_0(v)),
        typedef_axis_page_0(v, p).depth == p.depth,
        typedef_axis_page_0(v, p).style == p.style,
        all_params(typedef_axis_part_0(v)),
{
    reveal(typedef_axis_page_0);
    reveal(typedef_axis_part_0);
    if v.conv.format is Some {
        reveal_strlit("FORMAT");
        assert(is_keyword("FORMAT"@));
        lemma_keyword_param("FORMAT"@);
        lemma_shows_quote(p, "FORMAT"@, v.conv.format->Some_0);
        reveal_strlit("FORMAT");
        assert(is_keyword("FORMAT"@));
        lemma_keyword_param("FORMAT"@);
        lemma_string_param(v.conv.format->Some_0);
        assert(all_params(seq![plain("FORMAT"@), string(escaped(v.conv.format->Some_0))]));
        
    } else {
        lemma_shows_nothing(p);
    }
}

proof fn lemma_typedef_axis_shown_7(v: TypedefAxisView, p: Page, f: Setting)
    requires
        TypedefAxis::fits(v, f),
        indents_by_blanks(p),
    ensures
        shows(p, typedef_axis_pages_7(v, p), typedef_axis_from_7(v)),
        typedef_axis_pages_7(v, p).depth == p.depth,
        typedef_axis_pages_7(v, p).style == p.style,
        all_params(typedef_axis_from_7(v)),
{
    lemma_shows_nothing(p);
}

proof fn lemma_typedef_axis_shown_6(v: TypedefAxisView, p: Page, f: Setting)
    requires
        TypedefAxis::fits(v, f),
        indents_by_blanks(p),
    ensures
        shows(p, typedef_axis_pages_6(v, p), typedef_axis_from_6(v)),
        typedef_axis_pages_6(v, p).depth == p.depth,
        typedef_axis_pages_6(v, p).style == p.style,
        all_params(typedef_axis_from_6(v)),
{
    lemma_typedef_axis_part_6(v, p, f);
    let q = typedef_axis_page_6(v, p);
    lemma_typedef_axis_shown_7(v, q, f);
    lemma_shows_join(p, q, typedef_axis_pages_7(v, q), typedef_axis_part_6(v), typedef_axis_from_7(v));
    lemma_all_params_join(typedef_axis_part_6(v), typedef_axis_from_7(v));
}

proof fn lemma_typedef_axis_shown_5(v: TypedefAxisView, p: Page, f: Setting)
    requires
        TypedefAxis::fits(v, f),
        indents_by_blanks(p),
    ensures
        shows(p, typedef_axis_pages_5(v, p), typedef_axis_from_5(v)),
        typedef_axis_pages_5(v, p).depth == p.depth,
        typedef_axis_pages_5(v, p).style == p.style,
        all_params(typedef_axis_from_5(v)),
{
    lemma_typedef_axis_part_5(v, p, f);
    let q = typedef_axis_page_5(v, p);
    lemma_typedef_axis_shown_6(v, q, f);
    lemma_shows_join(p, q, typedef_axis_pages_6(v, q), typedef_axis_part_5(v), typedef_axis_from_6(v));
    lemma_all_params_join(typedef_axis_part_5(v), typedef_axis_from_6(v));
}

proof fn lemma_typedef_axis_shown_4(v: TypedefAxisView, p: Page, f: Setting)
    requires
        TypedefAxis::fits(v, f),
        indents_by_blanks(p),
    ensures
        shows(p, typedef_axis_pages_4(v, p), typedef_axis_from_4(v)),
        typedef_axis_pages_4(v, p).depth == p.depth,
        typedef_axis_pages_4(v, p).style == p.style,
        all_params(typedef_axis_from_4(v)),
{
    lemma_typedef_axis_part_4(v, p, f);
    let q = typedef_axis_page_4(v, p);
    lemma_typedef_axis_shown_5(v, q, f);
    lemma_shows_join(p, q, typedef_axis_pages_5(v, q), typedef_axis_part_4(v), typedef_axis_from_5(v));
    lemma_all_params_join(typedef_axis_part_4(v), typedef_axis_from_5(v));
}

proof fn lemma_typedef_axis_shown_3(v: TypedefAxisView, p: Page, f: Setting)
    requires
        TypedefAxis::fits(v, f),
        indents_by_blanks(p),
    ensures
        shows(p, typedef_axis_pages_3(v, p), typedef_axis_from_3(v)),
        typedef_axis_pages_3(v, p).depth == p.depth,
        typedef_axis_pages_3(v, p).style == p.style,
        all_params(typedef_axis_from_3(v)),
{
    lemma_typedef_axis_part_3(v, p, f);
    let q = typedef_axis_page_3(v, p);
    lemma_typedef_axis_shown_4(v, q, f);
    lemma_shows_join(p, q, typedef_axis_pages_4(v, q), typedef_axis_part_3(v), typedef_axis_from_4(v));
    lemma_all_params_join(typedef_axis_part_3(v), typedef_axis_from_4(v));
}

proof fn lemma_typedef_axis_shown_2(v: TypedefAxisView, p: Page, f: Setting)
    requires
        TypedefAxis::fits(v, f),
        indents_by_blanks(p),
    ensures
        shows(p, typedef_axis_pages_2(v, p), typedef_axis_from_2(v)),
        typedef_axis_pages_2(v, p).depth == p.depth,
        typedef_axis_pages_2(v, p).style == p.style,
        all_params(typedef_axis_from_2(v)),
{
    lemma_typedef_axis_part_2(v, p, f);
    let q = typedef_axis_page_2(v, p);
    lemma_typedef_axis_shown_3(v, q, f);
    lemma_shows_join(p, q, typedef_axis_pages_3(v, q), typedef_axis_part_2(v), typedef_axis_from_3(v));
    lemma_all_params_join(typedef_axis_part_2(v), typedef_axis_from_3(v));
}

proof fn lemma_typedef_axis_shown_1(v: TypedefAxisView, p: Page, f: Setting)
    requires
        TypedefAxis::fits(v, f),
        indents_by_blanks(p),
    ensures
        shows(p, typedef_axis_pages_1(v, p), typedef_axis_from_1(v)),
        typedef_axis_pages_1(v, p).depth == p.depth,
        typedef_axis_pages_1(v, p).style == p.style,
        all_params(typedef_axis_from_1(v)),
{
    lemma_typedef_axis_part_1(v, p, f);
    let q = typedef_axis_page_1(v, p);
    lemma_typedef_axis_shown_2(v, q, f);
    lemma_shows_join(p, q, typedef_axis_pages_2(v, q), typedef_axis_part_1(v), typedef_axis_from_2(v));
    lemma_all_params_join(typedef_axis_part_1(v), typedef_axis_from_2(v));
}

proof fn lemma_typedef_axis_shown_0(v: TypedefAxisView, p: Page, f: Setting)
    requires
        TypedefAxis::fits(v, f),
        indents_by_blanks(p),
    ensures
        shows(p, typedef_axis_pages_0(v, p), typedef_axis_from_0(v)),
        typedef_axis_pages_0(v, p).depth == p.depth,
        typedef_axis_pages_0(v, p).style == p.style,
        all_params(typedef_axis_from_0(v)),
{
    lemma_typedef_axis_part_0(v, p, f);
    let q = typedef_axis_page_0(v, p);
    lemma_typedef_axis_shown_1(v, q, f);
    lemma_shows_join(p, q, typedef_axis_pages_1(v, q), typedef_axis_part_0(v), typedef_axis_from_1(v));
    lemma_all_params_join(typedef_axis_part_0(v), typedef_axis_from_1(v));
}

/// What is written for the parameters at the start.
#[verifier::opaque]
pub open spec fn typedef_axis_opening(v: TypedefAxisView, p0: Page) -> Page {
    let p1 = match v.named.description { Some(x) => p0.quote_line(x), None => p0.quote_line(""@) };
    let p2 = match v.input_quantity { Some(x) => p1.line(x), None => p1 };
    let p3 = if v.rec.record_layout.len() > 0 { p2.line(v.rec.record_layout) } else { p2 };
    let p4 = p3.line(v.rec.max_diff.text);
    let p5 = if v.conv.conversion.len() > 0 { p4.line(v.conv.conversion) } else { p4 };
    let p6 = p5.line(dec_int(v.max_axis_points as int));
    let p7 = p6.line(v.conv.lower_limit.text + " "@ + v.conv.upper_limit.text);
    p7
}

proof fn lemma_typedef_axis_opening(v: TypedefAxisView, p0: Page, f: Setting)
    requires
        TypedefAxis::fits(v, f),
        indents_by_blanks(p0),
    ensures
        shows(
            p0,
            typedef_axis_opening(v, p0),
            seq![
                string(escaped(v.named.description->Some_0)),
                plain(v.input_quantity->Some_0),
                plain(v.rec.record_layout),
                plain(v.rec.max_diff.text),
                plain(v.conv.conversion),
                plain(dec_int(v.max_axis_points as int)),
                plain(v.conv.lower_limit.text),
                plain(v.conv.upper_limit.text)
            ]
        ),
        typedef_axis_opening(v, p0).depth == p0.depth,
        typedef_axis_opening(v, p0).style == p0.style,
        all_params(typedef_axis_head(v)),
{
    reveal(typedef_axis_opening);
    lemma_shows_nothing(p0);
    let x0 = Seq::<Tok>::empty();
    let p1 = match v.named.description { Some(x) => p0.quote_line(x), None => p0.quote_line(""@) };
    assert(
        shows(
            p0,
            p1,
            seq![string(escaped(v.named.description->Some_0))]
        ) && p1.depth == p0.depth && p1.style == p0.style
    ) by {
        let p = p0;
        lemma_shows_quote_line(p, v.named.description->Some_0);
    }
    lemma_shows_join(p0, p0, p1, x0, seq![string(escaped(v.named.description->Some_0))]);
    let x1 = x0 + seq![string(escaped(v.named.description->Some_0))];
    let p2 = match v.input_quantity { Some(x) => p1.line(x), None => p1 };
    assert(
        shows(
            p1,
            p2,
            seq![plain(v.input_quantity->Some_0)]
        ) && p2.depth == p1.depth && p2.style == p1.style
    ) by {
        let p = p1;
        lemma_shows_word_line(p, v.input_quantity->Some_0);
    }
    lemma_shows_join(p0, p1, p2, x1, seq![plain(v.input_quantity->Some_0)]);
    let x2 = x1 + seq![plain(v.input_quantity->Some_0)];
    let p3 = if v.rec.record_layout.len() > 0 { p2.line(v.rec.record_layout) } else { p2 };
    assert(shows(p2, p3, seq![plain(v.rec.record_layout)]) && p3.depth == p2.depth && p3.style == p2.style) by {
        let p = p2;
        lemma_shows_word_line(p, v.rec.record_layout);
    }
    lemma_shows_join(p0, p2, p3, x2, seq![plain(v.rec.record_layout)]);
    let x3 = x2 + seq![plain(v.rec.record_layout)];
    let p4 = p3.line(v.rec.max_diff.text);
    assert(shows(p3, p4, seq![plain(v.rec.max_diff.text)]) && p4.depth == p3.depth && p4.style == p3.style) by {
        let p = p3;
        lemma_shows_word_line(p, v.rec.max_diff.text);
    }
    lemma_shows_join(p0, p3, p4, x3, seq![plain(v.rec.max_diff.text)]);
    let x4 = x3 + seq![plain(v.rec.max_diff.text)];
    let p5 = if v.conv.conversion.len() > 0 { p4.line(v.conv.conversion) } else { p4 };
    assert(shows(p4, p5, seq![plain(v.conv.conversion)]) && p5.depth == p4.depth && p5.style == p4.style) by {
        let p = p4;
        lemma_shows_word_line(p, v.conv.conversion);
    }
    lemma_shows_join(p0, p4, p5, x4, seq![plain(v.conv.conversion)]);
    let x5 = x4 + seq![plain(v.conv.conversion)];
    let p6 = p5.line(dec_int(v.max_axis_points as int));
    assert(
        shows(
            p5,
            p6,
            seq![plain(dec_int(v.max_axis_points as int))]
        ) && p6.depth == p5.depth && p6.style == p5.style
    ) by {
        let p = p5;
        lemma_dec_param(v.max_axis_points as int);
        lemma_shows_word_line(p, dec_int(v.max_axis_points as int));
    }
    lemma_shows_join(p0, p5, p6, x5, seq![plain(dec_int(v.max_axis_points as int))]);
    let x6 = x5 + seq![plain(dec_int(v.max_axis_points as int))];
    let p7 = p6.line(v.conv.lower_limit.text + " "@ + v.conv.upper_limit.text);
    assert(
        shows(
            p6,
            p7,
            seq![plain(v.conv.lower_limit.text), plain(v.conv.upper_limit.text)]
        ) && p7.depth == p6.depth && p7.style == p6.style
    ) by {
        let p = p6;
        lemma_spells_pair(v.conv.lower_limit.text, v.conv.upper_limit.text);
        lemma_shows_line(
            p,
            v.conv.lower_limit.text + " "@ + v.conv.upper_limit.text,
            seq![plain(v.conv.lower_limit.text), plain(v.conv.upper_limit.text)]
        );
    }
    lemma_shows_join(p0, p6, p7, x6, seq![plain(v.conv.lower_limit.text), plain(v.conv.upper_limit.text)]);
    let x7 = x6 + seq![plain(v.conv.lower_limit.text), plain(v.conv.upper_limit.text)];
    assert(
        x7 =~= seq![
            string(escaped(v.named.description->Some_0)),
            plain(v.input_quantity->Some_0),
            plain(v.rec.record_layout),
            plain(v.rec.max_diff.text),
            plain(v.conv.conversion),
            plain(dec_int(v.max_axis_points as int)),
            plain(v.conv.lower_limit.text),
            plain(v.conv.upper_limit.text)
        ]
    );
    lemma_string_param(v.named.description->Some_0);
    lemma_dec_param(v.max_axis_points as int);
}

proof fn lemma_typedef_axis_body(v: TypedefAxisView, p: Page, f: Setting)
    requires
        TypedefAxis::fits(v, f),
    ensures
        TypedefAxis::body(v, p) == Ok::<Page, Stopped>(typedef_axis_pages_0(v, typedef_axis_opening(v, p))),
{
    reveal(typedef_axis_opening);
    let q0 = typedef_axis_opening(v, p);
    let q1 = match v.conv.format { Some(x) if x.len() > 0 => q0.quote("FORMAT"@, x), _ => q0 };
    assert(q1 == typedef_axis_page_0(v, q0)) by {
        reveal(typedef_axis_page_0);
    }
    let q2 = match v.conv.phys_unit { Some(x) if x.len() > 0 => q1.quote("PHYS_UNIT"@, x), _ => q1 };
    assert(q2 == typedef_axis_page_1(v, q1)) by {
        reveal(typedef_axis_page_1);
    }
    let q3 = match v.conv.byte_order.word() { Some(kw) => q2.word("BYTE_ORDER"@, kw), None => q2 };
    assert(q3 == typedef_axis_page_2(v, q2)) by {
        reveal(typedef_axis_page_2);
    }
    let q4 = match v.rec.extended_limits {
        Some((lo, hi)) => q3.line("EXTENDED_LIMITS "@ + lo.text + " "@ + hi.text),
        None => q3
    };
    assert(q4 == typedef_axis_page_3(v, q3)) by {
        reveal(typedef_axis_page_3);
    }
    let q5 = match v.rec.step_size { Some(x) => q4.word("STEP_SIZE"@, x.text), None => q4 };
    assert(q5 == typedef_axis_page_4(v, q4)) by {
        reveal(typedef_axis_page_4);
    }
    let q6 = match v.monotony.word() { Some(kw) => q5.word("MONOTONY"@, kw), None => q5 };
    assert(q6 == typedef_axis_page_5(v, q5)) by {
        reveal(typedef_axis_page_5);
    }
    let q7 = match v.deposit.word() { Some(kw) => q6.word("DEPOSIT"@, kw), None => q6 };
    assert(q7 == typedef_axis_page_6(v, q6)) by {
        reveal(typedef_axis_page_6);
    }
}

proof fn lemma_typedef_axis_head(v: TypedefAxisView, c: Cur, f: Setting)
    requires
        TypedefAxis::fits(v, f),
        tokens_at(c.toks, c.pos, typedef_axis_head(v)),
        toks_numbered(c.toks, f),
    ensures
        TypedefAxis::head(c) == Ok::<(TypedefAxisView, Cur), Failure>(
            (
                TypedefAxisView {
                    conv: ConversionRefFieldsView {
                        format: None,
                        phys_unit: None,
                        byte_order: ByteOrder::NotSet,
                        ..v.conv
                    },
                    rec: RecordLayoutRefFieldsView {
                        extended_limits: None,
                        step_size: None,
                        ..v.rec
                    },
                    monotony: MonotonyType::NotSet,
                    deposit: DepositType::NotSet,
                    ..v
                },
                Cur { pos: c.pos + 9, ..c }
            ),
        ),
{
    law_unescaped_of_escaped(v.named.description->Some_0);
    law_integer_of_dec(v.max_axis_points as int);
    assert(bare(c.toks[c.pos + 0]) == typedef_axis_head(v)[0]);
    assert(bare(c.toks[c.pos + 1]) == typedef_axis_head(v)[1]);
    assert(bare(c.toks[c.pos + 2]) == typedef_axis_head(v)[2]);
    assert(bare(c.toks[c.pos + 3]) == typedef_axis_head(v)[3]);
    assert(bare(c.toks[c.pos + 4]) == typedef_axis_head(v)[4]);
    assert(bare(c.toks[c.pos + 5]) == typedef_axis_head(v)[5]);
    assert(bare(c.toks[c.pos + 6]) == typedef_axis_head(v)[6]);
    assert(bare(c.toks[c.pos + 7]) == typedef_axis_head(v)[7]);
    assert(bare(c.toks[c.pos + 8]) == typedef_axis_head(v)[8]);
}

proof fn lemma_typedef_axis_step_0(w: TypedefAxisView, v: TypedefAxisView, c: Cur, f: Setting)
    requires
        TypedefAxis::fits(v, f),
        v.conv.format is Some,
        tokens_at(c.toks, c.pos, seq![plain("FORMAT"@), string(escaped(v.conv.format->Some_0))]),
        toks_numbered(c.toks, f),
    ensures
        TypedefAxis::option(w, c) == Ok::<(TypedefAxisView, Cur), Failure>(
            (
                TypedefAxisView {
                    conv: ConversionRefFieldsView { format: v.conv.format, ..w.conv },
                    ..w
                },
                Cur { pos: c.pos + 2, ..c }
            ),
        ),
{
    reveal_strlit("FORMAT");
    reveal_strlit("PHYS_UNIT");
    lemma_differ("FORMAT"@, "PHYS_UNIT"@, 0);
    reveal_strlit("STEP_SIZE");
    lemma_differ("FORMAT"@, "STEP_SIZE"@, 0);
    lemma_same("FORMAT"@);
    assert(bare(c.toks[c.pos + 0]) == (seq![plain("FORMAT"@), string(escaped(v.conv.format->Some_0))])[0]);
    assert(bare(c.toks[c.pos + 1]) == (seq![plain("FORMAT"@), string(escaped(v.conv.format->Some_0))])[1]);
    law_unescaped_of_escaped(v.conv.format->Some_0);
}

proof fn lemma_typedef_axis_step_1(w: TypedefAxisView, v: TypedefAxisView, c: Cur, f: Setting)
    requires
        TypedefAxis::fits(v, f),
        v.conv.phys_unit is Some,
        tokens_at(c.toks, c.pos, seq![plain("PHYS_UNIT"@), string(escaped(v.conv.phys_unit->Some_0))]),
        toks_numbered(c.toks, f),
    ensures
        TypedefAxis::option(w, c) == Ok::<(TypedefAxisView, Cur), Failure>(
            (
                TypedefAxisView {
                    conv: ConversionRefFieldsView { phys_unit: v.conv.phys_unit, ..w.conv },
                    ..w
                },
                Cur { pos: c.pos + 2, ..c }
            ),
        ),
{
    reveal_strlit("PHYS_UNIT");
    lemma_same("PHYS_UNIT"@);
    assert(bare(c.toks[c.pos + 0]) == (seq![plain("PHYS_UNIT"@), string(escaped(v.conv.phys_unit->Some_0))])[0]);
    assert(bare(c.toks[c.pos + 1]) == (seq![plain("PHYS_UNIT"@), string(escaped(v.conv.phys_unit->Some_0))])[1]);
    law_unescaped_of_escaped(v.conv.phys_unit->Some_0);
}

proof fn lemma_typedef_axis_step_2(w: TypedefAxisView, v: TypedefAxisView, c: Cur, f: Setting)
    requires
        TypedefAxis::fits(v, f),
        v.conv.byte_order.word() is Some,
        tokens_at(c.toks, c.pos, seq![plain("BYTE_ORDER"@), plain(v.conv.byte_order.word()->Some_0)]),
        toks_numbered(c.toks, f),
    ensures
        TypedefAxis::option(w, c) == Ok::<(TypedefAxisView, Cur), Failure>(
            (
                TypedefAxisView {
                    conv: ConversionRefFieldsView { byte_order: v.conv.byte_order, ..w.conv },
                    ..w
                },
                Cur { pos: c.pos + 2, ..c }
            ),
        ),
{
    reveal_strlit("BYTE_ORDER");
    reveal_strlit("PHYS_UNIT");
    lemma_differ("BYTE_ORDER"@, "PHYS_UNIT"@, 0);
    reveal_strlit("STEP_SIZE");
    lemma_differ("BYTE_ORDER"@, "STEP_SIZE"@, 0);
    reveal_strlit("FORMAT");
    lemma_differ("BYTE_ORDER"@, "FORMAT"@, 0);
    reveal_strlit("DEPOSIT");
    lemma_differ("BYTE_ORDER"@, "DEPOSIT"@, 0);
    reveal_strlit("MONOTONY");
    lemma_differ("BYTE_ORDER"@, "MONOTONY"@, 0);
    lemma_same("BYTE_ORDER"@);
    assert(bare(c.toks[c.pos + 0]) == (seq![plain("BYTE_ORDER"@), plain(v.conv.byte_order.word()->Some_0)])[0]);
    assert(bare(c.toks[c.pos + 1]) == (seq![plain("BYTE_ORDER"@), plain(v.conv.byte_order.word()->Some_0)])[1]);
    v.conv.byte_order.law_named_of_word();
    v.conv.byte_order.lemma_word();
}

proof fn lemma_typedef_axis_step_3(w: TypedefAxisView, v: TypedefAxisView, c: Cur, f: Setting)
    requires
        TypedefAxis::fits(v, f),
        v.rec.extended_limits is Some,
        tokens_at(
            c.toks,
            c.pos,
            seq![
                plain("EXTENDED_LIMITS"@),
                plain(v.rec.extended_limits->Some_0.0.text),
                plain(v.rec.extended_limits->Some_0.1.text)
            ]
        ),
        toks_numbered(c.toks, f),
    ensures
        TypedefAxis::option(w, c) == Ok::<(TypedefAxisView, Cur), Failure>(
            (
                TypedefAxisView {
                    rec: RecordLayoutRefFieldsView {
                        extended_limits: v.rec.extended_limits,
                        ..w.rec
                    },
                    ..w
                },
                Cur { pos: c.pos + 3, ..c }
            ),
        ),
{
    reveal_strlit("EXTENDED_LIMITS");
    reveal_strlit("PHYS_UNIT");
    lemma_differ("EXTENDED_LIMITS"@, "PHYS_UNIT"@, 0);
    reveal_strlit("STEP_SIZE");
    lemma_differ("EXTENDED_LIMITS"@, "STEP_SIZE"@, 0);
    reveal_strlit("FORMAT");
    lemma_differ("EXTENDED_LIMITS"@, "FORMAT"@, 0);
    reveal_strlit("DEPOSIT");
    lemma_differ("EXTENDED_LIMITS"@, "DEPOSIT"@, 0);
    reveal_strlit("MONOTONY");
    lemma_differ("EXTENDED_LIMITS"@, "MONOTONY"@, 0);
    reveal_strlit("BYTE_ORDER");
    lemma_differ("EXTENDED_LIMITS"@, "BYTE_ORDER"@, 0);
    lemma_same("EXTENDED_LIMITS"@);
    assert(
        bare(c.toks[c.pos + 0]) == (
            seq![
                plain("EXTENDED_LIMITS"@),
                plain(v.rec.extended_limits->Some_0.0.text),
                plain(v.rec.extended_limits->Some_0.1.text)
            ]
        )[0]
    );
    assert(
        bare(c.toks[c.pos + 1]) == (
            seq![
                plain("EXTENDED_LIMITS"@),
                plain(v.rec.extended_limits->Some_0.0.text),
                plain(v.rec.extended_limits->Some_0.1.text)
            ]
        )[1]
    );
    assert(
        bare(c.toks[c.pos + 2]) == (
            seq![
                plain("EXTENDED_LIMITS"@),
                plain(v.rec.extended_limits->Some_0.0.text),
                plain(v.rec.extended_limits->Some_0.1.text)
            ]
        )[2]
    );
    
}

proof fn lemma_typedef_axis_step_4(w: TypedefAxisView, v: TypedefAxisView, c: Cur, f: Setting)
    requires
        TypedefAxis::fits(v, f),
        v.rec.step_size is Some,
        tokens_at(c.toks, c.pos, seq![plain("STEP_SIZE"@), plain(v.rec.step_size->Some_0.text)]),
        toks_numbered(c.toks, f),
    ensures
        TypedefAxis::option(w, c) == Ok::<(TypedefAxisView, Cur), Failure>(
            (
                TypedefAxisView {
                    rec: RecordLayoutRefFieldsView { step_size: v.rec.step_size, ..w.rec },
                    ..w
                },
                Cur { pos: c.pos + 2, ..c }
            ),
        ),
{
    reveal_strlit("STEP_SIZE");
    reveal_strlit("PHYS_UNIT");
    lemma_differ("STEP_SIZE"@, "PHYS_UNIT"@, 0);
    lemma_same("STEP_SIZE"@);
    assert(bare(c.toks[c.pos + 0]) == (seq![plain("STEP_SIZE"@), plain(v.rec.step_size->Some_0.text)])[0]);
    assert(bare(c.toks[c.pos + 1]) == (seq![plain("STEP_SIZE"@), plain(v.rec.step_size->Some_0.text)])[1]);
    
}

proof fn lemma_typedef_axis_step_5(w: TypedefAxisView, v: TypedefAxisView, c: Cur, f: Setting)
    requires
        TypedefAxis::fits(v, f),
        v.monotony.word() is Some,
        tokens_at(c.toks, c.pos, seq![plain("MONOTONY"@), plain(v.monotony.word()->Some_0)]),
        toks_numbered(c.toks, f),
    ensures
        TypedefAxis::option(w, c) == Ok::<(TypedefAxisView, Cur), Failure>(
            (TypedefAxisView { monotony: v.monotony, ..w }, Cur { pos: c.pos + 2, ..c }),
        ),
{
    reveal_strlit("MONOTONY");
    reveal_strlit("PHYS_UNIT");
    lemma_differ("MONOTONY"@, "PHYS_UNIT"@, 0);
    reveal_strlit("STEP_SIZE");
    lemma_differ("MONOTONY"@, "STEP_SIZE"@, 0);
    reveal_strlit("FORMAT");
    lemma_differ("MONOTONY"@, "FORMAT"@, 0);
    reveal_strlit("DEPOSIT");
    lemma_differ("MONOTONY"@, "DEPOSIT"@, 0);
    lemma_same("MONOTONY"@);
    assert(bare(c.toks[c.pos + 0]) == (seq![plain("MONOTONY"@), plain(v.monotony.word()->Some_0)])[0]);
    assert(bare(c.toks[c.pos + 1]) == (seq![plain("MONOTONY"@), plain(v.monotony.word()->Some_0)])[1]);
    v.monotony.law_named_of_word();
    v.monotony.lemma_word();
}

proof fn lemma_typedef_axis_step_6(w: TypedefAxisView, v: TypedefAxisView, c: Cur, f: Setting)
    requires
        TypedefAxis::fits(v, f),
        v.deposit.word() is Some,
        tokens_at(c.toks, c.pos, seq![plain("DEPOSIT"@), plain(v.deposit.word()->Some_0)]),
        toks_numbered(c.toks, f),
    ensures
        TypedefAxis::option(w, c) == Ok::<(TypedefAxisView, Cur), Failure>(
            (TypedefAxisView { deposit: v.deposit, ..w }, Cur { pos: c.pos + 2, ..c }),
        ),
{
    reveal_strlit("DEPOSIT");
    reveal_strlit("PHYS_UNIT");
    lemma_differ("DEPOSIT"@, "PHYS_UNIT"@, 0);
    reveal_strlit("STEP_SIZE");
    lemma_differ("DEPOSIT"@, "STEP_SIZE"@, 0);
    reveal_strlit("FORMAT");
    lemma_differ("DEPOSIT"@, "FORMAT"@, 0);
    lemma_same("DEPOSIT"@);
    assert(bare(c.toks[c.pos + 0]) == (seq![plain("DEPOSIT"@), plain(v.deposit.word()->Some_0)])[0]);
    assert(bare(c.toks[c.pos + 1]) == (seq![plain("DEPOSIT"@), plain(v.deposit.word()->Some_0)])[1]);
    v.deposit.law_named_of_word();
    v.deposit.lemma_word();
}

proof fn lemma_typedef_axis_read_7(v: TypedefAxisView, c: Cur, f: Setting)
    requires
        TypedefAxis::fits(v, f),
        tokens_at(c.toks, c.pos, typedef_axis_from_7(v)),
        c.pos + typedef_axis_from_7(v).len() == c.toks.len(),
        toks_numbered(c.toks, f),
    ensures
        TypedefAxis::options(v, c) matches Ok((w, _)) && w == (v),
{
}

proof fn lemma_typedef_axis_read_6(v: TypedefAxisView, c: Cur, f: Setting)
    requires
        TypedefAxis::fits(v, f),
        tokens_at(c.toks, c.pos, typedef_axis_from_6(v)),
        c.pos + typedef_axis_from_6(v).len() == c.toks.len(),
        toks_numbered(c.toks, f),
    ensures
        TypedefAxis::options(
            TypedefAxisView { deposit: DepositType::NotSet, ..v },
            c
        ) matches Ok((w, _)) && w == (v),
{
    reveal(typedef_axis_part_6);
    let t = typedef_axis_part_6(v);
    if v.deposit.word() is Some {
        lemma_tokens_at_split(c.toks, c.pos, t, typedef_axis_from_7(v));
        let c2 = Cur { pos: c.pos + 2, ..c };
        lemma_typedef_axis_step_6(TypedefAxisView { deposit: DepositType::NotSet, ..v }, v, c, f);
        lemma_typedef_axis_read_7(v, c2, f);
    } else {
        assert(t + typedef_axis_from_7(v) =~= typedef_axis_from_7(v));
        lemma_typedef_axis_read_7(v, c, f);
    }
}

proof fn lemma_typedef_axis_read_5(v: TypedefAxisView, c: Cur, f: Setting)
    requires
        TypedefAxis::fits(v, f),
        tokens_at(c.toks, c.pos, typedef_axis_from_5(v)),
        c.pos + typedef_axis_from_5(v).len() == c.toks.len(),
        toks_numbered(c.toks, f),
    ensures
        TypedefAxis::options(
            TypedefAxisView { monotony: MonotonyType::NotSet, deposit: DepositType::NotSet, ..v },
            c
        ) matches Ok((w, _)) && w == (v),
{
    reveal(typedef_axis_part_5);
    let t = typedef_axis_part_5(v);
    if v.monotony.word() is Some {
        lemma_tokens_at_split(c.toks, c.pos, t, typedef_axis_from_6(v));
        let c2 = Cur { pos: c.pos + 2, ..c };
        lemma_typedef_axis_step_5(
            TypedefAxisView { monotony: MonotonyType::NotSet, deposit: DepositType::NotSet, ..v },
            v,
            c,
            f
        );
        lemma_typedef_axis_read_6(v, c2, f);
    } else {
        assert(t + typedef_axis_from_6(v) =~= typedef_axis_from_6(v));
        lemma_typedef_axis_read_6(v, c, f);
    }
}

proof fn lemma_typedef_axis_read_4(v: TypedefAxisView, c: Cur, f: Setting)
    requires
        TypedefAxis::fits(v, f),
        tokens_at(c.toks, c.pos, typedef_axis_from_4(v)),
        c.pos + typedef_axis_from_4(v).len() == c.toks.len(),
        toks_numbered(c.toks, f),
    ensures
        TypedefAxis::options(
            TypedefAxisView {
                rec: RecordLayoutRefFieldsView { step_size: None, ..v.rec },
                monotony: MonotonyType::NotSet,
                deposit: DepositType::NotSet,
                ..v
            },
            c
        ) matches Ok((w, _)) && w == (v),
{
    reveal(typedef_axis_part_4);
    let t = typedef_axis_part_4(v);
    if v.rec.step_size is Some {
        lemma_tokens_at_split(c.toks, c.pos, t, typedef_axis_from_5(v));
        let c2 = Cur { pos: c.pos + 2, ..c };
        lemma_typedef_axis_step_4(
            TypedefAxisView {
                rec: RecordLayoutRefFieldsView { step_size: None, ..v.rec },
                monotony: MonotonyType::NotSet,
                deposit: DepositType::NotSet,
                ..v
            },
            v,
            c,
            f
        );
        lemma_typedef_axis_read_5(v, c2, f);
    } else {
        assert(t + typedef_axis_from_5(v) =~= typedef_axis_from_5(v));
        lemma_typedef_axis_read_5(v, c, f);
    }
}

proof fn lemma_typedef_axis_read_3(v: TypedefAxisView, c: Cur, f: Setting)
    requires
        TypedefAxis::fits(v, f),
        tokens_at(c.toks, c.pos, typedef_axis_from_3(v)),
        c.pos + typedef_axis_from_3(v).len() == c.toks.len(),
        toks_numbered(c.toks, f),
    ensures
        TypedefAxis::options(
            TypedefAxisView {
                rec: RecordLayoutRefFieldsView { extended_limits: None, step_size: None, ..v.rec },
                monotony: MonotonyType::NotSet,
                deposit: DepositType::NotSet,
                ..v
            },
            c
        ) matches Ok((w, _)) && w == (v),
{
    reveal(typedef_axis_part_3);
    let t = typedef_axis_part_3(v);
    if v.rec.extended_limits is Some {
        lemma_tokens_at_split(c.toks, c.pos, t, typedef_axis_from_4(v));
        let c2 = Cur { pos: c.pos + 3, ..c };
        lemma_typedef_axis_step_3(
            TypedefAxisView {
                rec: RecordLayoutRefFieldsView { extended_limits: None, step_size: None, ..v.rec },
                monotony: MonotonyType::NotSet,
                deposit: DepositType::NotSet,
                ..v
            },
            v,
            c,
            f
        );
        lemma_typedef_axis_read_4(v, c2, f);
    } else {
        assert(t + typedef_axis_from_4(v) =~= typedef_axis_from_4(v));
        lemma_typedef_axis_read_4(v, c, f);
    }
}

proof fn lemma_typedef_axis_read_2(v: TypedefAxisView, c: Cur, f: Setting)
    requires
        TypedefAxis::fits(v, f),
        tokens_at(c.toks, c.pos, typedef_axis_from_2(v)),
        c.pos + typedef_axis_from_2(v).len() == c.toks.len(),
        toks_numbered(c.toks, f),
    ensures
        TypedefAxis::options(
            TypedefAxisView {
                conv: ConversionRefFieldsView { byte_order: ByteOrder::NotSet, ..v.conv },
                rec: RecordLayoutRefFieldsView { extended_limits: None, step_size: None, ..v.rec },
                monotony: MonotonyType::NotSet,
                deposit: DepositType::NotSet,
                ..v
            },
            c
        ) matches Ok((w, _)) && w == (v),
{
    reveal(typedef_axis_part_2);
    let t = typedef_axis_part_2(v);
    if v.conv.byte_order.word() is Some {
        lemma_tokens_at_split(c.toks, c.pos, t, typedef_axis_from_3(v));
        let c2 = Cur { pos: c.pos + 2, ..c };
        lemma_typedef_axis_step_2(
            TypedefAxisView {
                conv: ConversionRefFieldsView { byte_order: ByteOrder::NotSet, ..v.conv },
                rec: RecordLayoutRefFieldsView { extended_limits: None, step_size: None, ..v.rec },
                monotony: MonotonyType::NotSet,
                deposit: DepositType::NotSet,
                ..v
            },
            v,
            c,
            f
        );
        lemma_typedef_axis_read_3(v, c2, f);
    } else {
        assert(t + typedef_axis_from_3(v) =~= typedef_axis_from_3(v));
        lemma_typedef_axis_read_3(v, c, f);
    }
}

proof fn lemma_typedef_axis_read_1(v: TypedefAxisView, c: Cur, f: Setting)
    requires
        TypedefAxis::fits(v, f),
        tokens_at(c.toks, c.pos, typedef_axis_from_1(v)),
        c.pos + typedef_axis_from_1(v).len() == c.toks.len(),
        toks_numbered(c.toks, f),
    ensures
        TypedefAxis::options(
            TypedefAxisView {
                conv: ConversionRefFieldsView {
                    phys_unit: None,
                    byte_order: ByteOrder::NotSet,
                    ..v.conv
                },
                rec: RecordLayoutRefFieldsView { extended_limits: None, step_size: None, ..v.rec },
                monotony: MonotonyType::NotSet,
                deposit: DepositType::NotSet,
                ..v
            },
            c
        ) matches Ok((w, _)) && w == (v),
{
    reveal(typedef_axis_part_1);
    let t = typedef_axis_part_1(v);
    if v.conv.phys_unit is Some {
        lemma_tokens_at_split(c.toks, c.pos, t, typedef_axis_from_2(v));
        let c2 = Cur { pos: c.pos + 2, ..c };
        lemma_typedef_axis_step_1(
            TypedefAxisView {
                conv: ConversionRefFieldsView {
                    phys_unit: None,
                    byte_order: ByteOrder::NotSet,
                    ..v.conv
                },
                rec: RecordLayoutRefFieldsView { extended_limits: None, step_size: None, ..v.rec },
                monotony: MonotonyType::NotSet,
                deposit: DepositType::NotSet,
                ..v
            },
            v,
            c,
            f
        );
        lemma_typedef_axis_read_2(v, c2, f);
    } else {
        assert(t + typedef_axis_from_2(v) =~= typedef_axis_from_2(v));
        lemma_typedef_axis_read_2(v, c, f);
    }
}

proof fn lemma_typedef_axis_read_0(v: TypedefAxisView, c: Cur, f: Setting)
    requires
        TypedefAxis::fits(v, f),
        tokens_at(c.toks, c.pos, typedef_axis_from_0(v)),
        c.pos + typedef_axis_from_0(v).len() == c.toks.len(),
        toks_numbered(c.toks, f),
    ensures
        TypedefAxis::options(
            TypedefAxisView {
                conv: ConversionRefFieldsView {
                    format: None,
                    phys_unit: None,
                    byte_order: ByteOrder::NotSet,
                    ..v.conv
                },
                rec: RecordLayoutRefFieldsView { extended_limits: None, step_size: None, ..v.rec },
                monotony: MonotonyType::NotSet,
                deposit: DepositType::NotSet,
                ..v
            },
            c
        ) matches Ok((w, _)) && w == (v),
{
    reveal(typedef_axis_part_0);
    let t = typedef_axis_part_0(v);
    if v.conv.format is Some {
        lemma_tokens_at_split(c.toks, c.pos, t, typedef_axis_from_1(v));
        let c2 = Cur { pos: c.pos + 2, ..c };
        lemma_typedef_axis_step_0(
            TypedefAxisView {
                conv: ConversionRefFieldsView {
                    format: None,
                    phys_unit: None,
                    byte_order: ByteOrder::NotSet,
                    ..v.conv
                },
                rec: RecordLayoutRefFieldsView { extended_limits: None, step_size: None, ..v.rec },
                monotony: MonotonyType::NotSet,
                deposit: DepositType::NotSet,
                ..v
            },
            v,
            c,
            f
        );
        lemma_typedef_axis_read_1(v, c2, f);
    } else {
        assert(t + typedef_axis_from_1(v) =~= typedef_axis_from_1(v));
        lemma_typedef_axis_read_1(v, c, f);
    }
}

impl Faithful for TypedefAxis {
    open spec fn fits(v: TypedefAxisView, f: Setting) -> bool {
        &&& is_param(plain(v.named.name))
        &&& v.named.description is Some
        &&& v.input_quantity is Some && is_param(plain(v.input_quantity->Some_0))
        &&& is_param(plain(v.rec.record_layout))
        &&& num_fits(v.rec.max_diff, f)
        &&& is_param(plain(v.conv.conversion))
        &&& num_fits(v.conv.lower_limit, f) && num_fits(v.conv.upper_limit, f) && num_min(
            v.conv.lower_limit,
            v.conv.upper_limit
        ) == v.conv.lower_limit && num_max(v.conv.lower_limit, v.conv.upper_limit) == v.conv.upper_limit
        &&& (v.conv.format matches Some(x) ==> x.len() > 0)
        &&& (v.conv.phys_unit matches Some(x) ==> x.len() > 0)
        &&& (
            v.rec.extended_limits matches Some(x) ==> num_fits(x.0, f) && num_fits(x.1, f) && num_min(x.0, x.1) == x.0 && num_max(x.0, x.1) == x.1
        )
        &&& (v.rec.step_size matches Some(x) ==> num_fits(x, f))
        &&& v.conv.memory_segment_ref is None
        &&& v.rec.read_only == false
        &&& v.rec.guard_rails == false
    }

    open spec fn shape(v: TypedefAxisView) -> Tree {
        shape_of("TYPEDEF_AXIS"@, typedef_axis_head(v) + typedef_axis_from_0(v), Seq::empty())
    }

    proof fn law_shown(v: TypedefAxisView, p: Page, f: Setting) {
        reveal_strlit("TYPEDEF_AXIS");
        lemma_keyword_word("TYPEDEF_AXIS"@);
        reveal_strlit("TYPEDEF_AXIS ");
        reveal_strlit(" ");
        assert("TYPEDEF_AXIS "@ + v.named.name =~= "TYPEDEF_AXIS"@ + " "@ + v.named.name);
        lemma_spells_word("TYPEDEF_AXIS"@);
        lemma_spells_word(v.named.name);
        lemma_spells_join("TYPEDEF_AXIS"@, seq![plain("TYPEDEF_AXIS"@)], v.named.name, seq![plain(v.named.name)]);
        let h = seq![plain(v.named.name)];
        crate::a2l::tree_laws::lemma_shows_begin(
            p,
            "TYPEDEF_AXIS "@ + v.named.name,
            seq![plain("TYPEDEF_AXIS"@)] + h
        );
        let p0 = p.begin("TYPEDEF_AXIS "@ + v.named.name);
        lemma_typedef_axis_body(v, p0, f);
        lemma_typedef_axis_opening(v, p0, f);
        let p1 = typedef_axis_opening(v, p0);
        lemma_typedef_axis_shown_0(v, p1, f);
        let p2 = typedef_axis_pages_0(v, p1);
        let hx = seq![
            string(escaped(v.named.description->Some_0)),
            plain(v.input_quantity->Some_0),
            plain(v.rec.record_layout),
            plain(v.rec.max_diff.text),
            plain(v.conv.conversion),
            plain(dec_int(v.max_axis_points as int)),
            plain(v.conv.lower_limit.text),
            plain(v.conv.upper_limit.text)
        ];
        let from = typedef_axis_from_0(v);
        lemma_shows_join(p0, p1, p2, hx, from);
        let q = p2;
        let kids = Seq::<Tree>::empty();
        let y = Seq::<Tok>::empty();
        assert(blocks_tokens(kids, 0) =~= y);
        assert(hx + from + y =~= hx + from);
        let x = typedef_axis_head(v) + from;
        lemma_shape_tokens(x, kids);
        lemma_all_params_join(typedef_axis_head(v), from);
        lemma_sound_shape("TYPEDEF_AXIS"@, x, kids);
        assert(typedef_axis_head(v) =~= h + hx);
        assert(h + (hx + from + y) =~= x + y);
        lemma_shows_block(
            p,
            "TYPEDEF_AXIS "@ + v.named.name,
            h,
            "TYPEDEF_AXIS"@,
            q,
            hx + from + y,
            Self::shape(v)
        );
    }

    proof fn law_parsed(v: TypedefAxisView, tree: Tree, f: Setting) {
        let x = typedef_axis_head(v) + typedef_axis_from_0(v);
        let kids = Seq::<Tree>::empty();
        lemma_shape_found(tree, "TYPEDEF_AXIS"@, x, kids, f);
        let c = Cur::start(tree);
        lemma_tokens_at_split(c.toks, 0, typedef_axis_head(v), typedef_axis_from_0(v));
        lemma_typedef_axis_head(v, c, f);
        let c1 = Cur { pos: 9, ..c };
        lemma_typedef_axis_read_0(v, c1, f);
    }
}

/// The parameters at the start of the block.
pub open spec fn typedef_blob_head(v: TypedefBlobView) -> Seq<Tok> {
    seq![plain(v.named.name), string(escaped(v.named.description->Some_0)), plain(hex_form(v.size as nat))]
}

/// The parameters of `ADDRESS_TYPE`.
#[verifier::opaque]
pub open spec fn typedef_blob_part_0(v: TypedefBlobView) -> Seq<Tok> {
    if v.addr_type != AddrType::DIRECT {
        seq![plain("ADDRESS_TYPE"@), plain(v.addr_type.word()->Some_0)]
    } else { Seq::<Tok>::empty() }
}

/// The parameters from `ADDRESS_TYPE` on.
pub open spec fn typedef_blob_from_0(v: TypedefBlobView) -> Seq<Tok> {
    typedef_blob_part_0(v) + typedef_blob_from_1(v)
}

/// What is written for `ADDRESS_TYPE`.
#[verifier::opaque]
pub open spec fn typedef_blob_page_0(v: TypedefBlobView, p: Page) -> Page {
    if v.addr_type != AddrType::DIRECT {
        match v.addr_type.word() { Some(kw) => p.word("ADDRESS_TYPE"@, kw), None => p }
    } else { p }
}

/// What is written from `ADDRESS_TYPE` on.
pub open spec fn typedef_blob_pages_0(v: TypedefBlobView, p: Page) -> Page {
    typedef_blob_pages_1(v, typedef_blob_page_0(v, p))
}

/// The parameters behind the last keyword.
pub open spec fn typedef_blob_from_1(v: TypedefBlobView) -> Seq<Tok> {
    Seq::empty()
}

/// What is written behind the last keyword.
pub open spec fn typedef_blob_pages_1(v: TypedefBlobView, p: Page) -> Page {
    p
}

proof fn lemma_typedef_blob_part_0(v: TypedefBlobView, p: Page, f: Setting)
    requires
        TypedefBlob::fits(v, f),
        indents_by_blanks(p),
    ensures
        shows(p, typedef_blob_page_0(v, p), typedef_blob_part_0(v)),
        typedef_blob_page_0(v, p).depth == p.depth,
        typedef_blob_page_0(v, p).style == p.style,
        all_params(typedef_blob_part_0(v)),
{
    reveal(typedef_blob_page_0);
    reveal(typedef_blob_part_0);
    if v.addr_type != AddrType::DIRECT {
        reveal_strlit("ADDRESS_TYPE");
        assert(is_keyword("ADDRESS_TYPE"@));
        lemma_keyword_param("ADDRESS_TYPE"@);
        v.addr_type.lemma_word();
        lemma_shows_word(p, "ADDRESS_TYPE"@, v.addr_type.word()->Some_0);
        reveal_strlit("ADDRESS_TYPE");
        assert(is_keyword("ADDRESS_TYPE"@));
        lemma_keyword_param("ADDRESS_TYPE"@);
        v.addr_type.lemma_word();
        assert(all_params(seq![plain("ADDRESS_TYPE"@), plain(v.addr_type.word()->Some_0)]));
        
    } else {
        lemma_shows_nothing(p);
    }
}

proof fn lemma_typedef_blob_shown_1(v: TypedefBlobView, p: Page, f: Setting)
    requires
        TypedefBlob::fits(v, f),
        indents_by_blanks(p),
    ensures
        shows(p, typedef_blob_pages_1(v, p), typedef_blob_from_1(v)),
        typedef_blob_pages_1(v, p).depth == p.depth,
        typedef_blob_pages_1(v, p).style == p.style,
        all_params(typedef_blob_from_1(v)),
{
    lemma_shows_nothing(p);
}

proof fn lemma_typedef_blob_shown_0(v: TypedefBlobView, p: Page, f: Setting)
    requires
        TypedefBlob::fits(v, f),
        indents_by_blanks(p),
    ensures
        shows(p, typedef_blob_pages_0(v, p), typedef_blob_from_0(v)),
        typedef_blob_pages_0(v, p).depth == p.depth,
        typedef_blob_pages_0(v, p).style == p.style,
        all_params(typedef_blob_from_0(v)),
{
    lemma_typedef_blob_part_0(v, p, f);
    let q = typedef_blob_page_0(v, p);
    lemma_typedef_blob_shown_1(v, q, f);
    lemma_shows_join(p, q, typedef_blob_pages_1(v, q), typedef_blob_part_0(v), typedef_blob_from_1(v));
    lemma_all_params_join(typedef_blob_part_0(v), typedef_blob_from_1(v));
}

/// What is written for the parameters at the start.
#[verifier::opaque]
pub open spec fn typedef_blob_opening(v: TypedefBlobView, p0: Page) -> Page {
    let p1 = match v.named.description { Some(x) => p0.quote_line(x), None => p0.quote_line(""@) };
    let p2 = p1.line(hex_form(v.size as nat));
    p2
}

proof fn lemma_typedef_blob_opening(v: TypedefBlobView, p0: Page, f: Setting)
    requires
        TypedefBlob::fits(v, f),
        indents_by_blanks(p0),
    ensures
        shows(
            p0,
            typedef_blob_opening(v, p0),
            seq![string(escaped(v.named.description->Some_0)), plain(hex_form(v.size as nat))]
        ),
        typedef_blob_opening(v, p0).depth == p0.depth,
        typedef_blob_opening(v, p0).style == p0.style,
        all_params(typedef_blob_head(v)),
{
    reveal(typedef_blob_opening);
    lemma_shows_nothing(p0);
    let x0 = Seq::<Tok>::empty();
    let p1 = match v.named.description { Some(x) => p0.quote_line(x), None => p0.quote_line(""@) };
    assert(
        shows(
            p0,
            p1,
            seq![string(escaped(v.named.description->Some_0))]
        ) && p1.depth == p0.depth && p1.style == p0.style
    ) by {
        let p = p0;
        lemma_shows_quote_line(p, v.named.description->Some_0);
    }
    lemma_shows_join(p0, p0, p1, x0, seq![string(escaped(v.named.description->Some_0))]);
    let x1 = x0 + seq![string(escaped(v.named.description->Some_0))];
    let p2 = p1.line(hex_form(v.size as nat));
    assert(
        shows(
            p1,
            p2,
            seq![plain(hex_form(v.size as nat))]
        ) && p2.depth == p1.depth && p2.style == p1.style
    ) by {
        let p = p1;
        lemma_hex_param(v.size as nat);
        lemma_shows_word_line(p, hex_form(v.size as nat));
    }
    lemma_shows_join(p0, p1, p2, x1, seq![plain(hex_form(v.size as nat))]);
    let x2 = x1 + seq![plain(hex_form(v.size as nat))];
    assert(x2 =~= seq![string(escaped(v.named.description->Some_0)), plain(hex_form(v.size as nat))]);
    lemma_string_param(v.named.description->Some_0);
    lemma_hex_param(v.size as nat);
}

proof fn lemma_typedef_blob_body(v: TypedefBlobView, p: Page, f: Setting)
    requires
        TypedefBlob::fits(v, f),
    ensures
        TypedefBlob::body(v, p) == Ok::<Page, Stopped>(typedef_blob_pages_0(v, typedef_blob_opening(v, p))),
{
    reveal(typedef_blob_opening);
    let q0 = typedef_blob_opening(v, p);
    let q1 = if v.addr_type != AddrType::DIRECT {
        match v.addr_type.word() { Some(kw) => q0.word("ADDRESS_TYPE"@, kw), None => q0 }
    } else { q0 };
    assert(q1 == typedef_blob_page_0(v, q0)) by {
        reveal(typedef_blob_page_0);
    }
}

proof fn lemma_typedef_blob_head(v: TypedefBlobView, c: Cur, f: Setting)
    requires
        TypedefBlob::fits(v, f),
        tokens_at(c.toks, c.pos, typedef_blob_head(v)),
        toks_numbered(c.toks, f),
    ensures
        TypedefBlob::head(c) == Ok::<(TypedefBlobView, Cur), Failure>(
            (TypedefBlobView { addr_type: AddrType::DIRECT, ..v }, Cur { pos: c.pos + 3, ..c }),
        ),
{
    law_unescaped_of_escaped(v.named.description->Some_0);
    law_integer_of_hex(v.size as nat);
    assert(bare(c.toks[c.pos + 0]) == typedef_blob_head(v)[0]);
    assert(bare(c.toks[c.pos + 1]) == typedef_blob_head(v)[1]);
    assert(bare(c.toks[c.pos + 2]) == typedef_blob_head(v)[2]);
}

proof fn lemma_typedef_blob_step_0(w: TypedefBlobView, v: TypedefBlobView, c: Cur, f: Setting)
    requires
        TypedefBlob::fits(v, f),
        v.addr_type != AddrType::DIRECT,
        tokens_at(c.toks, c.pos, seq![plain("ADDRESS_TYPE"@), plain(v.addr_type.word()->Some_0)]),
        toks_numbered(c.toks, f),
    ensures
        TypedefBlob::option(w, c) == Ok::<(TypedefBlobView, Cur), Failure>(
            (TypedefBlobView { addr_type: v.addr_type, ..w }, Cur { pos: c.pos + 2, ..c }),
        ),
{
    reveal_strlit("ADDRESS_TYPE");
    lemma_same("ADDRESS_TYPE"@);
    assert(bare(c.toks[c.pos + 0]) == (seq![plain("ADDRESS_TYPE"@), plain(v.addr_type.word()->Some_0)])[0]);
    assert(bare(c.toks[c.pos + 1]) == (seq![plain("ADDRESS_TYPE"@), plain(v.addr_type.word()->Some_0)])[1]);
    v.addr_type.law_named_of_word();
    v.addr_type.lemma_word();
}

proof fn lemma_typedef_blob_read_1(v: TypedefBlobView, c: Cur, f: Setting)
    requires
        TypedefBlob::fits(v, f),
        tokens_at(c.toks, c.pos, typedef_blob_from_1(v)),
        c.pos + typedef_blob_from_1(v).len() == c.toks.len(),
        toks_numbered(c.toks, f),
    ensures
        TypedefBlob::options(v, c) matches Ok((w, _)) && w == (v),
{
}

proof fn lemma_typedef_blob_read_0(v: TypedefBlobView, c: Cur, f: Setting)
    requires
        TypedefBlob::fits(v, f),
        tokens_at(c.toks, c.pos, typedef_blob_from_0(v)),
        c.pos + typedef_blob_from_0(v).len() == c.toks.len(),
        toks_numbered(c.toks, f),
    ensures
        TypedefBlob::options(
            TypedefBlobView { addr_type: AddrType::DIRECT, ..v },
            c
        ) matches Ok((w, _)) && w == (v),
{
    reveal(typedef_blob_part_0);
    let t = typedef_blob_part_0(v);
    if v.addr_type != AddrType::DIRECT {
        lemma_tokens_at_split(c.toks, c.pos, t, typedef_blob_from_1(v));
        let c2 = Cur { pos: c.pos + 2, ..c };
        lemma_typedef_blob_step_0(TypedefBlobView { addr_type: AddrType::DIRECT, ..v }, v, c, f);
        lemma_typedef_blob_read_1(v, c2, f);
    } else {
        assert(t + typedef_blob_from_1(v) =~= typedef_blob_from_1(v));
        lemma_typedef_blob_read_1(v, c, f);
    }
}

impl Faithful for TypedefBlob {
    open spec fn fits(v: TypedefBlobView, f: Setting) -> bool {
        &&& is_param(plain(v.named.name))
        &&& v.named.description is Some
    }

    open spec fn shape(v: TypedefBlobView) -> Tree {
        shape_of("TYPEDEF_BLOB"@, typedef_blob_head(v) + typedef_blob_from_0(v), Seq::empty())
    }

    proof fn law_shown(v: TypedefBlobView, p: Page, f: Setting) {
        reveal_strlit("TYPEDEF_BLOB");
        lemma_keyword_word("TYPEDEF_BLOB"@);
        reveal_strlit("TYPEDEF_BLOB ");
        reveal_strlit(" ");
        assert("TYPEDEF_BLOB "@ + v.named.name =~= "TYPEDEF_BLOB"@ + " "@ + v.named.name);
        lemma_spells_word("TYPEDEF_BLOB"@);
        lemma_spells_word(v.named.name);
        lemma_spells_join("TYPEDEF_BLOB"@, seq![plain("TYPEDEF_BLOB"@)], v.named.name, seq![plain(v.named.name)]);
        let h = seq![plain(v.named.name)];
        crate::a2l::tree_laws::lemma_shows_begin(
            p,
            "TYPEDEF_BLOB "@ + v.named.name,
            seq![plain("TYPEDEF_BLOB"@)] + h
        );
        let p0 = p.begin("TYPEDEF_BLOB "@ + v.named.name);
        lemma_typedef_blob_body(v, p0, f);
        lemma_typedef_blob_opening(v, p0, f);
        let p1 = typedef_blob_opening(v, p0);
        lemma_typedef_blob_shown_0(v, p1, f);
        let p2 = typedef_blob_pages_0(v, p1);
        let hx = seq![string(escaped(v.named.description->Some_0)), plain(hex_form(v.size as nat))];
        let from = typedef_blob_from_0(v);
        lemma_shows_join(p0, p1, p2, hx, from);
        let q = p2;
        let kids = Seq::<Tree>::empty();
        let y = Seq::<Tok>::empty();
        assert(blocks_tokens(kids, 0) =~= y);
        assert(hx + from + y =~= hx + from);
        let x = typedef_blob_head(v) + from;
        lemma_shape_tokens(x, kids);
        lemma_all_params_join(typedef_blob_head(v), from);
        lemma_sound_shape("TYPEDEF_BLOB"@, x, kids);
        assert(typedef_blob_head(v) =~= h + hx);
        assert(h + (hx + from + y) =~= x + y);
        lemma_shows_block(
            p,
            "TYPEDEF_BLOB "@ + v.named.name,
            h,
            "TYPEDEF_BLOB"@,
            q,
            hx + from + y,
            Self::shape(v)
        );
    }

    proof fn law_parsed(v: TypedefBlobView, tree: Tree, f: Setting) {
        let x = typedef_blob_head(v) + typedef_blob_from_0(v);
        let kids = Seq::<Tree>::empty();
        lemma_shape_found(tree, "TYPEDEF_BLOB"@, x, kids, f);
        let c = Cur::start(tree);
        lemma_tokens_at_split(c.toks, 0, typedef_blob_head(v), typedef_blob_from_0(v));
        lemma_typedef_blob_head(v, c, f);
        let c1 = Cur { pos: 3, ..c };
        lemma_typedef_blob_read_0(v, c1, f);
    }
}

/// The parameters at the start of the block.
pub open spec fn typedef_characteristic_head(v: TypedefCharacteristicView) -> Seq<Tok> {
    seq![
        plain(v.named.name),
        string(escaped(v.named.description->Some_0)),
        plain(v.char_type.word()->Some_0),
        plain(v.rec.record_layout),
        plain(v.rec.max_diff.text),
        plain(v.conv.conversion),
        plain(v.conv.lower_limit.text),
        plain(v.conv.upper_limit.text)
    ]
}

/// The parameters of `FORMAT`.
#[verifier::opaque]
pub open spec fn typedef_characteristic_part_0(v: TypedefCharacteristicView) -> Seq<Tok> {
    if v.conv.format is Some {
        seq![plain("FORMAT"@), string(escaped(v.conv.format->Some_0))]
    } else { Seq::<Tok>::empty() }
}

/// The parameters from `FORMAT` on.
pub open spec fn typedef_characteristic_from_0(v: TypedefCharacteristicView) -> Seq<Tok> {
    typedef_characteristic_part_0(v) + typedef_characteristic_from_1(v)
}

/// What is written for `FORMAT`.
#[verifier::opaque]
pub open spec fn typedef_characteristic_page_0(v: TypedefCharacteristicView, p: Page) -> Page {
    match v.conv.format { Some(x) if x.len() > 0 => p.quote("FORMAT"@, x), _ => p }
}

/// What is written from `FORMAT` on.
pub open spec fn typedef_characteristic_pages_0(v: TypedefCharacteristicView, p: Page) -> Page {
    typedef_characteristic_pages_1(v, typedef_characteristic_page_0(v, p))
}

/// The parameters of `PHYS_UNIT`.
#[verifier::opaque]
pub open spec fn typedef_characteristic_part_1(v: TypedefCharacteristicView) -> Seq<Tok> {
    if v.conv.phys_unit is Some {
        seq![plain("PHYS_UNIT"@), string(escaped(v.conv.phys_unit->Some_0))]
    } else { Seq::<Tok>::empty() }
}

/// The parameters from `PHYS_UNIT` on.
pub open spec fn typedef_characteristic_from_1(v: TypedefCharacteristicView) -> Seq<Tok> {
    typedef_characteristic_part_1(v) + typedef_characteristic_from_2(v)
}

/// What is written for `PHYS_UNIT`.
#[verifier::opaque]
pub open spec fn typedef_characteristic_page_1(v: TypedefCharacteristicView, p: Page) -> Page {
    match v.conv.phys_unit { Some(x) if x.len() > 0 => p.quote("PHYS_UNIT"@, x), _ => p }
}

/// What is written from `PHYS_UNIT` on.
pub open spec fn typedef_characteristic_pages_1(v: TypedefCharacteristicView, p: Page) -> Page {
    typedef_characteristic_pages_2(v, typedef_characteristic_page_1(v, p))
}

/// The parameters of `BYTE_ORDER`.
#[verifier::opaque]
pub open spec fn typedef_characteristic_part_2(v: TypedefCharacteristicView) -> Seq<Tok> {
    if v.conv.byte_order.word() is Some {
        seq![plain("BYTE_ORDER"@), plain(v.conv.byte_order.word()->Some_0)]
    } else { Seq::<Tok>::empty() }
}

/// The parameters from `BYTE_ORDER` on.
pub open spec fn typedef_characteristic_from_2(v: TypedefCharacteristicView) -> Seq<Tok> {
    typedef_characteristic_part_2(v) + typedef_characteristic_from_3(v)
}

/// What is written for `BYTE_ORDER`.
#[verifier::opaque]
pub open spec fn typedef_characteristic_page_2(v: TypedefCharacteristicView, p: Page) -> Page {
    match v.conv.byte_order.word() { Some(kw) => p.word("BYTE_ORDER"@, kw), None => p }
}

/// What is written from `BYTE_ORDER` on.
pub open spec fn typedef_characteristic_pages_2(v: TypedefCharacteristicView, p: Page) -> Page {
    typedef_characteristic_pages_3(v, typedef_characteristic_page_2(v, p))
}

/// The parameters of `EXTENDED_LIMITS`.
#[verifier::opaque]
pub open spec fn typedef_characteristic_part_3(v: TypedefCharacteristicView) -> Seq<Tok> {
    if v.rec.extended_limits is Some {
        seq![
            plain("EXTENDED_LIMITS"@),
            plain(v.rec.extended_limits->Some_0.0.text),
            plain(v.rec.extended_limits->Some_0.1.text)
        ]
    } else { Seq::<Tok>::empty() }
}

/// The parameters from `EXTENDED_LIMITS` on.
pub open spec fn typedef_characteristic_from_3(v: TypedefCharacteristicView) -> Seq<Tok> {
    typedef_characteristic_part_3(v) + typedef_characteristic_from_4(v)
}

/// What is written for `EXTENDED_LIMITS`.
#[verifier::opaque]
pub open spec fn typedef_characteristic_page_3(v: TypedefCharacteristicView, p: Page) -> Page {
    match v.rec.extended_limits {
        Some((lo, hi)) => p.line("EXTENDED_LIMITS "@ + lo.text + " "@ + hi.text),
        None => p
    }
}

/// What is written from `EXTENDED_LIMITS` on.
pub open spec fn typedef_characteristic_pages_3(v: TypedefCharacteristicView, p: Page) -> Page {
    typedef_characteristic_pages_4(v, typedef_characteristic_page_3(v, p))
}

/// The parameters of `STEP_SIZE`.
#[verifier::opaque]
pub open spec fn typedef_characteristic_part_4(v: TypedefCharacteristicView) -> Seq<Tok> {
    if v.rec.step_size is Some {
        seq![plain("STEP_SIZE"@), plain(v.rec.step_size->Some_0.text)]
    } else { Seq::<Tok>::empty() }
}

/// The parameters from `STEP_SIZE` on.
pub open spec fn typedef_characteristic_from_4(v: TypedefCharacteristicView) -> Seq<Tok> {
    typedef_characteristic_part_4(v) + typedef_characteristic_from_5(v)
}

/// What is written for `STEP_SIZE`.
#[verifier::opaque]
pub open spec fn typedef_characteristic_page_4(v: TypedefCharacteristicView, p: Page) -> Page {
    match v.rec.step_size { Some(x) => p.word("STEP_SIZE"@, x.text), None => p }
}

/// What is written from `STEP_SIZE` on.
pub open spec fn typedef_characteristic_pages_4(v: TypedefCharacteristicView, p: Page) -> Page {
    typedef_characteristic_pages_5(v, typedef_characteristic_page_4(v, p))
}

/// The parameters of `BIT_MASK`.
#[verifier::opaque]
pub open spec fn typedef_characteristic_part_5(v: TypedefCharacteristicView) -> Seq<Tok> {
    if v.bitmask is Some {
        seq![plain("BIT_MASK"@), plain(hex_form(v.bitmask->Some_0 as nat))]
    } else { Seq::<Tok>::empty() }
}

/// The parameters from `BIT_MASK` on.
pub open spec fn typedef_characteristic_from_5(v: TypedefCharacteristicView) -> Seq<Tok> {
    typedef_characteristic_part_5(v) + typedef_characteristic_from_6(v)
}

/// What is written for `BIT_MASK`.
#[verifier::opaque]
pub open spec fn typedef_characteristic_page_5(v: TypedefCharacteristicView, p: Page) -> Page {
    match v.bitmask { Some(x) => p.word("BIT_MASK"@, hex_form(x as nat)), None => p }
}

/// What is written from `BIT_MASK` on.
pub open spec fn typedef_characteristic_pages_5(v: TypedefCharacteristicView, p: Page) -> Page {
    typedef_characteristic_pages_6(v, typedef_characteristic_page_5(v, p))
}

/// The parameters of `NUMBER`.
#[verifier::opaque]
pub open spec fn typedef_characteristic_part_6(v: TypedefCharacteristicView) -> Seq<Tok> {
    if v.number != 0 { seq![plain("NUMBER"@), plain(dec_int(v.number as int))] } else { Seq::<Tok>::empty() }
}

/// The parameters from `NUMBER` on.
pub open spec fn typedef_characteristic_from_6(v: TypedefCharacteristicView) -> Seq<Tok> {
    typedef_characteristic_part_6(v) + typedef_characteristic_from_7(v)
}

/// What is written for `NUMBER`.
#[verifier::opaque]
pub open spec fn typedef_characteristic_page_6(v: TypedefCharacteristicView, p: Page) -> Page {
    if v.number != 0 { p.word("NUMBER"@, dec_int(v.number as int)) } else { p }
}

/// What is written from `NUMBER` on.
pub open spec fn typedef_characteristic_pages_6(v: TypedefCharacteristicView, p: Page) -> Page {
    typedef_characteristic_pages_7(v, typedef_characteristic_page_6(v, p))
}

/// The parameters of `MATRIX_DIM`.
#[verifier::opaque]
pub open spec fn typedef_characteristic_part_7(v: TypedefCharacteristicView) -> Seq<Tok> {
    if v.matrix_dim is Some {
        seq![plain("MATRIX_DIM"@)] + int_tokens(v.matrix_dim->Some_0)
    } else { Seq::<Tok>::empty() }
}

/// The parameters from `MATRIX_DIM` on.
pub open spec fn typedef_characteristic_from_7(v: TypedefCharacteristicView) -> Seq<Tok> {
    typedef_characteristic_part_7(v) + typedef_characteristic_from_8(v)
}

/// What is written for `MATRIX_DIM`.
#[verifier::opaque]
pub open spec fn typedef_characteristic_page_7(v: TypedefCharacteristicView, p: Page) -> Page {
    match v.matrix_dim { Some(x) => p.word("MATRIX_DIM"@, listed(x)), None => p }
}

/// What is written from `MATRIX_DIM` on.
pub open spec fn typedef_characteristic_pages_7(v: TypedefCharacteristicView, p: Page) -> Page {
    typedef_characteristic_pages_8(v, typedef_characteristic_page_7(v, p))
}

/// The parameters of `DISCRETE`.
#[verifier::opaque]
pub open spec fn typedef_characteristic_part_8(v: TypedefCharacteristicView) -> Seq<Tok> {
    if v.discrete { seq![plain("DISCRETE"@)] } else { Seq::<Tok>::empty() }
}

/// The parameters from `DISCRETE` on.
pub open spec fn typedef_characteristic_from_8(v: TypedefCharacteristicView) -> Seq<Tok> {
    typedef_characteristic_part_8(v) + typedef_characteristic_from_9(v)
}

/// What is written for `DISCRETE`.
#[verifier::opaque]
pub open spec fn typedef_characteristic_page_8(v: TypedefCharacteristicView, p: Page) -> Page {
    if v.discrete { p.line("DISCRETE"@) } else { p }
}

/// What is written from `DISCRETE` on.
pub open spec fn typedef_characteristic_pages_8(v: TypedefCharacteristicView, p: Page) -> Page {
    typedef_characteristic_pages_9(v, typedef_characteristic_page_8(v, p))
}

/// The parameters of `ENCODING`.
#[verifier::opaque]
pub open spec fn typedef_characteristic_part_9(v: TypedefCharacteristicView) -> Seq<Tok> {
    if v.encoding != EncodingType::ASCII {
        seq![plain("ENCODING"@), plain(v.encoding.word()->Some_0)]
    } else { Seq::<Tok>::empty() }
}

/// The parameters from `ENCODING` on.
pub open spec fn typedef_characteristic_from_9(v: TypedefCharacteristicView) -> Seq<Tok> {
    typedef_characteristic_part_9(v) + typedef_characteristic_from_10(v)
}

/// What is written for `ENCODING`.
#[verifier::opaque]
pub open spec fn typedef_characteristic_page_9(v: TypedefCharacteristicView, p: Page) -> Page {
    if v.encoding != EncodingType::ASCII {
        match v.encoding.word() { Some(kw) => p.word("ENCODING"@, kw), None => p }
    } else { p }
}

/// What is written from `ENCODING` on.
pub open spec fn typedef_characteristic_pages_9(v: TypedefCharacteristicView, p: Page) -> Page {
    typedef_characteristic_pages_10(v, typedef_characteristic_page_9(v, p))
}

/// The parameters behind the last keyword.
pub open spec fn typedef_characteristic_from_10(v: TypedefCharacteristicView) -> Seq<Tok> {
    Seq::empty()
}

/// What is written behind the last keyword.
pub open spec fn typedef_characteristic_pages_10(v: TypedefCharacteristicView, p: Page) -> Page {
    p
}

proof fn lemma_typedef_characteristic_part_9(v: TypedefCharacteristicView, p: Page, f: Setting)
    requires
        TypedefCharacteristic::fits(v, f),
        indents_by_blanks(p),
    ensures
        shows(p, typedef_characteristic_page_9(v, p), typedef_characteristic_part_9(v)),
        typedef_characteristic_page_9(v, p).depth == p.depth,
        typedef_characteristic_page_9(v, p).style == p.style,
        all_params(typedef_characteristic_part_9(v)),
{
    reveal(typedef_characteristic_page_9);
    reveal(typedef_characteristic_part_9);
    if v.encoding != EncodingType::ASCII {
        reveal_strlit("ENCODING");
        assert(is_keyword("ENCODING"@));
        lemma_keyword_param("ENCODING"@);
        v.encoding.lemma_word();
        lemma_shows_word(p, "ENCODING"@, v.encoding.word()->Some_0);
        reveal_strlit("ENCODING");
        assert(is_keyword("ENCODING"@));
        lemma_keyword_param("ENCODING"@);
        v.encoding.lemma_word();
        assert(all_params(seq![plain("ENCODING"@), plain(v.encoding.word()->Some_0)]));
        
    } else {
        lemma_shows_nothing(p);
    }
}

proof fn lemma_typedef_characteristic_part_8(v: TypedefCharacteristicView, p: Page, f: Setting)
    requires
        TypedefCharacteristic::fits(v, f),
        indents_by_blanks(p),
    ensures
        shows(p, typedef_characteristic_page_8(v, p), typedef_characteristic_part_8(v)),
        typedef_characteristic_page_8(v, p).depth == p.depth,
        typedef_characteristic_page_8(v, p).style == p.style,
        all_params(typedef_characteristic_part_8(v)),
{
    reveal(typedef_characteristic_page_8);
    reveal(typedef_characteristic_part_8);
    if v.discrete {
        reveal_strlit("DISCRETE");
        assert(is_keyword("DISCRETE"@));
        lemma_keyword_param("DISCRETE"@);
        lemma_shows_word_line(p, "DISCRETE"@);
        reveal_strlit("DISCRETE");
        assert(is_keyword("DISCRETE"@));
        lemma_keyword_param("DISCRETE"@);
        assert(all_params(seq![plain("DISCRETE"@)]));
        
    } else {
        lemma_shows_nothing(p);
    }
}

proof fn lemma_typedef_characteristic_part_7(v: TypedefCharacteristicView, p: Page, f: Setting)
    requires
        TypedefCharacteristic::fits(v, f),
        indents_by_blanks(p),
    ensures
        shows(p, typedef_characteristic_page_7(v, p), typedef_characteristic_part_7(v)),
        typedef_characteristic_page_7(v, p).depth == p.depth,
        typedef_characteristic_page_7(v, p).style == p.style,
        all_params(typedef_characteristic_part_7(v)),
{
    reveal(typedef_characteristic_page_7);
    reveal(typedef_characteristic_part_7);
    if v.matrix_dim is Some {
        reveal_strlit("MATRIX_DIM");
        assert(is_keyword("MATRIX_DIM"@));
        lemma_keyword_param("MATRIX_DIM"@);
        lemma_spells_ints(v.matrix_dim->Some_0);
        lemma_shows_tagged(p, "MATRIX_DIM"@, listed(v.matrix_dim->Some_0), int_tokens(v.matrix_dim->Some_0));
        reveal_strlit("MATRIX_DIM");
        assert(is_keyword("MATRIX_DIM"@));
        lemma_keyword_param("MATRIX_DIM"@);
        assert(all_params(seq![plain("MATRIX_DIM"@)]));
        lemma_int_params(v.matrix_dim->Some_0);
        lemma_all_params_join(seq![plain("MATRIX_DIM"@)], int_tokens(v.matrix_dim->Some_0));
    } else {
        lemma_shows_nothing(p);
    }
}

proof fn lemma_typedef_characteristic_part_6(v: TypedefCharacteristicView, p: Page, f: Setting)
    requires
        TypedefCharacteristic::fits(v, f),
        indents_by_blanks(p),
    ensures
        shows(p, typedef_characteristic_page_6(v, p), typedef_characteristic_part_6(v)),
        typedef_characteristic_page_6(v, p).depth == p.depth,
        typedef_characteristic_page_6(v, p).style == p.style,
        all_params(typedef_characteristic_part_6(v)),
{
    reveal(typedef_characteristic_page_6);
    reveal(typedef_characteristic_part_6);
    if v.number != 0 {
        reveal_strlit("NUMBER");
        assert(is_keyword("NUMBER"@));
        lemma_keyword_param("NUMBER"@);
        lemma_dec_param(v.number as int);
        lemma_shows_word(p, "NUMBER"@, dec_int(v.number as int));
        reveal_strlit("NUMBER");
        assert(is_keyword("NUMBER"@));
        lemma_keyword_param("NUMBER"@);
        lemma_dec_param(v.number as int);
        assert(all_params(seq![plain("NUMBER"@), plain(dec_int(v.number as int))]));
        
    } else {
        lemma_shows_nothing(p);
    }
}

proof fn lemma_typedef_characteristic_part_5(v: TypedefCharacteristicView, p: Page, f: Setting)
    requires
        TypedefCharacteristic::fits(v, f),
        indents_by_blanks(p),
    ensures
        shows(p, typedef_characteristic_page_5(v, p), typedef_characteristic_part_5(v)),
        typedef_characteristic_page_5(v, p).depth == p.depth,
        typedef_characteristic_page_5(v, p).style == p.style,
        all_params(typedef_characteristic_part_5(v)),
{
    reveal(typedef_characteristic_page_5);
    reveal(typedef_characteristic_part_5);
    if v.bitmask is Some {
        reveal_strlit("BIT_MASK");
        assert(is_keyword("BIT_MASK"@));
        lemma_keyword_param("BIT_MASK"@);
        lemma_hex_param(v.bitmask->Some_0 as nat);
        lemma_shows_word(p, "BIT_MASK"@, hex_form(v.bitmask->Some_0 as nat));
        reveal_strlit("BIT_MASK");
        assert(is_keyword("BIT_MASK"@));
        lemma_keyword_param("BIT_MASK"@);
        lemma_hex_param(v.bitmask->Some_0 as nat);
        assert(all_params(seq![plain("BIT_MASK"@), plain(hex_form(v.bitmask->Some_0 as nat))]));
        
    } else {
        lemma_shows_nothing(p);
    }
}

proof fn lemma_typedef_characteristic_part_4(v: TypedefCharacteristicView, p: Page, f: Setting)
    requires
        TypedefCharacteristic::fits(v, f),
        indents_by_blanks(p),
    ensures
        shows(p, typedef_characteristic_page_4(v, p), typedef_characteristic_part_4(v)),
        typedef_characteristic_page_4(v, p).depth == p.depth,
        typedef_characteristic_page_4(v, p).style == p.style,
        all_params(typedef_characteristic_part_4(v)),
{
    reveal(typedef_characteristic_page_4);
    reveal(typedef_characteristic_part_4);
    if v.rec.step_size is Some {
        reveal_strlit("STEP_SIZE");
        assert(is_keyword("STEP_SIZE"@));
        lemma_keyword_param("STEP_SIZE"@);
        lemma_shows_word(p, "STEP_SIZE"@, v.rec.step_size->Some_0.text);
        reveal_strlit("STEP_SIZE");
        assert(is_keyword("STEP_SIZE"@));
        lemma_keyword_param("STEP_SIZE"@);
        assert(all_params(seq![plain("STEP_SIZE"@), plain(v.rec.step_size->Some_0.text)]));
        
    } else {
        lemma_shows_nothing(p);
    }
}

proof fn lemma_typedef_characteristic_part_3(v: TypedefCharacteristicView, p: Page, f: Setting)
    requires
        TypedefCharacteristic::fits(v, f),
        indents_by_blanks(p),
    ensures
        shows(p, typedef_characteristic_page_3(v, p), typedef_characteristic_part_3(v)),
        typedef_characteristic_page_3(v, p).depth == p.depth,
        typedef_characteristic_page_3(v, p).style == p.style,
        all_params(typedef_characteristic_part_3(v)),
{
    reveal(typedef_characteristic_page_3);
    reveal(typedef_characteristic_part_3);
    if v.rec.extended_limits is Some {
        reveal_strlit("EXTENDED_LIMITS");
        assert(is_keyword("EXTENDED_LIMITS"@));
        lemma_keyword_param("EXTENDED_LIMITS"@);
        let (lo, hi) = v.rec.extended_limits->Some_0;
        reveal_strlit("EXTENDED_LIMITS ");
        reveal_strlit("EXTENDED_LIMITS");
        reveal_strlit(" ");
        assert(
            "EXTENDED_LIMITS "@ + lo.text + " "@ + hi.text =~= "EXTENDED_LIMITS"@ + " "@ + (lo.text + " "@ + hi.text)
        );
        lemma_spells_pair(lo.text, hi.text);
        lemma_shows_tagged(p, "EXTENDED_LIMITS"@, lo.text + " "@ + hi.text, seq![plain(lo.text), plain(hi.text)]);
        assert(
            seq![plain("EXTENDED_LIMITS"@)] + seq![plain(lo.text), plain(hi.text)] =~= seq![
                plain("EXTENDED_LIMITS"@),
                plain(lo.text),
                plain(hi.text)
            ]
        );
        reveal_strlit("EXTENDED_LIMITS");
        assert(is_keyword("EXTENDED_LIMITS"@));
        lemma_keyword_param("EXTENDED_LIMITS"@);
        assert(
            all_params(
                seq![
                    plain("EXTENDED_LIMITS"@),
                    plain(v.rec.extended_limits->Some_0.0.text),
                    plain(v.rec.extended_limits->Some_0.1.text)
                ]
            )
        );
        
    } else {
        lemma_shows_nothing(p);
    }
}

proof fn lemma_typedef_characteristic_part_2(v: TypedefCharacteristicView, p: Page, f: Setting)
    requires
        TypedefCharacteristic::fits(v, f),
        indents_by_blanks(p),
    ensures
        shows(p, typedef_characteristic_page_2(v, p), typedef_characteristic_part_2(v)),
        typedef_characteristic_page_2(v, p).depth == p.depth,
        typedef_characteristic_page_2(v, p).style == p.style,
        all_params(typedef_characteristic_part_2(v)),
{
    reveal(typedef_characteristic_page_2);
    reveal(typedef_characteristic_part_2);
    if v.conv.byte_order.word() is Some {
        reveal_strlit("BYTE_ORDER");
        assert(is_keyword("BYTE_ORDER"@));
        lemma_keyword_param("BYTE_ORDER"@);
        v.conv.byte_order.lemma_word();
        lemma_shows_word(p, "BYTE_ORDER"@, v.conv.byte_order.word()->Some_0);
        reveal_strlit("BYTE_ORDER");
        assert(is_keyword("BYTE_ORDER"@));
        lemma_keyword_param("BYTE_ORDER"@);
        v.conv.byte_order.lemma_word();
        assert(all_params(seq![plain("BYTE_ORDER"@), plain(v.conv.byte_order.word()->Some_0)]));
        
    } else {
        lemma_shows_nothing(p);
    }
}

proof fn lemma_typedef_characteristic_part_1(v: TypedefCharacteristicView, p: Page, f: Setting)
    requires
        TypedefCharacteristic::fits(v, f),
        indents_by_blanks(p),
    ensures
        shows(p, typedef_characteristic_page_1(v, p), typedef_characteristic_part_1(v)),
        typedef_characteristic_page_1(v, p).depth == p.depth,
        typedef_characteristic_page_1(v, p).style == p.style,
        all_params(typedef_characteristic_part_1(v)),
{
    reveal(typedef_characteristic_page_1);
    reveal(typedef_characteristic_part_1);
    if v.conv.phys_unit is Some {
        reveal_strlit("PHYS_UNIT");
        assert(is_keyword("PHYS_UNIT"@));
        lemma_keyword_param("PHYS_UNIT"@);
        lemma_shows_quote(p, "PHYS_UNIT"@, v.conv.phys_unit->Some_0);
        reveal_strlit("PHYS_UNIT");
        assert(is_keyword("PHYS_UNIT"@));
        lemma_keyword_param("PHYS_UNIT"@);
        lemma_string_param(v.conv.phys_unit->Some_0);
        assert(all_params(seq![plain("PHYS_UNIT"@), string(escaped(v.conv.phys_unit->Some_0))]));
        
    } else {
        lemma_shows_nothing(p);
    }
}

proof fn lemma_typedef_characteristic_part_0(v: TypedefCharacteristicView, p: Page, f: Setting)
    requires
        TypedefCharacteristic::fits(v, f),
        indents_by_blanks(p),
    ensures
        shows(p, typedef_characteristic_page_0(v, p), typedef_characteristic_part_0(v)),
        typedef_characteristic_page_0(v, p).depth == p.depth,
        typedef_characteristic_page_0(v, p).style == p.style,
        all_params(typedef_characteristic_part_0(v)),
{
    reveal(typedef_characteristic_page_0);
    reveal(typedef_characteristic_part_0);
    if v.conv.format is Some {
        reveal_strlit("FORMAT");
        assert(is_keyword("FORMAT"@));
        lemma_keyword_param("FORMAT"@);
        lemma_shows_quote(p, "FORMAT"@, v.conv.format->Some_0);
        reveal_strlit("FORMAT");
        assert(is_keyword("FORMAT"@));
        lemma_keyword_param("FORMAT"@);
        lemma_string_param(v.conv.format->Some_0);
        assert(all_params(seq![plain("FORMAT"@), string(escaped(v.conv.format->Some_0))]));
        
    } else {
        lemma_shows_nothing(p);
    }
}

proof fn lemma_typedef_characteristic_shown_10(v: TypedefCharacteristicView, p: Page, f: Setting)
    requires
        TypedefCharacteristic::fits(v, f),
        indents_by_blanks(p),
    ensures
        shows(p, typedef_characteristic_pages_10(v, p), typedef_characteristic_from_10(v)),
        typedef_characteristic_pages_10(v, p).depth == p.depth,
        typedef_characteristic_pages_10(v, p).style == p.style,
        all_params(typedef_characteristic_from_10(v)),
{
    lemma_shows_nothing(p);
}

proof fn lemma_typedef_characteristic_shown_9(v: TypedefCharacteristicView, p: Page, f: Setting)
    requires
        TypedefCharacteristic::fits(v, f),
        indents_by_blanks(p),
    ensures
        shows(p, typedef_characteristic_pages_9(v, p), typedef_characteristic_from_9(v)),
        typedef_characteristic_pages_9(v, p).depth == p.depth,
        typedef_characteristic_pages_9(v, p).style == p.style,
        all_params(typedef_characteristic_from_9(v)),
{
    lemma_typedef_characteristic_part_9(v, p, f);
    let q = typedef_characteristic_page_9(v, p);
    lemma_typedef_characteristic_shown_10(v, q, f);
    lemma_shows_join(
        p,
        q,
        typedef_characteristic_pages_10(v, q),
        typedef_characteristic_part_9(v),
        typedef_characteristic_from_10(v)
    );
    lemma_all_params_join(typedef_characteristic_part_9(v), typedef_characteristic_from_10(v));
}

proof fn lemma_typedef_characteristic_shown_8(v: TypedefCharacteristicView, p: Page, f: Setting)
    requires
        TypedefCharacteristic::fits(v, f),
        indents_by_blanks(p),
    ensures
        shows(p, typedef_characteristic_pages_8(v, p), typedef_characteristic_from_8(v)),
        typedef_characteristic_pages_8(v, p).depth == p.depth,
        typedef_characteristic_pages_8(v, p).style == p.style,
        all_params(typedef_characteristic_from_8(v)),
{
    lemma_typedef_characteristic_part_8(v, p, f);
    let q = typedef_characteristic_page_8(v, p);
    lemma_typedef_characteristic_shown_9(v, q, f);
    lemma_shows_join(
        p,
        q,
        typedef_characteristic_pages_9(v, q),
        typedef_characteristic_part_8(v),
        typedef_characteristic_from_9(v)
    );
    lemma_all_params_join(typedef_characteristic_part_8(v), typedef_characteristic_from_9(v));
}

proof fn lemma_typedef_characteristic_shown_7(v: TypedefCharacteristicView, p: Page, f: Setting)
    requires
        TypedefCharacteristic::fits(v, f),
        indents_by_blanks(p),
    ensures
        shows(p, typedef_characteristic_pages_7(v, p), typedef_characteristic_from_7(v)),
        typedef_characteristic_pages_7(v, p).depth == p.depth,
        typedef_characteristic_pages_7(v, p).style == p.style,
        all_params(typedef_characteristic_from_7(v)),
{
    lemma_typedef_characteristic_part_7(v, p, f);
    let q = typedef_characteristic_page_7(v, p);
    lemma_typedef_characteristic_shown_8(v, q, f);
    lemma_shows_join(
        p,
        q,
        typedef_characteristic_pages_8(v, q),
        typedef_characteristic_part_7(v),
        typedef_characteristic_from_8(v)
    );
    lemma_all_params_join(typedef_characteristic_part_7(v), typedef_characteristic_from_8(v));
}

proof fn lemma_typedef_characteristic_shown_6(v: TypedefCharacteristicView, p: Page, f: Setting)
    requires
        TypedefCharacteristic::fits(v, f),
        indents_by_blanks(p),
    ensures
        shows(p, typedef_characteristic_pages_6(v, p), typedef_characteristic_from_6(v)),
        typedef_characteristic_pages_6(v, p).depth == p.depth,
        typedef_characteristic_pages_6(v, p).style == p.style,
        all_params(typedef_characteristic_from_6(v)),
{
    lemma_typedef_characteristic_part_6(v, p, f);
    let q = typedef_characteristic_page_6(v, p);
    lemma_typedef_characteristic_shown_7(v, q, f);
    lemma_shows_join(
        p,
        q,
        typedef_characteristic_pages_7(v, q),
        typedef_characteristic_part_6(v),
        typedef_characteristic_from_7(v)
    );
    lemma_all_params_join(typedef_characteristic_part_6(v), typedef_characteristic_from_7(v));
}

proof fn lemma_typedef_characteristic_shown_5(v: TypedefCharacteristicView, p: Page, f: Setting)
    requires
        TypedefCharacteristic::fits(v, f),
        indents_by_blanks(p),
    ensures
        shows(p, typedef_characteristic_pages_5(v, p), typedef_characteristic_from_5(v)),
        typedef_characteristic_pages_5(v, p).depth == p.depth,
        typedef_characteristic_pages_5(v, p).style == p.style,
        all_params(typedef_characteristic_from_5(v)),
{
    lemma_typedef_characteristic_part_5(v, p, f);
    let q = typedef_characteristic_page_5(v, p);
    lemma_typedef_characteristic_shown_6(v, q, f);
    lemma_shows_join(
        p,
        q,
        typedef_characteristic_pages_6(v, q),
        typedef_characteristic_part_5(v),
        typedef_characteristic_from_6(v)
    );
    lemma_all_params_join(typedef_characteristic_part_5(v), typedef_characteristic_from_6(v));
}

proof fn lemma_typedef_characteristic_shown_4(v: TypedefCharacteristicView, p: Page, f: Setting)
    requires
        TypedefCharacteristic::fits(v, f),
        indents_by_blanks(p),
    ensures
        shows(p, typedef_characteristic_pages_4(v, p), typedef_characteristic_from_4(v)),
        typedef_characteristic_pages_4(v, p).depth == p.depth,
        typedef_characteristic_pages_4(v, p).style == p.style,
        all_params(typedef_characteristic_from_4(v)),
{
    lemma_typedef_characteristic_part_4(v, p, f);
    let q = typedef_characteristic_page_4(v, p);
    lemma_typedef_characteristic_shown_5(v, q, f);
    lemma_shows_join(
        p,
        q,
        typedef_characteristic_pages_5(v, q),
        typedef_characteristic_part_4(v),
        typedef_characteristic_from_5(v)
    );
    lemma_all_params_join(typedef_characteristic_part_4(v), typedef_characteristic_from_5(v));
}

proof fn lemma_typedef_characteristic_shown_3(v: TypedefCharacteristicView, p: Page, f: Setting)
    requires
        TypedefCharacteristic::fits(v, f),
        indents_by_blanks(p),
    ensures
        shows(p, typedef_characteristic_pages_3(v, p), typedef_characteristic_from_3(v)),
        typedef_characteristic_pages_3(v, p).depth == p.depth,
        typedef_characteristic_pages_3(v, p).style == p.style,
        all_params(typedef_characteristic_from_3(v)),
{
    lemma_typedef_characteristic_part_3(v, p, f);
    let q = typedef_characteristic_page_3(v, p);
    lemma_typedef_characteristic_shown_4(v, q, f);
    lemma_shows_join(
        p,
        q,
        typedef_characteristic_pages_4(v, q),
        typedef_characteristic_part_3(v),
        typedef_characteristic_from_4(v)
    );
    lemma_all_params_join(typedef_characteristic_part_3(v), typedef_characteristic_from_4(v));
}

proof fn lemma_typedef_characteristic_shown_2(v: TypedefCharacteristicView, p: Page, f: Setting)
    requires
        TypedefCharacteristic::fits(v, f),
        indents_by_blanks(p),
    ensures
        shows(p, typedef_characteristic_pages_2(v, p), typedef_characteristic_from_2(v)),
        typedef_characteristic_pages_2(v, p).depth == p.depth,
        typedef_characteristic_pages_2(v, p).style == p.style,
        all_params(typedef_characteristic_from_2(v)),
{
    lemma_typedef_characteristic_part_2(v, p, f);
    let q = typedef_characteristic_page_2(v, p);
    lemma_typedef_characteristic_shown_3(v, q, f);
    lemma_shows_join(
        p,
        q,
        typedef_characteristic_pages_3(v, q),
        typedef_characteristic_part_2(v),
        typedef_characteristic_from_3(v)
    );
    lemma_all_params_join(typedef_characteristic_part_2(v), typedef_characteristic_from_3(v));
}

proof fn lemma_typedef_characteristic_shown_1(v: TypedefCharacteristicView, p: Page, f: Setting)
    requires
        TypedefCharacteristic::fits(v, f),
        indents_by_blanks(p),
    ensures
        shows(p, typedef_characteristic_pages_1(v, p), typedef_characteristic_from_1(v)),
        typedef_characteristic_pages_1(v, p).depth == p.depth,
        typedef_characteristic_pages_1(v, p).style == p.style,
        all_params(typedef_characteristic_from_1(v)),
{
    lemma_typedef_characteristic_part_1(v, p, f);
    let q = typedef_characteristic_page_1(v, p);
    lemma_typedef_characteristic_shown_2(v, q, f);
    lemma_shows_join(
        p,
        q,
        typedef_characteristic_pages_2(v, q),
        typedef_characteristic_part_1(v),
        typedef_characteristic_from_2(v)
    );
    lemma_all_params_join(typedef_characteristic_part_1(v), typedef_characteristic_from_2(v));
}

proof fn lemma_typedef_characteristic_shown_0(v: TypedefCharacteristicView, p: Page, f: Setting)
    requires
        TypedefCharacteristic::fits(v, f),
        indents_by_blanks(p),
    ensures
        shows(p, typedef_characteristic_pages_0(v, p), typedef_characteristic_from_0(v)),
        typedef_characteristic_pages_0(v, p).depth == p.depth,
        typedef_characteristic_pages_0(v, p).style == p.style,
        all_params(typedef_characteristic_from_0(v)),
{
    lemma_typedef_characteristic_part_0(v, p, f);
    let q = typedef_characteristic_page_0(v, p);
    lemma_typedef_characteristic_shown_1(v, q, f);
    lemma_shows_join(
        p,
        q,
        typedef_characteristic_pages_1(v, q),
        typedef_characteristic_part_0(v),
        typedef_characteristic_from_1(v)
    );
    lemma_all_params_join(typedef_characteristic_part_0(v), typedef_characteristic_from_1(v));
}

/// What is written for the parameters at the start.
#[verifier::opaque]
pub open spec fn typedef_characteristic_opening(v: TypedefCharacteristicView, p0: Page) -> Page {
    let p1 = match v.named.description { Some(x) => p0.quote_line(x), None => p0.quote_line(""@) };
    let p2 = p1.line(word_or(v.char_type.word(), "NotSet"@));
    let p3 = if v.rec.record_layout.len() > 0 { p2.line(v.rec.record_layout) } else { p2 };
    let p4 = p3.line(v.rec.max_diff.text);
    let p5 = if v.conv.conversion.len() > 0 { p4.line(v.conv.conversion) } else { p4 };
    let p6 = p5.line(v.conv.lower_limit.text + " "@ + v.conv.upper_limit.text);
    p6
}

proof fn lemma_typedef_characteristic_opening(v: TypedefCharacteristicView, p0: Page, f: Setting)
    requires
        TypedefCharacteristic::fits(v, f),
        indents_by_blanks(p0),
    ensures
        shows(
            p0,
            typedef_characteristic_opening(v, p0),
            seq![
                string(escaped(v.named.description->Some_0)),
                plain(v.char_type.word()->Some_0),
                plain(v.rec.record_layout),
                plain(v.rec.max_diff.text),
                plain(v.conv.conversion),
                plain(v.conv.lower_limit.text),
                plain(v.conv.upper_limit.text)
            ]
        ),
        typedef_characteristic_opening(v, p0).depth == p0.depth,
        typedef_characteristic_opening(v, p0).style == p0.style,
        all_params(typedef_characteristic_head(v)),
{
    reveal(typedef_characteristic_opening);
    lemma_shows_nothing(p0);
    let x0 = Seq::<Tok>::empty();
    let p1 = match v.named.description { Some(x) => p0.quote_line(x), None => p0.quote_line(""@) };
    assert(
        shows(
            p0,
            p1,
            seq![string(escaped(v.named.description->Some_0))]
        ) && p1.depth == p0.depth && p1.style == p0.style
    ) by {
        let p = p0;
        lemma_shows_quote_line(p, v.named.description->Some_0);
    }
    lemma_shows_join(p0, p0, p1, x0, seq![string(escaped(v.named.description->Some_0))]);
    let x1 = x0 + seq![string(escaped(v.named.description->Some_0))];
    let p2 = p1.line(word_or(v.char_type.word(), "NotSet"@));
    assert(
        shows(
            p1,
            p2,
            seq![plain(v.char_type.word()->Some_0)]
        ) && p2.depth == p1.depth && p2.style == p1.style
    ) by {
        let p = p1;
        v.char_type.lemma_word();
        lemma_shows_word_line(p, v.char_type.word()->Some_0);
    }
    lemma_shows_join(p0, p1, p2, x1, seq![plain(v.char_type.word()->Some_0)]);
    let x2 = x1 + seq![plain(v.char_type.word()->Some_0)];
    let p3 = if v.rec.record_layout.len() > 0 { p2.line(v.rec.record_layout) } else { p2 };
    assert(shows(p2, p3, seq![plain(v.rec.record_layout)]) && p3.depth == p2.depth && p3.style == p2.style) by {
        let p = p2;
        lemma_shows_word_line(p, v.rec.record_layout);
    }
    lemma_shows_join(p0, p2, p3, x2, seq![plain(v.rec.record_layout)]);
    let x3 = x2 + seq![plain(v.rec.record_layout)];
    let p4 = p3.line(v.rec.max_diff.text);
    assert(shows(p3, p4, seq![plain(v.rec.max_diff.text)]) && p4.depth == p3.depth && p4.style == p3.style) by {
        let p = p3;
        lemma_shows_word_line(p, v.rec.max_diff.text);
    }
    lemma_shows_join(p0, p3, p4, x3, seq![plain(v.rec.max_diff.text)]);
    let x4 = x3 + seq![plain(v.rec.max_diff.text)];
    let p5 = if v.conv.conversion.len() > 0 { p4.line(v.conv.conversion) } else { p4 };
    assert(shows(p4, p5, seq![plain(v.conv.conversion)]) && p5.depth == p4.depth && p5.style == p4.style) by {
        let p = p4;
        lemma_shows_word_line(p, v.conv.conversion);
    }
    lemma_shows_join(p0, p4, p5, x4, seq![plain(v.conv.conversion)]);
    let x5 = x4 + seq![plain(v.conv.conversion)];
    let p6 = p5.line(v.conv.lower_limit.text + " "@ + v.conv.upper_limit.text);
    assert(
        shows(
            p5,
            p6,
            seq![plain(v.conv.lower_limit.text), plain(v.conv.upper_limit.text)]
        ) && p6.depth == p5.depth && p6.style == p5.style
    ) by {
        let p = p5;
        lemma_spells_pair(v.conv.lower_limit.text, v.conv.upper_limit.text);
        lemma_shows_line(
            p,
            v.conv.lower_limit.text + " "@ + v.conv.upper_limit.text,
            seq![plain(v.conv.lower_limit.text), plain(v.conv.upper_limit.text)]
        );
    }
    lemma_shows_join(p0, p5, p6, x5, seq![plain(v.conv.lower_limit.text), plain(v.conv.upper_limit.text)]);
    let x6 = x5 + seq![plain(v.conv.lower_limit.text), plain(v.conv.upper_limit.text)];
    assert(
        x6 =~= seq![
            string(escaped(v.named.description->Some_0)),
            plain(v.char_type.word()->Some_0),
            plain(v.rec.record_layout),
            plain(v.rec.max_diff.text),
            plain(v.conv.conversion),
            plain(v.conv.lower_limit.text),
            plain(v.conv.upper_limit.text)
        ]
    );
    lemma_string_param(v.named.description->Some_0);
    v.char_type.lemma_word();
}

proof fn lemma_typedef_characteristic_body(v: TypedefCharacteristicView, p: Page, f: Setting)
    requires
        TypedefCharacteristic::fits(v, f),
    ensures
        TypedefCharacteristic::body(v, p) == Ok::<Page, Stopped>(
            typedef_characteristic_pages_0(v, typedef_characteristic_opening(v, p))
        ),
{
    reveal(typedef_characteristic_opening);
    let q0 = typedef_characteristic_opening(v, p);
    let q1 = match v.conv.format { Some(x) if x.len() > 0 => q0.quote("FORMAT"@, x), _ => q0 };
    assert(q1 == typedef_characteristic_page_0(v, q0)) by {
        reveal(typedef_characteristic_page_0);
    }
    let q2 = match v.conv.phys_unit { Some(x) if x.len() > 0 => q1.quote("PHYS_UNIT"@, x), _ => q1 };
    assert(q2 == typedef_characteristic_page_1(v, q1)) by {
        reveal(typedef_characteristic_page_1);
    }
    let q3 = match v.conv.byte_order.word() { Some(kw) => q2.word("BYTE_ORDER"@, kw), None => q2 };
    assert(q3 == typedef_characteristic_page_2(v, q2)) by {
        reveal(typedef_characteristic_page_2);
    }
    let q4 = match v.rec.extended_limits {
        Some((lo, hi)) => q3.line("EXTENDED_LIMITS "@ + lo.text + " "@ + hi.text),
        None => q3
    };
    assert(q4 == typedef_characteristic_page_3(v, q3)) by {
        reveal(typedef_characteristic_page_3);
    }
    let q5 = match v.rec.step_size { Some(x) => q4.word("STEP_SIZE"@, x.text), None => q4 };
    assert(q5 == typedef_characteristic_page_4(v, q4)) by {
        reveal(typedef_characteristic_page_4);
    }
    let q6 = match v.bitmask { Some(x) => q5.word("BIT_MASK"@, hex_form(x as nat)), None => q5 };
    assert(q6 == typedef_characteristic_page_5(v, q5)) by {
        reveal(typedef_characteristic_page_5);
    }
    let q7 = if v.number != 0 { q6.word("NUMBER"@, dec_int(v.number as int)) } else { q6 };
    assert(q7 == typedef_characteristic_page_6(v, q6)) by {
        reveal(typedef_characteristic_page_6);
    }
    let q8 = match v.matrix_dim { Some(x) => q7.word("MATRIX_DIM"@, listed(x)), None => q7 };
    assert(q8 == typedef_characteristic_page_7(v, q7)) by {
        reveal(typedef_characteristic_page_7);
    }
    let q9 = if v.discrete { q8.line("DISCRETE"@) } else { q8 };
    assert(q9 == typedef_characteristic_page_8(v, q8)) by {
        reveal(typedef_characteristic_page_8);
    }
    let q10 = if v.encoding != EncodingType::ASCII {
        match v.encoding.word() { Some(kw) => q9.word("ENCODING"@, kw), None => q9 }
    } else { q9 };
    assert(q10 == typedef_characteristic_page_9(v, q9)) by {
        reveal(typedef_characteristic_page_9);
    }
}

proof fn lemma_typedef_characteristic_head(v: TypedefCharacteristicView, c: Cur, f: Setting)
    requires
        TypedefCharacteristic::fits(v, f),
        tokens_at(c.toks, c.pos, typedef_characteristic_head(v)),
        toks_numbered(c.toks, f),
    ensures
        TypedefCharacteristic::head(c) == Ok::<(TypedefCharacteristicView, Cur), Failure>(
            (
                TypedefCharacteristicView {
                    conv: ConversionRefFieldsView {
                        format: None,
                        phys_unit: None,
                        byte_order: ByteOrder::NotSet,
                        ..v.conv
                    },
                    rec: RecordLayoutRefFieldsView {
                        extended_limits: None,
                        step_size: None,
                        ..v.rec
                    },
                    bitmask: None,
                    number: 0,
                    matrix_dim: None,
                    discrete: false,
                    encoding: EncodingType::ASCII,
                    ..v
                },
                Cur { pos: c.pos + 8, ..c }
            ),
        ),
{
    law_unescaped_of_escaped(v.named.description->Some_0);
    v.char_type.law_named_of_word();
    assert(bare(c.toks[c.pos + 0]) == typedef_characteristic_head(v)[0]);
    assert(bare(c.toks[c.pos + 1]) == typedef_characteristic_head(v)[1]);
    assert(bare(c.toks[c.pos + 2]) == typedef_characteristic_head(v)[2]);
    assert(bare(c.toks[c.pos + 3]) == typedef_characteristic_head(v)[3]);
    assert(bare(c.toks[c.pos + 4]) == typedef_characteristic_head(v)[4]);
    assert(bare(c.toks[c.pos + 5]) == typedef_characteristic_head(v)[5]);
    assert(bare(c.toks[c.pos + 6]) == typedef_characteristic_head(v)[6]);
    assert(bare(c.toks[c.pos + 7]) == typedef_characteristic_head(v)[7]);
}

proof fn lemma_typedef_characteristic_step_0(
    w: TypedefCharacteristicView,
    v: TypedefCharacteristicView,
    c: Cur,
    f: Setting
)
    requires
        TypedefCharacteristic::fits(v, f),
        v.conv.format is Some,
        tokens_at(c.toks, c.pos, seq![plain("FORMAT"@), string(escaped(v.conv.format->Some_0))]),
        toks_numbered(c.toks, f),
    ensures
        TypedefCharacteristic::option(w, c) == Ok::<(TypedefCharacteristicView, Cur), Failure>(
            (
                TypedefCharacteristicView {
                    conv: ConversionRefFieldsView { format: v.conv.format, ..w.conv },
                    ..w
                },
                Cur { pos: c.pos + 2, ..c }
            ),
        ),
{
    reveal_strlit("FORMAT");
    reveal_strlit("DISCRETE");
    lemma_differ("FORMAT"@, "DISCRETE"@, 0);
    reveal_strlit("ENCODING");
    lemma_differ("FORMAT"@, "ENCODING"@, 0);
    reveal_strlit("BIT_MASK");
    lemma_differ("FORMAT"@, "BIT_MASK"@, 0);
    lemma_same("FORMAT"@);
    assert(bare(c.toks[c.pos + 0]) == (seq![plain("FORMAT"@), string(escaped(v.conv.format->Some_0))])[0]);
    assert(bare(c.toks[c.pos + 1]) == (seq![plain("FORMAT"@), string(escaped(v.conv.format->Some_0))])[1]);
    law_unescaped_of_escaped(v.conv.format->Some_0);
}

proof fn lemma_typedef_characteristic_step_1(
    w: TypedefCharacteristicView,
    v: TypedefCharacteristicView,
    c: Cur,
    f: Setting
)
    requires
        TypedefCharacteristic::fits(v, f),
        v.conv.phys_unit is Some,
        tokens_at(c.toks, c.pos, seq![plain("PHYS_UNIT"@), string(escaped(v.conv.phys_unit->Some_0))]),
        toks_numbered(c.toks, f),
    ensures
        TypedefCharacteristic::option(w, c) == Ok::<(TypedefCharacteristicView, Cur), Failure>(
            (
                TypedefCharacteristicView {
                    conv: ConversionRefFieldsView { phys_unit: v.conv.phys_unit, ..w.conv },
                    ..w
                },
                Cur { pos: c.pos + 2, ..c }
            ),
        ),
{
    reveal_strlit("PHYS_UNIT");
    reveal_strlit("DISCRETE");
    lemma_differ("PHYS_UNIT"@, "DISCRETE"@, 0);
    reveal_strlit("ENCODING");
    lemma_differ("PHYS_UNIT"@, "ENCODING"@, 0);
    reveal_strlit("BIT_MASK");
    lemma_differ("PHYS_UNIT"@, "BIT_MASK"@, 0);
    reveal_strlit("FORMAT");
    lemma_differ("PHYS_UNIT"@, "FORMAT"@, 0);
    reveal_strlit("NUMBER");
    lemma_differ("PHYS_UNIT"@, "NUMBER"@, 0);
    lemma_same("PHYS_UNIT"@);
    assert(bare(c.toks[c.pos + 0]) == (seq![plain("PHYS_UNIT"@), string(escaped(v.conv.phys_unit->Some_0))])[0]);
    assert(bare(c.toks[c.pos + 1]) == (seq![plain("PHYS_UNIT"@), string(escaped(v.conv.phys_unit->Some_0))])[1]);
    law_unescaped_of_escaped(v.conv.phys_unit->Some_0);
}

proof fn lemma_typedef_characteristic_step_2(
    w: TypedefCharacteristicView,
    v: TypedefCharacteristicView,
    c: Cur,
    f: Setting
)
    requires
        TypedefCharacteristic::fits(v, f),
        v.conv.byte_order.word() is Some,
        tokens_at(c.toks, c.pos, seq![plain("BYTE_ORDER"@), plain(v.conv.byte_order.word()->Some_0)]),
        toks_numbered(c.toks, f),
    ensures
        TypedefCharacteristic::option(w, c) == Ok::<(TypedefCharacteristicView, Cur), Failure>(
            (
                TypedefCharacteristicView {
                    conv: ConversionRefFieldsView { byte_order: v.conv.byte_order, ..w.conv },
                    ..w
                },
                Cur { pos: c.pos + 2, ..c }
            ),
        ),
{
    reveal_strlit("BYTE_ORDER");
    reveal_strlit("DISCRETE");
    lemma_differ("BYTE_ORDER"@, "DISCRETE"@, 0);
    reveal_strlit("ENCODING");
    lemma_differ("BYTE_ORDER"@, "ENCODING"@, 0);
    reveal_strlit("BIT_MASK");
    lemma_differ("BYTE_ORDER"@, "BIT_MASK"@, 0);
    reveal_strlit("FORMAT");
    lemma_differ("BYTE_ORDER"@, "FORMAT"@, 0);
    reveal_strlit("NUMBER");
    lemma_differ("BYTE_ORDER"@, "NUMBER"@, 0);
    reveal_strlit("PHYS_UNIT");
    lemma_differ("BYTE_ORDER"@, "PHYS_UNIT"@, 0);
    reveal_strlit("STEP_SIZE");
    lemma_differ("BYTE_ORDER"@, "STEP_SIZE"@, 0);
    lemma_same("BYTE_ORDER"@);
    assert(bare(c.toks[c.pos + 0]) == (seq![plain("BYTE_ORDER"@), plain(v.conv.byte_order.word()->Some_0)])[0]);
    assert(bare(c.toks[c.pos + 1]) == (seq![plain("BYTE_ORDER"@), plain(v.conv.byte_order.word()->Some_0)])[1]);
    v.conv.byte_order.law_named_of_word();
    v.conv.byte_order.lemma_word();
}

proof fn lemma_typedef_characteristic_step_3(
    w: TypedefCharacteristicView,
    v: TypedefCharacteristicView,
    c: Cur,
    f: Setting
)
    requires
        TypedefCharacteristic::fits(v, f),
        v.rec.extended_limits is Some,
        tokens_at(
            c.toks,
            c.pos,
            seq![
                plain("EXTENDED_LIMITS"@),
                plain(v.rec.extended_limits->Some_0.0.text),
                plain(v.rec.extended_limits->Some_0.1.text)
            ]
        ),
        toks_numbered(c.toks, f),
    ensures
        TypedefCharacteristic::option(w, c) == Ok::<(TypedefCharacteristicView, Cur), Failure>(
            (
                TypedefCharacteristicView {
                    rec: RecordLayoutRefFieldsView {
                        extended_limits: v.rec.extended_limits,
                        ..w.rec
                    },
                    ..w
                },
                Cur { pos: c.pos + 3, ..c }
            ),
        ),
{
    reveal_strlit("EXTENDED_LIMITS");
    reveal_strlit("DISCRETE");
    lemma_differ("EXTENDED_LIMITS"@, "DISCRETE"@, 0);
    reveal_strlit("ENCODING");
    lemma_differ("EXTENDED_LIMITS"@, "ENCODING"@, 0);
    reveal_strlit("BIT_MASK");
    lemma_differ("EXTENDED_LIMITS"@, "BIT_MASK"@, 0);
    reveal_strlit("FORMAT");
    lemma_differ("EXTENDED_LIMITS"@, "FORMAT"@, 0);
    reveal_strlit("NUMBER");
    lemma_differ("EXTENDED_LIMITS"@, "NUMBER"@, 0);
    reveal_strlit("PHYS_UNIT");
    lemma_differ("EXTENDED_LIMITS"@, "PHYS_UNIT"@, 0);
    reveal_strlit("STEP_SIZE");
    lemma_differ("EXTENDED_LIMITS"@, "STEP_SIZE"@, 0);
    reveal_strlit("BYTE_ORDER");
    lemma_differ("EXTENDED_LIMITS"@, "BYTE_ORDER"@, 0);
    reveal_strlit("MATRIX_DIM");
    lemma_differ("EXTENDED_LIMITS"@, "MATRIX_DIM"@, 0);
    lemma_same("EXTENDED_LIMITS"@);
    assert(
        bare(c.toks[c.pos + 0]) == (
            seq![
                plain("EXTENDED_LIMITS"@),
                plain(v.rec.extended_limits->Some_0.0.text),
                plain(v.rec.extended_limits->Some_0.1.text)
            ]
        )[0]
    );
    assert(
        bare(c.toks[c.pos + 1]) == (
            seq![
                plain("EXTENDED_LIMITS"@),
                plain(v.rec.extended_limits->Some_0.0.text),
                plain(v.rec.extended_limits->Some_0.1.text)
            ]
        )[1]
    );
    assert(
        bare(c.toks[c.pos + 2]) == (
            seq![
                plain("EXTENDED_LIMITS"@),
                plain(v.rec.extended_limits->Some_0.0.text),
                plain(v.rec.extended_limits->Some_0.1.text)
            ]
        )[2]
    );
    
}

proof fn lemma_typedef_characteristic_step_4(
    w: TypedefCharacteristicView,
    v: TypedefCharacteristicView,
    c: Cur,
    f: Setting
)
    requires
        TypedefCharacteristic::fits(v, f),
        v.rec.step_size is Some,
        tokens_at(c.toks, c.pos, seq![plain("STEP_SIZE"@), plain(v.rec.step_size->Some_0.text)]),
        toks_numbered(c.toks, f),
    ensures
        TypedefCharacteristic::option(w, c) == Ok::<(TypedefCharacteristicView, Cur), Failure>(
            (
                TypedefCharacteristicView {
                    rec: RecordLayoutRefFieldsView { step_size: v.rec.step_size, ..w.rec },
                    ..w
                },
                Cur { pos: c.pos + 2, ..c }
            ),
        ),
{
    reveal_strlit("STEP_SIZE");
    reveal_strlit("DISCRETE");
    lemma_differ("STEP_SIZE"@, "DISCRETE"@, 0);
    reveal_strlit("ENCODING");
    lemma_differ("STEP_SIZE"@, "ENCODING"@, 0);
    reveal_strlit("BIT_MASK");
    lemma_differ("STEP_SIZE"@, "BIT_MASK"@, 0);
    reveal_strlit("FORMAT");
    lemma_differ("STEP_SIZE"@, "FORMAT"@, 0);
    reveal_strlit("NUMBER");
    lemma_differ("STEP_SIZE"@, "NUMBER"@, 0);
    reveal_strlit("PHYS_UNIT");
    lemma_differ("STEP_SIZE"@, "PHYS_UNIT"@, 0);
    lemma_same("STEP_SIZE"@);
    assert(bare(c.toks[c.pos + 0]) == (seq![plain("STEP_SIZE"@), plain(v.rec.step_size->Some_0.text)])[0]);
    assert(bare(c.toks[c.pos + 1]) == (seq![plain("STEP_SIZE"@), plain(v.rec.step_size->Some_0.text)])[1]);
    
}

proof fn lemma_typedef_characteristic_step_5(
    w: TypedefCharacteristicView,
    v: TypedefCharacteristicView,
    c: Cur,
    f: Setting
)
    requires
        TypedefCharacteristic::fits(v, f),
        v.bitmask is Some,
        tokens_at(c.toks, c.pos, seq![plain("BIT_MASK"@), plain(hex_form(v.bitmask->Some_0 as nat))]),
        toks_numbered(c.toks, f),
    ensures
        TypedefCharacteristic::option(w, c) == Ok::<(TypedefCharacteristicView, Cur), Failure>(
            (TypedefCharacteristicView { bitmask: v.bitmask, ..w }, Cur { pos: c.pos + 2, ..c }),
        ),
{
    reveal_strlit("BIT_MASK");
    reveal_strlit("DISCRETE");
    lemma_differ("BIT_MASK"@, "DISCRETE"@, 0);
    reveal_strlit("ENCODING");
    lemma_differ("BIT_MASK"@, "ENCODING"@, 0);
    lemma_same("BIT_MASK"@);
    assert(bare(c.toks[c.pos + 0]) == (seq![plain("BIT_MASK"@), plain(hex_form(v.bitmask->Some_0 as nat))])[0]);
    assert(bare(c.toks[c.pos + 1]) == (seq![plain("BIT_MASK"@), plain(hex_form(v.bitmask->Some_0 as nat))])[1]);
    law_integer_of_hex(v.bitmask->Some_0 as nat);
}

proof fn lemma_typedef_characteristic_step_6(
    w: TypedefCharacteristicView,
    v: TypedefCharacteristicView,
    c: Cur,
    f: Setting
)
    requires
        TypedefCharacteristic::fits(v, f),
        v.number != 0,
        tokens_at(c.toks, c.pos, seq![plain("NUMBER"@), plain(dec_int(v.number as int))]),
        toks_numbered(c.toks, f),
    ensures
        TypedefCharacteristic::option(w, c) == Ok::<(TypedefCharacteristicView, Cur), Failure>(
            (TypedefCharacteristicView { number: v.number, ..w }, Cur { pos: c.pos + 2, ..c }),
        ),
{
    reveal_strlit("NUMBER");
    reveal_strlit("DISCRETE");
    lemma_differ("NUMBER"@, "DISCRETE"@, 0);
    reveal_strlit("ENCODING");
    lemma_differ("NUMBER"@, "ENCODING"@, 0);
    reveal_strlit("BIT_MASK");
    lemma_differ("NUMBER"@, "BIT_MASK"@, 0);
    reveal_strlit("FORMAT");
    lemma_differ("NUMBER"@, "FORMAT"@, 0);
    lemma_same("NUMBER"@);
    assert(bare(c.toks[c.pos + 0]) == (seq![plain("NUMBER"@), plain(dec_int(v.number as int))])[0]);
    assert(bare(c.toks[c.pos + 1]) == (seq![plain("NUMBER"@), plain(dec_int(v.number as int))])[1]);
    law_integer_of_dec(v.number as int);
}

proof fn lemma_typedef_characteristic_step_7(
    w: TypedefCharacteristicView,
    v: TypedefCharacteristicView,
    c: Cur,
    f: Setting
)
    requires
        TypedefCharacteristic::fits(v, f),
        v.matrix_dim is Some,
        tokens_at(c.toks, c.pos, seq![plain("MATRIX_DIM"@)] + int_tokens(v.matrix_dim->Some_0)),
        toks_numbered(c.toks, f),
        no_int_at(c.toks, c.pos + 1 + int_tokens(v.matrix_dim->Some_0).len()) || v.matrix_dim->Some_0.len() == 5,
    ensures
        TypedefCharacteristic::option(w, c) == Ok::<(TypedefCharacteristicView, Cur), Failure>(
            (
                TypedefCharacteristicView { matrix_dim: v.matrix_dim, ..w },
                Cur { pos: c.pos + 1 + int_tokens(v.matrix_dim->Some_0).len(), ..c }
            ),
        ),
{
    reveal_strlit("MATRIX_DIM");
    reveal_strlit("DISCRETE");
    lemma_differ("MATRIX_DIM"@, "DISCRETE"@, 0);
    reveal_strlit("ENCODING");
    lemma_differ("MATRIX_DIM"@, "ENCODING"@, 0);
    reveal_strlit("BIT_MASK");
    lemma_differ("MATRIX_DIM"@, "BIT_MASK"@, 0);
    reveal_strlit("FORMAT");
    lemma_differ("MATRIX_DIM"@, "FORMAT"@, 0);
    reveal_strlit("NUMBER");
    lemma_differ("MATRIX_DIM"@, "NUMBER"@, 0);
    reveal_strlit("PHYS_UNIT");
    lemma_differ("MATRIX_DIM"@, "PHYS_UNIT"@, 0);
    reveal_strlit("STEP_SIZE");
    lemma_differ("MATRIX_DIM"@, "STEP_SIZE"@, 0);
    reveal_strlit("BYTE_ORDER");
    lemma_differ("MATRIX_DIM"@, "BYTE_ORDER"@, 0);
    lemma_same("MATRIX_DIM"@);
    assert(bare(c.toks[c.pos + 0]) == (seq![plain("MATRIX_DIM"@)] + int_tokens(v.matrix_dim->Some_0))[0]);
    lemma_tokens_at_split(c.toks, c.pos, seq![plain("MATRIX_DIM"@)], int_tokens(v.matrix_dim->Some_0));
    lemma_dims_read(c.step(), v.matrix_dim->Some_0);
}

proof fn lemma_typedef_characteristic_step_8(
    w: TypedefCharacteristicView,
    v: TypedefCharacteristicView,
    c: Cur,
    f: Setting
)
    requires
        TypedefCharacteristic::fits(v, f),
        v.discrete,
        tokens_at(c.toks, c.pos, seq![plain("DISCRETE"@)]),
        toks_numbered(c.toks, f),
    ensures
        TypedefCharacteristic::option(w, c) == Ok::<(TypedefCharacteristicView, Cur), Failure>(
            (TypedefCharacteristicView { discrete: v.discrete, ..w }, Cur { pos: c.pos + 1, ..c }),
        ),
{
    reveal_strlit("DISCRETE");
    lemma_same("DISCRETE"@);
    assert(bare(c.toks[c.pos + 0]) == (seq![plain("DISCRETE"@)])[0]);
    
}

proof fn lemma_typedef_characteristic_step_9(
    w: TypedefCharacteristicView,
    v: TypedefCharacteristicView,
    c: Cur,
    f: Setting
)
    requires
        TypedefCharacteristic::fits(v, f),
        v.encoding != EncodingType::ASCII,
        tokens_at(c.toks, c.pos, seq![plain("ENCODING"@), plain(v.encoding.word()->Some_0)]),
        toks_numbered(c.toks, f),
    ensures
        TypedefCharacteristic::option(w, c) == Ok::<(TypedefCharacteristicView, Cur), Failure>(
            (TypedefCharacteristicView { encoding: v.encoding, ..w }, Cur { pos: c.pos + 2, ..c }),
        ),
{
    reveal_strlit("ENCODING");
    reveal_strlit("DISCRETE");
    lemma_differ("ENCODING"@, "DISCRETE"@, 0);
    lemma_same("ENCODING"@);
    assert(bare(c.toks[c.pos + 0]) == (seq![plain("ENCODING"@), plain(v.encoding.word()->Some_0)])[0]);
    assert(bare(c.toks[c.pos + 1]) == (seq![plain("ENCODING"@), plain(v.encoding.word()->Some_0)])[1]);
    v.encoding.law_named_of_word();
    v.encoding.lemma_word();
}

proof fn lemma_typedef_characteristic_read_10(v: TypedefCharacteristicView, c: Cur, f: Setting)
    requires
        TypedefCharacteristic::fits(v, f),
        tokens_at(c.toks, c.pos, typedef_characteristic_from_10(v)),
        c.pos + typedef_characteristic_from_10(v).len() == c.toks.len(),
        toks_numbered(c.toks, f),
    ensures
        TypedefCharacteristic::options(v, c) matches Ok((w, _)) && w == (v),
{
}

proof fn lemma_typedef_characteristic_next_10(v: TypedefCharacteristicView, c: Cur)
    requires
        tokens_at(c.toks, c.pos, typedef_characteristic_from_10(v)),
        c.pos + typedef_characteristic_from_10(v).len() == c.toks.len(),
    ensures
        no_int_at(c.toks, c.pos),
{
}

proof fn lemma_typedef_characteristic_read_9(v: TypedefCharacteristicView, c: Cur, f: Setting)
    requires
        TypedefCharacteristic::fits(v, f),
        tokens_at(c.toks, c.pos, typedef_characteristic_from_9(v)),
        c.pos + typedef_characteristic_from_9(v).len() == c.toks.len(),
        toks_numbered(c.toks, f),
    ensures
        TypedefCharacteristic::options(
            TypedefCharacteristicView { encoding: EncodingType::ASCII, ..v },
            c
        ) matches Ok((w, _)) && w == (v),
{
    reveal(typedef_characteristic_part_9);
    let t = typedef_characteristic_part_9(v);
    if v.encoding != EncodingType::ASCII {
        lemma_tokens_at_split(c.toks, c.pos, t, typedef_characteristic_from_10(v));
        let c2 = Cur { pos: c.pos + 2, ..c };
        lemma_typedef_characteristic_step_9(
            TypedefCharacteristicView { encoding: EncodingType::ASCII, ..v },
            v,
            c,
            f
        );
        lemma_typedef_characteristic_read_10(v, c2, f);
    } else {
        assert(t + typedef_characteristic_from_10(v) =~= typedef_characteristic_from_10(v));
        lemma_typedef_characteristic_read_10(v, c, f);
    }
}

proof fn lemma_typedef_characteristic_next_9(v: TypedefCharacteristicView, c: Cur)
    requires
        tokens_at(c.toks, c.pos, typedef_characteristic_from_9(v)),
        c.pos + typedef_characteristic_from_9(v).len() == c.toks.len(),
    ensures
        no_int_at(c.toks, c.pos),
{
    reveal(typedef_characteristic_part_9);
    if v.encoding != EncodingType::ASCII {
        assert(bare(c.toks[c.pos + 0]) == typedef_characteristic_from_9(v)[0]);
        reveal_strlit("ENCODING");
        lemma_no_int("ENCODING"@);
    } else {
        assert(typedef_characteristic_from_9(v) =~= typedef_characteristic_from_10(v));
        lemma_typedef_characteristic_next_10(v, c);
    }
}

proof fn lemma_typedef_characteristic_read_8(v: TypedefCharacteristicView, c: Cur, f: Setting)
    requires
        TypedefCharacteristic::fits(v, f),
        tokens_at(c.toks, c.pos, typedef_characteristic_from_8(v)),
        c.pos + typedef_characteristic_from_8(v).len() == c.toks.len(),
        toks_numbered(c.toks, f),
    ensures
        TypedefCharacteristic::options(
            TypedefCharacteristicView { discrete: false, encoding: EncodingType::ASCII, ..v },
            c
        ) matches Ok((w, _)) && w == (v),
{
    reveal(typedef_characteristic_part_8);
    let t = typedef_characteristic_part_8(v);
    if v.discrete {
        lemma_tokens_at_split(c.toks, c.pos, t, typedef_characteristic_from_9(v));
        let c2 = Cur { pos: c.pos + 1, ..c };
        lemma_typedef_characteristic_step_8(
            TypedefCharacteristicView { discrete: false, encoding: EncodingType::ASCII, ..v },
            v,
            c,
            f
        );
        lemma_typedef_characteristic_read_9(v, c2, f);
    } else {
        assert(t + typedef_characteristic_from_9(v) =~= typedef_characteristic_from_9(v));
        lemma_typedef_characteristic_read_9(v, c, f);
    }
}

proof fn lemma_typedef_characteristic_next_8(v: TypedefCharacteristicView, c: Cur)
    requires
        tokens_at(c.toks, c.pos, typedef_characteristic_from_8(v)),
        c.pos + typedef_characteristic_from_8(v).len() == c.toks.len(),
    ensures
        no_int_at(c.toks, c.pos),
{
    reveal(typedef_characteristic_part_8);
    if v.discrete {
        assert(bare(c.toks[c.pos + 0]) == typedef_characteristic_from_8(v)[0]);
        reveal_strlit("DISCRETE");
        lemma_no_int("DISCRETE"@);
    } else {
        assert(typedef_characteristic_from_8(v) =~= typedef_characteristic_from_9(v));
        lemma_typedef_characteristic_next_9(v, c);
    }
}

proof fn lemma_typedef_characteristic_read_7(v: TypedefCharacteristicView, c: Cur, f: Setting)
    requires
        TypedefCharacteristic::fits(v, f),
        tokens_at(c.toks, c.pos, typedef_characteristic_from_7(v)),
        c.pos + typedef_characteristic_from_7(v).len() == c.toks.len(),
        toks_numbered(c.toks, f),
    ensures
        TypedefCharacteristic::options(
            TypedefCharacteristicView {
                matrix_dim: None,
                discrete: false,
                encoding: EncodingType::ASCII,
                ..v
            },
            c
        ) matches Ok((w, _)) && w == (v),
{
    reveal(typedef_characteristic_part_7);
    let t = typedef_characteristic_part_7(v);
    if v.matrix_dim is Some {
        lemma_tokens_at_split(c.toks, c.pos, t, typedef_characteristic_from_8(v));
        let c2 = Cur { pos: c.pos + 1 + int_tokens(v.matrix_dim->Some_0).len(), ..c };
        lemma_typedef_characteristic_next_8(v, c2);
        lemma_typedef_characteristic_step_7(
            TypedefCharacteristicView {
                matrix_dim: None,
                discrete: false,
                encoding: EncodingType::ASCII,
                ..v
            },
            v,
            c,
            f
        );
        lemma_typedef_characteristic_read_8(v, c2, f);
    } else {
        assert(t + typedef_characteristic_from_8(v) =~= typedef_characteristic_from_8(v));
        lemma_typedef_characteristic_read_8(v, c, f);
    }
}

proof fn lemma_typedef_characteristic_read_6(v: TypedefCharacteristicView, c: Cur, f: Setting)
    requires
        TypedefCharacteristic::fits(v, f),
        tokens_at(c.toks, c.pos, typedef_characteristic_from_6(v)),
        c.pos + typedef_characteristic_from_6(v).len() == c.toks.len(),
        toks_numbered(c.toks, f),
    ensures
        TypedefCharacteristic::options(
            TypedefCharacteristicView {
                number: 0,
                matrix_dim: None,
                discrete: false,
                encoding: EncodingType::ASCII,
                ..v
            },
            c
        ) matches Ok((w, _)) && w == (v),
{
    reveal(typedef_characteristic_part_6);
    let t = typedef_characteristic_part_6(v);
    if v.number != 0 {
        lemma_tokens_at_split(c.toks, c.pos, t, typedef_characteristic_from_7(v));
        let c2 = Cur { pos: c.pos + 2, ..c };
        lemma_typedef_characteristic_step_6(
            TypedefCharacteristicView {
                number: 0,
                matrix_dim: None,
                discrete: false,
                encoding: EncodingType::ASCII,
                ..v
            },
            v,
            c,
            f
        );
        lemma_typedef_characteristic_read_7(v, c2, f);
    } else {
        assert(t + typedef_characteristic_from_7(v) =~= typedef_characteristic_from_7(v));
        lemma_typedef_characteristic_read_7(v, c, f);
    }
}

proof fn lemma_typedef_characteristic_read_5(v: TypedefCharacteristicView, c: Cur, f: Setting)
    requires
        TypedefCharacteristic::fits(v, f),
        tokens_at(c.toks, c.pos, typedef_characteristic_from_5(v)),
        c.pos + typedef_characteristic_from_5(v).len() == c.toks.len(),
        toks_numbered(c.toks, f),
    ensures
        TypedefCharacteristic::options(
            TypedefCharacteristicView {
                bitmask: None,
                number: 0,
                matrix_dim: None,
                discrete: false,
                encoding: EncodingType::ASCII,
                ..v
            },
            c
        ) matches Ok((w, _)) && w == (v),
{
    reveal(typedef_characteristic_part_5);
    let t = typedef_characteristic_part_5(v);
    if v.bitmask is Some {
        lemma_tokens_at_split(c.toks, c.pos, t, typedef_characteristic_from_6(v));
        let c2 = Cur { pos: c.pos + 2, ..c };
        lemma_typedef_characteristic_step_5(
            TypedefCharacteristicView {
                bitmask: None,
                number: 0,
                matrix_dim: None,
                discrete: false,
                encoding: EncodingType::ASCII,
                ..v
            },
            v,
            c,
            f
        );
        lemma_typedef_characteristic_read_6(v, c2, f);
    } else {
        assert(t + typedef_characteristic_from_6(v) =~= typedef_characteristic_from_6(v));
        lemma_typedef_characteristic_read_6(v, c, f);
    }
}

proof fn lemma_typedef_characteristic_read_4(v: TypedefCharacteristicView, c: Cur, f: Setting)
    requires
        TypedefCharacteristic::fits(v, f),
        tokens_at(c.toks, c.pos, typedef_characteristic_from_4(v)),
        c.pos + typedef_characteristic_from_4(v).len() == c.toks.len(),
        toks_numbered(c.toks, f),
    ensures
        TypedefCharacteristic::options(
            TypedefCharacteristicView {
                rec: RecordLayoutRefFieldsView { step_size: None, ..v.rec },
                bitmask: None,
                number: 0,
                matrix_dim: None,
                discrete: false,
                encoding: EncodingType::ASCII,
                ..v
            },
            c
        ) matches Ok((w, _)) && w == (v),
{
    reveal(typedef_characteristic_part_4);
    let t = typedef_characteristic_part_4(v);
    if v.rec.step_size is Some {
        lemma_tokens_at_split(c.toks, c.pos, t, typedef_characteristic_from_5(v));
        let c2 = Cur { pos: c.pos + 2, ..c };
        lemma_typedef_characteristic_step_4(
            TypedefCharacteristicView {
                rec: RecordLayoutRefFieldsView { step_size: None, ..v.rec },
                bitmask: None,
                number: 0,
                matrix_dim: None,
                discrete: false,
                encoding: EncodingType::ASCII,
                ..v
            },
            v,
            c,
            f
        );
        lemma_typedef_characteristic_read_5(v, c2, f);
    } else {
        assert(t + typedef_characteristic_from_5(v) =~= typedef_characteristic_from_5(v));
        lemma_typedef_characteristic_read_5(v, c, f);
    }
}

proof fn lemma_typedef_characteristic_read_3(v: TypedefCharacteristicView, c: Cur, f: Setting)
    requires
        TypedefCharacteristic::fits(v, f),
        tokens_at(c.toks, c.pos, typedef_characteristic_from_3(v)),
        c.pos + typedef_characteristic_from_3(v).len() == c.toks.len(),
        toks_numbered(c.toks, f),
    ensures
        TypedefCharacteristic::options(
            TypedefCharacteristicView {
                rec: RecordLayoutRefFieldsView { extended_limits: None, step_size: None, ..v.rec },
                bitmask: None,
                number: 0,
                matrix_dim: None,
                discrete: false,
                encoding: EncodingType::ASCII,
                ..v
            },
            c
        ) matches Ok((w, _)) && w == (v),
{
    reveal(typedef_characteristic_part_3);
    let t = typedef_characteristic_part_3(v);
    if v.rec.extended_limits is Some {
        lemma_tokens_at_split(c.toks, c.pos, t, typedef_characteristic_from_4(v));
        let c2 = Cur { pos: c.pos + 3, ..c };
        lemma_typedef_characteristic_step_3(
            TypedefCharacteristicView {
                rec: RecordLayoutRefFieldsView { extended_limits: None, step_size: None, ..v.rec },
                bitmask: None,
                number: 0,
                matrix_dim: None,
                discrete: false,
                encoding: EncodingType::ASCII,
                ..v
            },
            v,
            c,
            f
        );
        lemma_typedef_characteristic_read_4(v, c2, f);
    } else {
        assert(t + typedef_characteristic_from_4(v) =~= typedef_characteristic_from_4(v));
        lemma_typedef_characteristic_read_4(v, c, f);
    }
}

proof fn lemma_typedef_characteristic_read_2(v: TypedefCharacteristicView, c: Cur, f: Setting)
    requires
        TypedefCharacteristic::fits(v, f),
        tokens_at(c.toks, c.pos, typedef_characteristic_from_2(v)),
        c.pos + typedef_characteristic_from_2(v).len() == c.toks.len(),
        toks_numbered(c.toks, f),
    ensures
        TypedefCharacteristic::options(
            TypedefCharacteristicView {
                conv: ConversionRefFieldsView { byte_order: ByteOrder::NotSet, ..v.conv },
                rec: RecordLayoutRefFieldsView { extended_limits: None, step_size: None, ..v.rec },
                bitmask: None,
                number: 0,
                matrix_dim: None,
                discrete: false,
                encoding: EncodingType::ASCII,
                ..v
            },
            c
        ) matches Ok((w, _)) && w == (v),
{
    reveal(typedef_characteristic_part_2);
    let t = typedef_characteristic_part_2(v);
    if v.conv.byte_order.word() is Some {
        lemma_tokens_at_split(c.toks, c.pos, t, typedef_characteristic_from_3(v));
        let c2 = Cur { pos: c.pos + 2, ..c };
        lemma_typedef_characteristic_step_2(
            TypedefCharacteristicView {
                conv: ConversionRefFieldsView { byte_order: ByteOrder::NotSet, ..v.conv },
                rec: RecordLayoutRefFieldsView { extended_limits: None, step_size: None, ..v.rec },
                bitmask: None,
                number: 0,
                matrix_dim: None,
                discrete: false,
                encoding: EncodingType::ASCII,
                ..v
            },
            v,
            c,
            f
        );
        lemma_typedef_characteristic_read_3(v, c2, f);
    } else {
        assert(t + typedef_characteristic_from_3(v) =~= typedef_characteristic_from_3(v));
        lemma_typedef_characteristic_read_3(v, c, f);
    }
}

proof fn lemma_typedef_characteristic_read_1(v: TypedefCharacteristicView, c: Cur, f: Setting)
    requires
        TypedefCharacteristic::fits(v, f),
        tokens_at(c.toks, c.pos, typedef_characteristic_from_1(v)),
        c.pos + typedef_characteristic_from_1(v).len() == c.toks.len(),
        toks_numbered(c.toks, f),
    ensures
        TypedefCharacteristic::options(
            TypedefCharacteristicView {
                conv: ConversionRefFieldsView {
                    phys_unit: None,
                    byte_order: ByteOrder::NotSet,
                    ..v.conv
                },
                rec: RecordLayoutRefFieldsView { extended_limits: None, step_size: None, ..v.rec },
                bitmask: None,
                number: 0,
                matrix_dim: None,
                discrete: false,
                encoding: EncodingType::ASCII,
                ..v
            },
            c
        ) matches Ok((w, _)) && w == (v),
{
    reveal(typedef_characteristic_part_1);
    let t = typedef_characteristic_part_1(v);
    if v.conv.phys_unit is Some {
        lemma_tokens_at_split(c.toks, c.pos, t, typedef_characteristic_from_2(v));
        let c2 = Cur { pos: c.pos + 2, ..c };
        lemma_typedef_characteristic_step_1(
            TypedefCharacteristicView {
                conv: ConversionRefFieldsView {
                    phys_unit: None,
                    byte_order: ByteOrder::NotSet,
                    ..v.conv
                },
                rec: RecordLayoutRefFieldsView { extended_limits: None, step_size: None, ..v.rec },
                bitmask: None,
                number: 0,
                matrix_dim: None,
                discrete: false,
                encoding: EncodingType::ASCII,
                ..v
            },
            v,
            c,
            f
        );
        lemma_typedef_characteristic_read_2(v, c2, f);
    } else {
        assert(t + typedef_characteristic_from_2(v) =~= typedef_characteristic_from_2(v));
        lemma_typedef_characteristic_read_2(v, c, f);
    }
}

proof fn lemma_typedef_characteristic_read_0(v: TypedefCharacteristicView, c: Cur, f: Setting)
    requires
        TypedefCharacteristic::fits(v, f),
        tokens_at(c.toks, c.pos, typedef_characteristic_from_0(v)),
        c.pos + typedef_characteristic_from_0(v).len() == c.toks.len(),
        toks_numbered(c.toks, f),
    ensures
        TypedefCharacteristic::options(
            TypedefCharacteristicView {
                conv: ConversionRefFieldsView {
                    format: None,
                    phys_unit: None,
                    byte_order: ByteOrder::NotSet,
                    ..v.conv
                },
                rec: RecordLayoutRefFieldsView { extended_limits: None, step_size: None, ..v.rec },
                bitmask: None,
                number: 0,
                matrix_dim: None,
                discrete: false,
                encoding: EncodingType::ASCII,
                ..v
            },
            c
        ) matches Ok((w, _)) && w == (v),
{
    reveal(typedef_characteristic_part_0);
    let t = typedef_characteristic_part_0(v);
    if v.conv.format is Some {
        lemma_tokens_at_split(c.toks, c.pos, t, typedef_characteristic_from_1(v));
        let c2 = Cur { pos: c.pos + 2, ..c };
        lemma_typedef_characteristic_step_0(
            TypedefCharacteristicView {
                conv: ConversionRefFieldsView {
                    format: None,
                    phys_unit: None,
                    byte_order: ByteOrder::NotSet,
                    ..v.conv
                },
                rec: RecordLayoutRefFieldsView { extended_limits: None, step_size: None, ..v.rec },
                bitmask: None,
                number: 0,
                matrix_dim: None,
                discrete: false,
                encoding: EncodingType::ASCII,
                ..v
            },
            v,
            c,
            f
        );
        lemma_typedef_characteristic_read_1(v, c2, f);
    } else {
        assert(t + typedef_characteristic_from_1(v) =~= typedef_characteristic_from_1(v));
        lemma_typedef_characteristic_read_1(v, c, f);
    }
}

impl Faithful for TypedefCharacteristic {
    open spec fn fits(v: TypedefCharacteristicView, f: Setting) -> bool {
        &&& is_param(plain(v.named.name))
        &&& v.named.description is Some
        &&& v.char_type.word() is Some
        &&& is_param(plain(v.rec.record_layout))
        &&& num_fits(v.rec.max_diff, f)
        &&& is_param(plain(v.conv.conversion))
        &&& num_fits(v.conv.lower_limit, f) && num_fits(v.conv.upper_limit, f) && num_min(
            v.conv.lower_limit,
            v.conv.upper_limit
        ) == v.conv.lower_limit && num_max(v.conv.lower_limit, v.conv.upper_limit) == v.conv.upper_limit
        &&& (v.conv.format matches Some(x) ==> x.len() > 0)
        &&& (v.conv.phys_unit matches Some(x) ==> x.len() > 0)
        &&& (
            v.rec.extended_limits matches Some(x) ==> num_fits(x.0, f) && num_fits(x.1, f) && num_min(x.0, x.1) == x.0 && num_max(x.0, x.1) == x.1
        )
        &&& (v.rec.step_size matches Some(x) ==> num_fits(x, f))
        &&& (v.matrix_dim matches Some(x) ==> 0 < x.len() <= 5)
        &&& v.conv.memory_segment_ref is None
        &&& v.rec.read_only == false
        &&& v.rec.guard_rails == false
    }

    open spec fn shape(v: TypedefCharacteristicView) -> Tree {
        shape_of(
            "TYPEDEF_CHARACTERISTIC"@,
            typedef_characteristic_head(v) + typedef_characteristic_from_0(v),
            Seq::empty()
        )
    }

    proof fn law_shown(v: TypedefCharacteristicView, p: Page, f: Setting) {
        reveal_strlit("TYPEDEF_CHARACTERISTIC");
        lemma_keyword_word("TYPEDEF_CHARACTERISTIC"@);
        reveal_strlit("TYPEDEF_CHARACTERISTIC ");
        reveal_strlit(" ");
        assert("TYPEDEF_CHARACTERISTIC "@ + v.named.name =~= "TYPEDEF_CHARACTERISTIC"@ + " "@ + v.named.name);
        lemma_spells_word("TYPEDEF_CHARACTERISTIC"@);
        lemma_spells_word(v.named.name);
        lemma_spells_join(
            "TYPEDEF_CHARACTERISTIC"@,
            seq![plain("TYPEDEF_CHARACTERISTIC"@)],
            v.named.name,
            seq![plain(v.named.name)]
        );
        let h = seq![plain(v.named.name)];
        crate::a2l::tree_laws::lemma_shows_begin(
            p,
            "TYPEDEF_CHARACTERISTIC "@ + v.named.name,
            seq![plain("TYPEDEF_CHARACTERISTIC"@)] + h
        );
        let p0 = p.begin("TYPEDEF_CHARACTERISTIC "@ + v.named.name);
        lemma_typedef_characteristic_body(v, p0, f);
        lemma_typedef_characteristic_opening(v, p0, f);
        let p1 = typedef_characteristic_opening(v, p0);
        lemma_typedef_characteristic_shown_0(v, p1, f);
        let p2 = typedef_characteristic_pages_0(v, p1);
        let hx = seq![
            string(escaped(v.named.description->Some_0)),
            plain(v.char_type.word()->Some_0),
            plain(v.rec.record_layout),
            plain(v.rec.max_diff.text),
            plain(v.conv.conversion),
            plain(v.conv.lower_limit.text),
            plain(v.conv.upper_limit.text)
        ];
        let from = typedef_characteristic_from_0(v);
        lemma_shows_join(p0, p1, p2, hx, from);
        let q = p2;
        let kids = Seq::<Tree>::empty();
        let y = Seq::<Tok>::empty();
        assert(blocks_tokens(kids, 0) =~= y);
        assert(hx + from + y =~= hx + from);
        let x = typedef_characteristic_head(v) + from;
        lemma_shape_tokens(x, kids);
        lemma_all_params_join(typedef_characteristic_head(v), from);
        lemma_sound_shape("TYPEDEF_CHARACTERISTIC"@, x, kids);
        assert(typedef_characteristic_head(v) =~= h + hx);
        assert(h + (hx + from + y) =~= x + y);
        lemma_shows_block(
            p,
            "TYPEDEF_CHARACTERISTIC "@ + v.named.name,
            h,
            "TYPEDEF_CHARACTERISTIC"@,
            q,
            hx + from + y,
            Self::shape(v)
        );
    }

    proof fn law_parsed(v: TypedefCharacteristicView, tree: Tree, f: Setting) {
        let x = typedef_characteristic_head(v) + typedef_characteristic_from_0(v);
        let kids = Seq::<Tree>::empty();
        lemma_shape_found(tree, "TYPEDEF_CHARACTERISTIC"@, x, kids, f);
        let c = Cur::start(tree);
        lemma_tokens_at_split(c.toks, 0, typedef_characteristic_head(v), typedef_characteristic_from_0(v));
        lemma_typedef_characteristic_head(v, c, f);
        let c1 = Cur { pos: 8, ..c };
        lemma_typedef_characteristic_read_0(v, c1, f);
    }
}

/// The parameters at the start of the block.
pub open spec fn typedef_measurement_head(v: TypedefMeasurementView) -> Seq<Tok> {
    seq![
        plain(v.named.name),
        string(escaped(v.named.description->Some_0)),
        plain(v.data_type.word()->Some_0),
        plain(v.conv.conversion),
        plain(dec_int(v.resolution as int)),
        plain(v.accuracy.text),
        plain(v.conv.lower_limit.text),
        plain(v.conv.upper_limit.text)
    ]
}

/// The parameters of `FORMAT`.
#[verifier::opaque]
pub open spec fn typedef_measurement_part_0(v: TypedefMeasurementView) -> Seq<Tok> {
    if v.conv.format is Some {
        seq![plain("FORMAT"@), string(escaped(v.conv.format->Some_0))]
    } else { Seq::<Tok>::empty() }
}

/// The parameters from `FORMAT` on.
pub open spec fn typedef_measurement_from_0(v: TypedefMeasurementView) -> Seq<Tok> {
    typedef_measurement_part_0(v) + typedef_measurement_from_1(v)
}

/// What is written for `FORMAT`.
#[verifier::opaque]
pub open spec fn typedef_measurement_page_0(v: TypedefMeasurementView, p: Page) -> Page {
    match v.conv.format { Some(x) if x.len() > 0 => p.quote("FORMAT"@, x), _ => p }
}

/// What is written from `FORMAT` on.
pub open spec fn typedef_measurement_pages_0(v: TypedefMeasurementView, p: Page) -> Page {
    typedef_measurement_pages_1(v, typedef_measurement_page_0(v, p))
}

/// The parameters of `PHYS_UNIT`.
#[verifier::opaque]
pub open spec fn typedef_measurement_part_1(v: TypedefMeasurementView) -> Seq<Tok> {
    if v.conv.phys_unit is Some {
        seq![plain("PHYS_UNIT"@), string(escaped(v.conv.phys_unit->Some_0))]
    } else { Seq::<Tok>::empty() }
}

/// The parameters from `PHYS_UNIT` on.
pub open spec fn typedef_measurement_from_1(v: TypedefMeasurementView) -> Seq<Tok> {
    typedef_measurement_part_1(v) + typedef_measurement_from_2(v)
}

/// What is written for `PHYS_UNIT`.
#[verifier::opaque]
pub open spec fn typedef_measurement_page_1(v: TypedefMeasurementView, p: Page) -> Page {
    match v.conv.phys_unit { Some(x) if x.len() > 0 => p.quote("PHYS_UNIT"@, x), _ => p }
}

/// What is written from `PHYS_UNIT` on.
pub open spec fn typedef_measurement_pages_1(v: TypedefMeasurementView, p: Page) -> Page {
    typedef_measurement_pages_2(v, typedef_measurement_page_1(v, p))
}

/// The parameters of `BYTE_ORDER`.
#[verifier::opaque]
pub open spec fn typedef_measurement_part_2(v: TypedefMeasurementView) -> Seq<Tok> {
    if v.conv.byte_order.word() is Some {
        seq![plain("BYTE_ORDER"@), plain(v.conv.byte_order.word()->Some_0)]
    } else { Seq::<Tok>::empty() }
}

/// The parameters from `BYTE_ORDER` on.
pub open spec fn typedef_measurement_from_2(v: TypedefMeasurementView) -> Seq<Tok> {
    typedef_measurement_part_2(v) + typedef_measurement_from_3(v)
}

/// What is written for `BYTE_ORDER`.
#[verifier::opaque]
pub open spec fn typedef_measurement_page_2(v: TypedefMeasurementView, p: Page) -> Page {
    match v.conv.byte_order.word() { Some(kw) => p.word("BYTE_ORDER"@, kw), None => p }
}

/// What is written from `BYTE_ORDER` on.
pub open spec fn typedef_measurement_pages_2(v: TypedefMeasurementView, p: Page) -> Page {
    typedef_measurement_pages_3(v, typedef_measurement_page_2(v, p))
}

/// The parameters of `LAYOUT`.
#[verifier::opaque]
pub open spec fn typedef_measurement_part_3(v: TypedefMeasurementView) -> Seq<Tok> {
    if v.layout.word() is Some {
        seq![plain("LAYOUT"@), plain(v.layout.word()->Some_0)]
    } else { Seq::<Tok>::empty() }
}

/// The parameters from `LAYOUT` on.
pub open spec fn typedef_measurement_from_3(v: TypedefMeasurementView) -> Seq<Tok> {
    typedef_measurement_part_3(v) + typedef_measurement_from_4(v)
}

/// What is written for `LAYOUT`.
#[verifier::opaque]
pub open spec fn typedef_measurement_page_3(v: TypedefMeasurementView, p: Page) -> Page {
    match v.layout.word() { Some(kw) => p.word("LAYOUT"@, kw), None => p }
}

/// What is written from `LAYOUT` on.
pub open spec fn typedef_measurement_pages_3(v: TypedefMeasurementView, p: Page) -> Page {
    typedef_measurement_pages_4(v, typedef_measurement_page_3(v, p))
}

/// The parameters of `BIT_MASK`.
#[verifier::opaque]
pub open spec fn typedef_measurement_part_4(v: TypedefMeasurementView) -> Seq<Tok> {
    if v.bit_mask is Some {
        seq![plain("BIT_MASK"@), plain(hex_form(v.bit_mask->Some_0 as nat))]
    } else { Seq::<Tok>::empty() }
}

/// The parameters from `BIT_MASK` on.
pub open spec fn typedef_measurement_from_4(v: TypedefMeasurementView) -> Seq<Tok> {
    typedef_measurement_part_4(v) + typedef_measurement_from_5(v)
}

/// What is written for `BIT_MASK`.
#[verifier::opaque]
pub open spec fn typedef_measurement_page_4(v: TypedefMeasurementView, p: Page) -> Page {
    match v.bit_mask { Some(x) => p.word("BIT_MASK"@, hex_form(x as nat)), None => p }
}

/// What is written from `BIT_MASK` on.
pub open spec fn typedef_measurement_pages_4(v: TypedefMeasurementView, p: Page) -> Page {
    typedef_measurement_pages_5(v, typedef_measurement_page_4(v, p))
}

/// The parameters of `ERROR_MASK`.
#[verifier::opaque]
pub open spec fn typedef_measurement_part_5(v: TypedefMeasurementView) -> Seq<Tok> {
    if v.error_mask != 0 {
        seq![plain("ERROR_MASK"@), plain(hex_form(v.error_mask as nat))]
    } else { Seq::<Tok>::empty() }
}

/// The parameters from `ERROR_MASK` on.
pub open spec fn typedef_measurement_from_5(v: TypedefMeasurementView) -> Seq<Tok> {
    typedef_measurement_part_5(v) + typedef_measurement_from_6(v)
}

/// What is written for `ERROR_MASK`.
#[verifier::opaque]
pub open spec fn typedef_measurement_page_5(v: TypedefMeasurementView, p: Page) -> Page {
    if v.error_mask != 0 { p.word("ERROR_MASK"@, hex_form(v.error_mask as nat)) } else { p }
}

/// What is written from `ERROR_MASK` on.
pub open spec fn typedef_measurement_pages_5(v: TypedefMeasurementView, p: Page) -> Page {
    typedef_measurement_pages_6(v, typedef_measurement_page_5(v, p))
}

/// The parameters of `DISCRETE`.
#[verifier::opaque]
pub open spec fn typedef_measurement_part_6(v: TypedefMeasurementView) -> Seq<Tok> {
    if v.discrete { seq![plain("DISCRETE"@)] } else { Seq::<Tok>::empty() }
}

/// The parameters from `DISCRETE` on.
pub open spec fn typedef_measurement_from_6(v: TypedefMeasurementView) -> Seq<Tok> {
    typedef_measurement_part_6(v) + typedef_measurement_from_7(v)
}

/// What is written for `DISCRETE`.
#[verifier::opaque]
pub open spec fn typedef_measurement_page_6(v: TypedefMeasurementView, p: Page) -> Page {
    if v.discrete { p.line("DISCRETE"@) } else { p }
}

/// What is written from `DISCRETE` on.
pub open spec fn typedef_measurement_pages_6(v: TypedefMeasurementView, p: Page) -> Page {
    typedef_measurement_pages_7(v, typedef_measurement_page_6(v, p))
}

/// The parameters of `MATRIX_DIM`.
#[verifier::opaque]
pub open spec fn typedef_measurement_part_7(v: TypedefMeasurementView) -> Seq<Tok> {
    if v.matrix_dim is Some {
        seq![plain("MATRIX_DIM"@)] + int_tokens(v.matrix_dim->Some_0)
    } else { Seq::<Tok>::empty() }
}

/// The parameters from `MATRIX_DIM` on.
pub open spec fn typedef_measurement_from_7(v: TypedefMeasurementView) -> Seq<Tok> {
    typedef_measurement_part_7(v) + typedef_measurement_from_8(v)
}

/// What is written for `MATRIX_DIM`.
#[verifier::opaque]
pub open spec fn typedef_measurement_page_7(v: TypedefMeasurementView, p: Page) -> Page {
    match v.matrix_dim { Some(x) => p.word("MATRIX_DIM"@, listed(x)), None => p }
}

/// What is written from `MATRIX_DIM` on.
pub open spec fn typedef_measurement_pages_7(v: TypedefMeasurementView, p: Page) -> Page {
    typedef_measurement_pages_8(v, typedef_measurement_page_7(v, p))
}

/// The parameters of `ADDRESS_TYPE`.
#[verifier::opaque]
pub open spec fn typedef_measurement_part_8(v: TypedefMeasurementView) -> Seq<Tok> {
    if v.addr_type != AddrType::DIRECT {
        seq![plain("ADDRESS_TYPE"@), plain(v.addr_type.word()->Some_0)]
    } else { Seq::<Tok>::empty() }
}

/// The parameters from `ADDRESS_TYPE` on.
pub open spec fn typedef_measurement_from_8(v: TypedefMeasurementView) -> Seq<Tok> {
    typedef_measurement_part_8(v) + typedef_measurement_from_9(v)
}

/// What is written for `ADDRESS_TYPE`.
#[verifier::opaque]
pub open spec fn typedef_measurement_page_8(v: TypedefMeasurementView, p: Page) -> Page {
    if v.addr_type != AddrType::DIRECT {
        match v.addr_type.word() { Some(kw) => p.word("ADDRESS_TYPE"@, kw), None => p }
    } else { p }
}

/// What is written from `ADDRESS_TYPE` on.
pub open spec fn typedef_measurement_pages_8(v: TypedefMeasurementView, p: Page) -> Page {
    typedef_measurement_pages_9(v, typedef_measurement_page_8(v, p))
}

/// The parameters behind the last keyword.
pub open spec fn typedef_measurement_from_9(v: TypedefMeasurementView) -> Seq<Tok> {
    Seq::empty()
}

/// What is written behind the last keyword.
pub open spec fn typedef_measurement_pages_9(v: TypedefMeasurementView, p: Page) -> Page {
    p
}

proof fn lemma_typedef_measurement_part_8(v: TypedefMeasurementView, p: Page, f: Setting)
    requires
        TypedefMeasurement::fits(v, f),
        indents_by_blanks(p),
    ensures
        shows(p, typedef_measurement_page_8(v, p), typedef_measurement_part_8(v)),
        typedef_measurement_page_8(v, p).depth == p.depth,
        typedef_measurement_page_8(v, p).style == p.style,
        all_params(typedef_measurement_part_8(v)),
{
    reveal(typedef_measurement_page_8);
    reveal(typedef_measurement_part_8);
    if v.addr_type != AddrType::DIRECT {
        reveal_strlit("ADDRESS_TYPE");
        assert(is_keyword("ADDRESS_TYPE"@));
        lemma_keyword_param("ADDRESS_TYPE"@);
        v.addr_type.lemma_word();
        lemma_shows_word(p, "ADDRESS_TYPE"@, v.addr_type.word()->Some_0);
        reveal_strlit("ADDRESS_TYPE");
        assert(is_keyword("ADDRESS_TYPE"@));
        lemma_keyword_param("ADDRESS_TYPE"@);
        v.addr_type.lemma_word();
        assert(all_params(seq![plain("ADDRESS_TYPE"@), plain(v.addr_type.word()->Some_0)]));
        
    } else {
        lemma_shows_nothing(p);
    }
}

proof fn lemma_typedef_measurement_part_7(v: TypedefMeasurementView, p: Page, f: Setting)
    requires
        TypedefMeasurement::fits(v, f),
        indents_by_blanks(p),
    ensures
        shows(p, typedef_measurement_page_7(v, p), typedef_measurement_part_7(v)),
        typedef_measurement_page_7(v, p).depth == p.depth,
        typedef_measurement_page_7(v, p).style == p.style,
        all_params(typedef_measurement_part_7(v)),
{
    reveal(typedef_measurement_page_7);
    reveal(typedef_measurement_part_7);
    if v.matrix_dim is Some {
        reveal_strlit("MATRIX_DIM");
        assert(is_keyword("MATRIX_DIM"@));
        lemma_keyword_param("MATRIX_DIM"@);
        lemma_spells_ints(v.matrix_dim->Some_0);
        lemma_shows_tagged(p, "MATRIX_DIM"@, listed(v.matrix_dim->Some_0), int_tokens(v.matrix_dim->Some_0));
        reveal_strlit("MATRIX_DIM");
        assert(is_keyword("MATRIX_DIM"@));
        lemma_keyword_param("MATRIX_DIM"@);
        assert(all_params(seq![plain("MATRIX_DIM"@)]));
        lemma_int_params(v.matrix_dim->Some_0);
        lemma_all_params_join(seq![plain("MATRIX_DIM"@)], int_tokens(v.matrix_dim->Some_0));
    } else {
        lemma_shows_nothing(p);
    }
}

proof fn lemma_typedef_measurement_part_6(v: TypedefMeasurementView, p: Page, f: Setting)
    requires
        TypedefMeasurement::fits(v, f),
        indents_by_blanks(p),
    ensures
        shows(p, typedef_measurement_page_6(v, p), typedef_measurement_part_6(v)),
        typedef_measurement_page_6(v, p).depth == p.depth,
        typedef_measurement_page_6(v, p).style == p.style,
        all_params(typedef_measurement_part_6(v)),
{
    reveal(typedef_measurement_page_6);
    reveal(typedef_measurement_part_6);
    if v.discrete {
        reveal_strlit("DISCRETE");
        assert(is_keyword("DISCRETE"@));
        lemma_keyword_param("DISCRETE"@);
        lemma_shows_word_line(p, "DISCRETE"@);
        reveal_strlit("DISCRETE");
        assert(is_keyword("DISCRETE"@));
        lemma_keyword_param("DISCRETE"@);
        assert(all_params(seq![plain("DISCRETE"@)]));
        
    } else {
        lemma_shows_nothing(p);
    }
}

proof fn lemma_typedef_measurement_part_5(v: TypedefMeasurementView, p: Page, f: Setting)
    requires
        TypedefMeasurement::fits(v, f),
        indents_by_blanks(p),
    ensures
        shows(p, typedef_measurement_page_5(v, p), typedef_measurement_part_5(v)),
        typedef_measurement_page_5(v, p).depth == p.depth,
        typedef_measurement_page_5(v, p).style == p.style,
        all_params(typedef_measurement_part_5(v)),
{
    reveal(typedef_measurement_page_5);
    reveal(typedef_measurement_part_5);
    if v.error_mask != 0 {
        reveal_strlit("ERROR_MASK");
        assert(is_keyword("ERROR_MASK"@));
        lemma_keyword_param("ERROR_MASK"@);
        lemma_hex_param(v.error_mask as nat);
        lemma_shows_word(p, "ERROR_MASK"@, hex_form(v.error_mask as nat));
        reveal_strlit("ERROR_MASK");
        assert(is_keyword("ERROR_MASK"@));
        lemma_keyword_param("ERROR_MASK"@);
        lemma_hex_param(v.error_mask as nat);
        assert(all_params(seq![plain("ERROR_MASK"@), plain(hex_form(v.error_mask as nat))]));
        
    } else {
        lemma_shows_nothing(p);
    }
}

proof fn lemma_typedef_measurement_part_4(v: TypedefMeasurementView, p: Page, f: Setting)
    requires
        TypedefMeasurement::fits(v, f),
        indents_by_blanks(p),
    ensures
        shows(p, typedef_measurement_page_4(v, p), typedef_measurement_part_4(v)),
        typedef_measurement_page_4(v, p).depth == p.depth,
        typedef_measurement_page_4(v, p).style == p.style,
        all_params(typedef_measurement_part_4(v)),
{
    reveal(typedef_measurement_page_4);
    reveal(typedef_measurement_part_4);
    if v.bit_mask is Some {
        reveal_strlit("BIT_MASK");
        assert(is_keyword("BIT_MASK"@));
        lemma_keyword_param("BIT_MASK"@);
        lemma_hex_param(v.bit_mask->Some_0 as nat);
        lemma_shows_word(p, "BIT_MASK"@, hex_form(v.bit_mask->Some_0 as nat));
        reveal_strlit("BIT_MASK");
        assert(is_keyword("BIT_MASK"@));
        lemma_keyword_param("BIT_MASK"@);
        lemma_hex_param(v.bit_mask->Some_0 as nat);
        assert(all_params(seq![plain("BIT_MASK"@), plain(hex_form(v.bit_mask->Some_0 as nat))]));
        
    } else {
        lemma_shows_nothing(p);
    }
}

proof fn lemma_typedef_measurement_part_3(v: TypedefMeasurementView, p: Page, f: Setting)
    requires
        TypedefMeasurement::fits(v, f),
        indents_by_blanks(p),
    ensures
        shows(p, typedef_measurement_page_3(v, p), typedef_measurement_part_3(v)),
        typedef_measurement_page_3(v, p).depth == p.depth,
        typedef_measurement_page_3(v, p).style == p.style,
        all_params(typedef_measurement_part_3(v)),
{
    reveal(typedef_measurement_page_3);
    reveal(typedef_measurement_part_3);
    if v.layout.word() is Some {
        reveal_strlit("LAYOUT");
        assert(is_keyword("LAYOUT"@));
        lemma_keyword_param("LAYOUT"@);
        v.layout.lemma_word();
        lemma_shows_word(p, "LAYOUT"@, v.layout.word()->Some_0);
        reveal_strlit("LAYOUT");
        assert(is_keyword("LAYOUT"@));
        lemma_keyword_param("LAYOUT"@);
        v.layout.lemma_word();
        assert(all_params(seq![plain("LAYOUT"@), plain(v.layout.word()->Some_0)]));
        
    } else {
        lemma_shows_nothing(p);
    }
}

proof fn lemma_typedef_measurement_part_2(v: TypedefMeasurementView, p: Page, f: Setting)
    requires
        TypedefMeasurement::fits(v, f),
        indents_by_blanks(p),
    ensures
        shows(p, typedef_measurement_page_2(v, p), typedef_measurement_part_2(v)),
        typedef_measurement_page_2(v, p).depth == p.depth,
        typedef_measurement_page_2(v, p).style == p.style,
        all_params(typedef_measurement_part_2(v)),
{
    reveal(typedef_measurement_page_2);
    reveal(typedef_measurement_part_2);
    if v.conv.byte_order.word() is Some {
        reveal_strlit("BYTE_ORDER");
        assert(is_keyword("BYTE_ORDER"@));
        lemma_keyword_param("BYTE_ORDER"@);
        v.conv.byte_order.lemma_word();
        lemma_shows_word(p, "BYTE_ORDER"@, v.conv.byte_order.word()->Some_0);
        reveal_strlit("BYTE_ORDER");
        assert(is_keyword("BYTE_ORDER"@));
        lemma_keyword_param("BYTE_ORDER"@);
        v.conv.byte_order.lemma_word();
        assert(all_params(seq![plain("BYTE_ORDER"@), plain(v.conv.byte_order.word()->Some_0)]));
        
    } else {
        lemma_shows_nothing(p);
    }
}

proof fn lemma_typedef_measurement_part_1(v: TypedefMeasurementView, p: Page, f: Setting)
    requires
        TypedefMeasurement::fits(v, f),
        indents_by_blanks(p),
    ensures
        shows(p, typedef_measurement_page_1(v, p), typedef_measurement_part_1(v)),
        typedef_measurement_page_1(v, p).depth == p.depth,
        typedef_measurement_page_1(v, p).style == p.style,
        all_params(typedef_measurement_part_1(v)),
{
    reveal(typedef_measurement_page_1);
    reveal(typedef_measurement_part_1);
    if v.conv.phys_unit is Some {
        reveal_strlit("PHYS_UNIT");
        assert(is_keyword("PHYS_UNIT"@));
        lemma_keyword_param("PHYS_UNIT"@);
        lemma_shows_quote(p, "PHYS_UNIT"@, v.conv.phys_unit->Some_0);
        reveal_strlit("PHYS_UNIT");
        assert(is_keyword("PHYS_UNIT"@));
        lemma_keyword_param("PHYS_UNIT"@);
        lemma_string_param(v.conv.phys_unit->Some_0);
        assert(all_params(seq![plain("PHYS_UNIT"@), string(escaped(v.conv.phys_unit->Some_0))]));
        
    } else {
        lemma_shows_nothing(p);
    }
}

proof fn lemma_typedef_measurement_part_0(v: TypedefMeasurementView, p: Page, f: Setting)
    requires
        TypedefMeasurement::fits(v, f),
        indents_by_blanks(p),
    ensures
        shows(p, typedef_measurement_page_0(v, p), typedef_measurement_part_0(v)),
        typedef_measurement_page_0(v, p).depth == p.depth,
        typedef_measurement_page_0(v, p).style == p.style,
        all_params(typedef_measurement_part_0(v)),
{
    reveal(typedef_measurement_page_0);
    reveal(typedef_measurement_part_0);
    if v.conv.format is Some {
        reveal_strlit("FORMAT");
        assert(is_keyword("FORMAT"@));
        lemma_keyword_param("FORMAT"@);
        lemma_shows_quote(p, "FORMAT"@, v.conv.format->Some_0);
        reveal_strlit("FORMAT");
        assert(is_keyword("FORMAT"@));
        lemma_keyword_param("FORMAT"@);
        lemma_string_param(v.conv.format->Some_0);
        assert(all_params(seq![plain("FORMAT"@), string(escaped(v.conv.format->Some_0))]));
        
    } else {
        lemma_shows_nothing(p);
    }
}

proof fn lemma_typedef_measurement_shown_9(v: TypedefMeasurementView, p: Page, f: Setting)
    requires
        TypedefMeasurement::fits(v, f),
        indents_by_blanks(p),
    ensures
        shows(p, typedef_measurement_pages_9(v, p), typedef_measurement_from_9(v)),
        typedef_measurement_pages_9(v, p).depth == p.depth,
        typedef_measurement_pages_9(v, p).style == p.style,
        all_params(typedef_measurement_from_9(v)),
{
    lemma_shows_nothing(p);
}

proof fn lemma_typedef_measurement_shown_8(v: TypedefMeasurementView, p: Page, f: Setting)
    requires
        TypedefMeasurement::fits(v, f),
        indents_by_blanks(p),
    ensures
        shows(p, typedef_measurement_pages_8(v, p), typedef_measurement_from_8(v)),
        typedef_measurement_pages_8(v, p).depth == p.depth,
        typedef_measurement_pages_8(v, p).style == p.style,
        all_params(typedef_measurement_from_8(v)),
{
    lemma_typedef_measurement_part_8(v, p, f);
    let q = typedef_measurement_page_8(v, p);
    lemma_typedef_measurement_shown_9(v, q, f);
    lemma_shows_join(
        p,
        q,
        typedef_measurement_pages_9(v, q),
        typedef_measurement_part_8(v),
        typedef_measurement_from_9(v)
    );
    lemma_all_params_join(typedef_measurement_part_8(v), typedef_measurement_from_9(v));
}

proof fn lemma_typedef_measurement_shown_7(v: TypedefMeasurementView, p: Page, f: Setting)
    requires
        TypedefMeasurement::fits(v, f),
        indents_by_blanks(p),
    ensures
        shows(p, typedef_measurement_pages_7(v, p), typedef_measurement_from_7(v)),
        typedef_measurement_pages_7(v, p).depth == p.depth,
        typedef_measurement_pages_7(v, p).style == p.style,
        all_params(typedef_measurement_from_7(v)),
{
    lemma_typedef_measurement_part_7(v, p, f);
    let q = typedef_measurement_page_7(v, p);
    lemma_typedef_measurement_shown_8(v, q, f);
    lemma_shows_join(
        p,
        q,
        typedef_measurement_pages_8(v, q),
        typedef_measurement_part_7(v),
        typedef_measurement_from_8(v)
    );
    lemma_all_params_join(typedef_measurement_part_7(v), typedef_measurement_from_8(v));
}

proof fn lemma_typedef_measurement_shown_6(v: TypedefMeasurementView, p: Page, f: Setting)
    requires
        TypedefMeasurement::fits(v, f),
        indents_by_blanks(p),
    ensures
        shows(p, typedef_measurement_pages_6(v, p), typedef_measurement_from_6(v)),
        typedef_measurement_pages_6(v, p).depth == p.depth,
        typedef_measurement_pages_6(v, p).style == p.style,
        all_params(typedef_measurement_from_6(v)),
{
    lemma_typedef_measurement_part_6(v, p, f);
    let q = typedef_measurement_page_6(v, p);
    lemma_typedef_measurement_shown_7(v, q, f);
    lemma_shows_join(
        p,
        q,
        typedef_measurement_pages_7(v, q),
        typedef_measurement_part_6(v),
        typedef_measurement_from_7(v)
    );
    lemma_all_params_join(typedef_measurement_part_6(v), typedef_measurement_from_7(v));
}

proof fn lemma_typedef_measurement_shown_5(v: TypedefMeasurementView, p: Page, f: Setting)
    requires
        TypedefMeasurement::fits(v, f),
        indents_by_blanks(p),
    ensures
        shows(p, typedef_measurement_pages_5(v, p), typedef_measurement_from_5(v)),
        typedef_measurement_pages_5(v, p).depth == p.depth,
        typedef_measurement_pages_5(v, p).style == p.style,
        all_params(typedef_measurement_from_5(v)),
{
    lemma_typedef_measurement_part_5(v, p, f);
    let q = typedef_measurement_page_5(v, p);
    lemma_typedef_measurement_shown_6(v, q, f);
    lemma_shows_join(
        p,
        q,
        typedef_measurement_pages_6(v, q),
        typedef_measurement_part_5(v),
        typedef_measurement_from_6(v)
    );
    lemma_all_params_join(typedef_measurement_part_5(v), typedef_measurement_from_6(v));
}

proof fn lemma_typedef_measurement_shown_4(v: TypedefMeasurementView, p: Page, f: Setting)
    requires
        TypedefMeasurement::fits(v, f),
        indents_by_blanks(p),
    ensures
        shows(p, typedef_measurement_pages_4(v, p), typedef_measurement_from_4(v)),
        typedef_measurement_pages_4(v, p).depth == p.depth,
        typedef_measurement_pages_4(v, p).style == p.style,
        all_params(typedef_measurement_from_4(v)),
{
    lemma_typedef_measurement_part_4(v, p, f);
    let q = typedef_measurement_page_4(v, p);
    lemma_typedef_measurement_shown_5(v, q, f);
    lemma_shows_join(
        p,
        q,
        typedef_measurement_pages_5(v, q),
        typedef_measurement_part_4(v),
        typedef_measurement_from_5(v)
    );
    lemma_all_params_join(typedef_measurement_part_4(v), typedef_measurement_from_5(v));
}

proof fn lemma_typedef_measurement_shown_3(v: TypedefMeasurementView, p: Page, f: Setting)
    requires
        TypedefMeasurement::fits(v, f),
        indents_by_blanks(p),
    ensures
        shows(p, typedef_measurement_pages_3(v, p), typedef_measurement_from_3(v)),
        typedef_measurement_pages_3(v, p).depth == p.depth,
        typedef_measurement_pages_3(v, p).style == p.style,
        all_params(typedef_measurement_from_3(v)),
{
    lemma_typedef_measurement_part_3(v, p, f);
    let q = typedef_measurement_page_3(v, p);
    lemma_typedef_measurement_shown_4(v, q, f);
    lemma_shows_join(
        p,
        q,
        typedef_measurement_pages_4(v, q),
        typedef_measurement_part_3(v),
        typedef_measurement_from_4(v)
    );
    lemma_all_params_join(typedef_measurement_part_3(v), typedef_measurement_from_4(v));
}

proof fn lemma_typedef_measurement_shown_2(v: TypedefMeasurementView, p: Page, f: Setting)
    requires
        TypedefMeasurement::fits(v, f),
        indents_by_blanks(p),
    ensures
        shows(p, typedef_measurement_pages_2(v, p), typedef_measurement_from_2(v)),
        typedef_measurement_pages_2(v, p).depth == p.depth,
        typedef_measurement_pages_2(v, p).style == p.style,
        all_params(typedef_measurement_from_2(v)),
{
    lemma_typedef_measurement_part_2(v, p, f);
    let q = typedef_measurement_page_2(v, p);
    lemma_typedef_measurement_shown_3(v, q, f);
    lemma_shows_join(
        p,
        q,
        typedef_measurement_pages_3(v, q),
        typedef_measurement_part_2(v),
        typedef_measurement_from_3(v)
    );
    lemma_all_params_join(typedef_measurement_part_2(v), typedef_measurement_from_3(v));
}

proof fn lemma_typedef_measurement_shown_1(v: TypedefMeasurementView, p: Page, f: Setting)
    requires
        TypedefMeasurement::fits(v, f),
        indents_by_blanks(p),
    ensures
        shows(p, typedef_measurement_pages_1(v, p), typedef_measurement_from_1(v)),
        typedef_measurement_pages_1(v, p).depth == p.depth,
        typedef_measurement_pages_1(v, p).style == p.style,
        all_params(typedef_measurement_from_1(v)),
{
    lemma_typedef_measurement_part_1(v, p, f);
    let q = typedef_measurement_page_1(v, p);
    lemma_typedef_measurement_shown_2(v, q, f);
    lemma_shows_join(
        p,
        q,
        typedef_measurement_pages_2(v, q),
        typedef_measurement_part_1(v),
        typedef_measurement_from_2(v)
    );
    lemma_all_params_join(typedef_measurement_part_1(v), typedef_measurement_from_2(v));
}

proof fn lemma_typedef_measurement_shown_0(v: TypedefMeasurementView, p: Page, f: Setting)
    requires
        TypedefMeasurement::fits(v, f),
        indents_by_blanks(p),
    ensures
        shows(p, typedef_measurement_pages_0(v, p), typedef_measurement_from_0(v)),
        typedef_measurement_pages_0(v, p).depth == p.depth,
        typedef_measurement_pages_0(v, p).style == p.style,
        all_params(typedef_measurement_from_0(v)),
{
    lemma_typedef_measurement_part_0(v, p, f);
    let q = typedef_measurement_page_0(v, p);
    lemma_typedef_measurement_shown_1(v, q, f);
    lemma_shows_join(
        p,
        q,
        typedef_measurement_pages_1(v, q),
        typedef_measurement_part_0(v),
        typedef_measurement_from_1(v)
    );
    lemma_all_params_join(typedef_measurement_part_0(v), typedef_measurement_from_1(v));
}

/// What is written for the parameters at the start.
#[verifier::opaque]
pub open spec fn typedef_measurement_opening(v: TypedefMeasurementView, p0: Page) -> Page {
    let p1 = match v.named.description { Some(x) => p0.quote_line(x), None => p0.quote_line(""@) };
    let p2 = p1.line(word_or(v.data_type.word(), "Unsupported"@));
    let p3 = if v.conv.conversion.len() > 0 { p2.line(v.conv.conversion) } else { p2 };
    let p4 = p3.line(dec_int(v.resolution as int) + " "@ + v.accuracy.text);
    let p5 = p4.line(v.conv.lower_limit.text + " "@ + v.conv.upper_limit.text);
    p5
}

proof fn lemma_typedef_measurement_opening(v: TypedefMeasurementView, p0: Page, f: Setting)
    requires
        TypedefMeasurement::fits(v, f),
        indents_by_blanks(p0),
    ensures
        shows(
            p0,
            typedef_measurement_opening(v, p0),
            seq![
                string(escaped(v.named.description->Some_0)),
                plain(v.data_type.word()->Some_0),
                plain(v.conv.conversion),
                plain(dec_int(v.resolution as int)),
                plain(v.accuracy.text),
                plain(v.conv.lower_limit.text),
                plain(v.conv.upper_limit.text)
            ]
        ),
        typedef_measurement_opening(v, p0).depth == p0.depth,
        typedef_measurement_opening(v, p0).style == p0.style,
        all_params(typedef_measurement_head(v)),
{
    reveal(typedef_measurement_opening);
    lemma_shows_nothing(p0);
    let x0 = Seq::<Tok>::empty();
    let p1 = match v.named.description { Some(x) => p0.quote_line(x), None => p0.quote_line(""@) };
    assert(
        shows(
            p0,
            p1,
            seq![string(escaped(v.named.description->Some_0))]
        ) && p1.depth == p0.depth && p1.style == p0.style
    ) by {
        let p = p0;
        lemma_shows_quote_line(p, v.named.description->Some_0);
    }
    lemma_shows_join(p0, p0, p1, x0, seq![string(escaped(v.named.description->Some_0))]);
    let x1 = x0 + seq![string(escaped(v.named.description->Some_0))];
    let p2 = p1.line(word_or(v.data_type.word(), "Unsupported"@));
    assert(
        shows(
            p1,
            p2,
            seq![plain(v.data_type.word()->Some_0)]
        ) && p2.depth == p1.depth && p2.style == p1.style
    ) by {
        let p = p1;
        v.data_type.lemma_word();
        lemma_shows_word_line(p, v.data_type.word()->Some_0);
    }
    lemma_shows_join(p0, p1, p2, x1, seq![plain(v.data_type.word()->Some_0)]);
    let x2 = x1 + seq![plain(v.data_type.word()->Some_0)];
    let p3 = if v.conv.conversion.len() > 0 { p2.line(v.conv.conversion) } else { p2 };
    assert(shows(p2, p3, seq![plain(v.conv.conversion)]) && p3.depth == p2.depth && p3.style == p2.style) by {
        let p = p2;
        lemma_shows_word_line(p, v.conv.conversion);
    }
    lemma_shows_join(p0, p2, p3, x2, seq![plain(v.conv.conversion)]);
    let x3 = x2 + seq![plain(v.conv.conversion)];
    let p4 = p3.line(dec_int(v.resolution as int) + " "@ + v.accuracy.text);
    assert(
        shows(
            p3,
            p4,
            seq![plain(dec_int(v.resolution as int)), plain(v.accuracy.text)]
        ) && p4.depth == p3.depth && p4.style == p3.style
    ) by {
        let p = p3;
        lemma_dec_param(v.resolution as int);
        lemma_spells_pair(dec_int(v.resolution as int), v.accuracy.text);
        lemma_shows_line(
            p,
            dec_int(v.resolution as int) + " "@ + v.accuracy.text,
            seq![plain(dec_int(v.resolution as int)), plain(v.accuracy.text)]
        );
    }
    lemma_shows_join(p0, p3, p4, x3, seq![plain(dec_int(v.resolution as int)), plain(v.accuracy.text)]);
    let x4 = x3 + seq![plain(dec_int(v.resolution as int)), plain(v.accuracy.text)];
    let p5 = p4.line(v.conv.lower_limit.text + " "@ + v.conv.upper_limit.text);
    assert(
        shows(
            p4,
            p5,
            seq![plain(v.conv.lower_limit.text), plain(v.conv.upper_limit.text)]
        ) && p5.depth == p4.depth && p5.style == p4.style
    ) by {
        let p = p4;
        lemma_spells_pair(v.conv.lower_limit.text, v.conv.upper_limit.text);
        lemma_shows_line(
            p,
            v.conv.lower_limit.text + " "@ + v.conv.upper_limit.text,
            seq![plain(v.conv.lower_limit.text), plain(v.conv.upper_limit.text)]
        );
    }
    lemma_shows_join(p0, p4, p5, x4, seq![plain(v.conv.lower_limit.text), plain(v.conv.upper_limit.text)]);
    let x5 = x4 + seq![plain(v.conv.lower_limit.text), plain(v.conv.upper_limit.text)];
    assert(
        x5 =~= seq![
            string(escaped(v.named.description->Some_0)),
            plain(v.data_type.word()->Some_0),
            plain(v.conv.conversion),
            plain(dec_int(v.resolution as int)),
            plain(v.accuracy.text),
            plain(v.conv.lower_limit.text),
            plain(v.conv.upper_limit.text)
        ]
    );
    lemma_string_param(v.named.description->Some_0);
    v.data_type.lemma_word();
    lemma_dec_param(v.resolution as int);
}

proof fn lemma_typedef_measurement_body(v: TypedefMeasurementView, p: Page, f: Setting)
    requires
        TypedefMeasurement::fits(v, f),
    ensures
        TypedefMeasurement::body(v, p) == Ok::<Page, Stopped>(
            typedef_measurement_pages_0(v, typedef_measurement_opening(v, p))
        ),
{
    reveal(typedef_measurement_opening);
    let q0 = typedef_measurement_opening(v, p);
    let q1 = match v.conv.format { Some(x) if x.len() > 0 => q0.quote("FORMAT"@, x), _ => q0 };
    assert(q1 == typedef_measurement_page_0(v, q0)) by {
        reveal(typedef_measurement_page_0);
    }
    let q2 = match v.conv.phys_unit { Some(x) if x.len() > 0 => q1.quote("PHYS_UNIT"@, x), _ => q1 };
    assert(q2 == typedef_measurement_page_1(v, q1)) by {
        reveal(typedef_measurement_page_1);
    }
    let q3 = match v.conv.byte_order.word() { Some(kw) => q2.word("BYTE_ORDER"@, kw), None => q2 };
    assert(q3 == typedef_measurement_page_2(v, q2)) by {
        reveal(typedef_measurement_page_2);
    }
    let q4 = match v.layout.word() { Some(kw) => q3.word("LAYOUT"@, kw), None => q3 };
    assert(q4 == typedef_measurement_page_3(v, q3)) by {
        reveal(typedef_measurement_page_3);
    }
    let q5 = match v.bit_mask { Some(x) => q4.word("BIT_MASK"@, hex_form(x as nat)), None => q4 };
    assert(q5 == typedef_measurement_page_4(v, q4)) by {
        reveal(typedef_measurement_page_4);
    }
    let q6 = if v.error_mask != 0 { q5.word("ERROR_MASK"@, hex_form(v.error_mask as nat)) } else { q5 };
    assert(q6 == typedef_measurement_page_5(v, q5)) by {
        reveal(typedef_measurement_page_5);
    }
    let q7 = if v.discrete { q6.line("DISCRETE"@) } else { q6 };
    assert(q7 == typedef_measurement_page_6(v, q6)) by {
        reveal(typedef_measurement_page_6);
    }
    let q8 = match v.matrix_dim { Some(x) => q7.word("MATRIX_DIM"@, listed(x)), None => q7 };
    assert(q8 == typedef_measurement_page_7(v, q7)) by {
        reveal(typedef_measurement_page_7);
    }
    let q9 = if v.addr_type != AddrType::DIRECT {
        match v.addr_type.word() { Some(kw) => q8.word("ADDRESS_TYPE"@, kw), None => q8 }
    } else { q8 };
    assert(q9 == typedef_measurement_page_8(v, q8)) by {
        reveal(typedef_measurement_page_8);
    }
}

proof fn lemma_typedef_measurement_head(v: TypedefMeasurementView, c: Cur, f: Setting)
    requires
        TypedefMeasurement::fits(v, f),
        tokens_at(c.toks, c.pos, typedef_measurement_head(v)),
        toks_numbered(c.toks, f),
    ensures
        TypedefMeasurement::head(c) == Ok::<(TypedefMeasurementView, Cur), Failure>(
            (
                TypedefMeasurementView {
                    conv: ConversionRefFieldsView {
                        format: None,
                        phys_unit: None,
                        byte_order: ByteOrder::NotSet,
                        ..v.conv
                    },
                    layout: IndexMode::NotSet,
                    bit_mask: None,
                    error_mask: 0,
                    discrete: false,
                    matrix_dim: None,
                    addr_type: AddrType::DIRECT,
                    ..v
                },
                Cur { pos: c.pos + 8, ..c }
            ),
        ),
{
    law_unescaped_of_escaped(v.named.description->Some_0);
    v.data_type.law_named_of_word();
    law_integer_of_dec(v.resolution as int);
    assert(bare(c.toks[c.pos + 0]) == typedef_measurement_head(v)[0]);
    assert(bare(c.toks[c.pos + 1]) == typedef_measurement_head(v)[1]);
    assert(bare(c.toks[c.pos + 2]) == typedef_measurement_head(v)[2]);
    assert(bare(c.toks[c.pos + 3]) == typedef_measurement_head(v)[3]);
    assert(bare(c.toks[c.pos + 4]) == typedef_measurement_head(v)[4]);
    assert(bare(c.toks[c.pos + 5]) == typedef_measurement_head(v)[5]);
    assert(bare(c.toks[c.pos + 6]) == typedef_measurement_head(v)[6]);
    assert(bare(c.toks[c.pos + 7]) == typedef_measurement_head(v)[7]);
}

proof fn lemma_typedef_measurement_step_0(w: TypedefMeasurementView, v: TypedefMeasurementView, c: Cur, f: Setting)
    requires
        TypedefMeasurement::fits(v, f),
        v.conv.format is Some,
        tokens_at(c.toks, c.pos, seq![plain("FORMAT"@), string(escaped(v.conv.format->Some_0))]),
        toks_numbered(c.toks, f),
    ensures
        TypedefMeasurement::option(w, c) == Ok::<(TypedefMeasurementView, Cur), Failure>(
            (
                TypedefMeasurementView {
                    conv: ConversionRefFieldsView { format: v.conv.format, ..w.conv },
                    ..w
                },
                Cur { pos: c.pos + 2, ..c }
            ),
        ),
{
    reveal_strlit("FORMAT");
    lemma_same("FORMAT"@);
    assert(bare(c.toks[c.pos + 0]) == (seq![plain("FORMAT"@), string(escaped(v.conv.format->Some_0))])[0]);
    assert(bare(c.toks[c.pos + 1]) == (seq![plain("FORMAT"@), string(escaped(v.conv.format->Some_0))])[1]);
    law_unescaped_of_escaped(v.conv.format->Some_0);
}

proof fn lemma_typedef_measurement_step_1(w: TypedefMeasurementView, v: TypedefMeasurementView, c: Cur, f: Setting)
    requires
        TypedefMeasurement::fits(v, f),
        v.conv.phys_unit is Some,
        tokens_at(c.toks, c.pos, seq![plain("PHYS_UNIT"@), string(escaped(v.conv.phys_unit->Some_0))]),
        toks_numbered(c.toks, f),
    ensures
        TypedefMeasurement::option(w, c) == Ok::<(TypedefMeasurementView, Cur), Failure>(
            (
                TypedefMeasurementView {
                    conv: ConversionRefFieldsView { phys_unit: v.conv.phys_unit, ..w.conv },
                    ..w
                },
                Cur { pos: c.pos + 2, ..c }
            ),
        ),
{
    reveal_strlit("PHYS_UNIT");
    reveal_strlit("FORMAT");
    lemma_differ("PHYS_UNIT"@, "FORMAT"@, 0);
    reveal_strlit("LAYOUT");
    lemma_differ("PHYS_UNIT"@, "LAYOUT"@, 0);
    reveal_strlit("BYTE_ORDER");
    lemma_differ("PHYS_UNIT"@, "BYTE_ORDER"@, 0);
    reveal_strlit("ERROR_MASK");
    lemma_differ("PHYS_UNIT"@, "ERROR_MASK"@, 0);
    reveal_strlit("MATRIX_DIM");
    lemma_differ("PHYS_UNIT"@, "MATRIX_DIM"@, 0);
    reveal_strlit("BIT_MASK");
    lemma_differ("PHYS_UNIT"@, "BIT_MASK"@, 0);
    reveal_strlit("DISCRETE");
    lemma_differ("PHYS_UNIT"@, "DISCRETE"@, 0);
    lemma_same("PHYS_UNIT"@);
    assert(bare(c.toks[c.pos + 0]) == (seq![plain("PHYS_UNIT"@), string(escaped(v.conv.phys_unit->Some_0))])[0]);
    assert(bare(c.toks[c.pos + 1]) == (seq![plain("PHYS_UNIT"@), string(escaped(v.conv.phys_unit->Some_0))])[1]);
    law_unescaped_of_escaped(v.conv.phys_unit->Some_0);
}

proof fn lemma_typedef_measurement_step_2(w: TypedefMeasurementView, v: TypedefMeasurementView, c: Cur, f: Setting)
    requires
        TypedefMeasurement::fits(v, f),
        v.conv.byte_order.word() is Some,
        tokens_at(c.toks, c.pos, seq![plain("BYTE_ORDER"@), plain(v.conv.byte_order.word()->Some_0)]),
        toks_numbered(c.toks, f),
    ensures
        TypedefMeasurement::option(w, c) == Ok::<(TypedefMeasurementView, Cur), Failure>(
            (
                TypedefMeasurementView {
                    conv: ConversionRefFieldsView { byte_order: v.conv.byte_order, ..w.conv },
                    ..w
                },
                Cur { pos: c.pos + 2, ..c }
            ),
        ),
{
    reveal_strlit("BYTE_ORDER");
    reveal_strlit("FORMAT");
    lemma_differ("BYTE_ORDER"@, "FORMAT"@, 0);
    reveal_strlit("LAYOUT");
    lemma_differ("BYTE_ORDER"@, "LAYOUT"@, 0);
    lemma_same("BYTE_ORDER"@);
    assert(bare(c.toks[c.pos + 0]) == (seq![plain("BYTE_ORDER"@), plain(v.conv.byte_order.word()->Some_0)])[0]);
    assert(bare(c.toks[c.pos + 1]) == (seq![plain("BYTE_ORDER"@), plain(v.conv.byte_order.word()->Some_0)])[1]);
    v.conv.byte_order.law_named_of_word();
    v.conv.byte_order.lemma_word();
}

proof fn lemma_typedef_measurement_step_3(w: TypedefMeasurementView, v: TypedefMeasurementView, c: Cur, f: Setting)
    requires
        TypedefMeasurement::fits(v, f),
        v.layout.word() is Some,
        tokens_at(c.toks, c.pos, seq![plain("LAYOUT"@), plain(v.layout.word()->Some_0)]),
        toks_numbered(c.toks, f),
    ensures
        TypedefMeasurement::option(w, c) == Ok::<(TypedefMeasurementView, Cur), Failure>(
            (TypedefMeasurementView { layout: v.layout, ..w }, Cur { pos: c.pos + 2, ..c }),
        ),
{
    reveal_strlit("LAYOUT");
    reveal_strlit("FORMAT");
    lemma_differ("LAYOUT"@, "FORMAT"@, 0);
    lemma_same("LAYOUT"@);
    assert(bare(c.toks[c.pos + 0]) == (seq![plain("LAYOUT"@), plain(v.layout.word()->Some_0)])[0]);
    assert(bare(c.toks[c.pos + 1]) == (seq![plain("LAYOUT"@), plain(v.layout.word()->Some_0)])[1]);
    v.layout.law_named_of_word();
    v.layout.lemma_word();
}

proof fn lemma_typedef_measurement_step_4(w: TypedefMeasurementView, v: TypedefMeasurementView, c: Cur, f: Setting)
    requires
        TypedefMeasurement::fits(v, f),
        v.bit_mask is Some,
        tokens_at(c.toks, c.pos, seq![plain("BIT_MASK"@), plain(hex_form(v.bit_mask->Some_0 as nat))]),
        toks_numbered(c.toks, f),
    ensures
        TypedefMeasurement::option(w, c) == Ok::<(TypedefMeasurementView, Cur), Failure>(
            (TypedefMeasurementView { bit_mask: v.bit_mask, ..w }, Cur { pos: c.pos + 2, ..c }),
        ),
{
    reveal_strlit("BIT_MASK");
    reveal_strlit("FORMAT");
    lemma_differ("BIT_MASK"@, "FORMAT"@, 0);
    reveal_strlit("LAYOUT");
    lemma_differ("BIT_MASK"@, "LAYOUT"@, 0);
    reveal_strlit("BYTE_ORDER");
    lemma_differ("BIT_MASK"@, "BYTE_ORDER"@, 0);
    reveal_strlit("ERROR_MASK");
    lemma_differ("BIT_MASK"@, "ERROR_MASK"@, 0);
    reveal_strlit("MATRIX_DIM");
    lemma_differ("BIT_MASK"@, "MATRIX_DIM"@, 0);
    lemma_same("BIT_MASK"@);
    assert(bare(c.toks[c.pos + 0]) == (seq![plain("BIT_MASK"@), plain(hex_form(v.bit_mask->Some_0 as nat))])[0]);
    assert(bare(c.toks[c.pos + 1]) == (seq![plain("BIT_MASK"@), plain(hex_form(v.bit_mask->Some_0 as nat))])[1]);
    law_integer_of_hex(v.bit_mask->Some_0 as nat);
}

proof fn lemma_typedef_measurement_step_5(w: TypedefMeasurementView, v: TypedefMeasurementView, c: Cur, f: Setting)
    requires
        TypedefMeasurement::fits(v, f),
        v.error_mask != 0,
        tokens_at(c.toks, c.pos, seq![plain("ERROR_MASK"@), plain(hex_form(v.error_mask as nat))]),
        toks_numbered(c.toks, f),
    ensures
        TypedefMeasurement::option(w, c) == Ok::<(TypedefMeasurementView, Cur), Failure>(
            (TypedefMeasurementView { error_mask: v.error_mask, ..w }, Cur { pos: c.pos + 2, ..c }),
        ),
{
    reveal_strlit("ERROR_MASK");
    reveal_strlit("FORMAT");
    lemma_differ("ERROR_MASK"@, "FORMAT"@, 0);
    reveal_strlit("LAYOUT");
    lemma_differ("ERROR_MASK"@, "LAYOUT"@, 0);
    reveal_strlit("BYTE_ORDER");
    lemma_differ("ERROR_MASK"@, "BYTE_ORDER"@, 0);
    lemma_same("ERROR_MASK"@);
    assert(bare(c.toks[c.pos + 0]) == (seq![plain("ERROR_MASK"@), plain(hex_form(v.error_mask as nat))])[0]);
    assert(bare(c.toks[c.pos + 1]) == (seq![plain("ERROR_MASK"@), plain(hex_form(v.error_mask as nat))])[1]);
    law_integer_of_hex(v.error_mask as nat);
}

proof fn lemma_typedef_measurement_step_6(w: TypedefMeasurementView, v: TypedefMeasurementView, c: Cur, f: Setting)
    requires
        TypedefMeasurement::fits(v, f),
        v.discrete,
        tokens_at(c.toks, c.pos, seq![plain("DISCRETE"@)]),
        toks_numbered(c.toks, f),
    ensures
        TypedefMeasurement::option(w, c) == Ok::<(TypedefMeasurementView, Cur), Failure>(
            (TypedefMeasurementView { discrete: v.discrete, ..w }, Cur { pos: c.pos + 1, ..c }),
        ),
{
    reveal_strlit("DISCRETE");
    reveal_strlit("FORMAT");
    lemma_differ("DISCRETE"@, "FORMAT"@, 0);
    reveal_strlit("LAYOUT");
    lemma_differ("DISCRETE"@, "LAYOUT"@, 0);
    reveal_strlit("BYTE_ORDER");
    lemma_differ("DISCRETE"@, "BYTE_ORDER"@, 0);
    reveal_strlit("ERROR_MASK");
    lemma_differ("DISCRETE"@, "ERROR_MASK"@, 0);
    reveal_strlit("MATRIX_DIM");
    lemma_differ("DISCRETE"@, "MATRIX_DIM"@, 0);
    reveal_strlit("BIT_MASK");
    lemma_differ("DISCRETE"@, "BIT_MASK"@, 0);
    lemma_same("DISCRETE"@);
    assert(bare(c.toks[c.pos + 0]) == (seq![plain("DISCRETE"@)])[0]);
    
}

proof fn lemma_typedef_measurement_step_7(w: TypedefMeasurementView, v: TypedefMeasurementView, c: Cur, f: Setting)
    requires
        TypedefMeasurement::fits(v, f),
        v.matrix_dim is Some,
        tokens_at(c.toks, c.pos, seq![plain("MATRIX_DIM"@)] + int_tokens(v.matrix_dim->Some_0)),
        toks_numbered(c.toks, f),
        no_int_at(c.toks, c.pos + 1 + int_tokens(v.matrix_dim->Some_0).len()) || v.matrix_dim->Some_0.len() == 5,
    ensures
        TypedefMeasurement::option(w, c) == Ok::<(TypedefMeasurementView, Cur), Failure>(
            (
                TypedefMeasurementView { matrix_dim: v.matrix_dim, ..w },
                Cur { pos: c.pos + 1 + int_tokens(v.matrix_dim->Some_0).len(), ..c }
            ),
        ),
{
    reveal_strlit("MATRIX_DIM");
    reveal_strlit("FORMAT");
    lemma_differ("MATRIX_DIM"@, "FORMAT"@, 0);
    reveal_strlit("LAYOUT");
    lemma_differ("MATRIX_DIM"@, "LAYOUT"@, 0);
    reveal_strlit("BYTE_ORDER");
    lemma_differ("MATRIX_DIM"@, "BYTE_ORDER"@, 0);
    reveal_strlit("ERROR_MASK");
    lemma_differ("MATRIX_DIM"@, "ERROR_MASK"@, 0);
    lemma_same("MATRIX_DIM"@);
    assert(bare(c.toks[c.pos + 0]) == (seq![plain("MATRIX_DIM"@)] + int_tokens(v.matrix_dim->Some_0))[0]);
    lemma_tokens_at_split(c.toks, c.pos, seq![plain("MATRIX_DIM"@)], int_tokens(v.matrix_dim->Some_0));
    lemma_dims_read(c.step(), v.matrix_dim->Some_0);
}

proof fn lemma_typedef_measurement_step_8(w: TypedefMeasurementView, v: TypedefMeasurementView, c: Cur, f: Setting)
    requires
        TypedefMeasurement::fits(v, f),
        v.addr_type != AddrType::DIRECT,
        tokens_at(c.toks, c.pos, seq![plain("ADDRESS_TYPE"@), plain(v.addr_type.word()->Some_0)]),
        toks_numbered(c.toks, f),
    ensures
        TypedefMeasurement::option(w, c) == Ok::<(TypedefMeasurementView, Cur), Failure>(
            (TypedefMeasurementView { addr_type: v.addr_type, ..w }, Cur { pos: c.pos + 2, ..c }),
        ),
{
    reveal_strlit("ADDRESS_TYPE");
    reveal_strlit("FORMAT");
    lemma_differ("ADDRESS_TYPE"@, "FORMAT"@, 0);
    reveal_strlit("LAYOUT");
    lemma_differ("ADDRESS_TYPE"@, "LAYOUT"@, 0);
    reveal_strlit("BYTE_ORDER");
    lemma_differ("ADDRESS_TYPE"@, "BYTE_ORDER"@, 0);
    reveal_strlit("ERROR_MASK");
    lemma_differ("ADDRESS_TYPE"@, "ERROR_MASK"@, 0);
    reveal_strlit("MATRIX_DIM");
    lemma_differ("ADDRESS_TYPE"@, "MATRIX_DIM"@, 0);
    reveal_strlit("BIT_MASK");
    lemma_differ("ADDRESS_TYPE"@, "BIT_MASK"@, 0);
    reveal_strlit("DISCRETE");
    lemma_differ("ADDRESS_TYPE"@, "DISCRETE"@, 0);
    reveal_strlit("PHYS_UNIT");
    lemma_differ("ADDRESS_TYPE"@, "PHYS_UNIT"@, 0);
    lemma_same("ADDRESS_TYPE"@);
    assert(bare(c.toks[c.pos + 0]) == (seq![plain("ADDRESS_TYPE"@), plain(v.addr_type.word()->Some_0)])[0]);
    assert(bare(c.toks[c.pos + 1]) == (seq![plain("ADDRESS_TYPE"@), plain(v.addr_type.word()->Some_0)])[1]);
    v.addr_type.law_named_of_word();
    v.addr_type.lemma_word();
}

proof fn lemma_typedef_measurement_read_9(v: TypedefMeasurementView, c: Cur, f: Setting)
    requires
        TypedefMeasurement::fits(v, f),
        tokens_at(c.toks, c.pos, typedef_measurement_from_9(v)),
        c.pos + typedef_measurement_from_9(v).len() == c.toks.len(),
        toks_numbered(c.toks, f),
    ensures
        TypedefMeasurement::options(v, c) matches Ok((w, _)) && w == (v),
{
}

proof fn lemma_typedef_measurement_next_9(v: TypedefMeasurementView, c: Cur)
    requires
        tokens_at(c.toks, c.pos, typedef_measurement_from_9(v)),
        c.pos + typedef_measurement_from_9(v).len() == c.toks.len(),
    ensures
        no_int_at(c.toks, c.pos),
{
}

proof fn lemma_typedef_measurement_read_8(v: TypedefMeasurementView, c: Cur, f: Setting)
    requires
        TypedefMeasurement::fits(v, f),
        tokens_at(c.toks, c.pos, typedef_measurement_from_8(v)),
        c.pos + typedef_measurement_from_8(v).len() == c.toks.len(),
        toks_numbered(c.toks, f),
    ensures
        TypedefMeasurement::options(
            TypedefMeasurementView { addr_type: AddrType::DIRECT, ..v },
            c
        ) matches Ok((w, _)) && w == (v),
{
    reveal(typedef_measurement_part_8);
    let t = typedef_measurement_part_8(v);
    if v.addr_type != AddrType::DIRECT {
        lemma_tokens_at_split(c.toks, c.pos, t, typedef_measurement_from_9(v));
        let c2 = Cur { pos: c.pos + 2, ..c };
        lemma_typedef_measurement_step_8(TypedefMeasurementView { addr_type: AddrType::DIRECT, ..v }, v, c, f);
        lemma_typedef_measurement_read_9(v, c2, f);
    } else {
        assert(t + typedef_measurement_from_9(v) =~= typedef_measurement_from_9(v));
        lemma_typedef_measurement_read_9(v, c, f);
    }
}

proof fn lemma_typedef_measurement_next_8(v: TypedefMeasurementView, c: Cur)
    requires
        tokens_at(c.toks, c.pos, typedef_measurement_from_8(v)),
        c.pos + typedef_measurement_from_8(v).len() == c.toks.len(),
    ensures
        no_int_at(c.toks, c.pos),
{
    reveal(typedef_measurement_part_8);
    if v.addr_type != AddrType::DIRECT {
        assert(bare(c.toks[c.pos + 0]) == typedef_measurement_from_8(v)[0]);
        reveal_strlit("ADDRESS_TYPE");
        lemma_no_int("ADDRESS_TYPE"@);
    } else {
        assert(typedef_measurement_from_8(v) =~= typedef_measurement_from_9(v));
        lemma_typedef_measurement_next_9(v, c);
    }
}

proof fn lemma_typedef_measurement_read_7(v: TypedefMeasurementView, c: Cur, f: Setting)
    requires
        TypedefMeasurement::fits(v, f),
        tokens_at(c.toks, c.pos, typedef_measurement_from_7(v)),
        c.pos + typedef_measurement_from_7(v).len() == c.toks.len(),
        toks_numbered(c.toks, f),
    ensures
        TypedefMeasurement::options(
            TypedefMeasurementView { matrix_dim: None, addr_type: AddrType::DIRECT, ..v },
            c
        ) matches Ok((w, _)) && w == (v),
{
    reveal(typedef_measurement_part_7);
    let t = typedef_measurement_part_7(v);
    if v.matrix_dim is Some {
        lemma_tokens_at_split(c.toks, c.pos, t, typedef_measurement_from_8(v));
        let c2 = Cur { pos: c.pos + 1 + int_tokens(v.matrix_dim->Some_0).len(), ..c };
        lemma_typedef_measurement_next_8(v, c2);
        lemma_typedef_measurement_step_7(
            TypedefMeasurementView { matrix_dim: None, addr_type: AddrType::DIRECT, ..v },
            v,
            c,
            f
        );
        lemma_typedef_measurement_read_8(v, c2, f);
    } else {
        assert(t + typedef_measurement_from_8(v) =~= typedef_measurement_from_8(v));
        lemma_typedef_measurement_read_8(v, c, f);
    }
}

proof fn lemma_typedef_measurement_read_6(v: TypedefMeasurementView, c: Cur, f: Setting)
    requires
        TypedefMeasurement::fits(v, f),
        tokens_at(c.toks, c.pos, typedef_measurement_from_6(v)),
        c.pos + typedef_measurement_from_6(v).len() == c.toks.len(),
        toks_numbered(c.toks, f),
    ensures
        TypedefMeasurement::options(
            TypedefMeasurementView {
                discrete: false,
                matrix_dim: None,
                addr_type: AddrType::DIRECT,
                ..v
            },
            c
        ) matches Ok((w, _)) && w == (v),
{
    reveal(typedef_measurement_part_6);
    let t = typedef_measurement_part_6(v);
    if v.discrete {
        lemma_tokens_at_split(c.toks, c.pos, t, typedef_measurement_from_7(v));
        let c2 = Cur { pos: c.pos + 1, ..c };
        lemma_typedef_measurement_step_6(
            TypedefMeasurementView {
                discrete: false,
                matrix_dim: None,
                addr_type: AddrType::DIRECT,
                ..v
            },
            v,
            c,
            f
        );
        lemma_typedef_measurement_read_7(v, c2, f);
    } else {
        assert(t + typedef_measurement_from_7(v) =~= typedef_measurement_from_7(v));
        lemma_typedef_measurement_read_7(v, c, f);
    }
}

proof fn lemma_typedef_measurement_read_5(v: TypedefMeasurementView, c: Cur, f: Setting)
    requires
        TypedefMeasurement::fits(v, f),
        tokens_at(c.toks, c.pos, typedef_measurement_from_5(v)),
        c.pos + typedef_measurement_from_5(v).len() == c.toks.len(),
        toks_numbered(c.toks, f),
    ensures
        TypedefMeasurement::options(
            TypedefMeasurementView {
                error_mask: 0,
                discrete: false,
                matrix_dim: None,
                addr_type: AddrType::DIRECT,
                ..v
            },
            c
        ) matches Ok((w, _)) && w == (v),
{
    reveal(typedef_measurement_part_5);
    let t = typedef_measurement_part_5(v);
    if v.error_mask != 0 {
        lemma_tokens_at_split(c.toks, c.pos, t, typedef_measurement_from_6(v));
        let c2 = Cur { pos: c.pos + 2, ..c };
        lemma_typedef_measurement_step_5(
            TypedefMeasurementView {
                error_mask: 0,
                discrete: false,
                matrix_dim: None,
                addr_type: AddrType::DIRECT,
                ..v
            },
            v,
            c,
            f
        );
        lemma_typedef_measurement_read_6(v, c2, f);
    } else {
        assert(t + typedef_measurement_from_6(v) =~= typedef_measurement_from_6(v));
        lemma_typedef_measurement_read_6(v, c, f);
    }
}

proof fn lemma_typedef_measurement_read_4(v: TypedefMeasurementView, c: Cur, f: Setting)
    requires
        TypedefMeasurement::fits(v, f),
        tokens_at(c.toks, c.pos, typedef_measurement_from_4(v)),
        c.pos + typedef_measurement_from_4(v).len() == c.toks.len(),
        toks_numbered(c.toks, f),
    ensures
        TypedefMeasurement::options(
            TypedefMeasurementView {
                bit_mask: None,
                error_mask: 0,
                discrete: false,
                matrix_dim: None,
                addr_type: AddrType::DIRECT,
                ..v
            },
            c
        ) matches Ok((w, _)) && w == (v),
{
    reveal(typedef_measurement_part_4);
    let t = typedef_measurement_part_4(v);
    if v.bit_mask is Some {
        lemma_tokens_at_split(c.toks, c.pos, t, typedef_measurement_from_5(v));
        let c2 = Cur { pos: c.pos + 2, ..c };
        lemma_typedef_measurement_step_4(
            TypedefMeasurementView {
                bit_mask: None,
                error_mask: 0,
                discrete: false,
                matrix_dim: None,
                addr_type: AddrType::DIRECT,
                ..v
            },
            v,
            c,
            f
        );
        lemma_typedef_measurement_read_5(v, c2, f);
    } else {
        assert(t + typedef_measurement_from_5(v) =~= typedef_measurement_from_5(v));
        lemma_typedef_measurement_read_5(v, c, f);
    }
}

proof fn lemma_typedef_measurement_read_3(v: TypedefMeasurementView, c: Cur, f: Setting)
    requires
        TypedefMeasurement::fits(v, f),
        tokens_at(c.toks, c.pos, typedef_measurement_from_3(v)),
        c.pos + typedef_measurement_from_3(v).len() == c.toks.len(),
        toks_numbered(c.toks, f),
    ensures
        TypedefMeasurement::options(
            TypedefMeasurementView {
                layout: IndexMode::NotSet,
                bit_mask: None,
                error_mask: 0,
                discrete: false,
                matrix_dim: None,
                addr_type: AddrType::DIRECT,
                ..v
            },
            c
        ) matches Ok((w, _)) && w == (v),
{
    reveal(typedef_measurement_part_3);
    let t = typedef_measurement_part_3(v);
    if v.layout.word() is Some {
        lemma_tokens_at_split(c.toks, c.pos, t, typedef_measurement_from_4(v));
        let c2 = Cur { pos: c.pos + 2, ..c };
        lemma_typedef_measurement_step_3(
            TypedefMeasurementView {
                layout: IndexMode::NotSet,
                bit_mask: None,
                error_mask: 0,
                discrete: false,
                matrix_dim: None,
                addr_type: AddrType::DIRECT,
                ..v
            },
            v,
            c,
            f
        );
        lemma_typedef_measurement_read_4(v, c2, f);
    } else {
        assert(t + typedef_measurement_from_4(v) =~= typedef_measurement_from_4(v));
        lemma_typedef_measurement_read_4(v, c, f);
    }
}

proof fn lemma_typedef_measurement_read_2(v: TypedefMeasurementView, c: Cur, f: Setting)
    requires
        TypedefMeasurement::fits(v, f),
        tokens_at(c.toks, c.pos, typedef_measurement_from_2(v)),
        c.pos + typedef_measurement_from_2(v).len() == c.toks.len(),
        toks_numbered(c.toks, f),
    ensures
        TypedefMeasurement::options(
            TypedefMeasurementView {
                conv: ConversionRefFieldsView { byte_order: ByteOrder::NotSet, ..v.conv },
                layout: IndexMode::NotSet,
                bit_mask: None,
                error_mask: 0,
                discrete: false,
                matrix_dim: None,
                addr_type: AddrType::DIRECT,
                ..v
            },
            c
        ) matches Ok((w, _)) && w == (v),
{
    reveal(typedef_measurement_part_2);
    let t = typedef_measurement_part_2(v);
    if v.conv.byte_order.word() is Some {
        lemma_tokens_at_split(c.toks, c.pos, t, typedef_measurement_from_3(v));
        let c2 = Cur { pos: c.pos + 2, ..c };
        lemma_typedef_measurement_step_2(
            TypedefMeasurementView {
                conv: ConversionRefFieldsView { byte_order: ByteOrder::NotSet, ..v.conv },
                layout: IndexMode::NotSet,
                bit_mask: None,
                error_mask: 0,
                discrete: false,
                matrix_dim: None,
                addr_type: AddrType::DIRECT,
                ..v
            },
            v,
            c,
            f
        );
        lemma_typedef_measurement_read_3(v, c2, f);
    } else {
        assert(t + typedef_measurement_from_3(v) =~= typedef_measurement_from_3(v));
        lemma_typedef_measurement_read_3(v, c, f);
    }
}

proof fn lemma_typedef_measurement_read_1(v: TypedefMeasurementView, c: Cur, f: Setting)
    requires
        TypedefMeasurement::fits(v, f),
        tokens_at(c.toks, c.pos, typedef_measurement_from_1(v)),
        c.pos + typedef_measurement_from_1(v).len() == c.toks.len(),
        toks_numbered(c.toks, f),
    ensures
        TypedefMeasurement::options(
            TypedefMeasurementView {
                conv: ConversionRefFieldsView {
                    phys_unit: None,
                    byte_order: ByteOrder::NotSet,
                    ..v.conv
                },
                layout: IndexMode::NotSet,
                bit_mask: None,
                error_mask: 0,
                discrete: false,
                matrix_dim: None,
                addr_type: AddrType::DIRECT,
                ..v
            },
            c
        ) matches Ok((w, _)) && w == (v),
{
    reveal(typedef_measurement_part_1);
    let t = typedef_measurement_part_1(v);
    if v.conv.phys_unit is Some {
        lemma_tokens_at_split(c.toks, c.pos, t, typedef_measurement_from_2(v));
        let c2 = Cur { pos: c.pos + 2, ..c };
        lemma_typedef_measurement_step_1(
            TypedefMeasurementView {
                conv: ConversionRefFieldsView {
                    phys_unit: None,
                    byte_order: ByteOrder::NotSet,
                    ..v.conv
                },
                layout: IndexMode::NotSet,
                bit_mask: None,
                error_mask: 0,
                discrete: false,
                matrix_dim: None,
                addr_type: AddrType::DIRECT,
                ..v
            },
            v,
            c,
            f
        );
        lemma_typedef_measurement_read_2(v, c2, f);
    } else {
        assert(t + typedef_measurement_from_2(v) =~= typedef_measurement_from_2(v));
        lemma_typedef_measurement_read_2(v, c, f);
    }
}

proof fn lemma_typedef_measurement_read_0(v: TypedefMeasurementView, c: Cur, f: Setting)
    requires
        TypedefMeasurement::fits(v, f),
        tokens_at(c.toks, c.pos, typedef_measurement_from_0(v)),
        c.pos + typedef_measurement_from_0(v).len() == c.toks.len(),
        toks_numbered(c.toks, f),
    ensures
        TypedefMeasurement::options(
            TypedefMeasurementView {
                conv: ConversionRefFieldsView {
                    format: None,
                    phys_unit: None,
                    byte_order: ByteOrder::NotSet,
                    ..v.conv
                },
                layout: IndexMode::NotSet,
                bit_mask: None,
                error_mask: 0,
                discrete: false,
                matrix_dim: None,
                addr_type: AddrType::DIRECT,
                ..v
            },
            c
        ) matches Ok((w, _)) && w == (v),
{
    reveal(typedef_measurement_part_0);
    let t = typedef_measurement_part_0(v);
    if v.conv.format is Some {
        lemma_tokens_at_split(c.toks, c.pos, t, typedef_measurement_from_1(v));
        let c2 = Cur { pos: c.pos + 2, ..c };
        lemma_typedef_measurement_step_0(
            TypedefMeasurementView {
                conv: ConversionRefFieldsView {
                    format: None,
                    phys_unit: None,
                    byte_order: ByteOrder::NotSet,
                    ..v.conv
                },
                layout: IndexMode::NotSet,
                bit_mask: None,
                error_mask: 0,
                discrete: false,
                matrix_dim: None,
                addr_type: AddrType::DIRECT,
                ..v
            },
            v,
            c,
            f
        );
        lemma_typedef_measurement_read_1(v, c2, f);
    } else {
        assert(t + typedef_measurement_from_1(v) =~= typedef_measurement_from_1(v));
        lemma_typedef_measurement_read_1(v, c, f);
    }
}

impl Faithful for TypedefMeasurement {
    open spec fn fits(v: TypedefMeasurementView, f: Setting) -> bool {
        &&& is_param(plain(v.named.name))
        &&& v.named.description is Some
        &&& v.data_type.word() is Some
        &&& is_param(plain(v.conv.conversion))
        &&& num_fits(v.accuracy, f)
        &&& num_fits(v.conv.lower_limit, f) && num_fits(v.conv.upper_limit, f) && num_min(
            v.conv.lower_limit,
            v.conv.upper_limit
        ) == v.conv.lower_limit && num_max(v.conv.lower_limit, v.conv.upper_limit) == v.conv.upper_limit
        &&& (v.conv.format matches Some(x) ==> x.len() > 0)
        &&& (v.conv.phys_unit matches Some(x) ==> x.len() > 0)
        &&& (v.matrix_dim matches Some(x) ==> 0 < x.len() <= 5)
        &&& v.conv.memory_segment_ref is None
    }

    open spec fn shape(v: TypedefMeasurementView) -> Tree {
        shape_of("TYPEDEF_MEASUREMENT"@, typedef_measurement_head(v) + typedef_measurement_from_0(v), Seq::empty())
    }

    proof fn law_shown(v: TypedefMeasurementView, p: Page, f: Setting) {
        reveal_strlit("TYPEDEF_MEASUREMENT");
        lemma_keyword_word("TYPEDEF_MEASUREMENT"@);
        reveal_strlit("TYPEDEF_MEASUREMENT ");
        reveal_strlit(" ");
        assert("TYPEDEF_MEASUREMENT "@ + v.named.name =~= "TYPEDEF_MEASUREMENT"@ + " "@ + v.named.name);
        lemma_spells_word("TYPEDEF_MEASUREMENT"@);
        lemma_spells_word(v.named.name);
        lemma_spells_join(
            "TYPEDEF_MEASUREMENT"@,
            seq![plain("TYPEDEF_MEASUREMENT"@)],
            v.named.name,
            seq![plain(v.named.name)]
        );
        let h = seq![plain(v.named.name)];
        crate::a2l::tree_laws::lemma_shows_begin(
            p,
            "TYPEDEF_MEASUREMENT "@ + v.named.name,
            seq![plain("TYPEDEF_MEASUREMENT"@)] + h
        );
        let p0 = p.begin("TYPEDEF_MEASUREMENT "@ + v.named.name);
        lemma_typedef_measurement_body(v, p0, f);
        lemma_typedef_measurement_opening(v, p0, f);
        let p1 = typedef_measurement_opening(v, p0);
        lemma_typedef_measurement_shown_0(v, p1, f);
        let p2 = typedef_measurement_pages_0(v, p1);
        let hx = seq![
            string(escaped(v.named.description->Some_0)),
            plain(v.data_type.word()->Some_0),
            plain(v.conv.conversion),
            plain(dec_int(v.resolution as int)),
            plain(v.accuracy.text),
            plain(v.conv.lower_limit.text),
            plain(v.conv.upper_limit.text)
        ];
        let from = typedef_measurement_from_0(v);
        lemma_shows_join(p0, p1, p2, hx, from);
        let q = p2;
        let kids = Seq::<Tree>::empty();
        let y = Seq::<Tok>::empty();
        assert(blocks_tokens(kids, 0) =~= y);
        assert(hx + from + y =~= hx + from);
        let x = typedef_measurement_head(v) + from;
        lemma_shape_tokens(x, kids);
        lemma_all_params_join(typedef_measurement_head(v), from);
        lemma_sound_shape("TYPEDEF_MEASUREMENT"@, x, kids);
        assert(typedef_measurement_head(v) =~= h + hx);
        assert(h + (hx + from + y) =~= x + y);
        lemma_shows_block(
            p,
            "TYPEDEF_MEASUREMENT "@ + v.named.name,
            h,
            "TYPEDEF_MEASUREMENT"@,
            q,
            hx + from + y,
            Self::shape(v)
        );
    }

    proof fn law_parsed(v: TypedefMeasurementView, tree: Tree, f: Setting) {
        let x = typedef_measurement_head(v) + typedef_measurement_from_0(v);
        let kids = Seq::<Tree>::empty();
        lemma_shape_found(tree, "TYPEDEF_MEASUREMENT"@, x, kids, f);
        let c = Cur::start(tree);
        lemma_tokens_at_split(c.toks, 0, typedef_measurement_head(v), typedef_measurement_from_0(v));
        lemma_typedef_measurement_head(v, c, f);
        let c1 = Cur { pos: 8, ..c };
        lemma_typedef_measurement_read_0(v, c1, f);
    }
}

impl FaithfulChild for TypedefStructureChild {
    open spec fn fits(v: TypedefStructureChildView, f: Setting) -> bool {
        match v {
            TypedefStructureChildView::Component(n) => <StructureComponent as Faithful>::fits(n, f),
            TypedefStructureChildView::Unsupported(n) => <UnsupportedNode as FaithfulChild>::fits(n, f) && !same_ignore_case(
                n.keyword,
                "STRUCTURE_COMPONENT"@
            ),
        }
    }

    open spec fn shape(v: TypedefStructureChildView) -> Tree {
        match v {
            TypedefStructureChildView::Component(n) => <StructureComponent as Faithful>::shape(n),
            TypedefStructureChildView::Unsupported(n) => <UnsupportedNode as FaithfulChild>::shape(n),
        }
    }

    proof fn law_shown(v: TypedefStructureChildView, p: Page, f: Setting) {
        match v {
            TypedefStructureChildView::Component(n) => {
                lemma_node_shown::<StructureComponent>(n, p, f);
            },
            TypedefStructureChildView::Unsupported(n) => {
                <UnsupportedNode as FaithfulChild>::law_shown(n, p, f);
            },
        }
    }

    proof fn law_parsed(v: TypedefStructureChildView, tree: Tree, f: Setting) {
        match v {
            TypedefStructureChildView::Component(n) => {
                reveal_strlit("STRUCTURE_COMPONENT");
                lemma_same("STRUCTURE_COMPONENT"@);
                assert(bare_tree(tree).keyword == "STRUCTURE_COMPONENT"@);
                lemma_node_read::<StructureComponent>(n, tree, f);
            },
            TypedefStructureChildView::Unsupported(n) => {
                <UnsupportedNode as FaithfulChild>::law_parsed(n, tree, f);
            },
        }
    }
}

/// The parameters at the start of the block.
pub open spec fn typedef_structure_head(v: TypedefStructureView) -> Seq<Tok> {
    seq![plain(v.named.name), string(escaped(v.named.description->Some_0)), plain(hex_form(v.size as nat))]
}

/// The parameters of `ADDRESS_TYPE`.
#[verifier::opaque]
pub open spec fn typedef_structure_part_0(v: TypedefStructureView) -> Seq<Tok> {
    if v.addr_type != AddrType::DIRECT {
        seq![plain("ADDRESS_TYPE"@), plain(v.addr_type.word()->Some_0)]
    } else { Seq::<Tok>::empty() }
}

/// The parameters from `ADDRESS_TYPE` on.
pub open spec fn typedef_structure_from_0(v: TypedefStructureView) -> Seq<Tok> {
    typedef_structure_part_0(v) + typedef_structure_from_1(v)
}

/// What is written for `ADDRESS_TYPE`.
#[verifier::opaque]
pub open spec fn typedef_structure_page_0(v: TypedefStructureView, p: Page) -> Page {
    if v.addr_type != AddrType::DIRECT {
        match v.addr_type.word() { Some(kw) => p.word("ADDRESS_TYPE"@, kw), None => p }
    } else { p }
}

/// What is written from `ADDRESS_TYPE` on.
pub open spec fn typedef_structure_pages_0(v: TypedefStructureView, p: Page) -> Page {
    typedef_structure_pages_1(v, typedef_structure_page_0(v, p))
}

/// The parameters behind the last keyword.
pub open spec fn typedef_structure_from_1(v: TypedefStructureView) -> Seq<Tok> {
    Seq::empty()
}

/// What is written behind the last keyword.
pub open spec fn typedef_structure_pages_1(v: TypedefStructureView, p: Page) -> Page {
    p
}

proof fn lemma_typedef_structure_part_0(v: TypedefStructureView, p: Page, f: Setting)
    requires
        TypedefStructure::fits(v, f),
        indents_by_blanks(p),
    ensures
        shows(p, typedef_structure_page_0(v, p), typedef_structure_part_0(v)),
        typedef_structure_page_0(v, p).depth == p.depth,
        typedef_structure_page_0(v, p).style == p.style,
        all_params(typedef_structure_part_0(v)),
{
    reveal(typedef_structure_page_0);
    reveal(typedef_structure_part_0);
    if v.addr_type != AddrType::DIRECT {
        reveal_strlit("ADDRESS_TYPE");
        assert(is_keyword("ADDRESS_TYPE"@));
        lemma_keyword_param("ADDRESS_TYPE"@);
        v.addr_type.lemma_word();
        lemma_shows_word(p, "ADDRESS_TYPE"@, v.addr_type.word()->Some_0);
        reveal_strlit("ADDRESS_TYPE");
        assert(is_keyword("ADDRESS_TYPE"@));
        lemma_keyword_param("ADDRESS_TYPE"@);
        v.addr_type.lemma_word();
        assert(all_params(seq![plain("ADDRESS_TYPE"@), plain(v.addr_type.word()->Some_0)]));
        
    } else {
        lemma_shows_nothing(p);
    }
}

proof fn lemma_typedef_structure_shown_1(v: TypedefStructureView, p: Page, f: Setting)
    requires
        TypedefStructure::fits(v, f),
        indents_by_blanks(p),
    ensures
        shows(p, typedef_structure_pages_1(v, p), typedef_structure_from_1(v)),
        typedef_structure_pages_1(v, p).depth == p.depth,
        typedef_structure_pages_1(v, p).style == p.style,
        all_params(typedef_structure_from_1(v)),
{
    lemma_shows_nothing(p);
}

proof fn lemma_typedef_structure_shown_0(v: TypedefStructureView, p: Page, f: Setting)
    requires
        TypedefStructure::fits(v, f),
        indents_by_blanks(p),
    ensures
        shows(p, typedef_structure_pages_0(v, p), typedef_structure_from_0(v)),
        typedef_structure_pages_0(v, p).depth == p.depth,
        typedef_structure_pages_0(v, p).style == p.style,
        all_params(typedef_structure_from_0(v)),
{
    lemma_typedef_structure_part_0(v, p, f);
    let q = typedef_structure_page_0(v, p);
    lemma_typedef_structure_shown_1(v, q, f);
    lemma_shows_join(
        p,
        q,
        typedef_structure_pages_1(v, q),
        typedef_structure_part_0(v),
        typedef_structure_from_1(v)
    );
    lemma_all_params_join(typedef_structure_part_0(v), typedef_structure_from_1(v));
}

/// What is written for the parameters at the start.
#[verifier::opaque]
pub open spec fn typedef_structure_opening(v: TypedefStructureView, p0: Page) -> Page {
    let p1 = match v.named.description { Some(x) => p0.quote_line(x), None => p0.quote_line(""@) };
    let p2 = p1.line(hex_form(v.size as nat));
    p2
}

proof fn lemma_typedef_structure_opening(v: TypedefStructureView, p0: Page, f: Setting)
    requires
        TypedefStructure::fits(v, f),
        indents_by_blanks(p0),
    ensures
        shows(
            p0,
            typedef_structure_opening(v, p0),
            seq![string(escaped(v.named.description->Some_0)), plain(hex_form(v.size as nat))]
        ),
        typedef_structure_opening(v, p0).depth == p0.depth,
        typedef_structure_opening(v, p0).style == p0.style,
        all_params(typedef_structure_head(v)),
{
    reveal(typedef_structure_opening);
    lemma_shows_nothing(p0);
    let x0 = Seq::<Tok>::empty();
    let p1 = match v.named.description { Some(x) => p0.quote_line(x), None => p0.quote_line(""@) };
    assert(
        shows(
            p0,
            p1,
            seq![string(escaped(v.named.description->Some_0))]
        ) && p1.depth == p0.depth && p1.style == p0.style
    ) by {
        let p = p0;
        lemma_shows_quote_line(p, v.named.description->Some_0);
    }
    lemma_shows_join(p0, p0, p1, x0, seq![string(escaped(v.named.description->Some_0))]);
    let x1 = x0 + seq![string(escaped(v.named.description->Some_0))];
    let p2 = p1.line(hex_form(v.size as nat));
    assert(
        shows(
            p1,
            p2,
            seq![plain(hex_form(v.size as nat))]
        ) && p2.depth == p1.depth && p2.style == p1.style
    ) by {
        let p = p1;
        lemma_hex_param(v.size as nat);
        lemma_shows_word_line(p, hex_form(v.size as nat));
    }
    lemma_shows_join(p0, p1, p2, x1, seq![plain(hex_form(v.size as nat))]);
    let x2 = x1 + seq![plain(hex_form(v.size as nat))];
    assert(x2 =~= seq![string(escaped(v.named.description->Some_0)), plain(hex_form(v.size as nat))]);
    lemma_string_param(v.named.description->Some_0);
    lemma_hex_param(v.size as nat);
}

proof fn lemma_typedef_structure_body(v: TypedefStructureView, p: Page, f: Setting)
    requires
        TypedefStructure::fits(v, f),
    ensures
        TypedefStructure::body(v, p) == children_written::<TypedefStructureChild>(
            v.children,
            0,
            false,
            typedef_structure_pages_0(v, typedef_structure_opening(v, p))
        ),
{
    reveal(typedef_structure_opening);
    let q0 = typedef_structure_opening(v, p);
    let q1 = if v.addr_type != AddrType::DIRECT {
        match v.addr_type.word() { Some(kw) => q0.word("ADDRESS_TYPE"@, kw), None => q0 }
    } else { q0 };
    assert(q1 == typedef_structure_page_0(v, q0)) by {
        reveal(typedef_structure_page_0);
    }
}

proof fn lemma_typedef_structure_head(v: TypedefStructureView, c: Cur, f: Setting)
    requires
        TypedefStructure::fits(v, f),
        tokens_at(c.toks, c.pos, typedef_structure_head(v)),
        toks_numbered(c.toks, f),
    ensures
        TypedefStructure::head(c) == Ok::<(TypedefStructureView, Cur), Failure>(
            (
                TypedefStructureView { addr_type: AddrType::DIRECT, children: Seq::empty(), ..v },
                Cur { pos: c.pos + 3, ..c }
            ),
        ),
{
    law_unescaped_of_escaped(v.named.description->Some_0);
    law_integer_of_hex(v.size as nat);
    assert(bare(c.toks[c.pos + 0]) == typedef_structure_head(v)[0]);
    assert(bare(c.toks[c.pos + 1]) == typedef_structure_head(v)[1]);
    assert(bare(c.toks[c.pos + 2]) == typedef_structure_head(v)[2]);
}

proof fn lemma_typedef_structure_step_0(w: TypedefStructureView, v: TypedefStructureView, c: Cur, f: Setting)
    requires
        TypedefStructure::fits(v, f),
        v.addr_type != AddrType::DIRECT,
        tokens_at(c.toks, c.pos, seq![plain("ADDRESS_TYPE"@), plain(v.addr_type.word()->Some_0)]),
        toks_numbered(c.toks, f),
    ensures
        TypedefStructure::option(w, c) == Ok::<(TypedefStructureView, Cur), Failure>(
            (TypedefStructureView { addr_type: v.addr_type, ..w }, Cur { pos: c.pos + 2, ..c }),
        ),
{
    reveal_strlit("ADDRESS_TYPE");
    reveal_strlit("CONSISTENT_EXCHANGE");
    lemma_differ("ADDRESS_TYPE"@, "CONSISTENT_EXCHANGE"@, 0);
    reveal_strlit("SYMBOL_TYPE_LINK");
    lemma_differ("ADDRESS_TYPE"@, "SYMBOL_TYPE_LINK"@, 0);
    lemma_same("ADDRESS_TYPE"@);
    assert(bare(c.toks[c.pos + 0]) == (seq![plain("ADDRESS_TYPE"@), plain(v.addr_type.word()->Some_0)])[0]);
    assert(bare(c.toks[c.pos + 1]) == (seq![plain("ADDRESS_TYPE"@), plain(v.addr_type.word()->Some_0)])[1]);
    v.addr_type.law_named_of_word();
    v.addr_type.lemma_word();
}

proof fn lemma_typedef_structure_read_1(v: TypedefStructureView, c: Cur, f: Setting)
    requires
        TypedefStructure::fits(v, f),
        tokens_at(c.toks, c.pos, typedef_structure_from_1(v)),
        c.pos + typedef_structure_from_1(v).len() == c.toks.len(),
        toks_numbered(c.toks, f),
    ensures
        TypedefStructure::options(
            TypedefStructureView { children: Seq::empty(), ..v },
            c
        ) matches Ok((w, _)) && w == (TypedefStructureView { children: Seq::empty(), ..v }),
{
}

proof fn lemma_typedef_structure_read_0(v: TypedefStructureView, c: Cur, f: Setting)
    requires
        TypedefStructure::fits(v, f),
        tokens_at(c.toks, c.pos, typedef_structure_from_0(v)),
        c.pos + typedef_structure_from_0(v).len() == c.toks.len(),
        toks_numbered(c.toks, f),
    ensures
        TypedefStructure::options(
            TypedefStructureView { addr_type: AddrType::DIRECT, children: Seq::empty(), ..v },
            c
        ) matches Ok((w, _)) && w == (TypedefStructureView { children: Seq::empty(), ..v }),
{
    reveal(typedef_structure_part_0);
    let t = typedef_structure_part_0(v);
    if v.addr_type != AddrType::DIRECT {
        lemma_tokens_at_split(c.toks, c.pos, t, typedef_structure_from_1(v));
        let c2 = Cur { pos: c.pos + 2, ..c };
        lemma_typedef_structure_step_0(
            TypedefStructureView { addr_type: AddrType::DIRECT, children: Seq::empty(), ..v },
            v,
            c,
            f
        );
        lemma_typedef_structure_read_1(v, c2, f);
    } else {
        assert(t + typedef_structure_from_1(v) =~= typedef_structure_from_1(v));
        lemma_typedef_structure_read_1(v, c, f);
    }
}

impl Faithful for TypedefStructure {
    open spec fn fits(v: TypedefStructureView, f: Setting) -> bool {
        &&& is_param(plain(v.named.name))
        &&& v.named.description is Some
        &&& v.consistent_exchange == false
        &&& v.symbol_type_link is None
        &&& all_fit::<TypedefStructureChild>(v.children, f)
    }

    open spec fn shape(v: TypedefStructureView) -> Tree {
        shape_of(
            "TYPEDEF_STRUCTURE"@,
            typedef_structure_head(v) + typedef_structure_from_0(v),
            shapes::<TypedefStructureChild>(v.children)
        )
    }

    proof fn law_shown(v: TypedefStructureView, p: Page, f: Setting) {
        reveal_strlit("TYPEDEF_STRUCTURE");
        lemma_keyword_word("TYPEDEF_STRUCTURE"@);
        reveal_strlit("TYPEDEF_STRUCTURE ");
        reveal_strlit(" ");
        assert("TYPEDEF_STRUCTURE "@ + v.named.name =~= "TYPEDEF_STRUCTURE"@ + " "@ + v.named.name);
        lemma_spells_word("TYPEDEF_STRUCTURE"@);
        lemma_spells_word(v.named.name);
        lemma_spells_join(
            "TYPEDEF_STRUCTURE"@,
            seq![plain("TYPEDEF_STRUCTURE"@)],
            v.named.name,
            seq![plain(v.named.name)]
        );
        let h = seq![plain(v.named.name)];
        crate::a2l::tree_laws::lemma_shows_begin(
            p,
            "TYPEDEF_STRUCTURE "@ + v.named.name,
            seq![plain("TYPEDEF_STRUCTURE"@)] + h
        );
        let p0 = p.begin("TYPEDEF_STRUCTURE "@ + v.named.name);
        lemma_typedef_structure_body(v, p0, f);
        lemma_typedef_structure_opening(v, p0, f);
        let p1 = typedef_structure_opening(v, p0);
        lemma_typedef_structure_shown_0(v, p1, f);
        let p2 = typedef_structure_pages_0(v, p1);
        let hx = seq![string(escaped(v.named.description->Some_0)), plain(hex_form(v.size as nat))];
        let from = typedef_structure_from_0(v);
        lemma_shows_join(p0, p1, p2, hx, from);
        lemma_children_shown::<TypedefStructureChild>(v.children, false, p2, f);
        lemma_shapes_sound::<TypedefStructureChild>(v.children, p, f);
        let q = children_written::<TypedefStructureChild>(v.children, 0, false, p2)->Ok_0;
        let kids = shapes::<TypedefStructureChild>(v.children);
        let y = blocks_tokens(kids, 0);
        lemma_shows_join(p0, p2, q, hx + from, y);
        let x = typedef_structure_head(v) + from;
        lemma_shape_tokens(x, kids);
        lemma_all_params_join(typedef_structure_head(v), from);
        lemma_sound_shape("TYPEDEF_STRUCTURE"@, x, kids);
        assert(typedef_structure_head(v) =~= h + hx);
        assert(h + (hx + from + y) =~= x + y);
        lemma_shows_block(
            p,
            "TYPEDEF_STRUCTURE "@ + v.named.name,
            h,
            "TYPEDEF_STRUCTURE"@,
            q,
            hx + from + y,
            Self::shape(v)
        );
    }

    proof fn law_parsed(v: TypedefStructureView, tree: Tree, f: Setting) {
        let x = typedef_structure_head(v) + typedef_structure_from_0(v);
        let kids = shapes::<TypedefStructureChild>(v.children);
        lemma_shape_found(tree, "TYPEDEF_STRUCTURE"@, x, kids, f);
        let c = Cur::start(tree);
        lemma_tokens_at_split(c.toks, 0, typedef_structure_head(v), typedef_structure_from_0(v));
        lemma_typedef_structure_head(v, c, f);
        let c1 = Cur { pos: 3, ..c };
        lemma_typedef_structure_read_0(v, c1, f);
        lemma_children_read::<TypedefStructureChild>(v.children, children_of(tree.items), f);
    }
}

impl FaithfulChild for StructureComponentChild {
    open spec fn fits(v: StructureComponentChildView, f: Setting) -> bool {
        match v {
            StructureComponentChildView::ArComponent(n) => <ArComponent as Faithful>::fits(n, f),
            StructureComponentChildView::Unsupported(n) => <UnsupportedNode as FaithfulChild>::fits(n, f) && !same_ignore_case(n.keyword, "AR_COMPONENT"@),
        }
    }

    open spec fn shape(v: StructureComponentChildView) -> Tree {
        match v {
            StructureComponentChildView::ArComponent(n) => <ArComponent as Faithful>::shape(n),
            StructureComponentChildView::Unsupported(n) => <UnsupportedNode as FaithfulChild>::shape(n),
        }
    }

    proof fn law_shown(v: StructureComponentChildView, p: Page, f: Setting) {
        match v {
            StructureComponentChildView::ArComponent(n) => {
                lemma_node_shown::<ArComponent>(n, p, f);
            },
            StructureComponentChildView::Unsupported(n) => {
                <UnsupportedNode as FaithfulChild>::law_shown(n, p, f);
            },
        }
    }

    proof fn law_parsed(v: StructureComponentChildView, tree: Tree, f: Setting) {
        match v {
            StructureComponentChildView::ArComponent(n) => {
                reveal_strlit("AR_COMPONENT");
                lemma_same("AR_COMPONENT"@);
                assert(bare_tree(tree).keyword == "AR_COMPONENT"@);
                lemma_node_read::<ArComponent>(n, tree, f);
            },
            StructureComponentChildView::Unsupported(n) => {
                <UnsupportedNode as FaithfulChild>::law_parsed(n, tree, f);
            },
        }
    }
}

/// The parameters at the start of the block.
pub open spec fn structure_component_head(v: StructureComponentView) -> Seq<Tok> {
    seq![plain(v.name), plain(v.typedef_name), plain(hex_form(v.address_offset as nat))]
}

/// The parameters of `LAYOUT`.
#[verifier::opaque]
pub open spec fn structure_component_part_0(v: StructureComponentView) -> Seq<Tok> {
    if v.layout.word() is Some {
        seq![plain("LAYOUT"@), plain(v.layout.word()->Some_0)]
    } else { Seq::<Tok>::empty() }
}

/// The parameters from `LAYOUT` on.
pub open spec fn structure_component_from_0(v: StructureComponentView) -> Seq<Tok> {
    structure_component_part_0(v) + structure_component_from_1(v)
}

/// What is written for `LAYOUT`.
#[verifier::opaque]
pub open spec fn structure_component_page_0(v: StructureComponentView, p: Page) -> Page {
    match v.layout.word() { Some(kw) => p.word("LAYOUT"@, kw), None => p }
}

/// What is written from `LAYOUT` on.
pub open spec fn structure_component_pages_0(v: StructureComponentView, p: Page) -> Page {
    structure_component_pages_1(v, structure_component_page_0(v, p))
}

/// The parameters of `MATRIX_DIM`.
#[verifier::opaque]
pub open spec fn structure_component_part_1(v: StructureComponentView) -> Seq<Tok> {
    if v.matrix_dim is Some {
        seq![plain("MATRIX_DIM"@)] + int_tokens(v.matrix_dim->Some_0)
    } else { Seq::<Tok>::empty() }
}

/// The parameters from `MATRIX_DIM` on.
pub open spec fn structure_component_from_1(v: StructureComponentView) -> Seq<Tok> {
    structure_component_part_1(v) + structure_component_from_2(v)
}

/// What is written for `MATRIX_DIM`.
#[verifier::opaque]
pub open spec fn structure_component_page_1(v: StructureComponentView, p: Page) -> Page {
    match v.matrix_dim { Some(x) => p.word("MATRIX_DIM"@, listed(x)), None => p }
}

/// What is written from `MATRIX_DIM` on.
pub open spec fn structure_component_pages_1(v: StructureComponentView, p: Page) -> Page {
    structure_component_pages_2(v, structure_component_page_1(v, p))
}

/// The parameters of `SYMBOL_TYPE_LINK`.
#[verifier::opaque]
pub open spec fn structure_component_part_2(v: StructureComponentView) -> Seq<Tok> {
    if v.symbol_type_link is Some {
        seq![plain("SYMBOL_TYPE_LINK"@), plain(v.symbol_type_link->Some_0)]
    } else { Seq::<Tok>::empty() }
}

/// The parameters from `SYMBOL_TYPE_LINK` on.
pub open spec fn structure_component_from_2(v: StructureComponentView) -> Seq<Tok> {
    structure_component_part_2(v) + structure_component_from_3(v)
}

/// What is written for `SYMBOL_TYPE_LINK`.
#[verifier::opaque]
pub open spec fn structure_component_page_2(v: StructureComponentView, p: Page) -> Page {
    match v.symbol_type_link { Some(x) if x.len() > 0 => p.word("SYMBOL_TYPE_LINK"@, x), _ => p }
}

/// What is written from `SYMBOL_TYPE_LINK` on.
pub open spec fn structure_component_pages_2(v: StructureComponentView, p: Page) -> Page {
    structure_component_pages_3(v, structure_component_page_2(v, p))
}

/// The parameters behind the last keyword.
pub open spec fn structure_component_from_3(v: StructureComponentView) -> Seq<Tok> {
    Seq::empty()
}

/// What is written behind the last keyword.
pub open spec fn structure_component_pages_3(v: StructureComponentView, p: Page) -> Page {
    p
}

proof fn lemma_structure_component_part_2(v: StructureComponentView, p: Page, f: Setting)
    requires
        StructureComponent::fits(v, f),
        indents_by_blanks(p),
    ensures
        shows(p, structure_component_page_2(v, p), structure_component_part_2(v)),
        structure_component_page_2(v, p).depth == p.depth,
        structure_component_page_2(v, p).style == p.style,
        all_params(structure_component_part_2(v)),
{
    reveal(structure_component_page_2);
    reveal(structure_component_part_2);
    if v.symbol_type_link is Some {
        reveal_strlit("SYMBOL_TYPE_LINK");
        assert(is_keyword("SYMBOL_TYPE_LINK"@));
        lemma_keyword_param("SYMBOL_TYPE_LINK"@);
        lemma_shows_word(p, "SYMBOL_TYPE_LINK"@, v.symbol_type_link->Some_0);
        reveal_strlit("SYMBOL_TYPE_LINK");
        assert(is_keyword("SYMBOL_TYPE_LINK"@));
        lemma_keyword_param("SYMBOL_TYPE_LINK"@);
        assert(all_params(seq![plain("SYMBOL_TYPE_LINK"@), plain(v.symbol_type_link->Some_0)]));
        
    } else {
        lemma_shows_nothing(p);
    }
}

proof fn lemma_structure_component_part_1(v: StructureComponentView, p: Page, f: Setting)
    requires
        StructureComponent::fits(v, f),
        indents_by_blanks(p),
    ensures
        shows(p, structure_component_page_1(v, p), structure_component_part_1(v)),
        structure_component_page_1(v, p).depth == p.depth,
        structure_component_page_1(v, p).style == p.style,
        all_params(structure_component_part_1(v)),
{
    reveal(structure_component_page_1);
    reveal(structure_component_part_1);
    if v.matrix_dim is Some {
        reveal_strlit("MATRIX_DIM");
        assert(is_keyword("MATRIX_DIM"@));
        lemma_keyword_param("MATRIX_DIM"@);
        lemma_spells_ints(v.matrix_dim->Some_0);
        lemma_shows_tagged(p, "MATRIX_DIM"@, listed(v.matrix_dim->Some_0), int_tokens(v.matrix_dim->Some_0));
        reveal_strlit("MATRIX_DIM");
        assert(is_keyword("MATRIX_DIM"@));
        lemma_keyword_param("MATRIX_DIM"@);
        assert(all_params(seq![plain("MATRIX_DIM"@)]));
        lemma_int_params(v.matrix_dim->Some_0);
        lemma_all_params_join(seq![plain("MATRIX_DIM"@)], int_tokens(v.matrix_dim->Some_0));
    } else {
        lemma_shows_nothing(p);
    }
}

proof fn lemma_structure_component_part_0(v: StructureComponentView, p: Page, f: Setting)
    requires
        StructureComponent::fits(v, f),
        indents_by_blanks(p),
    ensures
        shows(p, structure_component_page_0(v, p), structure_component_part_0(v)),
        structure_component_page_0(v, p).depth == p.depth,
        structure_component_page_0(v, p).style == p.style,
        all_params(structure_component_part_0(v)),
{
    reveal(structure_component_page_0);
    reveal(structure_component_part_0);
    if v.layout.word() is Some {
        reveal_strlit("LAYOUT");
        assert(is_keyword("LAYOUT"@));
        lemma_keyword_param("LAYOUT"@);
        v.layout.lemma_word();
        lemma_shows_word(p, "LAYOUT"@, v.layout.word()->Some_0);
        reveal_strlit("LAYOUT");
        assert(is_keyword("LAYOUT"@));
        lemma_keyword_param("LAYOUT"@);
        v.layout.lemma_word();
        assert(all_params(seq![plain("LAYOUT"@), plain(v.layout.word()->Some_0)]));
        
    } else {
        lemma_shows_nothing(p);
    }
}

proof fn lemma_structure_component_shown_3(v: StructureComponentView, p: Page, f: Setting)
    requires
        StructureComponent::fits(v, f),
        indents_by_blanks(p),
    ensures
        shows(p, structure_component_pages_3(v, p), structure_component_from_3(v)),
        structure_component_pages_3(v, p).depth == p.depth,
        structure_component_pages_3(v, p).style == p.style,
        all_params(structure_component_from_3(v)),
{
    lemma_shows_nothing(p);
}

proof fn lemma_structure_component_shown_2(v: StructureComponentView, p: Page, f: Setting)
    requires
        StructureComponent::fits(v, f),
        indents_by_blanks(p),
    ensures
        shows(p, structure_component_pages_2(v, p), structure_component_from_2(v)),
        structure_component_pages_2(v, p).depth == p.depth,
        structure_component_pages_2(v, p).style == p.style,
        all_params(structure_component_from_2(v)),
{
    lemma_structure_component_part_2(v, p, f);
    let q = structure_component_page_2(v, p);
    lemma_structure_component_shown_3(v, q, f);
    lemma_shows_join(
        p,
        q,
        structure_component_pages_3(v, q),
        structure_component_part_2(v),
        structure_component_from_3(v)
    );
    lemma_all_params_join(structure_component_part_2(v), structure_component_from_3(v));
}

proof fn lemma_structure_component_shown_1(v: StructureComponentView, p: Page, f: Setting)
    requires
        StructureComponent::fits(v, f),
        indents_by_blanks(p),
    ensures
        shows(p, structure_component_pages_1(v, p), structure_component_from_1(v)),
        structure_component_pages_1(v, p).depth == p.depth,
        structure_component_pages_1(v, p).style == p.style,
        all_params(structure_component_from_1(v)),
{
    lemma_structure_component_part_1(v, p, f);
    let q = structure_component_page_1(v, p);
    lemma_structure_component_shown_2(v, q, f);
    lemma_shows_join(
        p,
        q,
        structure_component_pages_2(v, q),
        structure_component_part_1(v),
        structure_component_from_2(v)
    );
    lemma_all_params_join(structure_component_part_1(v), structure_component_from_2(v));
}

proof fn lemma_structure_component_shown_0(v: StructureComponentView, p: Page, f: Setting)
    requires
        StructureComponent::fits(v, f),
        indents_by_blanks(p),
    ensures
        shows(p, structure_component_pages_0(v, p), structure_component_from_0(v)),
        structure_component_pages_0(v, p).depth == p.depth,
        structure_component_pages_0(v, p).style == p.style,
        all_params(structure_component_from_0(v)),
{
    lemma_structure_component_part_0(v, p, f);
    let q = structure_component_page_0(v, p);
    lemma_structure_component_shown_1(v, q, f);
    lemma_shows_join(
        p,
        q,
        structure_component_pages_1(v, q),
        structure_component_part_0(v),
        structure_component_from_1(v)
    );
    lemma_all_params_join(structure_component_part_0(v), structure_component_from_1(v));
}

/// What is written for the parameters at the start.
#[verifier::opaque]
pub open spec fn structure_component_opening(v: StructureComponentView, p0: Page) -> Page {
    let p1 = if v.typedef_name.len() > 0 { p0.line(v.typedef_name) } else { p0 };
    let p2 = p1.line(hex_form(v.address_offset as nat));
    p2
}

proof fn lemma_structure_component_opening(v: StructureComponentView, p0: Page, f: Setting)
    requires
        StructureComponent::fits(v, f),
        indents_by_blanks(p0),
    ensures
        shows(
            p0,
            structure_component_opening(v, p0),
            seq![plain(v.typedef_name), plain(hex_form(v.address_offset as nat))]
        ),
        structure_component_opening(v, p0).depth == p0.depth,
        structure_component_opening(v, p0).style == p0.style,
        all_params(structure_component_head(v)),
{
    reveal(structure_component_opening);
    lemma_shows_nothing(p0);
    let x0 = Seq::<Tok>::empty();
    let p1 = if v.typedef_name.len() > 0 { p0.line(v.typedef_name) } else { p0 };
    assert(shows(p0, p1, seq![plain(v.typedef_name)]) && p1.depth == p0.depth && p1.style == p0.style) by {
        let p = p0;
        lemma_shows_word_line(p, v.typedef_name);
    }
    lemma_shows_join(p0, p0, p1, x0, seq![plain(v.typedef_name)]);
    let x1 = x0 + seq![plain(v.typedef_name)];
    let p2 = p1.line(hex_form(v.address_offset as nat));
    assert(
        shows(
            p1,
            p2,
            seq![plain(hex_form(v.address_offset as nat))]
        ) && p2.depth == p1.depth && p2.style == p1.style
    ) by {
        let p = p1;
        lemma_hex_param(v.address_offset as nat);
        lemma_shows_word_line(p, hex_form(v.address_offset as nat));
    }
    lemma_shows_join(p0, p1, p2, x1, seq![plain(hex_form(v.address_offset as nat))]);
    let x2 = x1 + seq![plain(hex_form(v.address_offset as nat))];
    assert(x2 =~= seq![plain(v.typedef_name), plain(hex_form(v.address_offset as nat))]);
    lemma_hex_param(v.address_offset as nat);
}

proof fn lemma_structure_component_body(v: StructureComponentView, p: Page, f: Setting)
    requires
        StructureComponent::fits(v, f),
    ensures
        StructureComponent::body(v, p) == children_written::<StructureComponentChild>(
            v.children,
            0,
            false,
            structure_component_pages_0(v, structure_component_opening(v, p))
        ),
{
    reveal(structure_component_opening);
    let q0 = structure_component_opening(v, p);
    let q1 = match v.layout.word() { Some(kw) => q0.word("LAYOUT"@, kw), None => q0 };
    assert(q1 == structure_component_page_0(v, q0)) by {
        reveal(structure_component_page_0);
    }
    let q2 = match v.matrix_dim { Some(x) => q1.word("MATRIX_DIM"@, listed(x)), None => q1 };
    assert(q2 == structure_component_page_1(v, q1)) by {
        reveal(structure_component_page_1);
    }
    let q3 = match v.symbol_type_link { Some(x) if x.len() > 0 => q2.word("SYMBOL_TYPE_LINK"@, x), _ => q2 };
    assert(q3 == structure_component_page_2(v, q2)) by {
        reveal(structure_component_page_2);
    }
}

proof fn lemma_structure_component_head(v: StructureComponentView, c: Cur, f: Setting)
    requires
        StructureComponent::fits(v, f),
        tokens_at(c.toks, c.pos, structure_component_head(v)),
        toks_numbered(c.toks, f),
    ensures
        StructureComponent::head(c) == Ok::<(StructureComponentView, Cur), Failure>(
            (
                StructureComponentView {
                    layout: IndexMode::NotSet,
                    matrix_dim: None,
                    symbol_type_link: None,
                    children: Seq::empty(),
                    ..v
                },
                Cur { pos: c.pos + 3, ..c }
            ),
        ),
{
    law_integer_of_hex(v.address_offset as nat);
    assert(bare(c.toks[c.pos + 0]) == structure_component_head(v)[0]);
    assert(bare(c.toks[c.pos + 1]) == structure_component_head(v)[1]);
    assert(bare(c.toks[c.pos + 2]) == structure_component_head(v)[2]);
}

proof fn lemma_structure_component_step_0(w: StructureComponentView, v: StructureComponentView, c: Cur, f: Setting)
    requires
        StructureComponent::fits(v, f),
        v.layout.word() is Some,
        tokens_at(c.toks, c.pos, seq![plain("LAYOUT"@), plain(v.layout.word()->Some_0)]),
        toks_numbered(c.toks, f),
    ensures
        StructureComponent::option(w, c) == Ok::<(StructureComponentView, Cur), Failure>(
            (StructureComponentView { layout: v.layout, ..w }, Cur { pos: c.pos + 2, ..c }),
        ),
{
    reveal_strlit("LAYOUT");
    lemma_same("LAYOUT"@);
    assert(bare(c.toks[c.pos + 0]) == (seq![plain("LAYOUT"@), plain(v.layout.word()->Some_0)])[0]);
    assert(bare(c.toks[c.pos + 1]) == (seq![plain("LAYOUT"@), plain(v.layout.word()->Some_0)])[1]);
    v.layout.law_named_of_word();
    v.layout.lemma_word();
}

proof fn lemma_structure_component_step_1(w: StructureComponentView, v: StructureComponentView, c: Cur, f: Setting)
    requires
        StructureComponent::fits(v, f),
        v.matrix_dim is Some,
        tokens_at(c.toks, c.pos, seq![plain("MATRIX_DIM"@)] + int_tokens(v.matrix_dim->Some_0)),
        toks_numbered(c.toks, f),
        no_int_at(c.toks, c.pos + 1 + int_tokens(v.matrix_dim->Some_0).len()) || v.matrix_dim->Some_0.len() == 5,
    ensures
        StructureComponent::option(w, c) == Ok::<(StructureComponentView, Cur), Failure>(
            (
                StructureComponentView { matrix_dim: v.matrix_dim, ..w },
                Cur { pos: c.pos + 1 + int_tokens(v.matrix_dim->Some_0).len(), ..c }
            ),
        ),
{
    reveal_strlit("MATRIX_DIM");
    reveal_strlit("LAYOUT");
    lemma_differ("MATRIX_DIM"@, "LAYOUT"@, 0);
    lemma_same("MATRIX_DIM"@);
    assert(bare(c.toks[c.pos + 0]) == (seq![plain("MATRIX_DIM"@)] + int_tokens(v.matrix_dim->Some_0))[0]);
    lemma_tokens_at_split(c.toks, c.pos, seq![plain("MATRIX_DIM"@)], int_tokens(v.matrix_dim->Some_0));
    lemma_dims_read(c.step(), v.matrix_dim->Some_0);
}

proof fn lemma_structure_component_step_2(w: StructureComponentView, v: StructureComponentView, c: Cur, f: Setting)
    requires
        StructureComponent::fits(v, f),
        v.symbol_type_link is Some,
        tokens_at(c.toks, c.pos, seq![plain("SYMBOL_TYPE_LINK"@), plain(v.symbol_type_link->Some_0)]),
        toks_numbered(c.toks, f),
    ensures
        StructureComponent::option(w, c) == Ok::<(StructureComponentView, Cur), Failure>(
            (StructureComponentView { symbol_type_link: v.symbol_type_link, ..w }, Cur { pos: c.pos + 2, ..c }),
        ),
{
    reveal_strlit("SYMBOL_TYPE_LINK");
    reveal_strlit("LAYOUT");
    lemma_differ("SYMBOL_TYPE_LINK"@, "LAYOUT"@, 0);
    reveal_strlit("MATRIX_DIM");
    lemma_differ("SYMBOL_TYPE_LINK"@, "MATRIX_DIM"@, 0);
    lemma_same("SYMBOL_TYPE_LINK"@);
    assert(bare(c.toks[c.pos + 0]) == (seq![plain("SYMBOL_TYPE_LINK"@), plain(v.symbol_type_link->Some_0)])[0]);
    assert(bare(c.toks[c.pos + 1]) == (seq![plain("SYMBOL_TYPE_LINK"@), plain(v.symbol_type_link->Some_0)])[1]);
    
}

proof fn lemma_structure_component_read_3(v: StructureComponentView, c: Cur, f: Setting)
    requires
        StructureComponent::fits(v, f),
        tokens_at(c.toks, c.pos, structure_component_from_3(v)),
        c.pos + structure_component_from_3(v).len() == c.toks.len(),
        toks_numbered(c.toks, f),
    ensures
        StructureComponent::options(
            StructureComponentView { children: Seq::empty(), ..v },
            c
        ) matches Ok((w, _)) && w == (StructureComponentView { children: Seq::empty(), ..v }),
{
}

proof fn lemma_structure_component_next_3(v: StructureComponentView, c: Cur)
    requires
        tokens_at(c.toks, c.pos, structure_component_from_3(v)),
        c.pos + structure_component_from_3(v).len() == c.toks.len(),
    ensures
        no_int_at(c.toks, c.pos),
{
}

proof fn lemma_structure_component_read_2(v: StructureComponentView, c: Cur, f: Setting)
    requires
        StructureComponent::fits(v, f),
        tokens_at(c.toks, c.pos, structure_component_from_2(v)),
        c.pos + structure_component_from_2(v).len() == c.toks.len(),
        toks_numbered(c.toks, f),
    ensures
        StructureComponent::options(
            StructureComponentView { symbol_type_link: None, children: Seq::empty(), ..v },
            c
        ) matches Ok((w, _)) && w == (StructureComponentView { children: Seq::empty(), ..v }),
{
    reveal(structure_component_part_2);
    let t = structure_component_part_2(v);
    if v.symbol_type_link is Some {
        lemma_tokens_at_split(c.toks, c.pos, t, structure_component_from_3(v));
        let c2 = Cur { pos: c.pos + 2, ..c };
        lemma_structure_component_step_2(
            StructureComponentView { symbol_type_link: None, children: Seq::empty(), ..v },
            v,
            c,
            f
        );
        lemma_structure_component_read_3(v, c2, f);
    } else {
        assert(t + structure_component_from_3(v) =~= structure_component_from_3(v));
        lemma_structure_component_read_3(v, c, f);
    }
}

proof fn lemma_structure_component_next_2(v: StructureComponentView, c: Cur)
    requires
        tokens_at(c.toks, c.pos, structure_component_from_2(v)),
        c.pos + structure_component_from_2(v).len() == c.toks.len(),
    ensures
        no_int_at(c.toks, c.pos),
{
    reveal(structure_component_part_2);
    if v.symbol_type_link is Some {
        assert(bare(c.toks[c.pos + 0]) == structure_component_from_2(v)[0]);
        reveal_strlit("SYMBOL_TYPE_LINK");
        lemma_no_int("SYMBOL_TYPE_LINK"@);
    } else {
        assert(structure_component_from_2(v) =~= structure_component_from_3(v));
        lemma_structure_component_next_3(v, c);
    }
}

proof fn lemma_structure_component_read_1(v: StructureComponentView, c: Cur, f: Setting)
    requires
        StructureComponent::fits(v, f),
        tokens_at(c.toks, c.pos, structure_component_from_1(v)),
        c.pos + structure_component_from_1(v).len() == c.toks.len(),
        toks_numbered(c.toks, f),
    ensures
        StructureComponent::options(
            StructureComponentView {
                matrix_dim: None,
                symbol_type_link: None,
                children: Seq::empty(),
                ..v
            },
            c
        ) matches Ok((w, _)) && w == (StructureComponentView { children: Seq::empty(), ..v }),
{
    reveal(structure_component_part_1);
    let t = structure_component_part_1(v);
    if v.matrix_dim is Some {
        lemma_tokens_at_split(c.toks, c.pos, t, structure_component_from_2(v));
        let c2 = Cur { pos: c.pos + 1 + int_tokens(v.matrix_dim->Some_0).len(), ..c };
        lemma_structure_component_next_2(v, c2);
        lemma_structure_component_step_1(
            StructureComponentView {
                matrix_dim: None,
                symbol_type_link: None,
                children: Seq::empty(),
                ..v
            },
            v,
            c,
            f
        );
        lemma_structure_component_read_2(v, c2, f);
    } else {
        assert(t + structure_component_from_2(v) =~= structure_component_from_2(v));
        lemma_structure_component_read_2(v, c, f);
    }
}

proof fn lemma_structure_component_read_0(v: StructureComponentView, c: Cur, f: Setting)
    requires
        StructureComponent::fits(v, f),
        tokens_at(c.toks, c.pos, structure_component_from_0(v)),
        c.pos + structure_component_from_0(v).len() == c.toks.len(),
        toks_numbered(c.toks, f),
    ensures
        StructureComponent::options(
            StructureComponentView {
                layout: IndexMode::NotSet,
                matrix_dim: None,
                symbol_type_link: None,
                children: Seq::empty(),
                ..v
            },
            c
        ) matches Ok((w, _)) && w == (StructureComponentView { children: Seq::empty(), ..v }),
{
    reveal(structure_component_part_0);
    let t = structure_component_part_0(v);
    if v.layout.word() is Some {
        lemma_tokens_at_split(c.toks, c.pos, t, structure_component_from_1(v));
        let c2 = Cur { pos: c.pos + 2, ..c };
        lemma_structure_component_step_0(
            StructureComponentView {
                layout: IndexMode::NotSet,
                matrix_dim: None,
                symbol_type_link: None,
                children: Seq::empty(),
                ..v
            },
            v,
            c,
            f
        );
        lemma_structure_component_read_1(v, c2, f);
    } else {
        assert(t + structure_component_from_1(v) =~= structure_component_from_1(v));
        lemma_structure_component_read_1(v, c, f);
    }
}

impl Faithful for StructureComponent {
    open spec fn fits(v: StructureComponentView, f: Setting) -> bool {
        &&& is_param(plain(v.name))
        &&& is_param(plain(v.typedef_name))
        &&& (v.matrix_dim matches Some(x) ==> 0 < x.len() <= 5)
        &&& (v.symbol_type_link matches Some(x) ==> is_param(plain(x)))
        &&& all_fit::<StructureComponentChild>(v.children, f)
    }

    open spec fn shape(v: StructureComponentView) -> Tree {
        shape_of(
            "STRUCTURE_COMPONENT"@,
            structure_component_head(v) + structure_component_from_0(v),
            shapes::<StructureComponentChild>(v.children)
        )
    }

    proof fn law_shown(v: StructureComponentView, p: Page, f: Setting) {
        reveal_strlit("STRUCTURE_COMPONENT");
        lemma_keyword_word("STRUCTURE_COMPONENT"@);
        reveal_strlit("STRUCTURE_COMPONENT ");
        reveal_strlit(" ");
        assert("STRUCTURE_COMPONENT "@ + v.name =~= "STRUCTURE_COMPONENT"@ + " "@ + v.name);
        lemma_spells_word("STRUCTURE_COMPONENT"@);
        lemma_spells_word(v.name);
        lemma_spells_join(
            "STRUCTURE_COMPONENT"@,
            seq![plain("STRUCTURE_COMPONENT"@)],
            v.name,
            seq![plain(v.name)]
        );
        let h = seq![plain(v.name)];
        crate::a2l::tree_laws::lemma_shows_begin(
            p,
            "STRUCTURE_COMPONENT "@ + v.name,
            seq![plain("STRUCTURE_COMPONENT"@)] + h
        );
        let p0 = p.begin("STRUCTURE_COMPONENT "@ + v.name);
        lemma_structure_component_body(v, p0, f);
        lemma_structure_component_opening(v, p0, f);
        let p1 = structure_component_opening(v, p0);
        lemma_structure_component_shown_0(v, p1, f);
        let p2 = structure_component_pages_0(v, p1);
        let hx = seq![plain(v.typedef_name), plain(hex_form(v.address_offset as nat))];
        let from = structure_component_from_0(v);
        lemma_shows_join(p0, p1, p2, hx, from);
        lemma_children_shown::<StructureComponentChild>(v.children, false, p2, f);
        lemma_shapes_sound::<StructureComponentChild>(v.children, p, f);
        let q = children_written::<StructureComponentChild>(v.children, 0, false, p2)->Ok_0;
        let kids = shapes::<StructureComponentChild>(v.children);
        let y = blocks_tokens(kids, 0);
        lemma_shows_join(p0, p2, q, hx + from, y);
        let x = structure_component_head(v) + from;
        lemma_shape_tokens(x, kids);
        lemma_all_params_join(structure_component_head(v), from);
        lemma_sound_shape("STRUCTURE_COMPONENT"@, x, kids);
        assert(structure_component_head(v) =~= h + hx);
        assert(h + (hx + from + y) =~= x + y);
        lemma_shows_block(
            p,
            "STRUCTURE_COMPONENT "@ + v.name,
            h,
            "STRUCTURE_COMPONENT"@,
            q,
            hx + from + y,
            Self::shape(v)
        );
    }

    proof fn law_parsed(v: StructureComponentView, tree: Tree, f: Setting) {
        let x = structure_component_head(v) + structure_component_from_0(v);
        let kids = shapes::<StructureComponentChild>(v.children);
        lemma_shape_found(tree, "STRUCTURE_COMPONENT"@, x, kids, f);
        let c = Cur::start(tree);
        lemma_tokens_at_split(c.toks, 0, structure_component_head(v), structure_component_from_0(v));
        lemma_structure_component_head(v, c, f);
        let c1 = Cur { pos: 3, ..c };
        lemma_structure_component_read_0(v, c1, f);
        lemma_children_read::<StructureComponentChild>(v.children, children_of(tree.items), f);
    }
}

/// The parameters at the start of the block.
pub open spec fn ar_component_head(v: ArComponentView) -> Seq<Tok> {
    seq![string(escaped(v.component_type))]
}

/// The parameters of `PROTOTYPE_OF`.
#[verifier::opaque]
pub open spec fn ar_component_part_0(v: ArComponentView) -> Seq<Tok> {
    if v.prototype_of is Some {
        seq![plain("PROTOTYPE_OF"@), plain(v.prototype_of->Some_0)]
    } else { Seq::<Tok>::empty() }
}

/// The parameters from `PROTOTYPE_OF` on.
pub open spec fn ar_component_from_0(v: ArComponentView) -> Seq<Tok> {
    ar_component_part_0(v) + ar_component_from_1(v)
}

/// What is written for `PROTOTYPE_OF`.
#[verifier::opaque]
pub open spec fn ar_component_page_0(v: ArComponentView, p: Page) -> Page {
    match v.prototype_of { Some(x) if x.len() > 0 => p.word("PROTOTYPE_OF"@, x), _ => p }
}

/// What is written from `PROTOTYPE_OF` on.
pub open spec fn ar_component_pages_0(v: ArComponentView, p: Page) -> Page {
    ar_component_pages_1(v, ar_component_page_0(v, p))
}

/// The parameters behind the last keyword.
pub open spec fn ar_component_from_1(v: ArComponentView) -> Seq<Tok> {
    Seq::empty()
}

/// What is written behind the last keyword.
pub open spec fn ar_component_pages_1(v: ArComponentView, p: Page) -> Page {
    p
}

proof fn lemma_ar_component_part_0(v: ArComponentView, p: Page, f: Setting)
    requires
        ArComponent::fits(v, f),
        indents_by_blanks(p),
    ensures
        shows(p, ar_component_page_0(v, p), ar_component_part_0(v)),
        ar_component_page_0(v, p).depth == p.depth,
        ar_component_page_0(v, p).style == p.style,
        all_params(ar_component_part_0(v)),
{
    reveal(ar_component_page_0);
    reveal(ar_component_part_0);
    if v.prototype_of is Some {
        reveal_strlit("PROTOTYPE_OF");
        assert(is_keyword("PROTOTYPE_OF"@));
        lemma_keyword_param("PROTOTYPE_OF"@);
        lemma_shows_word(p, "PROTOTYPE_OF"@, v.prototype_of->Some_0);
        reveal_strlit("PROTOTYPE_OF");
        assert(is_keyword("PROTOTYPE_OF"@));
        lemma_keyword_param("PROTOTYPE_OF"@);
        assert(all_params(seq![plain("PROTOTYPE_OF"@), plain(v.prototype_of->Some_0)]));
        
    } else {
        lemma_shows_nothing(p);
    }
}

proof fn lemma_ar_component_shown_1(v: ArComponentView, p: Page, f: Setting)
    requires
        ArComponent::fits(v, f),
        indents_by_blanks(p),
    ensures
        shows(p, ar_component_pages_1(v, p), ar_component_from_1(v)),
        ar_component_pages_1(v, p).depth == p.depth,
        ar_component_pages_1(v, p).style == p.style,
        all_params(ar_component_from_1(v)),
{
    lemma_shows_nothing(p);
}

proof fn lemma_ar_component_shown_0(v: ArComponentView, p: Page, f: Setting)
    requires
        ArComponent::fits(v, f),
        indents_by_blanks(p),
    ensures
        shows(p, ar_component_pages_0(v, p), ar_component_from_0(v)),
        ar_component_pages_0(v, p).depth == p.depth,
        ar_component_pages_0(v, p).style == p.style,
        all_params(ar_component_from_0(v)),
{
    lemma_ar_component_part_0(v, p, f);
    let q = ar_component_page_0(v, p);
    lemma_ar_component_shown_1(v, q, f);
    lemma_shows_join(p, q, ar_component_pages_1(v, q), ar_component_part_0(v), ar_component_from_1(v));
    lemma_all_params_join(ar_component_part_0(v), ar_component_from_1(v));
}

/// What is written for the parameters at the start.
#[verifier::opaque]
pub open spec fn ar_component_opening(v: ArComponentView, p0: Page) -> Page {
    let p1 = p0.quote_line(v.component_type);
    p1
}

proof fn lemma_ar_component_opening(v: ArComponentView, p0: Page, f: Setting)
    requires
        ArComponent::fits(v, f),
        indents_by_blanks(p0),
    ensures
        shows(p0, ar_component_opening(v, p0), seq![string(escaped(v.component_type))]),
        ar_component_opening(v, p0).depth == p0.depth,
        ar_component_opening(v, p0).style == p0.style,
        all_params(ar_component_head(v)),
{
    reveal(ar_component_opening);
    lemma_shows_nothing(p0);
    let x0 = Seq::<Tok>::empty();
    let p1 = p0.quote_line(v.component_type);
    assert(
        shows(
            p0,
            p1,
            seq![string(escaped(v.component_type))]
        ) && p1.depth == p0.depth && p1.style == p0.style
    ) by {
        let p = p0;
        lemma_shows_quote_line(p, v.component_type);
    }
    lemma_shows_join(p0, p0, p1, x0, seq![string(escaped(v.component_type))]);
    let x1 = x0 + seq![string(escaped(v.component_type))];
    assert(x1 =~= seq![string(escaped(v.component_type))]);
    lemma_string_param(v.component_type);
}

proof fn lemma_ar_component_body(v: ArComponentView, p: Page, f: Setting)
    requires
        ArComponent::fits(v, f),
    ensures
        ArComponent::body(v, p) == Ok::<Page, Stopped>(ar_component_pages_0(v, ar_component_opening(v, p))),
{
    reveal(ar_component_opening);
    let q0 = ar_component_opening(v, p);
    let q1 = match v.prototype_of { Some(x) if x.len() > 0 => q0.word("PROTOTYPE_OF"@, x), _ => q0 };
    assert(q1 == ar_component_page_0(v, q0)) by {
        reveal(ar_component_page_0);
    }
}

proof fn lemma_ar_component_head(v: ArComponentView, c: Cur, f: Setting)
    requires
        ArComponent::fits(v, f),
        tokens_at(c.toks, c.pos, ar_component_head(v)),
        toks_numbered(c.toks, f),
    ensures
        ArComponent::head(c) == Ok::<(ArComponentView, Cur), Failure>(
            (ArComponentView { prototype_of: None, ..v }, Cur { pos: c.pos + 1, ..c }),
        ),
{
    law_unescaped_of_escaped(v.component_type);
    assert(bare(c.toks[c.pos + 0]) == ar_component_head(v)[0]);
}

proof fn lemma_ar_component_step_0(w: ArComponentView, v: ArComponentView, c: Cur, f: Setting)
    requires
        ArComponent::fits(v, f),
        v.prototype_of is Some,
        tokens_at(c.toks, c.pos, seq![plain("PROTOTYPE_OF"@), plain(v.prototype_of->Some_0)]),
        toks_numbered(c.toks, f),
    ensures
        ArComponent::option(w, c) == Ok::<(ArComponentView, Cur), Failure>(
            (ArComponentView { prototype_of: v.prototype_of, ..w }, Cur { pos: c.pos + 2, ..c }),
        ),
{
    reveal_strlit("PROTOTYPE_OF");
    lemma_same("PROTOTYPE_OF"@);
    assert(bare(c.toks[c.pos + 0]) == (seq![plain("PROTOTYPE_OF"@), plain(v.prototype_of->Some_0)])[0]);
    assert(bare(c.toks[c.pos + 1]) == (seq![plain("PROTOTYPE_OF"@), plain(v.prototype_of->Some_0)])[1]);
    
}

proof fn lemma_ar_component_read_1(v: ArComponentView, c: Cur, f: Setting)
    requires
        ArComponent::fits(v, f),
        tokens_at(c.toks, c.pos, ar_component_from_1(v)),
        c.pos + ar_component_from_1(v).len() == c.toks.len(),
        toks_numbered(c.toks, f),
    ensures
        ArComponent::options(v, c) matches Ok((w, _)) && w == (v),
{
}

proof fn lemma_ar_component_read_0(v: ArComponentView, c: Cur, f: Setting)
    requires
        ArComponent::fits(v, f),
        tokens_at(c.toks, c.pos, ar_component_from_0(v)),
        c.pos + ar_component_from_0(v).len() == c.toks.len(),
        toks_numbered(c.toks, f),
    ensures
        ArComponent::options(ArComponentView { prototype_of: None, ..v }, c) matches Ok((w, _)) && w == (v),
{
    reveal(ar_component_part_0);
    let t = ar_component_part_0(v);
    if v.prototype_of is Some {
        lemma_tokens_at_split(c.toks, c.pos, t, ar_component_from_1(v));
        let c2 = Cur { pos: c.pos + 2, ..c };
        lemma_ar_component_step_0(ArComponentView { prototype_of: None, ..v }, v, c, f);
        lemma_ar_component_read_1(v, c2, f);
    } else {
        assert(t + ar_component_from_1(v) =~= ar_component_from_1(v));
        lemma_ar_component_read_1(v, c, f);
    }
}

impl Faithful for ArComponent {
    open spec fn fits(v: ArComponentView, f: Setting) -> bool {
        &&& (v.prototype_of matches Some(x) ==> is_param(plain(x)))
    }

    open spec fn shape(v: ArComponentView) -> Tree {
        shape_of("AR_COMPONENT"@, ar_component_head(v) + ar_component_from_0(v), Seq::empty())
    }

    proof fn law_shown(v: ArComponentView, p: Page, f: Setting) {
        reveal_strlit("AR_COMPONENT");
        lemma_keyword_word("AR_COMPONENT"@);
        lemma_spells_word("AR_COMPONENT"@);
        let h = Seq::<Tok>::empty();
        assert(seq![plain("AR_COMPONENT"@)] + h =~= seq![plain("AR_COMPONENT"@)]);
        crate::a2l::tree_laws::lemma_shows_begin(p, "AR_COMPONENT"@, seq![plain("AR_COMPONENT"@)] + h);
        let p0 = p.begin("AR_COMPONENT"@);
        lemma_ar_component_body(v, p0, f);
        lemma_ar_component_opening(v, p0, f);
        let p1 = ar_component_opening(v, p0);
        lemma_ar_component_shown_0(v, p1, f);
        let p2 = ar_component_pages_0(v, p1);
        let hx = seq![string(escaped(v.component_type))];
        let from = ar_component_from_0(v);
        lemma_shows_join(p0, p1, p2, hx, from);
        let q = p2;
        let kids = Seq::<Tree>::empty();
        let y = Seq::<Tok>::empty();
        assert(blocks_tokens(kids, 0) =~= y);
        assert(hx + from + y =~= hx + from);
        let x = ar_component_head(v) + from;
        lemma_shape_tokens(x, kids);
        lemma_all_params_join(ar_component_head(v), from);
        lemma_sound_shape("AR_COMPONENT"@, x, kids);
        assert(ar_component_head(v) =~= h + hx);
        assert(h + (hx + from + y) =~= x + y);
        lemma_shows_block(p, "AR_COMPONENT"@, h, "AR_COMPONENT"@, q, hx + from + y, Self::shape(v));
    }

    proof fn law_parsed(v: ArComponentView, tree: Tree, f: Setting) {
        let x = ar_component_head(v) + ar_component_from_0(v);
        let kids = Seq::<Tree>::empty();
        lemma_shape_found(tree, "AR_COMPONENT"@, x, kids, f);
        let c = Cur::start(tree);
        lemma_tokens_at_split(c.toks, 0, ar_component_head(v), ar_component_from_0(v));
        lemma_ar_component_head(v, c, f);
        let c1 = Cur { pos: 1, ..c };
        lemma_ar_component_read_0(v, c1, f);
    }
}

/// The parameters at the start of the block.
pub open spec fn overwrite_head(v: OverwriteView) -> Seq<Tok> {
    seq![plain(v.name), plain(dec(v.axis_no as nat))]
}

/// The parameters of `CONVERSION`.
#[verifier::opaque]
pub open spec fn overwrite_part_0(v: OverwriteView) -> Seq<Tok> {
    if v.conversion is Some {
        seq![plain("CONVERSION"@), plain(v.conversion->Some_0)]
    } else { Seq::<Tok>::empty() }
}

/// The parameters from `CONVERSION` on.
pub open spec fn overwrite_from_0(v: OverwriteView) -> Seq<Tok> {
    overwrite_part_0(v) + overwrite_from_1(v)
}

/// What is written for `CONVERSION`.
#[verifier::opaque]
pub open spec fn overwrite_page_0(v: OverwriteView, p: Page) -> Page {
    match v.conversion { Some(x) if x.len() > 0 => p.word("CONVERSION"@, x), _ => p }
}

/// What is written from `CONVERSION` on.
pub open spec fn overwrite_pages_0(v: OverwriteView, p: Page) -> Page {
    overwrite_pages_1(v, overwrite_page_0(v, p))
}

/// The parameters of `FORMAT`.
#[verifier::opaque]
pub open spec fn overwrite_part_1(v: OverwriteView) -> Seq<Tok> {
    if v.format is Some { seq![plain("FORMAT"@), plain(v.format->Some_0)] } else { Seq::<Tok>::empty() }
}

/// The parameters from `FORMAT` on.
pub open spec fn overwrite_from_1(v: OverwriteView) -> Seq<Tok> {
    overwrite_part_1(v) + overwrite_from_2(v)
}

/// What is written for `FORMAT`.
#[verifier::opaque]
pub open spec fn overwrite_page_1(v: OverwriteView, p: Page) -> Page {
    match v.format { Some(x) if x.len() > 0 => p.word("FORMAT"@, x), _ => p }
}

/// What is written from `FORMAT` on.
pub open spec fn overwrite_pages_1(v: OverwriteView, p: Page) -> Page {
    overwrite_pages_2(v, overwrite_page_1(v, p))
}

/// The parameters of `PHYS_UNIT`.
#[verifier::opaque]
pub open spec fn overwrite_part_2(v: OverwriteView) -> Seq<Tok> {
    if v.phys_unit is Some { seq![plain("PHYS_UNIT"@), plain(v.phys_unit->Some_0)] } else { Seq::<Tok>::empty() }
}

/// The parameters from `PHYS_UNIT` on.
pub open spec fn overwrite_from_2(v: OverwriteView) -> Seq<Tok> {
    overwrite_part_2(v) + overwrite_from_3(v)
}

/// What is written for `PHYS_UNIT`.
#[verifier::opaque]
pub open spec fn overwrite_page_2(v: OverwriteView, p: Page) -> Page {
    match v.phys_unit { Some(x) if x.len() > 0 => p.word("PHYS_UNIT"@, x), _ => p }
}

/// What is written from `PHYS_UNIT` on.
pub open spec fn overwrite_pages_2(v: OverwriteView, p: Page) -> Page {
    overwrite_pages_3(v, overwrite_page_2(v, p))
}

/// The parameters of `INPUT_QUANTITY`.
#[verifier::opaque]
pub open spec fn overwrite_part_3(v: OverwriteView) -> Seq<Tok> {
    if v.input_quantity is Some {
        seq![plain("INPUT_QUANTITY"@), plain(v.input_quantity->Some_0)]
    } else { Seq::<Tok>::empty() }
}

/// The parameters from `INPUT_QUANTITY` on.
pub open spec fn overwrite_from_3(v: OverwriteView) -> Seq<Tok> {
    overwrite_part_3(v) + overwrite_from_4(v)
}

/// What is written for `INPUT_QUANTITY`.
#[verifier::opaque]
pub open spec fn overwrite_page_3(v: OverwriteView, p: Page) -> Page {
    match v.input_quantity { Some(x) if x.len() > 0 => p.word("INPUT_QUANTITY"@, x), _ => p }
}

/// What is written from `INPUT_QUANTITY` on.
pub open spec fn overwrite_pages_3(v: OverwriteView, p: Page) -> Page {
    overwrite_pages_4(v, overwrite_page_3(v, p))
}

/// The parameters of `MONOTONY`.
#[verifier::opaque]
pub open spec fn overwrite_part_4(v: OverwriteView) -> Seq<Tok> {
    if v.monotony.word() is Some {
        seq![plain("MONOTONY"@), plain(v.monotony.word()->Some_0)]
    } else { Seq::<Tok>::empty() }
}

/// The parameters from `MONOTONY` on.
pub open spec fn overwrite_from_4(v: OverwriteView) -> Seq<Tok> {
    overwrite_part_4(v) + overwrite_from_5(v)
}

/// What is written for `MONOTONY`.
#[verifier::opaque]
pub open spec fn overwrite_page_4(v: OverwriteView, p: Page) -> Page {
    match v.monotony.word() { Some(kw) => p.word("MONOTONY"@, kw), None => p }
}

/// What is written from `MONOTONY` on.
pub open spec fn overwrite_pages_4(v: OverwriteView, p: Page) -> Page {
    overwrite_pages_5(v, overwrite_page_4(v, p))
}

/// The parameters of `LIMITS`.
#[verifier::opaque]
pub open spec fn overwrite_part_5(v: OverwriteView) -> Seq<Tok> {
    if v.lower_limit is Some {
        seq![plain("LIMITS"@), plain(v.lower_limit->Some_0.text), plain(v.upper_limit->Some_0.text)]
    } else { Seq::<Tok>::empty() }
}

/// The parameters from `LIMITS` on.
pub open spec fn overwrite_from_5(v: OverwriteView) -> Seq<Tok> {
    overwrite_part_5(v) + overwrite_from_6(v)
}

/// What is written for `LIMITS`.
#[verifier::opaque]
pub open spec fn overwrite_page_5(v: OverwriteView, p: Page) -> Page {
    match (v.lower_limit, v.upper_limit) {
        (Some(lo), Some(hi)) => p.line("LIMITS "@ + lo.text + " "@ + hi.text),
        _ => p
    }
}

/// What is written from `LIMITS` on.
pub open spec fn overwrite_pages_5(v: OverwriteView, p: Page) -> Page {
    overwrite_pages_6(v, overwrite_page_5(v, p))
}

/// The parameters of `EXTENDED_LIMITS`.
#[verifier::opaque]
pub open spec fn overwrite_part_6(v: OverwriteView) -> Seq<Tok> {
    if v.lower_limit_ex is Some {
        seq![
            plain("EXTENDED_LIMITS"@),
            plain(v.lower_limit_ex->Some_0.text),
            plain(v.upper_limit_ex->Some_0.text)
        ]
    } else { Seq::<Tok>::empty() }
}

/// The parameters from `EXTENDED_LIMITS` on.
pub open spec fn overwrite_from_6(v: OverwriteView) -> Seq<Tok> {
    overwrite_part_6(v) + overwrite_from_7(v)
}

/// What is written for `EXTENDED_LIMITS`.
#[verifier::opaque]
pub open spec fn overwrite_page_6(v: OverwriteView, p: Page) -> Page {
    match (v.lower_limit_ex, v.upper_limit_ex) {
        (Some(lo), Some(hi)) => p.line("EXTENDED_LIMITS "@ + lo.text + " "@ + hi.text),
        _ => p
    }
}

/// What is written from `EXTENDED_LIMITS` on.
pub open spec fn overwrite_pages_6(v: OverwriteView, p: Page) -> Page {
    overwrite_pages_7(v, overwrite_page_6(v, p))
}

/// The parameters behind the last keyword.
pub open spec fn overwrite_from_7(v: OverwriteView) -> Seq<Tok> {
    Seq::empty()
}

/// What is written behind the last keyword.
pub open spec fn overwrite_pages_7(v: OverwriteView, p: Page) -> Page {
    p
}

proof fn lemma_overwrite_part_6(v: OverwriteView, p: Page, f: Setting)
    requires
        Overwrite::fits(v, f),
        indents_by_blanks(p),
    ensures
        shows(p, overwrite_page_6(v, p), overwrite_part_6(v)),
        overwrite_page_6(v, p).depth == p.depth,
        overwrite_page_6(v, p).style == p.style,
        all_params(overwrite_part_6(v)),
{
    reveal(overwrite_page_6);
    reveal(overwrite_part_6);
    if v.lower_limit_ex is Some {
        reveal_strlit("EXTENDED_LIMITS");
        assert(is_keyword("EXTENDED_LIMITS"@));
        lemma_keyword_param("EXTENDED_LIMITS"@);
        let lo = v.lower_limit_ex->Some_0;
        let hi = v.upper_limit_ex->Some_0;
        reveal_strlit("EXTENDED_LIMITS ");
        reveal_strlit("EXTENDED_LIMITS");
        reveal_strlit(" ");
        assert(
            "EXTENDED_LIMITS "@ + lo.text + " "@ + hi.text =~= "EXTENDED_LIMITS"@ + " "@ + (lo.text + " "@ + hi.text)
        );
        lemma_spells_pair(lo.text, hi.text);
        lemma_shows_tagged(p, "EXTENDED_LIMITS"@, lo.text + " "@ + hi.text, seq![plain(lo.text), plain(hi.text)]);
        assert(
            seq![plain("EXTENDED_LIMITS"@)] + seq![plain(lo.text), plain(hi.text)] =~= seq![
                plain("EXTENDED_LIMITS"@),
                plain(lo.text),
                plain(hi.text)
            ]
        );
        reveal_strlit("EXTENDED_LIMITS");
        assert(is_keyword("EXTENDED_LIMITS"@));
        lemma_keyword_param("EXTENDED_LIMITS"@);
        assert(
            all_params(
                seq![
                    plain("EXTENDED_LIMITS"@),
                    plain(v.lower_limit_ex->Some_0.text),
                    plain(v.upper_limit_ex->Some_0.text)
                ]
            )
        );
        
    } else {
        lemma_shows_nothing(p);
    }
}

proof fn lemma_overwrite_part_5(v: OverwriteView, p: Page, f: Setting)
    requires
        Overwrite::fits(v, f),
        indents_by_blanks(p),
    ensures
        shows(p, overwrite_page_5(v, p), overwrite_part_5(v)),
        overwrite_page_5(v, p).depth == p.depth,
        overwrite_page_5(v, p).style == p.style,
        all_params(overwrite_part_5(v)),
{
    reveal(overwrite_page_5);
    reveal(overwrite_part_5);
    if v.lower_limit is Some {
        reveal_strlit("LIMITS");
        assert(is_keyword("LIMITS"@));
        lemma_keyword_param("LIMITS"@);
        let lo = v.lower_limit->Some_0;
        let hi = v.upper_limit->Some_0;
        reveal_strlit("LIMITS ");
        reveal_strlit("LIMITS");
        reveal_strlit(" ");
        assert("LIMITS "@ + lo.text + " "@ + hi.text =~= "LIMITS"@ + " "@ + (lo.text + " "@ + hi.text));
        lemma_spells_pair(lo.text, hi.text);
        lemma_shows_tagged(p, "LIMITS"@, lo.text + " "@ + hi.text, seq![plain(lo.text), plain(hi.text)]);
        assert(
            seq![plain("LIMITS"@)] + seq![plain(lo.text), plain(hi.text)] =~= seq![
                plain("LIMITS"@),
                plain(lo.text),
                plain(hi.text)
            ]
        );
        reveal_strlit("LIMITS");
        assert(is_keyword("LIMITS"@));
        lemma_keyword_param("LIMITS"@);
        assert(
            all_params(
                seq![
                    plain("LIMITS"@),
                    plain(v.lower_limit->Some_0.text),
                    plain(v.upper_limit->Some_0.text)
                ]
            )
        );
        
    } else {
        lemma_shows_nothing(p);
    }
}

proof fn lemma_overwrite_part_4(v: OverwriteView, p: Page, f: Setting)
    requires
        Overwrite::fits(v, f),
        indents_by_blanks(p),
    ensures
        shows(p, overwrite_page_4(v, p), overwrite_part_4(v)),
        overwrite_page_4(v, p).depth == p.depth,
        overwrite_page_4(v, p).style == p.style,
        all_params(overwrite_part_4(v)),
{
    reveal(overwrite_page_4);
    reveal(overwrite_part_4);
    if v.monotony.word() is Some {
        reveal_strlit("MONOTONY");
        assert(is_keyword("MONOTONY"@));
        lemma_keyword_param("MONOTONY"@);
        v.monotony.lemma_word();
        lemma_shows_word(p, "MONOTONY"@, v.monotony.word()->Some_0);
        reveal_strlit("MONOTONY");
        assert(is_keyword("MONOTONY"@));
        lemma_keyword_param("MONOTONY"@);
        v.monotony.lemma_word();
        assert(all_params(seq![plain("MONOTONY"@), plain(v.monotony.word()->Some_0)]));
        
    } else {
        lemma_shows_nothing(p);
    }
}

proof fn lemma_overwrite_part_3(v: OverwriteView, p: Page, f: Setting)
    requires
        Overwrite::fits(v, f),
        indents_by_blanks(p),
    ensures
        shows(p, overwrite_page_3(v, p), overwrite_part_3(v)),
        overwrite_page_3(v, p).depth == p.depth,
        overwrite_page_3(v, p).style == p.style,
        all_params(overwrite_part_3(v)),
{
    reveal(overwrite_page_3);
    reveal(overwrite_part_3);
    if v.input_quantity is Some {
        reveal_strlit("INPUT_QUANTITY");
        assert(is_keyword("INPUT_QUANTITY"@));
        lemma_keyword_param("INPUT_QUANTITY"@);
        lemma_shows_word(p, "INPUT_QUANTITY"@, v.input_quantity->Some_0);
        reveal_strlit("INPUT_QUANTITY");
        assert(is_keyword("INPUT_QUANTITY"@));
        lemma_keyword_param("INPUT_QUANTITY"@);
        assert(all_params(seq![plain("INPUT_QUANTITY"@), plain(v.input_quantity->Some_0)]));
        
    } else {
        lemma_shows_nothing(p);
    }
}

proof fn lemma_overwrite_part_2(v: OverwriteView, p: Page, f: Setting)
    requires
        Overwrite::fits(v, f),
        indents_by_blanks(p),
    ensures
        shows(p, overwrite_page_2(v, p), overwrite_part_2(v)),
        overwrite_page_2(v, p).depth == p.depth,
        overwrite_page_2(v, p).style == p.style,
        all_params(overwrite_part_2(v)),
{
    reveal(overwrite_page_2);
    reveal(overwrite_part_2);
    if v.phys_unit is Some {
        reveal_strlit("PHYS_UNIT");
        assert(is_keyword("PHYS_UNIT"@));
        lemma_keyword_param("PHYS_UNIT"@);
        lemma_shows_word(p, "PHYS_UNIT"@, v.phys_unit->Some_0);
        reveal_strlit("PHYS_UNIT");
        assert(is_keyword("PHYS_UNIT"@));
        lemma_keyword_param("PHYS_UNIT"@);
        assert(all_params(seq![plain("PHYS_UNIT"@), plain(v.phys_unit->Some_0)]));
        
    } else {
        lemma_shows_nothing(p);
    }
}

proof fn lemma_overwrite_part_1(v: OverwriteView, p: Page, f: Setting)
    requires
        Overwrite::fits(v, f),
        indents_by_blanks(p),
    ensures
        shows(p, overwrite_page_1(v, p), overwrite_part_1(v)),
        overwrite_page_1(v, p).depth == p.depth,
        overwrite_page_1(v, p).style == p.style,
        all_params(overwrite_part_1(v)),
{
    reveal(overwrite_page_1);
    reveal(overwrite_part_1);
    if v.format is Some {
        reveal_strlit("FORMAT");
        assert(is_keyword("FORMAT"@));
        lemma_keyword_param("FORMAT"@);
        lemma_shows_word(p, "FORMAT"@, v.format->Some_0);
        reveal_strlit("FORMAT");
        assert(is_keyword("FORMAT"@));
        lemma_keyword_param("FORMAT"@);
        assert(all_params(seq![plain("FORMAT"@), plain(v.format->Some_0)]));
        
    } else {
        lemma_shows_nothing(p);
    }
}

proof fn lemma_overwrite_part_0(v: OverwriteView, p: Page, f: Setting)
    requires
        Overwrite::fits(v, f),
        indents_by_blanks(p),
    ensures
        shows(p, overwrite_page_0(v, p), overwrite_part_0(v)),
        overwrite_page_0(v, p).depth == p.depth,
        overwrite_page_0(v, p).style == p.style,
        all_params(overwrite_part_0(v)),
{
    reveal(overwrite_page_0);
    reveal(overwrite_part_0);
    if v.conversion is Some {
        reveal_strlit("CONVERSION");
        assert(is_keyword("CONVERSION"@));
        lemma_keyword_param("CONVERSION"@);
        lemma_shows_word(p, "CONVERSION"@, v.conversion->Some_0);
        reveal_strlit("CONVERSION");
        assert(is_keyword("CONVERSION"@));
        lemma_keyword_param("CONVERSION"@);
        assert(all_params(seq![plain("CONVERSION"@), plain(v.conversion->Some_0)]));
        
    } else {
        lemma_shows_nothing(p);
    }
}

proof fn lemma_overwrite_shown_7(v: OverwriteView, p: Page, f: Setting)
    requires
        Overwrite::fits(v, f),
        indents_by_blanks(p),
    ensures
        shows(p, overwrite_pages_7(v, p), overwrite_from_7(v)),
        overwrite_pages_7(v, p).depth == p.depth,
        overwrite_pages_7(v, p).style == p.style,
        all_params(overwrite_from_7(v)),
{
    lemma_shows_nothing(p);
}

proof fn lemma_overwrite_shown_6(v: OverwriteView, p: Page, f: Setting)
    requires
        Overwrite::fits(v, f),
        indents_by_blanks(p),
    ensures
        shows(p, overwrite_pages_6(v, p), overwrite_from_6(v)),
        overwrite_pages_6(v, p).depth == p.depth,
        overwrite_pages_6(v, p).style == p.style,
        all_params(overwrite_from_6(v)),
{
    lemma_overwrite_part_6(v, p, f);
    let q = overwrite_page_6(v, p);
    lemma_overwrite_shown_7(v, q, f);
    lemma_shows_join(p, q, overwrite_pages_7(v, q), overwrite_part_6(v), overwrite_from_7(v));
    lemma_all_params_join(overwrite_part_6(v), overwrite_from_7(v));
}

proof fn lemma_overwrite_shown_5(v: OverwriteView, p: Page, f: Setting)
    requires
        Overwrite::fits(v, f),
        indents_by_blanks(p),
    ensures
        shows(p, overwrite_pages_5(v, p), overwrite_from_5(v)),
        overwrite_pages_5(v, p).depth == p.depth,
        overwrite_pages_5(v, p).style == p.style,
        all_params(overwrite_from_5(v)),
{
    lemma_overwrite_part_5(v, p, f);
    let q = overwrite_page_5(v, p);
    lemma_overwrite_shown_6(v, q, f);
    lemma_shows_join(p, q, overwrite_pages_6(v, q), overwrite_part_5(v), overwrite_from_6(v));
    lemma_all_params_join(overwrite_part_5(v), overwrite_from_6(v));
}

proof fn lemma_overwrite_shown_4(v: OverwriteView, p: Page, f: Setting)
    requires
        Overwrite::fits(v, f),
        indents_by_blanks(p),
    ensures
        shows(p, overwrite_pages_4(v, p), overwrite_from_4(v)),
        overwrite_pages_4(v, p).depth == p.depth,
        overwrite_pages_4(v, p).style == p.style,
        all_params(overwrite_from_4(v)),
{
    lemma_overwrite_part_4(v, p, f);
    let q = overwrite_page_4(v, p);
    lemma_overwrite_shown_5(v, q, f);
    lemma_shows_join(p, q, overwrite_pages_5(v, q), overwrite_part_4(v), overwrite_from_5(v));
    lemma_all_params_join(overwrite_part_4(v), overwrite_from_5(v));
}

proof fn lemma_overwrite_shown_3(v: OverwriteView, p: Page, f: Setting)
    requires
        Overwrite::fits(v, f),
        indents_by_blanks(p),
    ensures
        shows(p, overwrite_pages_3(v, p), overwrite_from_3(v)),
        overwrite_pages_3(v, p).depth == p.depth,
        overwrite_pages_3(v, p).style == p.style,
        all_params(overwrite_from_3(v)),
{
    lemma_overwrite_part_3(v, p, f);
    let q = overwrite_page_3(v, p);
    lemma_overwrite_shown_4(v, q, f);
    lemma_shows_join(p, q, overwrite_pages_4(v, q), overwrite_part_3(v), overwrite_from_4(v));
    lemma_all_params_join(overwrite_part_3(v), overwrite_from_4(v));
}

proof fn lemma_overwrite_shown_2(v: OverwriteView, p: Page, f: Setting)
    requires
        Overwrite::fits(v, f),
        indents_by_blanks(p),
    ensures
        shows(p, overwrite_pages_2(v, p), overwrite_from_2(v)),
        overwrite_pages_2(v, p).depth == p.depth,
        overwrite_pages_2(v, p).style == p.style,
        all_params(overwrite_from_2(v)),
{
    lemma_overwrite_part_2(v, p, f);
    let q = overwrite_page_2(v, p);
    lemma_overwrite_shown_3(v, q, f);
    lemma_shows_join(p, q, overwrite_pages_3(v, q), overwrite_part_2(v), overwrite_from_3(v));
    lemma_all_params_join(overwrite_part_2(v), overwrite_from_3(v));
}

proof fn lemma_overwrite_shown_1(v: OverwriteView, p: Page, f: Setting)
    requires
        Overwrite::fits(v, f),
        indents_by_blanks(p),
    ensures
        shows(p, overwrite_pages_1(v, p), overwrite_from_1(v)),
        overwrite_pages_1(v, p).depth == p.depth,
        overwrite_pages_1(v, p).style == p.style,
        all_params(overwrite_from_1(v)),
{
    lemma_overwrite_part_1(v, p, f);
    let q = overwrite_page_1(v, p);
    lemma_overwrite_shown_2(v, q, f);
    lemma_shows_join(p, q, overwrite_pages_2(v, q), overwrite_part_1(v), overwrite_from_2(v));
    lemma_all_params_join(overwrite_part_1(v), overwrite_from_2(v));
}

proof fn lemma_overwrite_shown_0(v: OverwriteView, p: Page, f: Setting)
    requires
        Overwrite::fits(v, f),
        indents_by_blanks(p),
    ensures
        shows(p, overwrite_pages_0(v, p), overwrite_from_0(v)),
        overwrite_pages_0(v, p).depth == p.depth,
        overwrite_pages_0(v, p).style == p.style,
        all_params(overwrite_from_0(v)),
{
    lemma_overwrite_part_0(v, p, f);
    let q = overwrite_page_0(v, p);
    lemma_overwrite_shown_1(v, q, f);
    lemma_shows_join(p, q, overwrite_pages_1(v, q), overwrite_part_0(v), overwrite_from_1(v));
    lemma_all_params_join(overwrite_part_0(v), overwrite_from_1(v));
}

/// What is written for the parameters at the start.
#[verifier::opaque]
pub open spec fn overwrite_opening(v: OverwriteView, p0: Page) -> Page {
    let p1 = p0.line(dec(v.axis_no as nat));
    p1
}

proof fn lemma_overwrite_opening(v: OverwriteView, p0: Page, f: Setting)
    requires
        Overwrite::fits(v, f),
        indents_by_blanks(p0),
    ensures
        shows(p0, overwrite_opening(v, p0), seq![plain(dec(v.axis_no as nat))]),
        overwrite_opening(v, p0).depth == p0.depth,
        overwrite_opening(v, p0).style == p0.style,
        all_params(overwrite_head(v)),
{
    reveal(overwrite_opening);
    lemma_shows_nothing(p0);
    let x0 = Seq::<Tok>::empty();
    let p1 = p0.line(dec(v.axis_no as nat));
    assert(shows(p0, p1, seq![plain(dec(v.axis_no as nat))]) && p1.depth == p0.depth && p1.style == p0.style) by {
        let p = p0;
        lemma_dec_param(v.axis_no as int);
        lemma_shows_word_line(p, dec(v.axis_no as nat));
    }
    lemma_shows_join(p0, p0, p1, x0, seq![plain(dec(v.axis_no as nat))]);
    let x1 = x0 + seq![plain(dec(v.axis_no as nat))];
    assert(x1 =~= seq![plain(dec(v.axis_no as nat))]);
    lemma_dec_param(v.axis_no as int);
}

proof fn lemma_overwrite_body(v: OverwriteView, p: Page, f: Setting)
    requires
        Overwrite::fits(v, f),
    ensures
        Overwrite::body(v, p) == Ok::<Page, Stopped>(overwrite_pages_0(v, overwrite_opening(v, p))),
{
    reveal(overwrite_opening);
    let q0 = overwrite_opening(v, p);
    let q1 = match v.conversion { Some(x) if x.len() > 0 => q0.word("CONVERSION"@, x), _ => q0 };
    assert(q1 == overwrite_page_0(v, q0)) by {
        reveal(overwrite_page_0);
    }
    let q2 = match v.format { Some(x) if x.len() > 0 => q1.word("FORMAT"@, x), _ => q1 };
    assert(q2 == overwrite_page_1(v, q1)) by {
        reveal(overwrite_page_1);
    }
    let q3 = match v.phys_unit { Some(x) if x.len() > 0 => q2.word("PHYS_UNIT"@, x), _ => q2 };
    assert(q3 == overwrite_page_2(v, q2)) by {
        reveal(overwrite_page_2);
    }
    let q4 = match v.input_quantity { Some(x) if x.len() > 0 => q3.word("INPUT_QUANTITY"@, x), _ => q3 };
    assert(q4 == overwrite_page_3(v, q3)) by {
        reveal(overwrite_page_3);
    }
    let q5 = match v.monotony.word() { Some(kw) => q4.word("MONOTONY"@, kw), None => q4 };
    assert(q5 == overwrite_page_4(v, q4)) by {
        reveal(overwrite_page_4);
    }
    let q6 = match (v.lower_limit, v.upper_limit) {
        (Some(lo), Some(hi)) => q5.line("LIMITS "@ + lo.text + " "@ + hi.text),
        _ => q5
    };
    assert(q6 == overwrite_page_5(v, q5)) by {
        reveal(overwrite_page_5);
    }
    let q7 = match (v.lower_limit_ex, v.upper_limit_ex) {
        (Some(lo), Some(hi)) => q6.line("EXTENDED_LIMITS "@ + lo.text + " "@ + hi.text),
        _ => q6
    };
    assert(q7 == overwrite_page_6(v, q6)) by {
        reveal(overwrite_page_6);
    }
}

proof fn lemma_overwrite_head(v: OverwriteView, c: Cur, f: Setting)
    requires
        Overwrite::fits(v, f),
        tokens_at(c.toks, c.pos, overwrite_head(v)),
        toks_numbered(c.toks, f),
    ensures
        Overwrite::head(c) == Ok::<(OverwriteView, Cur), Failure>(
            (
                OverwriteView {
                    conversion: None,
                    format: None,
                    phys_unit: None,
                    input_quantity: None,
                    monotony: MonotonyType::NotSet,
                    lower_limit: None,
                    upper_limit: None,
                    lower_limit_ex: Some(num_zero()),
                    upper_limit_ex: Some(num_zero()),
                    ..v
                },
                Cur { pos: c.pos + 2, ..c }
            ),
        ),
{
    law_integer_of_dec(v.axis_no as int);
    assert(bare(c.toks[c.pos + 0]) == overwrite_head(v)[0]);
    assert(bare(c.toks[c.pos + 1]) == overwrite_head(v)[1]);
}

proof fn lemma_overwrite_step_0(w: OverwriteView, v: OverwriteView, c: Cur, f: Setting)
    requires
        Overwrite::fits(v, f),
        v.conversion is Some,
        tokens_at(c.toks, c.pos, seq![plain("CONVERSION"@), plain(v.conversion->Some_0)]),
        toks_numbered(c.toks, f),
    ensures
        Overwrite::option(w, c) == Ok::<(OverwriteView, Cur), Failure>(
            (OverwriteView { conversion: v.conversion, ..w }, Cur { pos: c.pos + 2, ..c }),
        ),
{
    reveal_strlit("CONVERSION");
    reveal_strlit("FORMAT");
    lemma_differ("CONVERSION"@, "FORMAT"@, 0);
    reveal_strlit("LIMITS");
    lemma_differ("CONVERSION"@, "LIMITS"@, 0);
    lemma_same("CONVERSION"@);
    assert(bare(c.toks[c.pos + 0]) == (seq![plain("CONVERSION"@), plain(v.conversion->Some_0)])[0]);
    assert(bare(c.toks[c.pos + 1]) == (seq![plain("CONVERSION"@), plain(v.conversion->Some_0)])[1]);
    
}

proof fn lemma_overwrite_step_1(w: OverwriteView, v: OverwriteView, c: Cur, f: Setting)
    requires
        Overwrite::fits(v, f),
        v.format is Some,
        tokens_at(c.toks, c.pos, seq![plain("FORMAT"@), plain(v.format->Some_0)]),
        toks_numbered(c.toks, f),
    ensures
        Overwrite::option(w, c) == Ok::<(OverwriteView, Cur), Failure>(
            (OverwriteView { format: v.format, ..w }, Cur { pos: c.pos + 2, ..c }),
        ),
{
    reveal_strlit("FORMAT");
    lemma_same("FORMAT"@);
    assert(bare(c.toks[c.pos + 0]) == (seq![plain("FORMAT"@), plain(v.format->Some_0)])[0]);
    assert(bare(c.toks[c.pos + 1]) == (seq![plain("FORMAT"@), plain(v.format->Some_0)])[1]);
    
}

proof fn lemma_overwrite_step_2(w: OverwriteView, v: OverwriteView, c: Cur, f: Setting)
    requires
        Overwrite::fits(v, f),
        v.phys_unit is Some,
        tokens_at(c.toks, c.pos, seq![plain("PHYS_UNIT"@), plain(v.phys_unit->Some_0)]),
        toks_numbered(c.toks, f),
    ensures
        Overwrite::option(w, c) == Ok::<(OverwriteView, Cur), Failure>(
            (OverwriteView { phys_unit: v.phys_unit, ..w }, Cur { pos: c.pos + 2, ..c }),
        ),
{
    reveal_strlit("PHYS_UNIT");
    reveal_strlit("FORMAT");
    lemma_differ("PHYS_UNIT"@, "FORMAT"@, 0);
    reveal_strlit("LIMITS");
    lemma_differ("PHYS_UNIT"@, "LIMITS"@, 0);
    reveal_strlit("CONVERSION");
    lemma_differ("PHYS_UNIT"@, "CONVERSION"@, 0);
    lemma_same("PHYS_UNIT"@);
    assert(bare(c.toks[c.pos + 0]) == (seq![plain("PHYS_UNIT"@), plain(v.phys_unit->Some_0)])[0]);
    assert(bare(c.toks[c.pos + 1]) == (seq![plain("PHYS_UNIT"@), plain(v.phys_unit->Some_0)])[1]);
    
}

proof fn lemma_overwrite_step_3(w: OverwriteView, v: OverwriteView, c: Cur, f: Setting)
    requires
        Overwrite::fits(v, f),
        v.input_quantity is Some,
        tokens_at(c.toks, c.pos, seq![plain("INPUT_QUANTITY"@), plain(v.input_quantity->Some_0)]),
        toks_numbered(c.toks, f),
    ensures
        Overwrite::option(w, c) == Ok::<(OverwriteView, Cur), Failure>(
            (OverwriteView { input_quantity: v.input_quantity, ..w }, Cur { pos: c.pos + 2, ..c }),
        ),
{
    reveal_strlit("INPUT_QUANTITY");
    reveal_strlit("FORMAT");
    lemma_differ("INPUT_QUANTITY"@, "FORMAT"@, 0);
    reveal_strlit("LIMITS");
    lemma_differ("INPUT_QUANTITY"@, "LIMITS"@, 0);
    reveal_strlit("CONVERSION");
    lemma_differ("INPUT_QUANTITY"@, "CONVERSION"@, 0);
    reveal_strlit("PHYS_UNIT");
    lemma_differ("INPUT_QUANTITY"@, "PHYS_UNIT"@, 0);
    lemma_same("INPUT_QUANTITY"@);
    assert(bare(c.toks[c.pos + 0]) == (seq![plain("INPUT_QUANTITY"@), plain(v.input_quantity->Some_0)])[0]);
    assert(bare(c.toks[c.pos + 1]) == (seq![plain("INPUT_QUANTITY"@), plain(v.input_quantity->Some_0)])[1]);
    
}

proof fn lemma_overwrite_step_4(w: OverwriteView, v: OverwriteView, c: Cur, f: Setting)
    requires
        Overwrite::fits(v, f),
        v.monotony.word() is Some,
        tokens_at(c.toks, c.pos, seq![plain("MONOTONY"@), plain(v.monotony.word()->Some_0)]),
        toks_numbered(c.toks, f),
    ensures
        Overwrite::option(w, c) == Ok::<(OverwriteView, Cur), Failure>(
            (OverwriteView { monotony: v.monotony, ..w }, Cur { pos: c.pos + 2, ..c }),
        ),
{
    reveal_strlit("MONOTONY");
    reveal_strlit("FORMAT");
    lemma_differ("MONOTONY"@, "FORMAT"@, 0);
    reveal_strlit("LIMITS");
    lemma_differ("MONOTONY"@, "LIMITS"@, 0);
    reveal_strlit("CONVERSION");
    lemma_differ("MONOTONY"@, "CONVERSION"@, 0);
    reveal_strlit("PHYS_UNIT");
    lemma_differ("MONOTONY"@, "PHYS_UNIT"@, 0);
    reveal_strlit("INPUT_QUANTITY");
    lemma_differ("MONOTONY"@, "INPUT_QUANTITY"@, 0);
    lemma_same("MONOTONY"@);
    assert(bare(c.toks[c.pos + 0]) == (seq![plain("MONOTONY"@), plain(v.monotony.word()->Some_0)])[0]);
    assert(bare(c.toks[c.pos + 1]) == (seq![plain("MONOTONY"@), plain(v.monotony.word()->Some_0)])[1]);
    v.monotony.law_named_of_word();
    v.monotony.lemma_word();
}

proof fn lemma_overwrite_step_5(w: OverwriteView, v: OverwriteView, c: Cur, f: Setting)
    requires
        Overwrite::fits(v, f),
        v.lower_limit is Some,
        tokens_at(
            c.toks,
            c.pos,
            seq![
                plain("LIMITS"@),
                plain(v.lower_limit->Some_0.text),
                plain(v.upper_limit->Some_0.text)
            ]
        ),
        toks_numbered(c.toks, f),
    ensures
        Overwrite::option(w, c) == Ok::<(OverwriteView, Cur), Failure>(
            (
                OverwriteView { lower_limit: v.lower_limit, upper_limit: v.upper_limit, ..w },
                Cur { pos: c.pos + 3, ..c }
            ),
        ),
{
    reveal_strlit("LIMITS");
    reveal_strlit("FORMAT");
    lemma_differ("LIMITS"@, "FORMAT"@, 0);
    lemma_same("LIMITS"@);
    assert(
        bare(c.toks[c.pos + 0]) == (
            seq![
                plain("LIMITS"@),
                plain(v.lower_limit->Some_0.text),
                plain(v.upper_limit->Some_0.text)
            ]
        )[0]
    );
    assert(
        bare(c.toks[c.pos + 1]) == (
            seq![
                plain("LIMITS"@),
                plain(v.lower_limit->Some_0.text),
                plain(v.upper_limit->Some_0.text)
            ]
        )[1]
    );
    assert(
        bare(c.toks[c.pos + 2]) == (
            seq![
                plain("LIMITS"@),
                plain(v.lower_limit->Some_0.text),
                plain(v.upper_limit->Some_0.text)
            ]
        )[2]
    );
    
}

proof fn lemma_overwrite_step_6(w: OverwriteView, v: OverwriteView, c: Cur, f: Setting)
    requires
        Overwrite::fits(v, f),
        v.lower_limit_ex is Some,
        tokens_at(
            c.toks,
            c.pos,
            seq![
                plain("EXTENDED_LIMITS"@),
                plain(v.lower_limit_ex->Some_0.text),
                plain(v.upper_limit_ex->Some_0.text)
            ]
        ),
        toks_numbered(c.toks, f),
    ensures
        Overwrite::option(w, c) == Ok::<(OverwriteView, Cur), Failure>(
            (
                OverwriteView {
                    lower_limit_ex: v.lower_limit_ex,
                    upper_limit_ex: v.upper_limit_ex,
                    ..w
                },
                Cur { pos: c.pos + 3, ..c }
            ),
        ),
{
    reveal_strlit("EXTENDED_LIMITS");
    reveal_strlit("FORMAT");
    lemma_differ("EXTENDED_LIMITS"@, "FORMAT"@, 0);
    reveal_strlit("LIMITS");
    lemma_differ("EXTENDED_LIMITS"@, "LIMITS"@, 0);
    reveal_strlit("CONVERSION");
    lemma_differ("EXTENDED_LIMITS"@, "CONVERSION"@, 0);
    reveal_strlit("PHYS_UNIT");
    lemma_differ("EXTENDED_LIMITS"@, "PHYS_UNIT"@, 0);
    reveal_strlit("INPUT_QUANTITY");
    lemma_differ("EXTENDED_LIMITS"@, "INPUT_QUANTITY"@, 0);
    reveal_strlit("MONOTONY");
    lemma_differ("EXTENDED_LIMITS"@, "MONOTONY"@, 0);
    lemma_same("EXTENDED_LIMITS"@);
    assert(
        bare(c.toks[c.pos + 0]) == (
            seq![
                plain("EXTENDED_LIMITS"@),
                plain(v.lower_limit_ex->Some_0.text),
                plain(v.upper_limit_ex->Some_0.text)
            ]
        )[0]
    );
    assert(
        bare(c.toks[c.pos + 1]) == (
            seq![
                plain("EXTENDED_LIMITS"@),
                plain(v.lower_limit_ex->Some_0.text),
                plain(v.upper_limit_ex->Some_0.text)
            ]
        )[1]
    );
    assert(
        bare(c.toks[c.pos + 2]) == (
            seq![
                plain("EXTENDED_LIMITS"@),
                plain(v.lower_limit_ex->Some_0.text),
                plain(v.upper_limit_ex->Some_0.text)
            ]
        )[2]
    );
    
}

proof fn lemma_overwrite_read_7(v: OverwriteView, c: Cur, f: Setting)
    requires
        Overwrite::fits(v, f),
        tokens_at(c.toks, c.pos, overwrite_from_7(v)),
        c.pos + overwrite_from_7(v).len() == c.toks.len(),
        toks_numbered(c.toks, f),
    ensures
        Overwrite::options(v, c) matches Ok((w, _)) && w == (v),
{
}

proof fn lemma_overwrite_read_6(v: OverwriteView, c: Cur, f: Setting)
    requires
        Overwrite::fits(v, f),
        tokens_at(c.toks, c.pos, overwrite_from_6(v)),
        c.pos + overwrite_from_6(v).len() == c.toks.len(),
        toks_numbered(c.toks, f),
    ensures
        Overwrite::options(
            OverwriteView {
                lower_limit_ex: Some(num_zero()),
                upper_limit_ex: Some(num_zero()),
                ..v
            },
            c
        ) matches Ok((w, _)) && w == (v),
{
    reveal(overwrite_part_6);
    let t = overwrite_part_6(v);
    if v.lower_limit_ex is Some {
        lemma_tokens_at_split(c.toks, c.pos, t, overwrite_from_7(v));
        let c2 = Cur { pos: c.pos + 3, ..c };
        lemma_overwrite_step_6(
            OverwriteView {
                lower_limit_ex: Some(num_zero()),
                upper_limit_ex: Some(num_zero()),
                ..v
            },
            v,
            c,
            f
        );
        lemma_overwrite_read_7(v, c2, f);
    } else {
        assert(t + overwrite_from_7(v) =~= overwrite_from_7(v));
        lemma_overwrite_read_7(v, c, f);
    }
}

proof fn lemma_overwrite_read_5(v: OverwriteView, c: Cur, f: Setting)
    requires
        Overwrite::fits(v, f),
        tokens_at(c.toks, c.pos, overwrite_from_5(v)),
        c.pos + overwrite_from_5(v).len() == c.toks.len(),
        toks_numbered(c.toks, f),
    ensures
        Overwrite::options(
            OverwriteView {
                lower_limit: None,
                upper_limit: None,
                lower_limit_ex: Some(num_zero()),
                upper_limit_ex: Some(num_zero()),
                ..v
            },
            c
        ) matches Ok((w, _)) && w == (v),
{
    reveal(overwrite_part_5);
    let t = overwrite_part_5(v);
    if v.lower_limit is Some {
        lemma_tokens_at_split(c.toks, c.pos, t, overwrite_from_6(v));
        let c2 = Cur { pos: c.pos + 3, ..c };
        lemma_overwrite_step_5(
            OverwriteView {
                lower_limit: None,
                upper_limit: None,
                lower_limit_ex: Some(num_zero()),
                upper_limit_ex: Some(num_zero()),
                ..v
            },
            v,
            c,
            f
        );
        lemma_overwrite_read_6(v, c2, f);
    } else {
        assert(t + overwrite_from_6(v) =~= overwrite_from_6(v));
        lemma_overwrite_read_6(v, c, f);
    }
}

proof fn lemma_overwrite_read_4(v: OverwriteView, c: Cur, f: Setting)
    requires
        Overwrite::fits(v, f),
        tokens_at(c.toks, c.pos, overwrite_from_4(v)),
        c.pos + overwrite_from_4(v).len() == c.toks.len(),
        toks_numbered(c.toks, f),
    ensures
        Overwrite::options(
            OverwriteView {
                monotony: MonotonyType::NotSet,
                lower_limit: None,
                upper_limit: None,
                lower_limit_ex: Some(num_zero()),
                upper_limit_ex: Some(num_zero()),
                ..v
            },
            c
        ) matches Ok((w, _)) && w == (v),
{
    reveal(overwrite_part_4);
    let t = overwrite_part_4(v);
    if v.monotony.word() is Some {
        lemma_tokens_at_split(c.toks, c.pos, t, overwrite_from_5(v));
        let c2 = Cur { pos: c.pos + 2, ..c };
        lemma_overwrite_step_4(
            OverwriteView {
                monotony: MonotonyType::NotSet,
                lower_limit: None,
                upper_limit: None,
                lower_limit_ex: Some(num_zero()),
                upper_limit_ex: Some(num_zero()),
                ..v
            },
            v,
            c,
            f
        );
        lemma_overwrite_read_5(v, c2, f);
    } else {
        assert(t + overwrite_from_5(v) =~= overwrite_from_5(v));
        lemma_overwrite_read_5(v, c, f);
    }
}

proof fn lemma_overwrite_read_3(v: OverwriteView, c: Cur, f: Setting)
    requires
        Overwrite::fits(v, f),
        tokens_at(c.toks, c.pos, overwrite_from_3(v)),
        c.pos + overwrite_from_3(v).len() == c.toks.len(),
        toks_numbered(c.toks, f),
    ensures
        Overwrite::options(
            OverwriteView {
                input_quantity: None,
                monotony: MonotonyType::NotSet,
                lower_limit: None,
                upper_limit: None,
                lower_limit_ex: Some(num_zero()),
                upper_limit_ex: Some(num_zero()),
                ..v
            },
            c
        ) matches Ok((w, _)) && w == (v),
{
    reveal(overwrite_part_3);
    let t = overwrite_part_3(v);
    if v.input_quantity is Some {
        lemma_tokens_at_split(c.toks, c.pos, t, overwrite_from_4(v));
        let c2 = Cur { pos: c.pos + 2, ..c };
        lemma_overwrite_step_3(
            OverwriteView {
                input_quantity: None,
                monotony: MonotonyType::NotSet,
                lower_limit: None,
                upper_limit: None,
                lower_limit_ex: Some(num_zero()),
                upper_limit_ex: Some(num_zero()),
                ..v
            },
            v,
            c,
            f
        );
        lemma_overwrite_read_4(v, c2, f);
    } else {
        assert(t + overwrite_from_4(v) =~= overwrite_from_4(v));
        lemma_overwrite_read_4(v, c, f);
    }
}

proof fn lemma_overwrite_read_2(v: OverwriteView, c: Cur, f: Setting)
    requires
        Overwrite::fits(v, f),
        tokens_at(c.toks, c.pos, overwrite_from_2(v)),
        c.pos + overwrite_from_2(v).len() == c.toks.len(),
        toks_numbered(c.toks, f),
    ensures
        Overwrite::options(
            OverwriteView {
                phys_unit: None,
                input_quantity: None,
                monotony: MonotonyType::NotSet,
                lower_limit: None,
                upper_limit: None,
                lower_limit_ex: Some(num_zero()),
                upper_limit_ex: Some(num_zero()),
                ..v
            },
            c
        ) matches Ok((w, _)) && w == (v),
{
    reveal(overwrite_part_2);
    let t = overwrite_part_2(v);
    if v.phys_unit is Some {
        lemma_tokens_at_split(c.toks, c.pos, t, overwrite_from_3(v));
        let c2 = Cur { pos: c.pos + 2, ..c };
        lemma_overwrite_step_2(
            OverwriteView {
                phys_unit: None,
                input_quantity: None,
                monotony: MonotonyType::NotSet,
                lower_limit: None,
                upper_limit: None,
                lower_limit_ex: Some(num_zero()),
                upper_limit_ex: Some(num_zero()),
                ..v
            },
            v,
            c,
            f
        );
        lemma_overwrite_read_3(v, c2, f);
    } else {
        assert(t + overwrite_from_3(v) =~= overwrite_from_3(v));
        lemma_overwrite_read_3(v, c, f);
    }
}

proof fn lemma_overwrite_read_1(v: OverwriteView, c: Cur, f: Setting)
    requires
        Overwrite::fits(v, f),
        tokens_at(c.toks, c.pos, overwrite_from_1(v)),
        c.pos + overwrite_from_1(v).len() == c.toks.len(),
        toks_numbered(c.toks, f),
    ensures
        Overwrite::options(
            OverwriteView {
                format: None,
                phys_unit: None,
                input_quantity: None,
                monotony: MonotonyType::NotSet,
                lower_limit: None,
                upper_limit: None,
                lower_limit_ex: Some(num_zero()),
                upper_limit_ex: Some(num_zero()),
                ..v
            },
            c
        ) matches Ok((w, _)) && w == (v),
{
    reveal(overwrite_part_1);
    let t = overwrite_part_1(v);
    if v.format is Some {
        lemma_tokens_at_split(c.toks, c.pos, t, overwrite_from_2(v));
        let c2 = Cur { pos: c.pos + 2, ..c };
        lemma_overwrite_step_1(
            OverwriteView {
                format: None,
                phys_unit: None,
                input_quantity: None,
                monotony: MonotonyType::NotSet,
                lower_limit: None,
                upper_limit: None,
                lower_limit_ex: Some(num_zero()),
                upper_limit_ex: Some(num_zero()),
                ..v
            },
            v,
            c,
            f
        );
        lemma_overwrite_read_2(v, c2, f);
    } else {
        assert(t + overwrite_from_2(v) =~= overwrite_from_2(v));
        lemma_overwrite_read_2(v, c, f);
    }
}

proof fn lemma_overwrite_read_0(v: OverwriteView, c: Cur, f: Setting)
    requires
        Overwrite::fits(v, f),
        tokens_at(c.toks, c.pos, overwrite_from_0(v)),
        c.pos + overwrite_from_0(v).len() == c.toks.len(),
        toks_numbered(c.toks, f),
    ensures
        Overwrite::options(
            OverwriteView {
                conversion: None,
                format: None,
                phys_unit: None,
                input_quantity: None,
                monotony: MonotonyType::NotSet,
                lower_limit: None,
                upper_limit: None,
                lower_limit_ex: Some(num_zero()),
                upper_limit_ex: Some(num_zero()),
                ..v
            },
            c
        ) matches Ok((w, _)) && w == (v),
{
    reveal(overwrite_part_0);
    let t = overwrite_part_0(v);
    if v.conversion is Some {
        lemma_tokens_at_split(c.toks, c.pos, t, overwrite_from_1(v));
        let c2 = Cur { pos: c.pos + 2, ..c };
        lemma_overwrite_step_0(
            OverwriteView {
                conversion: None,
                format: None,
                phys_unit: None,
                input_quantity: None,
                monotony: MonotonyType::NotSet,
                lower_limit: None,
                upper_limit: None,
                lower_limit_ex: Some(num_zero()),
                upper_limit_ex: Some(num_zero()),
                ..v
            },
            v,
            c,
            f
        );
        lemma_overwrite_read_1(v, c2, f);
    } else {
        assert(t + overwrite_from_1(v) =~= overwrite_from_1(v));
        lemma_overwrite_read_1(v, c, f);
    }
}

impl Faithful for Overwrite {
    open spec fn fits(v: OverwriteView, f: Setting) -> bool {
        &&& is_param(plain(v.name))
        &&& (v.conversion matches Some(x) ==> is_param(plain(x)))
        &&& (v.format matches Some(x) ==> is_param(plain(x)))
        &&& (v.phys_unit matches Some(x) ==> is_param(plain(x)))
        &&& (v.input_quantity matches Some(x) ==> is_param(plain(x)))
        &&& (v.lower_limit is Some <==> v.upper_limit is Some) && (
            v.lower_limit is Some ==> num_fits(v.lower_limit->Some_0, f) && num_fits(v.upper_limit->Some_0, f) && num_min(
                v.lower_limit->Some_0,
                v.upper_limit->Some_0
            ) == v.lower_limit->Some_0 && num_max(v.lower_limit->Some_0, v.upper_limit->Some_0) == v.upper_limit->Some_0
        )
        &&& v.lower_limit_ex is Some && v.upper_limit_ex is Some && (
            v.lower_limit_ex is Some ==> num_fits(v.lower_limit_ex->Some_0, f) && num_fits(v.upper_limit_ex->Some_0, f) && num_min(
                v.lower_limit_ex->Some_0,
                v.upper_limit_ex->Some_0
            ) == v.lower_limit_ex->Some_0 && num_max(v.lower_limit_ex->Some_0, v.upper_limit_ex->Some_0) == v.upper_limit_ex->Some_0
        )
    }

    open spec fn shape(v: OverwriteView) -> Tree {
        shape_of("OVERWRITE"@, overwrite_head(v) + overwrite_from_0(v), Seq::empty())
    }

    proof fn law_shown(v: OverwriteView, p: Page, f: Setting) {
        reveal_strlit("OVERWRITE");
        lemma_keyword_word("OVERWRITE"@);
        reveal_strlit("OVERWRITE ");
        reveal_strlit(" ");
        assert("OVERWRITE "@ + v.name =~= "OVERWRITE"@ + " "@ + v.name);
        lemma_spells_word("OVERWRITE"@);
        lemma_spells_word(v.name);
        lemma_spells_join("OVERWRITE"@, seq![plain("OVERWRITE"@)], v.name, seq![plain(v.name)]);
        let h = seq![plain(v.name)];
        crate::a2l::tree_laws::lemma_shows_begin(p, "OVERWRITE "@ + v.name, seq![plain("OVERWRITE"@)] + h);
        let p0 = p.begin("OVERWRITE "@ + v.name);
        lemma_overwrite_body(v, p0, f);
        lemma_overwrite_opening(v, p0, f);
        let p1 = overwrite_opening(v, p0);
        lemma_overwrite_shown_0(v, p1, f);
        let p2 = overwrite_pages_0(v, p1);
        let hx = seq![plain(dec(v.axis_no as nat))];
        let from = overwrite_from_0(v);
        lemma_shows_join(p0, p1, p2, hx, from);
        let q = p2;
        let kids = Seq::<Tree>::empty();
        let y = Seq::<Tok>::empty();
        assert(blocks_tokens(kids, 0) =~= y);
        assert(hx + from + y =~= hx + from);
        let x = overwrite_head(v) + from;
        lemma_shape_tokens(x, kids);
        lemma_all_params_join(overwrite_head(v), from);
        lemma_sound_shape("OVERWRITE"@, x, kids);
        assert(overwrite_head(v) =~= h + hx);
        assert(h + (hx + from + y) =~= x + y);
        lemma_shows_block(p, "OVERWRITE "@ + v.name, h, "OVERWRITE"@, q, hx + from + y, Self::shape(v));
    }

    proof fn law_parsed(v: OverwriteView, tree: Tree, f: Setting) {
        let x = overwrite_head(v) + overwrite_from_0(v);
        let kids = Seq::<Tree>::empty();
        lemma_shape_found(tree, "OVERWRITE"@, x, kids, f);
        let c = Cur::start(tree);
        lemma_tokens_at_split(c.toks, 0, overwrite_head(v), overwrite_from_0(v));
        lemma_overwrite_head(v, c, f);
        let c1 = Cur { pos: 2, ..c };
        lemma_overwrite_read_0(v, c1, f);
    }
}

} // verus!
