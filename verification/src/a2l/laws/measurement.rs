//! Measurements, axis descriptions, blobs and instances read back from what is written for them.

use crate::a2l::block::{Tree, bare_tree, children_of};
use crate::a2l::error::Failure;
use crate::a2l::faithful::{
    Faithful, FaithfulChild, KeywordText, Setting, all_fit, all_params, blocks_tokens, int_tokens,
    is_keyword, lemma_all_params_join, lemma_children_read, lemma_children_shown, lemma_dec_param,
    lemma_dims_read, lemma_hex_param, lemma_int_params, lemma_keyword_param, lemma_keyword_word,
    lemma_no_int, lemma_node_read, lemma_node_shown, lemma_refresh_found, lemma_shape_found,
    lemma_shape_tokens, lemma_shapes_sound, lemma_shows_block, lemma_shows_quote,
    lemma_shows_quote_line, lemma_shows_tagged, lemma_shows_word, lemma_shows_word_line,
    lemma_sound_shape, lemma_spells_ints, lemma_spells_pair, lemma_string_param, no_int_at,
    num_fits, shape_of, shapes, toks_numbered,
};
use crate::a2l::model::annotation::Annotation;
use crate::a2l::model::base::{
    AddressFields, AddressFieldsView, ByteOrder, ConversionRefFields, ConversionRefFieldsView,
};
use crate::a2l::model::enums::{
    A2lKeyword, AddrType, CalibrationAccess, DepositType, IndexMode, MonotonyType,
};
use crate::a2l::model::measurement::{
    AxisDescr, AxisDescrChild, AxisDescrChildView, AxisDescrView, Blob, BlobChild, BlobChildView,
    BlobView, Instance, InstanceChild, InstanceChildView, InstanceView, Measurement,
    MeasurementChild, MeasurementChildView, MeasurementParts, MeasurementPartsView,
    MeasurementView,
};
use crate::a2l::model::parts::{children_written, hex_form, listed, word_or};
use crate::a2l::model::unsupported::UnsupportedNode;
use crate::a2l::node::Node;
use crate::a2l::params::{Cur, law_integer_of_dec, law_integer_of_hex};
use crate::a2l::spell::{
    indents_by_blanks, is_content, law_unescaped_of_escaped, lemma_shows_join, lemma_shows_line,
    lemma_shows_nothing, lemma_spells_content, lemma_spells_join, lemma_spells_word, plain, shows,
    string,
};
use crate::a2l::token::{Tok, bare};
use crate::a2l::tree_laws::{is_param, lemma_shows_begin, lemma_tokens_at_split, tokens_at};
use crate::a2l::writer::{Page, escaped};
use crate::text::{dec, dec_int, lemma_differ, lemma_same, same_ignore_case};
use vstd::prelude::*;

verus! {

impl FaithfulChild for MeasurementChild {
    open spec fn fits(v: MeasurementChildView, f: Setting) -> bool {
        match v {
            MeasurementChildView::Annotation(n) => <Annotation as Faithful>::fits(n, f),
            MeasurementChildView::Unsupported(n) => <UnsupportedNode as FaithfulChild>::fits(n, f) && !same_ignore_case(n.keyword, "ANNOTATION"@),
        }
    }

    open spec fn shape(v: MeasurementChildView) -> Tree {
        match v {
            MeasurementChildView::Annotation(n) => <Annotation as Faithful>::shape(n),
            MeasurementChildView::Unsupported(n) => <UnsupportedNode as FaithfulChild>::shape(n),
        }
    }

    proof fn law_shown(v: MeasurementChildView, p: Page, f: Setting) {
        match v {
            MeasurementChildView::Annotation(n) => {
                lemma_node_shown::<Annotation>(n, p, f);
            },
            MeasurementChildView::Unsupported(n) => {
                <UnsupportedNode as FaithfulChild>::law_shown(n, p, f);
            },
        }
    }

    proof fn law_parsed(v: MeasurementChildView, tree: Tree, f: Setting) {
        match v {
            MeasurementChildView::Annotation(n) => {
                reveal_strlit("ANNOTATION");
                lemma_same("ANNOTATION"@);
                assert(bare_tree(tree).keyword == "ANNOTATION"@);
                lemma_node_read::<Annotation>(n, tree, f);
            },
            MeasurementChildView::Unsupported(n) => {
                <UnsupportedNode as FaithfulChild>::law_parsed(n, tree, f);
            },
        }
    }
}

/// The parameters at the start of the block.
pub open spec fn measurement_head(v: MeasurementView) -> Seq<Tok> {
    seq![
        plain(v.named.name),
        string(escaped(v.named.description->Some_0)),
        plain(v.data_type.word()->Some_0),
        plain(v.conv.conversion),
        plain(dec_int(v.resolution as int)),
        plain(v.accuracy.text),
        plain(v.conv.lower_limit.text),
        plain(v.conv.upper_limit.text)
    ]
}

/// The parameters of `ECU_ADDRESS_EXTENSION`.
#[verifier::opaque]
pub open spec fn measurement_part_0(v: MeasurementView) -> Seq<Tok> {
    if v.addr.address_extension is Some {
        seq![
            plain("ECU_ADDRESS_EXTENSION"@),
            plain(dec_int(v.addr.address_extension->Some_0 as int))
        ]
    } else { Seq::<Tok>::empty() }
}

/// The parameters from `ECU_ADDRESS_EXTENSION` on.
pub open spec fn measurement_from_0(v: MeasurementView) -> Seq<Tok> {
    measurement_part_0(v) + measurement_from_1(v)
}

/// What is written for `ECU_ADDRESS_EXTENSION`.
#[verifier::opaque]
pub open spec fn measurement_page_0(v: MeasurementView, p: Page) -> Page {
    match v.addr.address_extension { Some(x) => p.word("ECU_ADDRESS_EXTENSION"@, dec_int(x as int)), None => p }
}

/// What is written from `ECU_ADDRESS_EXTENSION` on.
pub open spec fn measurement_pages_0(v: MeasurementView, p: Page) -> Page {
    measurement_pages_1(v, measurement_page_0(v, p))
}

/// The parameters of `DISPLAY_IDENTIFIER`.
#[verifier::opaque]
pub open spec fn measurement_part_1(v: MeasurementView) -> Seq<Tok> {
    if v.addr.display_name is Some {
        seq![plain("DISPLAY_IDENTIFIER"@), plain(v.addr.display_name->Some_0)]
    } else { Seq::<Tok>::empty() }
}

/// The parameters from `DISPLAY_IDENTIFIER` on.
pub open spec fn measurement_from_1(v: MeasurementView) -> Seq<Tok> {
    measurement_part_1(v) + measurement_from_2(v)
}

/// What is written for `DISPLAY_IDENTIFIER`.
#[verifier::opaque]
pub open spec fn measurement_page_1(v: MeasurementView, p: Page) -> Page {
    match v.addr.display_name { Some(x) if x.len() > 0 => p.word("DISPLAY_IDENTIFIER"@, x), _ => p }
}

/// What is written from `DISPLAY_IDENTIFIER` on.
pub open spec fn measurement_pages_1(v: MeasurementView, p: Page) -> Page {
    measurement_pages_2(v, measurement_page_1(v, p))
}

/// The parameters of `CALIBRATION_ACCESS`.
#[verifier::opaque]
pub open spec fn measurement_part_2(v: MeasurementView) -> Seq<Tok> {
    if v.addr.calib_access.word() is Some {
        seq![plain("CALIBRATION_ACCESS"@), plain(v.addr.calib_access.word()->Some_0)]
    } else { Seq::<Tok>::empty() }
}

/// The parameters from `CALIBRATION_ACCESS` on.
pub open spec fn measurement_from_2(v: MeasurementView) -> Seq<Tok> {
    measurement_part_2(v) + measurement_from_3(v)
}

/// What is written for `CALIBRATION_ACCESS`.
#[verifier::opaque]
pub open spec fn measurement_page_2(v: MeasurementView, p: Page) -> Page {
    match v.addr.calib_access.word() { Some(kw) => p.word("CALIBRATION_ACCESS"@, kw), None => p }
}

/// What is written from `CALIBRATION_ACCESS` on.
pub open spec fn measurement_pages_2(v: MeasurementView, p: Page) -> Page {
    measurement_pages_3(v, measurement_page_2(v, p))
}

/// The parameters of `MAX_REFRESH`.
#[verifier::opaque]
pub open spec fn measurement_part_3(v: MeasurementView) -> Seq<Tok> {
    if v.addr.max_refresh_unit is Some {
        seq![
            plain("MAX_REFRESH"@),
            plain(dec(v.addr.max_refresh_unit->Some_0.number() as nat)),
            plain(dec_int(v.addr.max_refresh_rate as int))
        ]
    } else { Seq::<Tok>::empty() }
}

/// The parameters from `MAX_REFRESH` on.
pub open spec fn measurement_from_3(v: MeasurementView) -> Seq<Tok> {
    measurement_part_3(v) + measurement_from_4(v)
}

/// What is written for `MAX_REFRESH`.
#[verifier::opaque]
pub open spec fn measurement_page_3(v: MeasurementView, p: Page) -> Page {
    match v.addr.max_refresh_unit {
        Some(x) => p.word(
            "MAX_REFRESH"@,
            dec(x.number() as nat) + " "@ + dec_int(v.addr.max_refresh_rate as int)
        ),
        None => p
    }
}

/// What is written from `MAX_REFRESH` on.
pub open spec fn measurement_pages_3(v: MeasurementView, p: Page) -> Page {
    measurement_pages_4(v, measurement_page_3(v, p))
}

/// The parameters of `SYMBOL_LINK`.
#[verifier::opaque]
pub open spec fn measurement_part_4(v: MeasurementView) -> Seq<Tok> {
    if v.addr.symbol_link is Some {
        seq![
            plain("SYMBOL_LINK"@),
            string(v.addr.symbol_link->Some_0),
            plain(dec_int(v.addr.symbol_offset as int))
        ]
    } else { Seq::<Tok>::empty() }
}

/// The parameters from `SYMBOL_LINK` on.
pub open spec fn measurement_from_4(v: MeasurementView) -> Seq<Tok> {
    measurement_part_4(v) + measurement_from_5(v)
}

/// What is written for `SYMBOL_LINK`.
#[verifier::opaque]
pub open spec fn measurement_page_4(v: MeasurementView, p: Page) -> Page {
    match v.addr.symbol_link {
        Some(x) if x.len() > 0 => p.word(
            "SYMBOL_LINK"@,
            "\""@ + x + "\" "@ + dec_int(v.addr.symbol_offset as int)
        ),
        _ => p
    }
}

/// What is written from `SYMBOL_LINK` on.
pub open spec fn measurement_pages_4(v: MeasurementView, p: Page) -> Page {
    measurement_pages_5(v, measurement_page_4(v, p))
}

/// The parameters of `MODEL_LINK`.
#[verifier::opaque]
pub open spec fn measurement_part_5(v: MeasurementView) -> Seq<Tok> {
    if v.addr.model_link is Some {
        seq![plain("MODEL_LINK"@), string(escaped(v.addr.model_link->Some_0))]
    } else { Seq::<Tok>::empty() }
}

/// The parameters from `MODEL_LINK` on.
pub open spec fn measurement_from_5(v: MeasurementView) -> Seq<Tok> {
    measurement_part_5(v) + measurement_from_6(v)
}

/// What is written for `MODEL_LINK`.
#[verifier::opaque]
pub open spec fn measurement_page_5(v: MeasurementView, p: Page) -> Page {
    match v.addr.model_link { Some(x) if x.len() > 0 => p.quote("MODEL_LINK"@, x), _ => p }
}

/// What is written from `MODEL_LINK` on.
pub open spec fn measurement_pages_5(v: MeasurementView, p: Page) -> Page {
    measurement_pages_6(v, measurement_page_5(v, p))
}

/// The parameters of `FORMAT`.
#[verifier::opaque]
pub open spec fn measurement_part_6(v: MeasurementView) -> Seq<Tok> {
    if v.conv.format is Some {
        seq![plain("FORMAT"@), string(escaped(v.conv.format->Some_0))]
    } else { Seq::<Tok>::empty() }
}

/// The parameters from `FORMAT` on.
pub open spec fn measurement_from_6(v: MeasurementView) -> Seq<Tok> {
    measurement_part_6(v) + measurement_from_7(v)
}

/// What is written for `FORMAT`.
#[verifier::opaque]
pub open spec fn measurement_page_6(v: MeasurementView, p: Page) -> Page {
    match v.conv.format { Some(x) if x.len() > 0 => p.quote("FORMAT"@, x), _ => p }
}

/// What is written from `FORMAT` on.
pub open spec fn measurement_pages_6(v: MeasurementView, p: Page) -> Page {
    measurement_pages_7(v, measurement_page_6(v, p))
}

/// The parameters of `PHYS_UNIT`.
#[verifier::opaque]
pub open spec fn measurement_part_7(v: MeasurementView) -> Seq<Tok> {
    if v.conv.phys_unit is Some {
        seq![plain("PHYS_UNIT"@), string(escaped(v.conv.phys_unit->Some_0))]
    } else { Seq::<Tok>::empty() }
}

/// The parameters from `PHYS_UNIT` on.
pub open spec fn measurement_from_7(v: MeasurementView) -> Seq<Tok> {
    measurement_part_7(v) + measurement_from_8(v)
}

/// What is written for `PHYS_UNIT`.
#[verifier::opaque]
pub open spec fn measurement_page_7(v: MeasurementView, p: Page) -> Page {
    match v.conv.phys_unit { Some(x) if x.len() > 0 => p.quote("PHYS_UNIT"@, x), _ => p }
}

/// What is written from `PHYS_UNIT` on.
pub open spec fn measurement_pages_7(v: MeasurementView, p: Page) -> Page {
    measurement_pages_8(v, measurement_page_7(v, p))
}

/// The parameters of `BYTE_ORDER`.
#[verifier::opaque]
pub open spec fn measurement_part_8(v: MeasurementView) -> Seq<Tok> {
    if v.conv.byte_order.word() is Some {
        seq![plain("BYTE_ORDER"@), plain(v.conv.byte_order.word()->Some_0)]
    } else { Seq::<Tok>::empty() }
}

/// The parameters from `BYTE_ORDER` on.
pub open spec fn measurement_from_8(v: MeasurementView) -> Seq<Tok> {
    measurement_part_8(v) + measurement_from_9(v)
}

/// What is written for `BYTE_ORDER`.
#[verifier::opaque]
pub open spec fn measurement_page_8(v: MeasurementView, p: Page) -> Page {
    match v.conv.byte_order.word() { Some(kw) => p.word("BYTE_ORDER"@, kw), None => p }
}

/// What is written from `BYTE_ORDER` on.
pub open spec fn measurement_pages_8(v: MeasurementView, p: Page) -> Page {
    measurement_pages_9(v, measurement_page_8(v, p))
}

/// The parameters of `REF_MEMORY_SEGMENT`.
#[verifier::opaque]
pub open spec fn measurement_part_9(v: MeasurementView) -> Seq<Tok> {
    if v.conv.memory_segment_ref is Some {
        seq![plain("REF_MEMORY_SEGMENT"@), plain(v.conv.memory_segment_ref->Some_0)]
    } else { Seq::<Tok>::empty() }
}

/// The parameters from `REF_MEMORY_SEGMENT` on.
pub open spec fn measurement_from_9(v: MeasurementView) -> Seq<Tok> {
    measurement_part_9(v) + measurement_from_10(v)
}

/// What is written for `REF_MEMORY_SEGMENT`.
#[verifier::opaque]
pub open spec fn measurement_page_9(v: MeasurementView, p: Page) -> Page {
    match v.conv.memory_segment_ref { Some(x) if x.len() > 0 => p.word("REF_MEMORY_SEGMENT"@, x), _ => p }
}

/// What is written from `REF_MEMORY_SEGMENT` on.
pub open spec fn measurement_pages_9(v: MeasurementView, p: Page) -> Page {
    measurement_pages_10(v, measurement_page_9(v, p))
}

/// The parameters of `LAYOUT`.
#[verifier::opaque]
pub open spec fn measurement_part_10(v: MeasurementView) -> Seq<Tok> {
    if v.layout.word() is Some {
        seq![plain("LAYOUT"@), plain(v.layout.word()->Some_0)]
    } else { Seq::<Tok>::empty() }
}

/// The parameters from `LAYOUT` on.
pub open spec fn measurement_from_10(v: MeasurementView) -> Seq<Tok> {
    measurement_part_10(v) + measurement_from_11(v)
}

/// What is written for `LAYOUT`.
#[verifier::opaque]
pub open spec fn measurement_page_10(v: MeasurementView, p: Page) -> Page {
    match v.layout.word() { Some(kw) => p.word("LAYOUT"@, kw), None => p }
}

/// What is written from `LAYOUT` on.
pub open spec fn measurement_pages_10(v: MeasurementView, p: Page) -> Page {
    measurement_pages_11(v, measurement_page_10(v, p))
}

/// The parameters of `ECU_ADDRESS`.
#[verifier::opaque]
pub open spec fn measurement_part_11(v: MeasurementView) -> Seq<Tok> {
    if v.addr.address is Some {
        seq![plain("ECU_ADDRESS"@), plain(hex_form(v.addr.address->Some_0 as nat))]
    } else { Seq::<Tok>::empty() }
}

/// The parameters from `ECU_ADDRESS` on.
pub open spec fn measurement_from_11(v: MeasurementView) -> Seq<Tok> {
    measurement_part_11(v) + measurement_from_12(v)
}

/// What is written for `ECU_ADDRESS`.
#[verifier::opaque]
pub open spec fn measurement_page_11(v: MeasurementView, p: Page) -> Page {
    match v.addr.address { Some(x) => p.word("ECU_ADDRESS"@, hex_form(x as nat)), None => p }
}

/// What is written from `ECU_ADDRESS` on.
pub open spec fn measurement_pages_11(v: MeasurementView, p: Page) -> Page {
    measurement_pages_12(v, measurement_page_11(v, p))
}

/// The parameters of `BIT_MASK`.
#[verifier::opaque]
pub open spec fn measurement_part_12(v: MeasurementView) -> Seq<Tok> {
    if v.bit_mask is Some {
        seq![plain("BIT_MASK"@), plain(hex_form(v.bit_mask->Some_0 as nat))]
    } else { Seq::<Tok>::empty() }
}

/// The parameters from `BIT_MASK` on.
pub open spec fn measurement_from_12(v: MeasurementView) -> Seq<Tok> {
    measurement_part_12(v) + measurement_from_13(v)
}

/// What is written for `BIT_MASK`.
#[verifier::opaque]
pub open spec fn measurement_page_12(v: MeasurementView, p: Page) -> Page {
    match v.bit_mask { Some(x) => p.word("BIT_MASK"@, hex_form(x as nat)), None => p }
}

/// What is written from `BIT_MASK` on.
pub open spec fn measurement_pages_12(v: MeasurementView, p: Page) -> Page {
    measurement_pages_13(v, measurement_page_12(v, p))
}

/// The parameters of `ERROR_MASK`.
#[verifier::opaque]
pub open spec fn measurement_part_13(v: MeasurementView) -> Seq<Tok> {
    if v.error_mask is Some {
        seq![plain("ERROR_MASK"@), plain(hex_form(v.error_mask->Some_0 as nat))]
    } else { Seq::<Tok>::empty() }
}

/// The parameters from `ERROR_MASK` on.
pub open spec fn measurement_from_13(v: MeasurementView) -> Seq<Tok> {
    measurement_part_13(v) + measurement_from_14(v)
}

/// What is written for `ERROR_MASK`.
#[verifier::opaque]
pub open spec fn measurement_page_13(v: MeasurementView, p: Page) -> Page {
    match v.error_mask { Some(x) => p.word("ERROR_MASK"@, hex_form(x as nat)), None => p }
}

/// What is written from `ERROR_MASK` on.
pub open spec fn measurement_pages_13(v: MeasurementView, p: Page) -> Page {
    measurement_pages_14(v, measurement_page_13(v, p))
}

/// The parameters of `DISCRETE`.
#[verifier::opaque]
pub open spec fn measurement_part_14(v: MeasurementView) -> Seq<Tok> {
    if v.discrete { seq![plain("DISCRETE"@)] } else { Seq::<Tok>::empty() }
}

/// The parameters from `DISCRETE` on.
pub open spec fn measurement_from_14(v: MeasurementView) -> Seq<Tok> {
    measurement_part_14(v) + measurement_from_15(v)
}

/// What is written for `DISCRETE`.
#[verifier::opaque]
pub open spec fn measurement_page_14(v: MeasurementView, p: Page) -> Page {
    if v.discrete { p.line("DISCRETE"@) } else { p }
}

/// What is written from `DISCRETE` on.
pub open spec fn measurement_pages_14(v: MeasurementView, p: Page) -> Page {
    measurement_pages_15(v, measurement_page_14(v, p))
}

/// The parameters of `READ_WRITE`.
#[verifier::opaque]
pub open spec fn measurement_part_15(v: MeasurementView) -> Seq<Tok> {
    if v.read_write { seq![plain("READ_WRITE"@)] } else { Seq::<Tok>::empty() }
}

/// The parameters from `READ_WRITE` on.
pub open spec fn measurement_from_15(v: MeasurementView) -> Seq<Tok> {
    measurement_part_15(v) + measurement_from_16(v)
}

/// What is written for `READ_WRITE`.
#[verifier::opaque]
pub open spec fn measurement_page_15(v: MeasurementView, p: Page) -> Page {
    if v.read_write { p.line("READ_WRITE"@) } else { p }
}

/// What is written from `READ_WRITE` on.
pub open spec fn measurement_pages_15(v: MeasurementView, p: Page) -> Page {
    measurement_pages_16(v, measurement_page_15(v, p))
}

/// The parameters of `MATRIX_DIM`.
#[verifier::opaque]
pub open spec fn measurement_part_16(v: MeasurementView) -> Seq<Tok> {
    if v.matrix_dim is Some {
        seq![plain("MATRIX_DIM"@)] + int_tokens(v.matrix_dim->Some_0)
    } else { Seq::<Tok>::empty() }
}

/// The parameters from `MATRIX_DIM` on.
pub open spec fn measurement_from_16(v: MeasurementView) -> Seq<Tok> {
    measurement_part_16(v) + measurement_from_17(v)
}

/// What is written for `MATRIX_DIM`.
#[verifier::opaque]
pub open spec fn measurement_page_16(v: MeasurementView, p: Page) -> Page {
    match v.matrix_dim { Some(x) => p.word("MATRIX_DIM"@, listed(x)), None => p }
}

/// What is written from `MATRIX_DIM` on.
pub open spec fn measurement_pages_16(v: MeasurementView, p: Page) -> Page {
    measurement_pages_17(v, measurement_page_16(v, p))
}

/// The parameters of `ADDRESS_TYPE`.
#[verifier::opaque]
pub open spec fn measurement_part_17(v: MeasurementView) -> Seq<Tok> {
    if v.addr_type != AddrType::DIRECT {
        seq![plain("ADDRESS_TYPE"@), plain(v.addr_type.word()->Some_0)]
    } else { Seq::<Tok>::empty() }
}

/// The parameters from `ADDRESS_TYPE` on.
pub open spec fn measurement_from_17(v: MeasurementView) -> Seq<Tok> {
    measurement_part_17(v) + measurement_from_18(v)
}

/// What is written for `ADDRESS_TYPE`.
#[verifier::opaque]
pub open spec fn measurement_page_17(v: MeasurementView, p: Page) -> Page {
    if v.addr_type != AddrType::DIRECT {
        match v.addr_type.word() { Some(kw) => p.word("ADDRESS_TYPE"@, kw), None => p }
    } else { p }
}

/// What is written from `ADDRESS_TYPE` on.
pub open spec fn measurement_pages_17(v: MeasurementView, p: Page) -> Page {
    measurement_pages_18(v, measurement_page_17(v, p))
}

/// The parameters behind the last keyword.
pub open spec fn measurement_from_18(v: MeasurementView) -> Seq<Tok> {
    Seq::empty()
}

/// What is written behind the last keyword.
pub open spec fn measurement_pages_18(v: MeasurementView, p: Page) -> Page {
    p
}

proof fn lemma_measurement_part_17(v: MeasurementView, p: Page, f: Setting)
    requires
        Measurement::fits(v, f),
        indents_by_blanks(p),
    ensures
        shows(p, measurement_page_17(v, p), measurement_part_17(v)),
        measurement_page_17(v, p).depth == p.depth,
        measurement_page_17(v, p).style == p.style,
        all_params(measurement_part_17(v)),
{
    reveal(measurement_page_17);
    reveal(measurement_part_17);
    if v.addr_type != AddrType::DIRECT {
        reveal_strlit("ADDRESS_TYPE");
        assert(is_keyword("ADDRESS_TYPE"@));
        lemma_keyword_param("ADDRESS_TYPE"@);
        v.addr_type.lemma_word();
        lemma_shows_word(p, "ADDRESS_TYPE"@, v.addr_type.word()->Some_0);
        reveal_strlit("ADDRESS_TYPE");
        assert(is_keyword("ADDRESS_TYPE"@));
        lemma_keyword_param("ADDRESS_TYPE"@);
        v.addr_type.lemma_word();
        assert(all_params(seq![plain("ADDRESS_TYPE"@), plain(v.addr_type.word()->Some_0)]));
        
    } else {
        lemma_shows_nothing(p);
    }
}

proof fn lemma_measurement_part_16(v: MeasurementView, p: Page, f: Setting)
    requires
        Measurement::fits(v, f),
        indents_by_blanks(p),
    ensures
        shows(p, measurement_page_16(v, p), measurement_part_16(v)),
        measurement_page_16(v, p).depth == p.depth,
        measurement_page_16(v, p).style == p.style,
        all_params(measurement_part_16(v)),
{
    reveal(measurement_page_16);
    reveal(measurement_part_16);
    if v.matrix_dim is Some {
        reveal_strlit("MATRIX_DIM");
        assert(is_keyword("MATRIX_DIM"@));
        lemma_keyword_param("MATRIX_DIM"@);
        lemma_spells_ints(v.matrix_dim->Some_0);
        lemma_shows_tagged(p, "MATRIX_DIM"@, listed(v.matrix_dim->Some_0), int_tokens(v.matrix_dim->Some_0));
        reveal_strlit("MATRIX_DIM");
        assert(is_keyword("MATRIX_DIM"@));
        lemma_keyword_param("MATRIX_DIM"@);
        assert(all_params(seq![plain("MATRIX_DIM"@)]));
        lemma_int_params(v.matrix_dim->Some_0);
        lemma_all_params_join(seq![plain("MATRIX_DIM"@)], int_tokens(v.matrix_dim->Some_0));
    } else {
        lemma_shows_nothing(p);
    }
}

proof fn lemma_measurement_part_15(v: MeasurementView, p: Page, f: Setting)
    requires
        Measurement::fits(v, f),
        indents_by_blanks(p),
    ensures
        shows(p, measurement_page_15(v, p), measurement_part_15(v)),
        measurement_page_15(v, p).depth == p.depth,
        measurement_page_15(v, p).style == p.style,
        all_params(measurement_part_15(v)),
{
    reveal(measurement_page_15);
    reveal(measurement_part_15);
    if v.read_write {
        reveal_strlit("READ_WRITE");
        assert(is_keyword("READ_WRITE"@));
        lemma_keyword_param("READ_WRITE"@);
        lemma_shows_word_line(p, "READ_WRITE"@);
        reveal_strlit("READ_WRITE");
        assert(is_keyword("READ_WRITE"@));
        lemma_keyword_param("READ_WRITE"@);
        assert(all_params(seq![plain("READ_WRITE"@)]));
        
    } else {
        lemma_shows_nothing(p);
    }
}

proof fn lemma_measurement_part_14(v: MeasurementView, p: Page, f: Setting)
    requires
        Measurement::fits(v, f),
        indents_by_blanks(p),
    ensures
        shows(p, measurement_page_14(v, p), measurement_part_14(v)),
        measurement_page_14(v, p).depth == p.depth,
        measurement_page_14(v, p).style == p.style,
        all_params(measurement_part_14(v)),
{
    reveal(measurement_page_14);
    reveal(measurement_part_14);
    if v.discrete {
        reveal_strlit("DISCRETE");
        assert(is_keyword("DISCRETE"@));
        lemma_keyword_param("DISCRETE"@);
        lemma_shows_word_line(p, "DISCRETE"@);
        reveal_strlit("DISCRETE");
        assert(is_keyword("DISCRETE"@));
        lemma_keyword_param("DISCRETE"@);
        assert(all_params(seq![plain("DISCRETE"@)]));
        
    } else {
        lemma_shows_nothing(p);
    }
}

proof fn lemma_measurement_part_13(v: MeasurementView, p: Page, f: Setting)
    requires
        Measurement::fits(v, f),
        indents_by_blanks(p),
    ensures
        shows(p, measurement_page_13(v, p), measurement_part_13(v)),
        measurement_page_13(v, p).depth == p.depth,
        measurement_page_13(v, p).style == p.style,
        all_params(measurement_part_13(v)),
{
    reveal(measurement_page_13);
    reveal(measurement_part_13);
    if v.error_mask is Some {
        reveal_strlit("ERROR_MASK");
        assert(is_keyword("ERROR_MASK"@));
        lemma_keyword_param("ERROR_MASK"@);
        lemma_hex_param(v.error_mask->Some_0 as nat);
        lemma_shows_word(p, "ERROR_MASK"@, hex_form(v.error_mask->Some_0 as nat));
        reveal_strlit("ERROR_MASK");
        assert(is_keyword("ERROR_MASK"@));
        lemma_keyword_param("ERROR_MASK"@);
        lemma_hex_param(v.error_mask->Some_0 as nat);
        assert(all_params(seq![plain("ERROR_MASK"@), plain(hex_form(v.error_mask->Some_0 as nat))]));
        
    } else {
        lemma_shows_nothing(p);
    }
}

proof fn lemma_measurement_part_12(v: MeasurementView, p: Page, f: Setting)
    requires
        Measurement::fits(v, f),
        indents_by_blanks(p),
    ensures
        shows(p, measurement_page_12(v, p), measurement_part_12(v)),
        measurement_page_12(v, p).depth == p.depth,
        measurement_page_12(v, p).style == p.style,
        all_params(measurement_part_12(v)),
{
    reveal(measurement_page_12);
    reveal(measurement_part_12);
    if v.bit_mask is Some {
        reveal_strlit("BIT_MASK");
        assert(is_keyword("BIT_MASK"@));
        lemma_keyword_param("BIT_MASK"@);
        lemma_hex_param(v.bit_mask->Some_0 as nat);
        lemma_shows_word(p, "BIT_MASK"@, hex_form(v.bit_mask->Some_0 as nat));
        reveal_strlit("BIT_MASK");
        assert(is_keyword("BIT_MASK"@));
        lemma_keyword_param("BIT_MASK"@);
        lemma_hex_param(v.bit_mask->Some_0 as nat);
        assert(all_params(seq![plain("BIT_MASK"@), plain(hex_form(v.bit_mask->Some_0 as nat))]));
        
    } else {
        lemma_shows_nothing(p);
    }
}

proof fn lemma_measurement_part_11(v: MeasurementView, p: Page, f: Setting)
    requires
        Measurement::fits(v, f),
        indents_by_blanks(p),
    ensures
        shows(p, measurement_page_11(v, p), measurement_part_11(v)),
        measurement_page_11(v, p).depth == p.depth,
        measurement_page_11(v, p).style == p.style,
        all_params(measurement_part_11(v)),
{
    reveal(measurement_page_11);
    reveal(measurement_part_11);
    if v.addr.address is Some {
        reveal_strlit("ECU_ADDRESS");
        assert(is_keyword("ECU_ADDRESS"@));
        lemma_keyword_param("ECU_ADDRESS"@);
        lemma_hex_param(v.addr.address->Some_0 as nat);
        lemma_shows_word(p, "ECU_ADDRESS"@, hex_form(v.addr.address->Some_0 as nat));
        reveal_strlit("ECU_ADDRESS");
        assert(is_keyword("ECU_ADDRESS"@));
        lemma_keyword_param("ECU_ADDRESS"@);
        lemma_hex_param(v.addr.address->Some_0 as nat);
        assert(all_params(seq![plain("ECU_ADDRESS"@), plain(hex_form(v.addr.address->Some_0 as nat))]));
        
    } else {
        lemma_shows_nothing(p);
    }
}

proof fn lemma_measurement_part_10(v: MeasurementView, p: Page, f: Setting)
    requires
        Measurement::fits(v, f),
        indents_by_blanks(p),
    ensures
        shows(p, measurement_page_10(v, p), measurement_part_10(v)),
        measurement_page_10(v, p).depth == p.depth,
        measurement_page_10(v, p).style == p.style,
        all_params(measurement_part_10(v)),
{
    reveal(measurement_page_10);
    reveal(measurement_part_10);
    if v.layout.word() is Some {
        reveal_strlit("LAYOUT");
        assert(is_keyword("LAYOUT"@));
        lemma_keyword_param("LAYOUT"@);
        v.layout.lemma_word();
        lemma_shows_word(p, "LAYOUT"@, v.layout.word()->Some_0);
        reveal_strlit("LAYOUT");
        assert(is_keyword("LAYOUT"@));
        lemma_keyword_param("LAYOUT"@);
        v.layout.lemma_word();
        assert(all_params(seq![plain("LAYOUT"@), plain(v.layout.word()->Some_0)]));
        
    } else {
        lemma_shows_nothing(p);
    }
}

proof fn lemma_measurement_part_9(v: MeasurementView, p: Page, f: Setting)
    requires
        Measurement::fits(v, f),
        indents_by_blanks(p),
    ensures
        shows(p, measurement_page_9(v, p), measurement_part_9(v)),
        measurement_page_9(v, p).depth == p.depth,
        measurement_page_9(v, p).style == p.style,
        all_params(measurement_part_9(v)),
{
    reveal(measurement_page_9);
    reveal(measurement_part_9);
    if v.conv.memory_segment_ref is Some {
        reveal_strlit("REF_MEMORY_SEGMENT");
        assert(is_keyword("REF_MEMORY_SEGMENT"@));
        lemma_keyword_param("REF_MEMORY_SEGMENT"@);
        lemma_shows_word(p, "REF_MEMORY_SEGMENT"@, v.conv.memory_segment_ref->Some_0);
        reveal_strlit("REF_MEMORY_SEGMENT");
        assert(is_keyword("REF_MEMORY_SEGMENT"@));
        lemma_keyword_param("REF_MEMORY_SEGMENT"@);
        assert(all_params(seq![plain("REF_MEMORY_SEGMENT"@), plain(v.conv.memory_segment_ref->Some_0)]));
        
    } else {
        lemma_shows_nothing(p);
    }
}

proof fn lemma_measurement_part_8(v: MeasurementView, p: Page, f: Setting)
    requires
        Measurement::fits(v, f),
        indents_by_blanks(p),
    ensures
        shows(p, measurement_page_8(v, p), measurement_part_8(v)),
        measurement_page_8(v, p).depth == p.depth,
        measurement_page_8(v, p).style == p.style,
        all_params(measurement_part_8(v)),
{
    reveal(measurement_page_8);
    reveal(measurement_part_8);
    if v.conv.byte_order.word() is Some {
        reveal_strlit("BYTE_ORDER");
        assert(is_keyword("BYTE_ORDER"@));
        lemma_keyword_param("BYTE_ORDER"@);
        v.conv.byte_order.lemma_word();
        lemma_shows_word(p, "BYTE_ORDER"@, v.conv.byte_order.word()->Some_0);
        reveal_strlit("BYTE_ORDER");
        assert(is_keyword("BYTE_ORDER"@));
        lemma_keyword_param("BYTE_ORDER"@);
        v.conv.byte_order.lemma_word();
        assert(all_params(seq![plain("BYTE_ORDER"@), plain(v.conv.byte_order.word()->Some_0)]));
        
    } else {
        lemma_shows_nothing(p);
    }
}

proof fn lemma_measurement_part_7(v: MeasurementView, p: Page, f: Setting)
    requires
        Measurement::fits(v, f),
        indents_by_blanks(p),
    ensures
        shows(p, measurement_page_7(v, p), measurement_part_7(v)),
        measurement_page_7(v, p).depth == p.depth,
        measurement_page_7(v, p).style == p.style,
        all_params(measurement_part_7(v)),
{
    reveal(measurement_page_7);
    reveal(measurement_part_7);
    if v.conv.phys_unit is Some {
        reveal_strlit("PHYS_UNIT");
        assert(is_keyword("PHYS_UNIT"@));
        lemma_keyword_param("PHYS_UNIT"@);
        lemma_shows_quote(p, "PHYS_UNIT"@, v.conv.phys_unit->Some_0);
        reveal_strlit("PHYS_UNIT");
        assert(is_keyword("PHYS_UNIT"@));
        lemma_keyword_param("PHYS_UNIT"@);
        lemma_string_param(v.conv.phys_unit->Some_0);
        assert(all_params(seq![plain("PHYS_UNIT"@), string(escaped(v.conv.phys_unit->Some_0))]));
        
    } else {
        lemma_shows_nothing(p);
    }
}

proof fn lemma_measurement_part_6(v: MeasurementView, p: Page, f: Setting)
    requires
        Measurement::fits(v, f),
        indents_by_blanks(p),
    ensures
        shows(p, measurement_page_6(v, p), measurement_part_6(v)),
        measurement_page_6(v, p).depth == p.depth,
        measurement_page_6(v, p).style == p.style,
        all_params(measurement_part_6(v)),
{
    reveal(measurement_page_6);
    reveal(measurement_part_6);
    if v.conv.format is Some {
        reveal_strlit("FORMAT");
        assert(is_keyword("FORMAT"@));
        lemma_keyword_param("FORMAT"@);
        lemma_shows_quote(p, "FORMAT"@, v.conv.format->Some_0);
        reveal_strlit("FORMAT");
        assert(is_keyword("FORMAT"@));
        lemma_keyword_param("FORMAT"@);
        lemma_string_param(v.conv.format->Some_0);
        assert(all_params(seq![plain("FORMAT"@), string(escaped(v.conv.format->Some_0))]));
        
    } else {
        lemma_shows_nothing(p);
    }
}

proof fn lemma_measurement_part_5(v: MeasurementView, p: Page, f: Setting)
    requires
        Measurement::fits(v, f),
        indents_by_blanks(p),
    ensures
        shows(p, measurement_page_5(v, p), measurement_part_5(v)),
        measurement_page_5(v, p).depth == p.depth,
        measurement_page_5(v, p).style == p.style,
        all_params(measurement_part_5(v)),
{
    reveal(measurement_page_5);
    reveal(measurement_part_5);
    if v.addr.model_link is Some {
        reveal_strlit("MODEL_LINK");
        assert(is_keyword("MODEL_LINK"@));
        lemma_keyword_param("MODEL_LINK"@);
        lemma_shows_quote(p, "MODEL_LINK"@, v.addr.model_link->Some_0);
        reveal_strlit("MODEL_LINK");
        assert(is_keyword("MODEL_LINK"@));
        lemma_keyword_param("MODEL_LINK"@);
        lemma_string_param(v.addr.model_link->Some_0);
        assert(all_params(seq![plain("MODEL_LINK"@), string(escaped(v.addr.model_link->Some_0))]));
        
    } else {
        lemma_shows_nothing(p);
    }
}

proof fn lemma_measurement_part_4(v: MeasurementView, p: Page, f: Setting)
    requires
        Measurement::fits(v, f),
        indents_by_blanks(p),
    ensures
        shows(p, measurement_page_4(v, p), measurement_part_4(v)),
        measurement_page_4(v, p).depth == p.depth,
        measurement_page_4(v, p).style == p.style,
        all_params(measurement_part_4(v)),
{
    reveal(measurement_page_4);
    reveal(measurement_part_4);
    if v.addr.symbol_link is Some {
        reveal_strlit("SYMBOL_LINK");
        assert(is_keyword("SYMBOL_LINK"@));
        lemma_keyword_param("SYMBOL_LINK"@);
        let link = v.addr.symbol_link->Some_0;
        let offset = dec_int(v.addr.symbol_offset as int);
        reveal_strlit("\"");
        reveal_strlit("\" ");
        reveal_strlit(" ");
        lemma_dec_param(v.addr.symbol_offset as int);
        assert("\""@ + link + "\" "@ + offset =~= ("\""@ + link + "\""@) + " "@ + offset);
        lemma_spells_content(link);
        lemma_spells_word(offset);
        lemma_spells_join("\""@ + link + "\""@, seq![string(link)], offset, seq![plain(offset)]);
        lemma_shows_tagged(
            p,
            "SYMBOL_LINK"@,
            "\""@ + link + "\" "@ + offset,
            seq![string(link)] + seq![plain(offset)]
        );
        assert(
            seq![plain("SYMBOL_LINK"@)] + (seq![string(link)] + seq![plain(offset)]) =~= seq![
                plain("SYMBOL_LINK"@),
                string(link),
                plain(offset)
            ]
        );
        reveal_strlit("SYMBOL_LINK");
        assert(is_keyword("SYMBOL_LINK"@));
        lemma_keyword_param("SYMBOL_LINK"@);
        lemma_dec_param(v.addr.symbol_offset as int);
        assert(
            all_params(
                seq![
                    plain("SYMBOL_LINK"@),
                    string(v.addr.symbol_link->Some_0),
                    plain(dec_int(v.addr.symbol_offset as int))
                ]
            )
        );
        
    } else {
        lemma_shows_nothing(p);
    }
}

proof fn lemma_measurement_part_3(v: MeasurementView, p: Page, f: Setting)
    requires
        Measurement::fits(v, f),
        indents_by_blanks(p),
    ensures
        shows(p, measurement_page_3(v, p), measurement_part_3(v)),
        measurement_page_3(v, p).depth == p.depth,
        measurement_page_3(v, p).style == p.style,
        all_params(measurement_part_3(v)),
{
    reveal(measurement_page_3);
    reveal(measurement_part_3);
    if v.addr.max_refresh_unit is Some {
        reveal_strlit("MAX_REFRESH");
        assert(is_keyword("MAX_REFRESH"@));
        lemma_keyword_param("MAX_REFRESH"@);
        let unit = dec(v.addr.max_refresh_unit->Some_0.number() as nat);
        let rate = dec_int(v.addr.max_refresh_rate as int);
        lemma_dec_param(v.addr.max_refresh_unit->Some_0.number() as int);
        lemma_dec_param(v.addr.max_refresh_rate as int);
        lemma_spells_pair(unit, rate);
        lemma_shows_tagged(p, "MAX_REFRESH"@, unit + " "@ + rate, seq![plain(unit), plain(rate)]);
        assert(
            seq![plain("MAX_REFRESH"@)] + seq![plain(unit), plain(rate)] =~= seq![
                plain("MAX_REFRESH"@),
                plain(unit),
                plain(rate)
            ]
        );
        reveal_strlit("MAX_REFRESH");
        assert(is_keyword("MAX_REFRESH"@));
        lemma_keyword_param("MAX_REFRESH"@);
        lemma_dec_param(v.addr.max_refresh_unit->Some_0.number() as int);
        lemma_dec_param(v.addr.max_refresh_rate as int);
        assert(
            all_params(
                seq![
                    plain("MAX_REFRESH"@),
                    plain(dec(v.addr.max_refresh_unit->Some_0.number() as nat)),
                    plain(dec_int(v.addr.max_refresh_rate as int))
                ]
            )
        );
        
    } else {
        lemma_shows_nothing(p);
    }
}

proof fn lemma_measurement_part_2(v: MeasurementView, p: Page, f: Setting)
    requires
        Measurement::fits(v, f),
        indents_by_blanks(p),
    ensures
        shows(p, measurement_page_2(v, p), measurement_part_2(v)),
        measurement_page_2(v, p).depth == p.depth,
        measurement_page_2(v, p).style == p.style,
        all_params(measurement_part_2(v)),
{
    reveal(measurement_page_2);
    reveal(measurement_part_2);
    if v.addr.calib_access.word() is Some {
        reveal_strlit("CALIBRATION_ACCESS");
        assert(is_keyword("CALIBRATION_ACCESS"@));
        lemma_keyword_param("CALIBRATION_ACCESS"@);
        v.addr.calib_access.lemma_word();
        lemma_shows_word(p, "CALIBRATION_ACCESS"@, v.addr.calib_access.word()->Some_0);
        reveal_strlit("CALIBRATION_ACCESS");
        assert(is_keyword("CALIBRATION_ACCESS"@));
        lemma_keyword_param("CALIBRATION_ACCESS"@);
        v.addr.calib_access.lemma_word();
        assert(all_params(seq![plain("CALIBRATION_ACCESS"@), plain(v.addr.calib_access.word()->Some_0)]));
        
    } else {
        lemma_shows_nothing(p);
    }
}

proof fn lemma_measurement_part_1(v: MeasurementView, p: Page, f: Setting)
    requires
        Measurement::fits(v, f),
        indents_by_blanks(p),
    ensures
        shows(p, measurement_page_1(v, p), measurement_part_1(v)),
        measurement_page_1(v, p).depth == p.depth,
        measurement_page_1(v, p).style == p.style,
        all_params(measurement_part_1(v)),
{
    reveal(measurement_page_1);
    reveal(measurement_part_1);
    if v.addr.display_name is Some {
        reveal_strlit("DISPLAY_IDENTIFIER");
        assert(is_keyword("DISPLAY_IDENTIFIER"@));
        lemma_keyword_param("DISPLAY_IDENTIFIER"@);
        lemma_shows_word(p, "DISPLAY_IDENTIFIER"@, v.addr.display_name->Some_0);
        reveal_strlit("DISPLAY_IDENTIFIER");
        assert(is_keyword("DISPLAY_IDENTIFIER"@));
        lemma_keyword_param("DISPLAY_IDENTIFIER"@);
        assert(all_params(seq![plain("DISPLAY_IDENTIFIER"@), plain(v.addr.display_name->Some_0)]));
        
    } else {
        lemma_shows_nothing(p);
    }
}

proof fn lemma_measurement_part_0(v: MeasurementView, p: Page, f: Setting)
    requires
        Measurement::fits(v, f),
        indents_by_blanks(p),
    ensures
        shows(p, measurement_page_0(v, p), measurement_part_0(v)),
        measurement_page_0(v, p).depth == p.depth,
        measurement_page_0(v, p).style == p.style,
        all_params(measurement_part_0(v)),
{
    reveal(measurement_page_0);
    reveal(measurement_part_0);
    if v.addr.address_extension is Some {
        reveal_strlit("ECU_ADDRESS_EXTENSION");
        assert(is_keyword("ECU_ADDRESS_EXTENSION"@));
        lemma_keyword_param("ECU_ADDRESS_EXTENSION"@);
        lemma_dec_param(v.addr.address_extension->Some_0 as int);
        lemma_shows_word(p, "ECU_ADDRESS_EXTENSION"@, dec_int(v.addr.address_extension->Some_0 as int));
        reveal_strlit("ECU_ADDRESS_EXTENSION");
        assert(is_keyword("ECU_ADDRESS_EXTENSION"@));
        lemma_keyword_param("ECU_ADDRESS_EXTENSION"@);
        lemma_dec_param(v.addr.address_extension->Some_0 as int);
        assert(
            all_params(
                seq![
                    plain("ECU_ADDRESS_EXTENSION"@),
                    plain(dec_int(v.addr.address_extension->Some_0 as int))
                ]
            )
        );
        
    } else {
        lemma_shows_nothing(p);
    }
}

proof fn lemma_measurement_shown_18(v: MeasurementView, p: Page, f: Setting)
    requires
        Measurement::fits(v, f),
        indents_by_blanks(p),
    ensures
        shows(p, measurement_pages_18(v, p), measurement_from_18(v)),
        measurement_pages_18(v, p).depth == p.depth,
        measurement_pages_18(v, p).style == p.style,
        all_params(measurement_from_18(v)),
{
    lemma_shows_nothing(p);
}

proof fn lemma_measurement_shown_17(v: MeasurementView, p: Page, f: Setting)
    requires
        Measurement::fits(v, f),
        indents_by_blanks(p),
    ensures
        shows(p, measurement_pages_17(v, p), measurement_from_17(v)),
        measurement_pages_17(v, p).depth == p.depth,
        measurement_pages_17(v, p).style == p.style,
        all_params(measurement_from_17(v)),
{
    lemma_measurement_part_17(v, p, f);
    let q = measurement_page_17(v, p);
    lemma_measurement_shown_18(v, q, f);
    lemma_shows_join(p, q, measurement_pages_18(v, q), measurement_part_17(v), measurement_from_18(v));
    lemma_all_params_join(measurement_part_17(v), measurement_from_18(v));
}

proof fn lemma_measurement_shown_16(v: MeasurementView, p: Page, f: Setting)
    requires
        Measurement::fits(v, f),
        indents_by_blanks(p),
    ensures
        shows(p, measurement_pages_16(v, p), measurement_from_16(v)),
        measurement_pages_16(v, p).depth == p.depth,
        measurement_pages_16(v, p).style == p.style,
        all_params(measurement_from_16(v)),
{
    lemma_measurement_part_16(v, p, f);
    let q = measurement_page_16(v, p);
    lemma_measurement_shown_17(v, q, f);
    lemma_shows_join(p, q, measurement_pages_17(v, q), measurement_part_16(v), measurement_from_17(v));
    lemma_all_params_join(measurement_part_16(v), measurement_from_17(v));
}

proof fn lemma_measurement_shown_15(v: MeasurementView, p: Page, f: Setting)
    requires
        Measurement::fits(v, f),
        indents_by_blanks(p),
    ensures
        shows(p, measurement_pages_15(v, p), measurement_from_15(v)),
        measurement_pages_15(v, p).depth == p.depth,
        measurement_pages_15(v, p).style == p.style,
        all_params(measurement_from_15(v)),
{
    lemma_measurement_part_15(v, p, f);
    let q = measurement_page_15(v, p);
    lemma_measurement_shown_16(v, q, f);
    lemma_shows_join(p, q, measurement_pages_16(v, q), measurement_part_15(v), measurement_from_16(v));
    lemma_all_params_join(measurement_part_15(v), measurement_from_16(v));
}

proof fn lemma_measurement_shown_14(v: MeasurementView, p: Page, f: Setting)
    requires
        Measurement::fits(v, f),
        indents_by_blanks(p),
    ensures
        shows(p, measurement_pages_14(v, p), measurement_from_14(v)),
        measurement_pages_14(v, p).depth == p.depth,
        measurement_pages_14(v, p).style == p.style,
        all_params(measurement_from_14(v)),
{
    lemma_measurement_part_14(v, p, f);
    let q = measurement_page_14(v, p);
    lemma_measurement_shown_15(v, q, f);
    lemma_shows_join(p, q, measurement_pages_15(v, q), measurement_part_14(v), measurement_from_15(v));
    lemma_all_params_join(measurement_part_14(v), measurement_from_15(v));
}

proof fn lemma_measurement_shown_13(v: MeasurementView, p: Page, f: Setting)
    requires
        Measurement::fits(v, f),
        indents_by_blanks(p),
    ensures
        shows(p, measurement_pages_13(v, p), measurement_from_13(v)),
        measurement_pages_13(v, p).depth == p.depth,
        measurement_pages_13(v, p).style == p.style,
        all_params(measurement_from_13(v)),
{
    lemma_measurement_part_13(v, p, f);
    let q = measurement_page_13(v, p);
    lemma_measurement_shown_14(v, q, f);
    lemma_shows_join(p, q, measurement_pages_14(v, q), measurement_part_13(v), measurement_from_14(v));
    lemma_all_params_join(measurement_part_13(v), measurement_from_14(v));
}

proof fn lemma_measurement_shown_12(v: MeasurementView, p: Page, f: Setting)
    requires
        Measurement::fits(v, f),
        indents_by_blanks(p),
    ensures
        shows(p, measurement_pages_12(v, p), measurement_from_12(v)),
        measurement_pages_12(v, p).depth == p.depth,
        measurement_pages_12(v, p).style == p.style,
        all_params(measurement_from_12(v)),
{
    lemma_measurement_part_12(v, p, f);
    let q = measurement_page_12(v, p);
    lemma_measurement_shown_13(v, q, f);
    lemma_shows_join(p, q, measurement_pages_13(v, q), measurement_part_12(v), measurement_from_13(v));
    lemma_all_params_join(measurement_part_12(v), measurement_from_13(v));
}

proof fn lemma_measurement_shown_11(v: MeasurementView, p: Page, f: Setting)
    requires
        Measurement::fits(v, f),
        indents_by_blanks(p),
    ensures
        shows(p, measurement_pages_11(v, p), measurement_from_11(v)),
        measurement_pages_11(v, p).depth == p.depth,
        measurement_pages_11(v, p).style == p.style,
        all_params(measurement_from_11(v)),
{
    lemma_measurement_part_11(v, p, f);
    let q = measurement_page_11(v, p);
    lemma_measurement_shown_12(v, q, f);
    lemma_shows_join(p, q, measurement_pages_12(v, q), measurement_part_11(v), measurement_from_12(v));
    lemma_all_params_join(measurement_part_11(v), measurement_from_12(v));
}

proof fn lemma_measurement_shown_10(v: MeasurementView, p: Page, f: Setting)
    requires
        Measurement::fits(v, f),
        indents_by_blanks(p),
    ensures
        shows(p, measurement_pages_10(v, p), measurement_from_10(v)),
        measurement_pages_10(v, p).depth == p.depth,
        measurement_pages_10(v, p).style == p.style,
        all_params(measurement_from_10(v)),
{
    lemma_measurement_part_10(v, p, f);
    let q = measurement_page_10(v, p);
    lemma_measurement_shown_11(v, q, f);
    lemma_shows_join(p, q, measurement_pages_11(v, q), measurement_part_10(v), measurement_from_11(v));
    lemma_all_params_join(measurement_part_10(v), measurement_from_11(v));
}

proof fn lemma_measurement_shown_9(v: MeasurementView, p: Page, f: Setting)
    requires
        Measurement::fits(v, f),
        indents_by_blanks(p),
    ensures
        shows(p, measurement_pages_9(v, p), measurement_from_9(v)),
        measurement_pages_9(v, p).depth == p.depth,
        measurement_pages_9(v, p).style == p.style,
        all_params(measurement_from_9(v)),
{
    lemma_measurement_part_9(v, p, f);
    let q = measurement_page_9(v, p);
    lemma_measurement_shown_10(v, q, f);
    lemma_shows_join(p, q, measurement_pages_10(v, q), measurement_part_9(v), measurement_from_10(v));
    lemma_all_params_join(measurement_part_9(v), measurement_from_10(v));
}

proof fn lemma_measurement_shown_8(v: MeasurementView, p: Page, f: Setting)
    requires
        Measurement::fits(v, f),
        indents_by_blanks(p),
    ensures
        shows(p, measurement_pages_8(v, p), measurement_from_8(v)),
        measurement_pages_8(v, p).depth == p.depth,
        measurement_pages_8(v, p).style == p.style,
        all_params(measurement_from_8(v)),
{
    lemma_measurement_part_8(v, p, f);
    let q = measurement_page_8(v, p);
    lemma_measurement_shown_9(v, q, f);
    lemma_shows_join(p, q, measurement_pages_9(v, q), measurement_part_8(v), measurement_from_9(v));
    lemma_all_params_join(measurement_part_8(v), measurement_from_9(v));
}

proof fn lemma_measurement_shown_7(v: MeasurementView, p: Page, f: Setting)
    requires
        Measurement::fits(v, f),
        indents_by_blanks(p),
    ensures
        shows(p, measurement_pages_7(v, p), measurement_from_7(v)),
        measurement_pages_7(v, p).depth == p.depth,
        measurement_pages_7(v, p).style == p.style,
        all_params(measurement_from_7(v)),
{
    lemma_measurement_part_7(v, p, f);
    let q = measurement_page_7(v, p);
    lemma_measurement_shown_8(v, q, f);
    lemma_shows_join(p, q, measurement_pages_8(v, q), measurement_part_7(v), measurement_from_8(v));
    lemma_all_params_join(measurement_part_7(v), measurement_from_8(v));
}

proof fn lemma_measurement_shown_6(v: MeasurementView, p: Page, f: Setting)
    requires
        Measurement::fits(v, f),
        indents_by_blanks(p),
    ensures
        shows(p, measurement_pages_6(v, p), measurement_from_6(v)),
        measurement_pages_6(v, p).depth == p.depth,
        measurement_pages_6(v, p).style == p.style,
        all_params(measurement_from_6(v)),
{
    lemma_measurement_part_6(v, p, f);
    let q = measurement_page_6(v, p);
    lemma_measurement_shown_7(v, q, f);
    lemma_shows_join(p, q, measurement_pages_7(v, q), measurement_part_6(v), measurement_from_7(v));
    lemma_all_params_join(measurement_part_6(v), measurement_from_7(v));
}

proof fn lemma_measurement_shown_5(v: MeasurementView, p: Page, f: Setting)
    requires
        Measurement::fits(v, f),
        indents_by_blanks(p),
    ensures
        shows(p, measurement_pages_5(v, p), measurement_from_5(v)),
        measurement_pages_5(v, p).depth == p.depth,
        measurement_pages_5(v, p).style == p.style,
        all_params(measurement_from_5(v)),
{
    lemma_measurement_part_5(v, p, f);
    let q = measurement_page_5(v, p);
    lemma_measurement_shown_6(v, q, f);
    lemma_shows_join(p, q, measurement_pages_6(v, q), measurement_part_5(v), measurement_from_6(v));
    lemma_all_params_join(measurement_part_5(v), measurement_from_6(v));
}

proof fn lemma_measurement_shown_4(v: MeasurementView, p: Page, f: Setting)
    requires
        Measurement::fits(v, f),
        indents_by_blanks(p),
    ensures
        shows(p, measurement_pages_4(v, p), measurement_from_4(v)),
        measurement_pages_4(v, p).depth == p.depth,
        measurement_pages_4(v, p).style == p.style,
        all_params(measurement_from_4(v)),
{
    lemma_measurement_part_4(v, p, f);
    let q = measurement_page_4(v, p);
    lemma_measurement_shown_5(v, q, f);
    lemma_shows_join(p, q, measurement_pages_5(v, q), measurement_part_4(v), measurement_from_5(v));
    lemma_all_params_join(measurement_part_4(v), measurement_from_5(v));
}

proof fn lemma_measurement_shown_3(v: MeasurementView, p: Page, f: Setting)
    requires
        Measurement::fits(v, f),
        indents_by_blanks(p),
    ensures
        shows(p, measurement_pages_3(v, p), measurement_from_3(v)),
        measurement_pages_3(v, p).depth == p.depth,
        measurement_pages_3(v, p).style == p.style,
        all_params(measurement_from_3(v)),
{
    lemma_measurement_part_3(v, p, f);
    let q = measurement_page_3(v, p);
    lemma_measurement_shown_4(v, q, f);
    lemma_shows_join(p, q, measurement_pages_4(v, q), measurement_part_3(v), measurement_from_4(v));
    lemma_all_params_join(measurement_part_3(v), measurement_from_4(v));
}

proof fn lemma_measurement_shown_2(v: MeasurementView, p: Page, f: Setting)
    requires
        Measurement::fits(v, f),
        indents_by_blanks(p),
    ensures
        shows(p, measurement_pages_2(v, p), measurement_from_2(v)),
        measurement_pages_2(v, p).depth == p.depth,
        measurement_pages_2(v, p).style == p.style,
        all_params(measurement_from_2(v)),
{
    lemma_measurement_part_2(v, p, f);
    let q = measurement_page_2(v, p);
    lemma_measurement_shown_3(v, q, f);
    lemma_shows_join(p, q, measurement_pages_3(v, q), measurement_part_2(v), measurement_from_3(v));
    lemma_all_params_join(measurement_part_2(v), measurement_from_3(v));
}

proof fn lemma_measurement_shown_1(v: MeasurementView, p: Page, f: Setting)
    requires
        Measurement::fits(v, f),
        indents_by_blanks(p),
    ensures
        shows(p, measurement_pages_1(v, p), measurement_from_1(v)),
        measurement_pages_1(v, p).depth == p.depth,
        measurement_pages_1(v, p).style == p.style,
        all_params(measurement_from_1(v)),
{
    lemma_measurement_part_1(v, p, f);
    let q = measurement_page_1(v, p);
    lemma_measurement_shown_2(v, q, f);
    lemma_shows_join(p, q, measurement_pages_2(v, q), measurement_part_1(v), measurement_from_2(v));
    lemma_all_params_join(measurement_part_1(v), measurement_from_2(v));
}

proof fn lemma_measurement_shown_0(v: MeasurementView, p: Page, f: Setting)
    requires
        Measurement::fits(v, f),
        indents_by_blanks(p),
    ensures
        shows(p, measurement_pages_0(v, p), measurement_from_0(v)),
        measurement_pages_0(v, p).depth == p.depth,
        measurement_pages_0(v, p).style == p.style,
        all_params(measurement_from_0(v)),
{
    lemma_measurement_part_0(v, p, f);
    let q = measurement_page_0(v, p);
    lemma_measurement_shown_1(v, q, f);
    lemma_shows_join(p, q, measurement_pages_1(v, q), measurement_part_0(v), measurement_from_1(v));
    lemma_all_params_join(measurement_part_0(v), measurement_from_1(v));
}

/// What is written for the parameters at the start.
#[verifier::opaque]
pub open spec fn measurement_opening(v: MeasurementView, p0: Page) -> Page {
    let p1 = match v.named.description { Some(x) => p0.quote_line(x), None => p0.quote_line(""@) };
    let p2 = p1.line(word_or(v.data_type.word(), "Unsupported"@));
    let p3 = p2.line(v.conv.conversion);
    let p4 = p3.line(dec_int(v.resolution as int) + " "@ + v.accuracy.text);
    let p5 = p4.line(v.conv.lower_limit.text + " "@ + v.conv.upper_limit.text);
    p5
}

proof fn lemma_measurement_opening(v: MeasurementView, p0: Page, f: Setting)
    requires
        Measurement::fits(v, f),
        indents_by_blanks(p0),
    ensures
        shows(
            p0,
            measurement_opening(v, p0),
            seq![
                string(escaped(v.named.description->Some_0)),
                plain(v.data_type.word()->Some_0),
                plain(v.conv.conversion),
                plain(dec_int(v.resolution as int)),
                plain(v.accuracy.text),
                plain(v.conv.lower_limit.text),
                plain(v.conv.upper_limit.text)
            ]
        ),
        measurement_opening(v, p0).depth == p0.depth,
        measurement_opening(v, p0).style == p0.style,
        all_params(measurement_head(v)),
{
    reveal(measurement_opening);
    lemma_shows_nothing(p0);
    let x0 = Seq::<Tok>::empty();
    let p1 = match v.named.description { Some(x) => p0.quote_line(x), None => p0.quote_line(""@) };
    assert(
        shows(
            p0,
            p1,
            seq![string(escaped(v.named.description->Some_0))]
        ) && p1.depth == p0.depth && p1.style == p0.style
    ) by {
        let p = p0;
        lemma_shows_quote_line(p, v.named.description->Some_0);
    }
    lemma_shows_join(p0, p0, p1, x0, seq![string(escaped(v.named.description->Some_0))]);
    let x1 = x0 + seq![string(escaped(v.named.description->Some_0))];
    let p2 = p1.line(word_or(v.data_type.word(), "Unsupported"@));
    assert(
        shows(
            p1,
            p2,
            seq![plain(v.data_type.word()->Some_0)]
        ) && p2.depth == p1.depth && p2.style == p1.style
    ) by {
        let p = p1;
        v.data_type.lemma_word();
        lemma_shows_word_line(p, v.data_type.word()->Some_0);
    }
    lemma_shows_join(p0, p1, p2, x1, seq![plain(v.data_type.word()->Some_0)]);
    let x2 = x1 + seq![plain(v.data_type.word()->Some_0)];
    let p3 = p2.line(v.conv.conversion);
    assert(shows(p2, p3, seq![plain(v.conv.conversion)]) && p3.depth == p2.depth && p3.style == p2.style) by {
        let p = p2;
        lemma_shows_word_line(p, v.conv.conversion);
    }
    lemma_shows_join(p0, p2, p3, x2, seq![plain(v.conv.conversion)]);
    let x3 = x2 + seq![plain(v.conv.conversion)];
    let p4 = p3.line(dec_int(v.resolution as int) + " "@ + v.accuracy.text);
    assert(
        shows(
            p3,
            p4,
            seq![plain(dec_int(v.resolution as int)), plain(v.accuracy.text)]
        ) && p4.depth == p3.depth && p4.style == p3.style
    ) by {
        let p = p3;
        lemma_dec_param(v.resolution as int);
        lemma_spells_pair(dec_int(v.resolution as int), v.accuracy.text);
        lemma_shows_line(
            p,
            dec_int(v.resolution as int) + " "@ + v.accuracy.text,
            seq![plain(dec_int(v.resolution as int)), plain(v.accuracy.text)]
        );
    }
    lemma_shows_join(p0, p3, p4, x3, seq![plain(dec_int(v.resolution as int)), plain(v.accuracy.text)]);
    let x4 = x3 + seq![plain(dec_int(v.resolution as int)), plain(v.accuracy.text)];
    let p5 = p4.line(v.conv.lower_limit.text + " "@ + v.conv.upper_limit.text);
    assert(
        shows(
            p4,
            p5,
            seq![plain(v.conv.lower_limit.text), plain(v.conv.upper_limit.text)]
        ) && p5.depth == p4.depth && p5.style == p4.style
    ) by {
        let p = p4;
        lemma_spells_pair(v.conv.lower_limit.text, v.conv.upper_limit.text);
        lemma_shows_line(
            p,
            v.conv.lower_limit.text + " "@ + v.conv.upper_limit.text,
            seq![plain(v.conv.lower_limit.text), plain(v.conv.upper_limit.text)]
        );
    }
    lemma_shows_join(p0, p4, p5, x4, seq![plain(v.conv.lower_limit.text), plain(v.conv.upper_limit.text)]);
    let x5 = x4 + seq![plain(v.conv.lower_limit.text), plain(v.conv.upper_limit.text)];
    assert(
        x5 =~= seq![
            string(escaped(v.named.description->Some_0)),
            plain(v.data_type.word()->Some_0),
            plain(v.conv.conversion),
            plain(dec_int(v.resolution as int)),
            plain(v.accuracy.text),
            plain(v.conv.lower_limit.text),
            plain(v.conv.upper_limit.text)
        ]
    );
    lemma_string_param(v.named.description->Some_0);
    v.data_type.lemma_word();
    lemma_dec_param(v.resolution as int);
}

proof fn lemma_measurement_addr(v: MeasurementView, q: Page, f: Setting)
    requires
        Measurement::fits(v, f),
    ensures
        AddressFields::written(v.addr, q) == measurement_page_5(
            v,
            measurement_page_4(
                v,
                measurement_page_3(
                    v,
                    measurement_page_2(v, measurement_page_1(v, measurement_page_0(v, q)))
                )
            )
        ),
{
    reveal(measurement_page_0);
    reveal(measurement_page_1);
    reveal(measurement_page_2);
    reveal(measurement_page_3);
    reveal(measurement_page_4);
    reveal(measurement_page_5);
}

proof fn lemma_measurement_conv(v: MeasurementView, q: Page, f: Setting)
    requires
        Measurement::fits(v, f),
    ensures
        ConversionRefFields::written(v.conv, q) == measurement_page_9(
            v,
            measurement_page_8(v, measurement_page_7(v, measurement_page_6(v, q)))
        ),
{
    reveal(measurement_page_6);
    reveal(measurement_page_7);
    reveal(measurement_page_8);
    reveal(measurement_page_9);
}

proof fn lemma_measurement_body(v: MeasurementView, p: Page, f: Setting)
    requires
        Measurement::fits(v, f),
    ensures
        Measurement::body(v, p) == children_written::<MeasurementChild>(
            v.children,
            0,
            false,
            measurement_pages_0(v, measurement_opening(v, p))
        ),
{
    reveal(measurement_opening);
    let q0 = measurement_opening(v, p);
    lemma_measurement_addr(v, q0, f);
    let q1 = measurement_page_0(v, q0);
    let q2 = measurement_page_1(v, q1);
    let q3 = measurement_page_2(v, q2);
    let q4 = measurement_page_3(v, q3);
    let q5 = measurement_page_4(v, q4);
    let q6 = measurement_page_5(v, q5);
    lemma_measurement_conv(v, q6, f);
    let q7 = measurement_page_6(v, q6);
    let q8 = measurement_page_7(v, q7);
    let q9 = measurement_page_8(v, q8);
    let q10 = measurement_page_9(v, q9);
    let q11 = match v.layout.word() { Some(kw) => q10.word("LAYOUT"@, kw), None => q10 };
    assert(q11 == measurement_page_10(v, q10)) by {
        reveal(measurement_page_10);
    }
    let q12 = match v.addr.address { Some(x) => q11.word("ECU_ADDRESS"@, hex_form(x as nat)), None => q11 };
    assert(q12 == measurement_page_11(v, q11)) by {
        reveal(measurement_page_11);
    }
    let q13 = match v.bit_mask { Some(x) => q12.word("BIT_MASK"@, hex_form(x as nat)), None => q12 };
    assert(q13 == measurement_page_12(v, q12)) by {
        reveal(measurement_page_12);
    }
    let q14 = match v.error_mask { Some(x) => q13.word("ERROR_MASK"@, hex_form(x as nat)), None => q13 };
    assert(q14 == measurement_page_13(v, q13)) by {
        reveal(measurement_page_13);
    }
    let q15 = if v.discrete { q14.line("DISCRETE"@) } else { q14 };
    assert(q15 == measurement_page_14(v, q14)) by {
        reveal(measurement_page_14);
    }
    let q16 = if v.read_write { q15.line("READ_WRITE"@) } else { q15 };
    assert(q16 == measurement_page_15(v, q15)) by {
        reveal(measurement_page_15);
    }
    let q17 = match v.matrix_dim { Some(x) => q16.word("MATRIX_DIM"@, listed(x)), None => q16 };
    assert(q17 == measurement_page_16(v, q16)) by {
        reveal(measurement_page_16);
    }
    let q18 = if v.addr_type != AddrType::DIRECT {
        match v.addr_type.word() { Some(kw) => q17.word("ADDRESS_TYPE"@, kw), None => q17 }
    } else { q17 };
    assert(q18 == measurement_page_17(v, q17)) by {
        reveal(measurement_page_17);
    }
}

proof fn lemma_measurement_head(v: MeasurementView, c: Cur, f: Setting)
    requires
        Measurement::fits(v, f),
        tokens_at(c.toks, c.pos, measurement_head(v)),
        toks_numbered(c.toks, f),
    ensures
        Measurement::head(c) == Ok::<(MeasurementView, Cur), Failure>(
            (
                MeasurementView {
                    addr: AddressFieldsView {
                        address_extension: None,
                        display_name: None,
                        calib_access: CalibrationAccess::NotSet,
                        max_refresh_unit: None,
                        max_refresh_rate: 0,
                        symbol_link: None,
                        symbol_offset: 0,
                        model_link: None,
                        address: None
                    },
                    conv: ConversionRefFieldsView {
                        format: None,
                        phys_unit: None,
                        byte_order: ByteOrder::NotSet,
                        memory_segment_ref: None,
                        ..v.conv
                    },
                    layout: IndexMode::NotSet,
                    bit_mask: None,
                    error_mask: None,
                    discrete: false,
                    read_write: false,
                    matrix_dim: None,
                    addr_type: AddrType::DIRECT,
                    children: Seq::empty(),
                    ..v
                },
                Cur { pos: c.pos + 8, ..c }
            ),
        ),
{
    law_unescaped_of_escaped(v.named.description->Some_0);
    v.data_type.law_named_of_word();
    law_integer_of_dec(v.resolution as int);
    assert(bare(c.toks[c.pos + 0]) == measurement_head(v)[0]);
    assert(bare(c.toks[c.pos + 1]) == measurement_head(v)[1]);
    assert(bare(c.toks[c.pos + 2]) == measurement_head(v)[2]);
    assert(bare(c.toks[c.pos + 3]) == measurement_head(v)[3]);
    assert(bare(c.toks[c.pos + 4]) == measurement_head(v)[4]);
    assert(bare(c.toks[c.pos + 5]) == measurement_head(v)[5]);
    assert(bare(c.toks[c.pos + 6]) == measurement_head(v)[6]);
    assert(bare(c.toks[c.pos + 7]) == measurement_head(v)[7]);
}

proof fn lemma_measurement_step_0(w: MeasurementPartsView, v: MeasurementView, c: Cur, f: Setting)
    requires
        Measurement::fits(v, f),
        v.addr.address_extension is Some,
        tokens_at(
            c.toks,
            c.pos,
            seq![
                plain("ECU_ADDRESS_EXTENSION"@),
                plain(dec_int(v.addr.address_extension->Some_0 as int))
            ]
        ),
        toks_numbered(c.toks, f),
    ensures
        MeasurementParts::option(w, c) == Ok::<(MeasurementPartsView, Cur), Failure>(
            (
                MeasurementPartsView {
                    node: MeasurementView {
                        addr: AddressFieldsView {
                            address_extension: v.addr.address_extension,
                            ..w.node.addr
                        },
                        ..w.node
                    },
                    ..w
                },
                Cur { pos: c.pos + 2, ..c }
            ),
        ),
{
    reveal_strlit("ECU_ADDRESS_EXTENSION");
    reveal_strlit("ECU_ADDRESS");
    lemma_differ("ECU_ADDRESS_EXTENSION"@, "ECU_ADDRESS"@, 0);
    reveal_strlit("LAYOUT");
    lemma_differ("ECU_ADDRESS_EXTENSION"@, "LAYOUT"@, 0);
    reveal_strlit("BIT_MASK");
    lemma_differ("ECU_ADDRESS_EXTENSION"@, "BIT_MASK"@, 0);
    reveal_strlit("ERROR_MASK");
    lemma_differ("ECU_ADDRESS_EXTENSION"@, "ERROR_MASK"@, 0);
    reveal_strlit("DISCRETE");
    lemma_differ("ECU_ADDRESS_EXTENSION"@, "DISCRETE"@, 0);
    reveal_strlit("READ_WRITE");
    lemma_differ("ECU_ADDRESS_EXTENSION"@, "READ_WRITE"@, 0);
    reveal_strlit("ARRAY_SIZE");
    lemma_differ("ECU_ADDRESS_EXTENSION"@, "ARRAY_SIZE"@, 0);
    reveal_strlit("MATRIX_DIM");
    lemma_differ("ECU_ADDRESS_EXTENSION"@, "MATRIX_DIM"@, 0);
    reveal_strlit("ADDRESS_TYPE");
    lemma_differ("ECU_ADDRESS_EXTENSION"@, "ADDRESS_TYPE"@, 0);
    lemma_same("ECU_ADDRESS_EXTENSION"@);
    assert(
        bare(c.toks[c.pos + 0]) == (
            seq![
                plain("ECU_ADDRESS_EXTENSION"@),
                plain(dec_int(v.addr.address_extension->Some_0 as int))
            ]
        )[0]
    );
    assert(
        bare(c.toks[c.pos + 1]) == (
            seq![
                plain("ECU_ADDRESS_EXTENSION"@),
                plain(dec_int(v.addr.address_extension->Some_0 as int))
            ]
        )[1]
    );
    law_integer_of_dec(v.addr.address_extension->Some_0 as int);
}

proof fn lemma_measurement_step_1(w: MeasurementPartsView, v: MeasurementView, c: Cur, f: Setting)
    requires
        Measurement::fits(v, f),
        v.addr.display_name is Some,
        tokens_at(c.toks, c.pos, seq![plain("DISPLAY_IDENTIFIER"@), plain(v.addr.display_name->Some_0)]),
        toks_numbered(c.toks, f),
    ensures
        MeasurementParts::option(w, c) == Ok::<(MeasurementPartsView, Cur), Failure>(
            (
                MeasurementPartsView {
                    node: MeasurementView {
                        addr: AddressFieldsView {
                            display_name: v.addr.display_name,
                            ..w.node.addr
                        },
                        ..w.node
                    },
                    ..w
                },
                Cur { pos: c.pos + 2, ..c }
            ),
        ),
{
    reveal_strlit("DISPLAY_IDENTIFIER");
    reveal_strlit("ECU_ADDRESS");
    lemma_differ("DISPLAY_IDENTIFIER"@, "ECU_ADDRESS"@, 0);
    reveal_strlit("LAYOUT");
    lemma_differ("DISPLAY_IDENTIFIER"@, "LAYOUT"@, 0);
    reveal_strlit("BIT_MASK");
    lemma_differ("DISPLAY_IDENTIFIER"@, "BIT_MASK"@, 0);
    reveal_strlit("ERROR_MASK");
    lemma_differ("DISPLAY_IDENTIFIER"@, "ERROR_MASK"@, 0);
    reveal_strlit("DISCRETE");
    lemma_differ("DISPLAY_IDENTIFIER"@, "DISCRETE"@, 0);
    reveal_strlit("READ_WRITE");
    lemma_differ("DISPLAY_IDENTIFIER"@, "READ_WRITE"@, 0);
    reveal_strlit("ARRAY_SIZE");
    lemma_differ("DISPLAY_IDENTIFIER"@, "ARRAY_SIZE"@, 0);
    reveal_strlit("MATRIX_DIM");
    lemma_differ("DISPLAY_IDENTIFIER"@, "MATRIX_DIM"@, 0);
    reveal_strlit("ADDRESS_TYPE");
    lemma_differ("DISPLAY_IDENTIFIER"@, "ADDRESS_TYPE"@, 0);
    reveal_strlit("ECU_ADDRESS_EXTENSION");
    lemma_differ("DISPLAY_IDENTIFIER"@, "ECU_ADDRESS_EXTENSION"@, 0);
    lemma_same("DISPLAY_IDENTIFIER"@);
    assert(bare(c.toks[c.pos + 0]) == (seq![plain("DISPLAY_IDENTIFIER"@), plain(v.addr.display_name->Some_0)])[0]);
    assert(bare(c.toks[c.pos + 1]) == (seq![plain("DISPLAY_IDENTIFIER"@), plain(v.addr.display_name->Some_0)])[1]);
    
}

proof fn lemma_measurement_step_2(w: MeasurementPartsView, v: MeasurementView, c: Cur, f: Setting)
    requires
        Measurement::fits(v, f),
        v.addr.calib_access.word() is Some,
        tokens_at(c.toks, c.pos, seq![plain("CALIBRATION_ACCESS"@), plain(v.addr.calib_access.word()->Some_0)]),
        toks_numbered(c.toks, f),
    ensures
        MeasurementParts::option(w, c) == Ok::<(MeasurementPartsView, Cur), Failure>(
            (
                MeasurementPartsView {
                    node: MeasurementView {
                        addr: AddressFieldsView {
                            calib_access: v.addr.calib_access,
                            ..w.node.addr
                        },
                        ..w.node
                    },
                    ..w
                },
                Cur { pos: c.pos + 2, ..c }
            ),
        ),
{
    reveal_strlit("CALIBRATION_ACCESS");
    reveal_strlit("ECU_ADDRESS");
    lemma_differ("CALIBRATION_ACCESS"@, "ECU_ADDRESS"@, 0);
    reveal_strlit("LAYOUT");
    lemma_differ("CALIBRATION_ACCESS"@, "LAYOUT"@, 0);
    reveal_strlit("BIT_MASK");
    lemma_differ("CALIBRATION_ACCESS"@, "BIT_MASK"@, 0);
    reveal_strlit("ERROR_MASK");
    lemma_differ("CALIBRATION_ACCESS"@, "ERROR_MASK"@, 0);
    reveal_strlit("DISCRETE");
    lemma_differ("CALIBRATION_ACCESS"@, "DISCRETE"@, 0);
    reveal_strlit("READ_WRITE");
    lemma_differ("CALIBRATION_ACCESS"@, "READ_WRITE"@, 0);
    reveal_strlit("ARRAY_SIZE");
    lemma_differ("CALIBRATION_ACCESS"@, "ARRAY_SIZE"@, 0);
    reveal_strlit("MATRIX_DIM");
    lemma_differ("CALIBRATION_ACCESS"@, "MATRIX_DIM"@, 0);
    reveal_strlit("ADDRESS_TYPE");
    lemma_differ("CALIBRATION_ACCESS"@, "ADDRESS_TYPE"@, 0);
    reveal_strlit("ECU_ADDRESS_EXTENSION");
    lemma_differ("CALIBRATION_ACCESS"@, "ECU_ADDRESS_EXTENSION"@, 0);
    reveal_strlit("DISPLAY_IDENTIFIER");
    lemma_differ("CALIBRATION_ACCESS"@, "DISPLAY_IDENTIFIER"@, 0);
    lemma_same("CALIBRATION_ACCESS"@);
    assert(
        bare(c.toks[c.pos + 0]) == (
            seq![plain("CALIBRATION_ACCESS"@), plain(v.addr.calib_access.word()->Some_0)]
        )[0]
    );
    assert(
        bare(c.toks[c.pos + 1]) == (
            seq![plain("CALIBRATION_ACCESS"@), plain(v.addr.calib_access.word()->Some_0)]
        )[1]
    );
    v.addr.calib_access.law_named_of_word();
    v.addr.calib_access.lemma_word();
}

proof fn lemma_measurement_step_3(w: MeasurementPartsView, v: MeasurementView, c: Cur, f: Setting)
    requires
        Measurement::fits(v, f),
        v.addr.max_refresh_unit is Some,
        tokens_at(
            c.toks,
            c.pos,
            seq![
                plain("MAX_REFRESH"@),
                plain(dec(v.addr.max_refresh_unit->Some_0.number() as nat)),
                plain(dec_int(v.addr.max_refresh_rate as int))
            ]
        ),
        toks_numbered(c.toks, f),
    ensures
        MeasurementParts::option(w, c) == Ok::<(MeasurementPartsView, Cur), Failure>(
            (
                MeasurementPartsView {
                    node: MeasurementView {
                        addr: AddressFieldsView {
                            max_refresh_unit: v.addr.max_refresh_unit,
                            max_refresh_rate: v.addr.max_refresh_rate,
                            ..w.node.addr
                        },
                        ..w.node
                    },
                    ..w
                },
                Cur { pos: c.pos + 3, ..c }
            ),
        ),
{
    reveal_strlit("MAX_REFRESH");
    reveal_strlit("ECU_ADDRESS");
    lemma_differ("MAX_REFRESH"@, "ECU_ADDRESS"@, 0);
    reveal_strlit("LAYOUT");
    lemma_differ("MAX_REFRESH"@, "LAYOUT"@, 0);
    reveal_strlit("BIT_MASK");
    lemma_differ("MAX_REFRESH"@, "BIT_MASK"@, 0);
    reveal_strlit("ERROR_MASK");
    lemma_differ("MAX_REFRESH"@, "ERROR_MASK"@, 0);
    reveal_strlit("DISCRETE");
    lemma_differ("MAX_REFRESH"@, "DISCRETE"@, 0);
    reveal_strlit("READ_WRITE");
    lemma_differ("MAX_REFRESH"@, "READ_WRITE"@, 0);
    reveal_strlit("ARRAY_SIZE");
    lemma_differ("MAX_REFRESH"@, "ARRAY_SIZE"@, 0);
    reveal_strlit("MATRIX_DIM");
    lemma_differ("MAX_REFRESH"@, "MATRIX_DIM"@, 0);
    reveal_strlit("ADDRESS_TYPE");
    lemma_differ("MAX_REFRESH"@, "ADDRESS_TYPE"@, 0);
    reveal_strlit("ECU_ADDRESS_EXTENSION");
    lemma_differ("MAX_REFRESH"@, "ECU_ADDRESS_EXTENSION"@, 0);
    reveal_strlit("DISPLAY_IDENTIFIER");
    lemma_differ("MAX_REFRESH"@, "DISPLAY_IDENTIFIER"@, 0);
    reveal_strlit("CALIBRATION_ACCESS");
    lemma_differ("MAX_REFRESH"@, "CALIBRATION_ACCESS"@, 0);
    lemma_same("MAX_REFRESH"@);
    assert(
        bare(c.toks[c.pos + 0]) == (
            seq![
                plain("MAX_REFRESH"@),
                plain(dec(v.addr.max_refresh_unit->Some_0.number() as nat)),
                plain(dec_int(v.addr.max_refresh_rate as int))
            ]
        )[0]
    );
    assert(
        bare(c.toks[c.pos + 1]) == (
            seq![
                plain("MAX_REFRESH"@),
                plain(dec(v.addr.max_refresh_unit->Some_0.number() as nat)),
                plain(dec_int(v.addr.max_refresh_rate as int))
            ]
        )[1]
    );
    assert(
        bare(c.toks[c.pos + 2]) == (
            seq![
                plain("MAX_REFRESH"@),
                plain(dec(v.addr.max_refresh_unit->Some_0.number() as nat)),
                plain(dec_int(v.addr.max_refresh_rate as int))
            ]
        )[2]
    );
    law_integer_of_dec(v.addr.max_refresh_unit->Some_0.number() as int);
    law_integer_of_dec(v.addr.max_refresh_rate as int);
    lemma_refresh_found(v.addr.max_refresh_unit->Some_0);
}

proof fn lemma_measurement_step_4(w: MeasurementPartsView, v: MeasurementView, c: Cur, f: Setting)
    requires
        Measurement::fits(v, f),
        v.addr.symbol_link is Some,
        tokens_at(
            c.toks,
            c.pos,
            seq![
                plain("SYMBOL_LINK"@),
                string(v.addr.symbol_link->Some_0),
                plain(dec_int(v.addr.symbol_offset as int))
            ]
        ),
        toks_numbered(c.toks, f),
    ensures
        MeasurementParts::option(w, c) == Ok::<(MeasurementPartsView, Cur), Failure>(
            (
                MeasurementPartsView {
                    node: MeasurementView {
                        addr: AddressFieldsView {
                            symbol_link: v.addr.symbol_link,
                            symbol_offset: v.addr.symbol_offset,
                            ..w.node.addr
                        },
                        ..w.node
                    },
                    ..w
                },
                Cur { pos: c.pos + 3, ..c }
            ),
        ),
{
    reveal_strlit("SYMBOL_LINK");
    reveal_strlit("ECU_ADDRESS");
    lemma_differ("SYMBOL_LINK"@, "ECU_ADDRESS"@, 0);
    reveal_strlit("LAYOUT");
    lemma_differ("SYMBOL_LINK"@, "LAYOUT"@, 0);
    reveal_strlit("BIT_MASK");
    lemma_differ("SYMBOL_LINK"@, "BIT_MASK"@, 0);
    reveal_strlit("ERROR_MASK");
    lemma_differ("SYMBOL_LINK"@, "ERROR_MASK"@, 0);
    reveal_strlit("DISCRETE");
    lemma_differ("SYMBOL_LINK"@, "DISCRETE"@, 0);
    reveal_strlit("READ_WRITE");
    lemma_differ("SYMBOL_LINK"@, "READ_WRITE"@, 0);
    reveal_strlit("ARRAY_SIZE");
    lemma_differ("SYMBOL_LINK"@, "ARRAY_SIZE"@, 0);
    reveal_strlit("MATRIX_DIM");
    lemma_differ("SYMBOL_LINK"@, "MATRIX_DIM"@, 0);
    reveal_strlit("ADDRESS_TYPE");
    lemma_differ("SYMBOL_LINK"@, "ADDRESS_TYPE"@, 0);
    reveal_strlit("ECU_ADDRESS_EXTENSION");
    lemma_differ("SYMBOL_LINK"@, "ECU_ADDRESS_EXTENSION"@, 0);
    reveal_strlit("DISPLAY_IDENTIFIER");
    lemma_differ("SYMBOL_LINK"@, "DISPLAY_IDENTIFIER"@, 0);
    reveal_strlit("CALIBRATION_ACCESS");
    lemma_differ("SYMBOL_LINK"@, "CALIBRATION_ACCESS"@, 0);
    reveal_strlit("MAX_REFRESH");
    lemma_differ("SYMBOL_LINK"@, "MAX_REFRESH"@, 0);
    lemma_same("SYMBOL_LINK"@);
    assert(
        bare(c.toks[c.pos + 0]) == (
            seq![
                plain("SYMBOL_LINK"@),
                string(v.addr.symbol_link->Some_0),
                plain(dec_int(v.addr.symbol_offset as int))
            ]
        )[0]
    );
    assert(
        bare(c.toks[c.pos + 1]) == (
            seq![
                plain("SYMBOL_LINK"@),
                string(v.addr.symbol_link->Some_0),
                plain(dec_int(v.addr.symbol_offset as int))
            ]
        )[1]
    );
    assert(
        bare(c.toks[c.pos + 2]) == (
            seq![
                plain("SYMBOL_LINK"@),
                string(v.addr.symbol_link->Some_0),
                plain(dec_int(v.addr.symbol_offset as int))
            ]
        )[2]
    );
    law_integer_of_dec(v.addr.symbol_offset as int);
}

proof fn lemma_measurement_step_5(w: MeasurementPartsView, v: MeasurementView, c: Cur, f: Setting)
    requires
        Measurement::fits(v, f),
        v.addr.model_link is Some,
        tokens_at(c.toks, c.pos, seq![plain("MODEL_LINK"@), string(escaped(v.addr.model_link->Some_0))]),
        toks_numbered(c.toks, f),
    ensures
        MeasurementParts::option(w, c) == Ok::<(MeasurementPartsView, Cur), Failure>(
            (
                MeasurementPartsView {
                    node: MeasurementView {
                        addr: AddressFieldsView { model_link: v.addr.model_link, ..w.node.addr },
                        ..w.node
                    },
                    ..w
                },
                Cur { pos: c.pos + 2, ..c }
            ),
        ),
{
    reveal_strlit("MODEL_LINK");
    reveal_strlit("ECU_ADDRESS");
    lemma_differ("MODEL_LINK"@, "ECU_ADDRESS"@, 0);
    reveal_strlit("LAYOUT");
    lemma_differ("MODEL_LINK"@, "LAYOUT"@, 0);
    reveal_strlit("BIT_MASK");
    lemma_differ("MODEL_LINK"@, "BIT_MASK"@, 0);
    reveal_strlit("ERROR_MASK");
    lemma_differ("MODEL_LINK"@, "ERROR_MASK"@, 0);
    reveal_strlit("DISCRETE");
    lemma_differ("MODEL_LINK"@, "DISCRETE"@, 0);
    reveal_strlit("READ_WRITE");
    lemma_differ("MODEL_LINK"@, "READ_WRITE"@, 0);
    reveal_strlit("ARRAY_SIZE");
    lemma_differ("MODEL_LINK"@, "ARRAY_SIZE"@, 0);
    reveal_strlit("MATRIX_DIM");
    lemma_differ("MODEL_LINK"@, "MATRIX_DIM"@, 1);
    reveal_strlit("ADDRESS_TYPE");
    lemma_differ("MODEL_LINK"@, "ADDRESS_TYPE"@, 0);
    reveal_strlit("ECU_ADDRESS_EXTENSION");
    lemma_differ("MODEL_LINK"@, "ECU_ADDRESS_EXTENSION"@, 0);
    reveal_strlit("DISPLAY_IDENTIFIER");
    lemma_differ("MODEL_LINK"@, "DISPLAY_IDENTIFIER"@, 0);
    reveal_strlit("CALIBRATION_ACCESS");
    lemma_differ("MODEL_LINK"@, "CALIBRATION_ACCESS"@, 0);
    reveal_strlit("MAX_REFRESH");
    lemma_differ("MODEL_LINK"@, "MAX_REFRESH"@, 0);
    reveal_strlit("SYMBOL_LINK");
    lemma_differ("MODEL_LINK"@, "SYMBOL_LINK"@, 0);
    lemma_same("MODEL_LINK"@);
    assert(bare(c.toks[c.pos + 0]) == (seq![plain("MODEL_LINK"@), string(escaped(v.addr.model_link->Some_0))])[0]);
    assert(bare(c.toks[c.pos + 1]) == (seq![plain("MODEL_LINK"@), string(escaped(v.addr.model_link->Some_0))])[1]);
    law_unescaped_of_escaped(v.addr.model_link->Some_0);
}

proof fn lemma_measurement_step_6(w: MeasurementPartsView, v: MeasurementView, c: Cur, f: Setting)
    requires
        Measurement::fits(v, f),
        v.conv.format is Some,
        tokens_at(c.toks, c.pos, seq![plain("FORMAT"@), string(escaped(v.conv.format->Some_0))]),
        toks_numbered(c.toks, f),
    ensures
        MeasurementParts::option(w, c) == Ok::<(MeasurementPartsView, Cur), Failure>(
            (
                MeasurementPartsView {
                    node: MeasurementView {
                        conv: ConversionRefFieldsView { format: v.conv.format, ..w.node.conv },
                        ..w.node
                    },
                    ..w
                },
                Cur { pos: c.pos + 2, ..c }
            ),
        ),
{
    reveal_strlit("FORMAT");
    reveal_strlit("ECU_ADDRESS");
    lemma_differ("FORMAT"@, "ECU_ADDRESS"@, 0);
    reveal_strlit("LAYOUT");
    lemma_differ("FORMAT"@, "LAYOUT"@, 0);
    reveal_strlit("BIT_MASK");
    lemma_differ("FORMAT"@, "BIT_MASK"@, 0);
    reveal_strlit("ERROR_MASK");
    lemma_differ("FORMAT"@, "ERROR_MASK"@, 0);
    reveal_strlit("DISCRETE");
    lemma_differ("FORMAT"@, "DISCRETE"@, 0);
    reveal_strlit("READ_WRITE");
    lemma_differ("FORMAT"@, "READ_WRITE"@, 0);
    reveal_strlit("ARRAY_SIZE");
    lemma_differ("FORMAT"@, "ARRAY_SIZE"@, 0);
    reveal_strlit("MATRIX_DIM");
    lemma_differ("FORMAT"@, "MATRIX_DIM"@, 0);
    reveal_strlit("ADDRESS_TYPE");
    lemma_differ("FORMAT"@, "ADDRESS_TYPE"@, 0);
    reveal_strlit("ECU_ADDRESS_EXTENSION");
    lemma_differ("FORMAT"@, "ECU_ADDRESS_EXTENSION"@, 0);
    reveal_strlit("DISPLAY_IDENTIFIER");
    lemma_differ("FORMAT"@, "DISPLAY_IDENTIFIER"@, 0);
    reveal_strlit("CALIBRATION_ACCESS");
    lemma_differ("FORMAT"@, "CALIBRATION_ACCESS"@, 0);
    reveal_strlit("MAX_REFRESH");
    lemma_differ("FORMAT"@, "MAX_REFRESH"@, 0);
    reveal_strlit("SYMBOL_LINK");
    lemma_differ("FORMAT"@, "SYMBOL_LINK"@, 0);
    reveal_strlit("MODEL_LINK");
    lemma_differ("FORMAT"@, "MODEL_LINK"@, 0);
    lemma_same("FORMAT"@);
    assert(bare(c.toks[c.pos + 0]) == (seq![plain("FORMAT"@), string(escaped(v.conv.format->Some_0))])[0]);
    assert(bare(c.toks[c.pos + 1]) == (seq![plain("FORMAT"@), string(escaped(v.conv.format->Some_0))])[1]);
    law_unescaped_of_escaped(v.conv.format->Some_0);
}

proof fn lemma_measurement_step_7(w: MeasurementPartsView, v: MeasurementView, c: Cur, f: Setting)
    requires
        Measurement::fits(v, f),
        v.conv.phys_unit is Some,
        tokens_at(c.toks, c.pos, seq![plain("PHYS_UNIT"@), string(escaped(v.conv.phys_unit->Some_0))]),
        toks_numbered(c.toks, f),
    ensures
        MeasurementParts::option(w, c) == Ok::<(MeasurementPartsView, Cur), Failure>(
            (
                MeasurementPartsView {
                    node: MeasurementView {
                        conv: ConversionRefFieldsView {
                            phys_unit: v.conv.phys_unit,
                            ..w.node.conv
                        },
                        ..w.node
                    },
                    ..w
                },
                Cur { pos: c.pos + 2, ..c }
            ),
        ),
{
    reveal_strlit("PHYS_UNIT");
    reveal_strlit("ECU_ADDRESS");
    lemma_differ("PHYS_UNIT"@, "ECU_ADDRESS"@, 0);
    reveal_strlit("LAYOUT");
    lemma_differ("PHYS_UNIT"@, "LAYOUT"@, 0);
    reveal_strlit("BIT_MASK");
    lemma_differ("PHYS_UNIT"@, "BIT_MASK"@, 0);
    reveal_strlit("ERROR_MASK");
    lemma_differ("PHYS_UNIT"@, "ERROR_MASK"@, 0);
    reveal_strlit("DISCRETE");
    lemma_differ("PHYS_UNIT"@, "DISCRETE"@, 0);
    reveal_strlit("READ_WRITE");
    lemma_differ("PHYS_UNIT"@, "READ_WRITE"@, 0);
    reveal_strlit("ARRAY_SIZE");
    lemma_differ("PHYS_UNIT"@, "ARRAY_SIZE"@, 0);
    reveal_strlit("MATRIX_DIM");
    lemma_differ("PHYS_UNIT"@, "MATRIX_DIM"@, 0);
    reveal_strlit("ADDRESS_TYPE");
    lemma_differ("PHYS_UNIT"@, "ADDRESS_TYPE"@, 0);
    reveal_strlit("ECU_ADDRESS_EXTENSION");
    lemma_differ("PHYS_UNIT"@, "ECU_ADDRESS_EXTENSION"@, 0);
    reveal_strlit("DISPLAY_IDENTIFIER");
    lemma_differ("PHYS_UNIT"@, "DISPLAY_IDENTIFIER"@, 0);
    reveal_strlit("CALIBRATION_ACCESS");
    lemma_differ("PHYS_UNIT"@, "CALIBRATION_ACCESS"@, 0);
    reveal_strlit("MAX_REFRESH");
    lemma_differ("PHYS_UNIT"@, "MAX_REFRESH"@, 0);
    reveal_strlit("SYMBOL_LINK");
    lemma_differ("PHYS_UNIT"@, "SYMBOL_LINK"@, 0);
    reveal_strlit("MODEL_LINK");
    lemma_differ("PHYS_UNIT"@, "MODEL_LINK"@, 0);
    reveal_strlit("FORMAT");
    lemma_differ("PHYS_UNIT"@, "FORMAT"@, 0);
    lemma_same("PHYS_UNIT"@);
    assert(bare(c.toks[c.pos + 0]) == (seq![plain("PHYS_UNIT"@), string(escaped(v.conv.phys_unit->Some_0))])[0]);
    assert(bare(c.toks[c.pos + 1]) == (seq![plain("PHYS_UNIT"@), string(escaped(v.conv.phys_unit->Some_0))])[1]);
    law_unescaped_of_escaped(v.conv.phys_unit->Some_0);
}

proof fn lemma_measurement_step_8(w: MeasurementPartsView, v: MeasurementView, c: Cur, f: Setting)
    requires
        Measurement::fits(v, f),
        v.conv.byte_order.word() is Some,
        tokens_at(c.toks, c.pos, seq![plain("BYTE_ORDER"@), plain(v.conv.byte_order.word()->Some_0)]),
        toks_numbered(c.toks, f),
    ensures
        MeasurementParts::option(w, c) == Ok::<(MeasurementPartsView, Cur), Failure>(
            (
                MeasurementPartsView {
                    node: MeasurementView {
                        conv: ConversionRefFieldsView {
                            byte_order: v.conv.byte_order,
                            ..w.node.conv
                        },
                        ..w.node
                    },
                    ..w
                },
                Cur { pos: c.pos + 2, ..c }
            ),
        ),
{
    reveal_strlit("BYTE_ORDER");
    reveal_strlit("ECU_ADDRESS");
    lemma_differ("BYTE_ORDER"@, "ECU_ADDRESS"@, 0);
    reveal_strlit("LAYOUT");
    lemma_differ("BYTE_ORDER"@, "LAYOUT"@, 0);
    reveal_strlit("BIT_MASK");
    lemma_differ("BYTE_ORDER"@, "BIT_MASK"@, 0);
    reveal_strlit("ERROR_MASK");
    lemma_differ("BYTE_ORDER"@, "ERROR_MASK"@, 0);
    reveal_strlit("DISCRETE");
    lemma_differ("BYTE_ORDER"@, "DISCRETE"@, 0);
    reveal_strlit("READ_WRITE");
    lemma_differ("BYTE_ORDER"@, "READ_WRITE"@, 0);
    reveal_strlit("ARRAY_SIZE");
    lemma_differ("BYTE_ORDER"@, "ARRAY_SIZE"@, 0);
    reveal_strlit("MATRIX_DIM");
    lemma_differ("BYTE_ORDER"@, "MATRIX_DIM"@, 0);
    reveal_strlit("ADDRESS_TYPE");
    lemma_differ("BYTE_ORDER"@, "ADDRESS_TYPE"@, 0);
    reveal_strlit("ECU_ADDRESS_EXTENSION");
    lemma_differ("BYTE_ORDER"@, "ECU_ADDRESS_EXTENSION"@, 0);
    reveal_strlit("DISPLAY_IDENTIFIER");
    lemma_differ("BYTE_ORDER"@, "DISPLAY_IDENTIFIER"@, 0);
    reveal_strlit("CALIBRATION_ACCESS");
    lemma_differ("BYTE_ORDER"@, "CALIBRATION_ACCESS"@, 0);
    reveal_strlit("MAX_REFRESH");
    lemma_differ("BYTE_ORDER"@, "MAX_REFRESH"@, 0);
    reveal_strlit("SYMBOL_LINK");
    lemma_differ("BYTE_ORDER"@, "SYMBOL_LINK"@, 0);
    reveal_strlit("MODEL_LINK");
    lemma_differ("BYTE_ORDER"@, "MODEL_LINK"@, 0);
    reveal_strlit("FORMAT");
    lemma_differ("BYTE_ORDER"@, "FORMAT"@, 0);
    reveal_strlit("PHYS_UNIT");
    lemma_differ("BYTE_ORDER"@, "PHYS_UNIT"@, 0);
    lemma_same("BYTE_ORDER"@);
    assert(bare(c.toks[c.pos + 0]) == (seq![plain("BYTE_ORDER"@), plain(v.conv.byte_order.word()->Some_0)])[0]);
    assert(bare(c.toks[c.pos + 1]) == (seq![plain("BYTE_ORDER"@), plain(v.conv.byte_order.word()->Some_0)])[1]);
    v.conv.byte_order.law_named_of_word();
    v.conv.byte_order.lemma_word();
}

proof fn lemma_measurement_step_9(w: MeasurementPartsView, v: MeasurementView, c: Cur, f: Setting)
    requires
        Measurement::fits(v, f),
        v.conv.memory_segment_ref is Some,
        tokens_at(c.toks, c.pos, seq![plain("REF_MEMORY_SEGMENT"@), plain(v.conv.memory_segment_ref->Some_0)]),
        toks_numbered(c.toks, f),
    ensures
        MeasurementParts::option(w, c) == Ok::<(MeasurementPartsView, Cur), Failure>(
            (
                MeasurementPartsView {
                    node: MeasurementView {
                        conv: ConversionRefFieldsView {
                            memory_segment_ref: v.conv.memory_segment_ref,
                            ..w.node.conv
                        },
                        ..w.node
                    },
                    ..w
                },
                Cur { pos: c.pos + 2, ..c }
            ),
        ),
{
    reveal_strlit("REF_MEMORY_SEGMENT");
    reveal_strlit("ECU_ADDRESS");
    lemma_differ("REF_MEMORY_SEGMENT"@, "ECU_ADDRESS"@, 0);
    reveal_strlit("LAYOUT");
    lemma_differ("REF_MEMORY_SEGMENT"@, "LAYOUT"@, 0);
    reveal_strlit("BIT_MASK");
    lemma_differ("REF_MEMORY_SEGMENT"@, "BIT_MASK"@, 0);
    reveal_strlit("ERROR_MASK");
    lemma_differ("REF_MEMORY_SEGMENT"@, "ERROR_MASK"@, 0);
    reveal_strlit("DISCRETE");
    lemma_differ("REF_MEMORY_SEGMENT"@, "DISCRETE"@, 0);
    reveal_strlit("READ_WRITE");
    lemma_differ("REF_MEMORY_SEGMENT"@, "READ_WRITE"@, 0);
    reveal_strlit("ARRAY_SIZE");
    lemma_differ("REF_MEMORY_SEGMENT"@, "ARRAY_SIZE"@, 0);
    reveal_strlit("MATRIX_DIM");
    lemma_differ("REF_MEMORY_SEGMENT"@, "MATRIX_DIM"@, 0);
    reveal_strlit("ADDRESS_TYPE");
    lemma_differ("REF_MEMORY_SEGMENT"@, "ADDRESS_TYPE"@, 0);
    reveal_strlit("ECU_ADDRESS_EXTENSION");
    lemma_differ("REF_MEMORY_SEGMENT"@, "ECU_ADDRESS_EXTENSION"@, 0);
    reveal_strlit("DISPLAY_IDENTIFIER");
    lemma_differ("REF_MEMORY_SEGMENT"@, "DISPLAY_IDENTIFIER"@, 0);
    reveal_strlit("CALIBRATION_ACCESS");
    lemma_differ("REF_MEMORY_SEGMENT"@, "CALIBRATION_ACCESS"@, 0);
    reveal_strlit("MAX_REFRESH");
    lemma_differ("REF_MEMORY_SEGMENT"@, "MAX_REFRESH"@, 0);
    reveal_strlit("SYMBOL_LINK");
    lemma_differ("REF_MEMORY_SEGMENT"@, "SYMBOL_LINK"@, 0);
    reveal_strlit("MODEL_LINK");
    lemma_differ("REF_MEMORY_SEGMENT"@, "MODEL_LINK"@, 0);
    reveal_strlit("FORMAT");
    lemma_differ("REF_MEMORY_SEGMENT"@, "FORMAT"@, 0);
    reveal_strlit("PHYS_UNIT");
    lemma_differ("REF_MEMORY_SEGMENT"@, "PHYS_UNIT"@, 0);
    reveal_strlit("BYTE_ORDER");
    lemma_differ("REF_MEMORY_SEGMENT"@, "BYTE_ORDER"@, 0);
    lemma_same("REF_MEMORY_SEGMENT"@);
    assert(
        bare(c.toks[c.pos + 0]) == (
            seq![plain("REF_MEMORY_SEGMENT"@), plain(v.conv.memory_segment_ref->Some_0)]
        )[0]
    );
    assert(
        bare(c.toks[c.pos + 1]) == (
            seq![plain("REF_MEMORY_SEGMENT"@), plain(v.conv.memory_segment_ref->Some_0)]
        )[1]
    );
    
}

proof fn lemma_measurement_step_10(w: MeasurementPartsView, v: MeasurementView, c: Cur, f: Setting)
    requires
        Measurement::fits(v, f),
        v.layout.word() is Some,
        tokens_at(c.toks, c.pos, seq![plain("LAYOUT"@), plain(v.layout.word()->Some_0)]),
        toks_numbered(c.toks, f),
    ensures
        MeasurementParts::option(w, c) == Ok::<(MeasurementPartsView, Cur), Failure>(
            (
                MeasurementPartsView { node: MeasurementView { layout: v.layout, ..w.node }, ..w },
                Cur { pos: c.pos + 2, ..c }
            ),
        ),
{
    reveal_strlit("LAYOUT");
    reveal_strlit("ECU_ADDRESS");
    lemma_differ("LAYOUT"@, "ECU_ADDRESS"@, 0);
    lemma_same("LAYOUT"@);
    assert(bare(c.toks[c.pos + 0]) == (seq![plain("LAYOUT"@), plain(v.layout.word()->Some_0)])[0]);
    assert(bare(c.toks[c.pos + 1]) == (seq![plain("LAYOUT"@), plain(v.layout.word()->Some_0)])[1]);
    v.layout.law_named_of_word();
    v.layout.lemma_word();
}

proof fn lemma_measurement_step_11(w: MeasurementPartsView, v: MeasurementView, c: Cur, f: Setting)
    requires
        Measurement::fits(v, f),
        v.addr.address is Some,
        tokens_at(c.toks, c.pos, seq![plain("ECU_ADDRESS"@), plain(hex_form(v.addr.address->Some_0 as nat))]),
        toks_numbered(c.toks, f),
    ensures
        MeasurementParts::option(w, c) == Ok::<(MeasurementPartsView, Cur), Failure>(
            (
                MeasurementPartsView {
                    node: MeasurementView {
                        addr: AddressFieldsView { address: v.addr.address, ..w.node.addr },
                        ..w.node
                    },
                    ..w
                },
                Cur { pos: c.pos + 2, ..c }
            ),
        ),
{
    reveal_strlit("ECU_ADDRESS");
    lemma_same("ECU_ADDRESS"@);
    assert(
        bare(c.toks[c.pos + 0]) == (
            seq![plain("ECU_ADDRESS"@), plain(hex_form(v.addr.address->Some_0 as nat))]
        )[0]
    );
    assert(
        bare(c.toks[c.pos + 1]) == (
            seq![plain("ECU_ADDRESS"@), plain(hex_form(v.addr.address->Some_0 as nat))]
        )[1]
    );
    law_integer_of_hex(v.addr.address->Some_0 as nat);
}

proof fn lemma_measurement_step_12(w: MeasurementPartsView, v: MeasurementView, c: Cur, f: Setting)
    requires
        Measurement::fits(v, f),
        v.bit_mask is Some,
        tokens_at(c.toks, c.pos, seq![plain("BIT_MASK"@), plain(hex_form(v.bit_mask->Some_0 as nat))]),
        toks_numbered(c.toks, f),
    ensures
        MeasurementParts::option(w, c) == Ok::<(MeasurementPartsView, Cur), Failure>(
            (
                MeasurementPartsView {
                    node: MeasurementView { bit_mask: v.bit_mask, ..w.node },
                    ..w
                },
                Cur { pos: c.pos + 2, ..c }
            ),
        ),
{
    reveal_strlit("BIT_MASK");
    reveal_strlit("ECU_ADDRESS");
    lemma_differ("BIT_MASK"@, "ECU_ADDRESS"@, 0);
    reveal_strlit("LAYOUT");
    lemma_differ("BIT_MASK"@, "LAYOUT"@, 0);
    lemma_same("BIT_MASK"@);
    assert(bare(c.toks[c.pos + 0]) == (seq![plain("BIT_MASK"@), plain(hex_form(v.bit_mask->Some_0 as nat))])[0]);
    assert(bare(c.toks[c.pos + 1]) == (seq![plain("BIT_MASK"@), plain(hex_form(v.bit_mask->Some_0 as nat))])[1]);
    law_integer_of_hex(v.bit_mask->Some_0 as nat);
}

proof fn lemma_measurement_step_13(w: MeasurementPartsView, v: MeasurementView, c: Cur, f: Setting)
    requires
        Measurement::fits(v, f),
        v.error_mask is Some,
        tokens_at(c.toks, c.pos, seq![plain("ERROR_MASK"@), plain(hex_form(v.error_mask->Some_0 as nat))]),
        toks_numbered(c.toks, f),
    ensures
        MeasurementParts::option(w, c) == Ok::<(MeasurementPartsView, Cur), Failure>(
            (
                MeasurementPartsView {
                    node: MeasurementView { error_mask: v.error_mask, ..w.node },
                    ..w
                },
                Cur { pos: c.pos + 2, ..c }
            ),
        ),
{
    reveal_strlit("ERROR_MASK");
    reveal_strlit("ECU_ADDRESS");
    lemma_differ("ERROR_MASK"@, "ECU_ADDRESS"@, 0);
    reveal_strlit("LAYOUT");
    lemma_differ("ERROR_MASK"@, "LAYOUT"@, 0);
    reveal_strlit("BIT_MASK");
    lemma_differ("ERROR_MASK"@, "BIT_MASK"@, 0);
    lemma_same("ERROR_MASK"@);
    assert(
        bare(c.toks[c.pos + 0]) == (
            seq![plain("ERROR_MASK"@), plain(hex_form(v.error_mask->Some_0 as nat))]
        )[0]
    );
    assert(
        bare(c.toks[c.pos + 1]) == (
            seq![plain("ERROR_MASK"@), plain(hex_form(v.error_mask->Some_0 as nat))]
        )[1]
    );
    law_integer_of_hex(v.error_mask->Some_0 as nat);
}

proof fn lemma_measurement_step_14(w: MeasurementPartsView, v: MeasurementView, c: Cur, f: Setting)
    requires
        Measurement::fits(v, f),
        v.discrete,
        tokens_at(c.toks, c.pos, seq![plain("DISCRETE"@)]),
        toks_numbered(c.toks, f),
    ensures
        MeasurementParts::option(w, c) == Ok::<(MeasurementPartsView, Cur), Failure>(
            (
                MeasurementPartsView {
                    node: MeasurementView { discrete: v.discrete, ..w.node },
                    ..w
                },
                Cur { pos: c.pos + 1, ..c }
            ),
        ),
{
    reveal_strlit("DISCRETE");
    reveal_strlit("ECU_ADDRESS");
    lemma_differ("DISCRETE"@, "ECU_ADDRESS"@, 0);
    reveal_strlit("LAYOUT");
    lemma_differ("DISCRETE"@, "LAYOUT"@, 0);
    reveal_strlit("BIT_MASK");
    lemma_differ("DISCRETE"@, "BIT_MASK"@, 0);
    reveal_strlit("ERROR_MASK");
    lemma_differ("DISCRETE"@, "ERROR_MASK"@, 0);
    lemma_same("DISCRETE"@);
    assert(bare(c.toks[c.pos + 0]) == (seq![plain("DISCRETE"@)])[0]);
    
}

proof fn lemma_measurement_step_15(w: MeasurementPartsView, v: MeasurementView, c: Cur, f: Setting)
    requires
        Measurement::fits(v, f),
        v.read_write,
        tokens_at(c.toks, c.pos, seq![plain("READ_WRITE"@)]),
        toks_numbered(c.toks, f),
    ensures
        MeasurementParts::option(w, c) == Ok::<(MeasurementPartsView, Cur), Failure>(
            (
                MeasurementPartsView {
                    node: MeasurementView { read_write: v.read_write, ..w.node },
                    ..w
                },
                Cur { pos: c.pos + 1, ..c }
            ),
        ),
{
    reveal_strlit("READ_WRITE");
    reveal_strlit("ECU_ADDRESS");
    lemma_differ("READ_WRITE"@, "ECU_ADDRESS"@, 0);
    reveal_strlit("LAYOUT");
    lemma_differ("READ_WRITE"@, "LAYOUT"@, 0);
    reveal_strlit("BIT_MASK");
    lemma_differ("READ_WRITE"@, "BIT_MASK"@, 0);
    reveal_strlit("ERROR_MASK");
    lemma_differ("READ_WRITE"@, "ERROR_MASK"@, 0);
    reveal_strlit("DISCRETE");
    lemma_differ("READ_WRITE"@, "DISCRETE"@, 0);
    lemma_same("READ_WRITE"@);
    assert(bare(c.toks[c.pos + 0]) == (seq![plain("READ_WRITE"@)])[0]);
    
}

proof fn lemma_measurement_step_16(w: MeasurementPartsView, v: MeasurementView, c: Cur, f: Setting)
    requires
        Measurement::fits(v, f),
        v.matrix_dim is Some,
        tokens_at(c.toks, c.pos, seq![plain("MATRIX_DIM"@)] + int_tokens(v.matrix_dim->Some_0)),
        toks_numbered(c.toks, f),
        no_int_at(c.toks, c.pos + 1 + int_tokens(v.matrix_dim->Some_0).len()) || v.matrix_dim->Some_0.len() == 5,
    ensures
        MeasurementParts::option(w, c) == Ok::<(MeasurementPartsView, Cur), Failure>(
            (
                MeasurementPartsView {
                    node: MeasurementView { matrix_dim: v.matrix_dim, ..w.node },
                    ..w
                },
                Cur { pos: c.pos + 1 + int_tokens(v.matrix_dim->Some_0).len(), ..c }
            ),
        ),
{
    reveal_strlit("MATRIX_DIM");
    reveal_strlit("ECU_ADDRESS");
    lemma_differ("MATRIX_DIM"@, "ECU_ADDRESS"@, 0);
    reveal_strlit("LAYOUT");
    lemma_differ("MATRIX_DIM"@, "LAYOUT"@, 0);
    reveal_strlit("BIT_MASK");
    lemma_differ("MATRIX_DIM"@, "BIT_MASK"@, 0);
    reveal_strlit("ERROR_MASK");
    lemma_differ("MATRIX_DIM"@, "ERROR_MASK"@, 0);
    reveal_strlit("DISCRETE");
    lemma_differ("MATRIX_DIM"@, "DISCRETE"@, 0);
    reveal_strlit("READ_WRITE");
    lemma_differ("MATRIX_DIM"@, "READ_WRITE"@, 0);
    reveal_strlit("ARRAY_SIZE");
    lemma_differ("MATRIX_DIM"@, "ARRAY_SIZE"@, 0);
    lemma_same("MATRIX_DIM"@);
    assert(bare(c.toks[c.pos + 0]) == (seq![plain("MATRIX_DIM"@)] + int_tokens(v.matrix_dim->Some_0))[0]);
    lemma_tokens_at_split(c.toks, c.pos, seq![plain("MATRIX_DIM"@)], int_tokens(v.matrix_dim->Some_0));
    lemma_dims_read(c.step(), v.matrix_dim->Some_0);
}

proof fn lemma_measurement_step_17(w: MeasurementPartsView, v: MeasurementView, c: Cur, f: Setting)
    requires
        Measurement::fits(v, f),
        v.addr_type != AddrType::DIRECT,
        tokens_at(c.toks, c.pos, seq![plain("ADDRESS_TYPE"@), plain(v.addr_type.word()->Some_0)]),
        toks_numbered(c.toks, f),
    ensures
        MeasurementParts::option(w, c) == Ok::<(MeasurementPartsView, Cur), Failure>(
            (
                MeasurementPartsView {
                    node: MeasurementView { addr_type: v.addr_type, ..w.node },
                    ..w
                },
                Cur { pos: c.pos + 2, ..c }
            ),
        ),
{
    reveal_strlit("ADDRESS_TYPE");
    reveal_strlit("ECU_ADDRESS");
    lemma_differ("ADDRESS_TYPE"@, "ECU_ADDRESS"@, 0);
    reveal_strlit("LAYOUT");
    lemma_differ("ADDRESS_TYPE"@, "LAYOUT"@, 0);
    reveal_strlit("BIT_MASK");
    lemma_differ("ADDRESS_TYPE"@, "BIT_MASK"@, 0);
    reveal_strlit("ERROR_MASK");
    lemma_differ("ADDRESS_TYPE"@, "ERROR_MASK"@, 0);
    reveal_strlit("DISCRETE");
    lemma_differ("ADDRESS_TYPE"@, "DISCRETE"@, 0);
    reveal_strlit("READ_WRITE");
    lemma_differ("ADDRESS_TYPE"@, "READ_WRITE"@, 0);
    reveal_strlit("ARRAY_SIZE");
    lemma_differ("ADDRESS_TYPE"@, "ARRAY_SIZE"@, 0);
    reveal_strlit("MATRIX_DIM");
    lemma_differ("ADDRESS_TYPE"@, "MATRIX_DIM"@, 0);
    lemma_same("ADDRESS_TYPE"@);
    assert(bare(c.toks[c.pos + 0]) == (seq![plain("ADDRESS_TYPE"@), plain(v.addr_type.word()->Some_0)])[0]);
    assert(bare(c.toks[c.pos + 1]) == (seq![plain("ADDRESS_TYPE"@), plain(v.addr_type.word()->Some_0)])[1]);
    v.addr_type.law_named_of_word();
    v.addr_type.lemma_word();
}

proof fn lemma_measurement_read_18(v: MeasurementView, c: Cur, f: Setting)
    requires
        Measurement::fits(v, f),
        tokens_at(c.toks, c.pos, measurement_from_18(v)),
        c.pos + measurement_from_18(v).len() == c.toks.len(),
        toks_numbered(c.toks, f),
    ensures
        MeasurementParts::options(
            MeasurementPartsView {
                node: MeasurementView { children: Seq::empty(), ..v },
                array_size: 0
            },
            c
        ) matches Ok((w, _)) && w == (MeasurementPartsView { node: MeasurementView { children: Seq::empty(), ..v }, array_size: 0 }),
{
}

proof fn lemma_measurement_next_18(v: MeasurementView, c: Cur)
    requires
        tokens_at(c.toks, c.pos, measurement_from_18(v)),
        c.pos + measurement_from_18(v).len() == c.toks.len(),
    ensures
        no_int_at(c.toks, c.pos),
{
}

proof fn lemma_measurement_read_17(v: MeasurementView, c: Cur, f: Setting)
    requires
        Measurement::fits(v, f),
        tokens_at(c.toks, c.pos, measurement_from_17(v)),
        c.pos + measurement_from_17(v).len() == c.toks.len(),
        toks_numbered(c.toks, f),
    ensures
        MeasurementParts::options(
            MeasurementPartsView {
                node: MeasurementView { addr_type: AddrType::DIRECT, children: Seq::empty(), ..v },
                array_size: 0
            },
            c
        ) matches Ok((w, _)) && w == (MeasurementPartsView { node: MeasurementView { children: Seq::empty(), ..v }, array_size: 0 }),
{
    reveal(measurement_part_17);
    let t = measurement_part_17(v);
    if v.addr_type != AddrType::DIRECT {
        lemma_tokens_at_split(c.toks, c.pos, t, measurement_from_18(v));
        let c2 = Cur { pos: c.pos + 2, ..c };
        lemma_measurement_step_17(
            MeasurementPartsView {
                node: MeasurementView { addr_type: AddrType::DIRECT, children: Seq::empty(), ..v },
                array_size: 0
            },
            v,
            c,
            f
        );
        lemma_measurement_read_18(v, c2, f);
    } else {
        assert(t + measurement_from_18(v) =~= measurement_from_18(v));
        lemma_measurement_read_18(v, c, f);
    }
}

proof fn lemma_measurement_next_17(v: MeasurementView, c: Cur)
    requires
        tokens_at(c.toks, c.pos, measurement_from_17(v)),
        c.pos + measurement_from_17(v).len() == c.toks.len(),
    ensures
        no_int_at(c.toks, c.pos),
{
    reveal(measurement_part_17);
    if v.addr_type != AddrType::DIRECT {
        assert(bare(c.toks[c.pos + 0]) == measurement_from_17(v)[0]);
        reveal_strlit("ADDRESS_TYPE");
        lemma_no_int("ADDRESS_TYPE"@);
    } else {
        assert(measurement_from_17(v) =~= measurement_from_18(v));
        lemma_measurement_next_18(v, c);
    }
}

proof fn lemma_measurement_read_16(v: MeasurementView, c: Cur, f: Setting)
    requires
        Measurement::fits(v, f),
        tokens_at(c.toks, c.pos, measurement_from_16(v)),
        c.pos + measurement_from_16(v).len() == c.toks.len(),
        toks_numbered(c.toks, f),
    ensures
        MeasurementParts::options(
            MeasurementPartsView {
                node: MeasurementView {
                    matrix_dim: None,
                    addr_type: AddrType::DIRECT,
                    children: Seq::empty(),
                    ..v
                },
                array_size: 0
            },
            c
        ) matches Ok((w, _)) && w == (MeasurementPartsView { node: MeasurementView { children: Seq::empty(), ..v }, array_size: 0 }),
{
    reveal(measurement_part_16);
    let t = measurement_part_16(v);
    if v.matrix_dim is Some {
        lemma_tokens_at_split(c.toks, c.pos, t, measurement_from_17(v));
        let c2 = Cur { pos: c.pos + 1 + int_tokens(v.matrix_dim->Some_0).len(), ..c };
        lemma_measurement_next_17(v, c2);
        lemma_measurement_step_16(
            MeasurementPartsView {
                node: MeasurementView {
                    matrix_dim: None,
                    addr_type: AddrType::DIRECT,
                    children: Seq::empty(),
                    ..v
                },
                array_size: 0
            },
            v,
            c,
            f
        );
        lemma_measurement_read_17(v, c2, f);
    } else {
        assert(t + measurement_from_17(v) =~= measurement_from_17(v));
        lemma_measurement_read_17(v, c, f);
    }
}

proof fn lemma_measurement_read_15(v: MeasurementView, c: Cur, f: Setting)
    requires
        Measurement::fits(v, f),
        tokens_at(c.toks, c.pos, measurement_from_15(v)),
        c.pos + measurement_from_15(v).len() == c.toks.len(),
        toks_numbered(c.toks, f),
    ensures
        MeasurementParts::options(
            MeasurementPartsView {
                node: MeasurementView {
                    read_write: false,
                    matrix_dim: None,
                    addr_type: AddrType::DIRECT,
                    children: Seq::empty(),
                    ..v
                },
                array_size: 0
            },
            c
        ) matches Ok((w, _)) && w == (MeasurementPartsView { node: MeasurementView { children: Seq::empty(), ..v }, array_size: 0 }),
{
    reveal(measurement_part_15);
    let t = measurement_part_15(v);
    if v.read_write {
        lemma_tokens_at_split(c.toks, c.pos, t, measurement_from_16(v));
        let c2 = Cur { pos: c.pos + 1, ..c };
        lemma_measurement_step_15(
            MeasurementPartsView {
                node: MeasurementView {
                    read_write: false,
                    matrix_dim: None,
                    addr_type: AddrType::DIRECT,
                    children: Seq::empty(),
                    ..v
                },
                array_size: 0
            },
            v,
            c,
            f
        );
        lemma_measurement_read_16(v, c2, f);
    } else {
        assert(t + measurement_from_16(v) =~= measurement_from_16(v));
        lemma_measurement_read_16(v, c, f);
    }
}

proof fn lemma_measurement_read_14(v: MeasurementView, c: Cur, f: Setting)
    requires
        Measurement::fits(v, f),
        tokens_at(c.toks, c.pos, measurement_from_14(v)),
        c.pos + measurement_from_14(v).len() == c.toks.len(),
        toks_numbered(c.toks, f),
    ensures
        MeasurementParts::options(
            MeasurementPartsView {
                node: MeasurementView {
                    discrete: false,
                    read_write: false,
                    matrix_dim: None,
                    addr_type: AddrType::DIRECT,
                    children: Seq::empty(),
                    ..v
                },
                array_size: 0
            },
            c
        ) matches Ok((w, _)) && w == (MeasurementPartsView { node: MeasurementView { children: Seq::empty(), ..v }, array_size: 0 }),
{
    reveal(measurement_part_14);
    let t = measurement_part_14(v);
    if v.discrete {
        lemma_tokens_at_split(c.toks, c.pos, t, measurement_from_15(v));
        let c2 = Cur { pos: c.pos + 1, ..c };
        lemma_measurement_step_14(
            MeasurementPartsView {
                node: MeasurementView {
                    discrete: false,
                    read_write: false,
                    matrix_dim: None,
                    addr_type: AddrType::DIRECT,
                    children: Seq::empty(),
                    ..v
                },
                array_size: 0
            },
            v,
            c,
            f
        );
        lemma_measurement_read_15(v, c2, f);
    } else {
        assert(t + measurement_from_15(v) =~= measurement_from_15(v));
        lemma_measurement_read_15(v, c, f);
    }
}

proof fn lemma_measurement_read_13(v: MeasurementView, c: Cur, f: Setting)
    requires
        Measurement::fits(v, f),
        tokens_at(c.toks, c.pos, measurement_from_13(v)),
        c.pos + measurement_from_13(v).len() == c.toks.len(),
        toks_numbered(c.toks, f),
    ensures
        MeasurementParts::options(
            MeasurementPartsView {
                node: MeasurementView {
                    error_mask: None,
                    discrete: false,
                    read_write: false,
                    matrix_dim: None,
                    addr_type: AddrType::DIRECT,
                    children: Seq::empty(),
                    ..v
                },
                array_size: 0
            },
            c
        ) matches Ok((w, _)) && w == (MeasurementPartsView { node: MeasurementView { children: Seq::empty(), ..v }, array_size: 0 }),
{
    reveal(measurement_part_13);
    let t = measurement_part_13(v);
    if v.error_mask is Some {
        lemma_tokens_at_split(c.toks, c.pos, t, measurement_from_14(v));
        let c2 = Cur { pos: c.pos + 2, ..c };
        lemma_measurement_step_13(
            MeasurementPartsView {
                node: MeasurementView {
                    error_mask: None,
                    discrete: false,
                    read_write: false,
                    matrix_dim: None,
                    addr_type: AddrType::DIRECT,
                    children: Seq::empty(),
                    ..v
                },
                array_size: 0
            },
            v,
            c,
            f
        );
        lemma_measurement_read_14(v, c2, f);
    } else {
        assert(t + measurement_from_14(v) =~= measurement_from_14(v));
        lemma_measurement_read_14(v, c, f);
    }
}

proof fn lemma_measurement_read_12(v: MeasurementView, c: Cur, f: Setting)
    requires
        Measurement::fits(v, f),
        tokens_at(c.toks, c.pos, measurement_from_12(v)),
        c.pos + measurement_from_12(v).len() == c.toks.len(),
        toks_numbered(c.toks, f),
    ensures
        MeasurementParts::options(
            MeasurementPartsView {
                node: MeasurementView {
                    bit_mask: None,
                    error_mask: None,
                    discrete: false,
                    read_write: false,
                    matrix_dim: None,
                    addr_type: AddrType::DIRECT,
                    children: Seq::empty(),
                    ..v
                },
                array_size: 0
            },
            c
        ) matches Ok((w, _)) && w == (MeasurementPartsView { node: MeasurementView { children: Seq::empty(), ..v }, array_size: 0 }),
{
    reveal(measurement_part_12);
    let t = measurement_part_12(v);
    if v.bit_mask is Some {
        lemma_tokens_at_split(c.toks, c.pos, t, measurement_from_13(v));
        let c2 = Cur { pos: c.pos + 2, ..c };
        lemma_measurement_step_12(
            MeasurementPartsView {
                node: MeasurementView {
                    bit_mask: None,
                    error_mask: None,
                    discrete: false,
                    read_write: false,
                    matrix_dim: None,
                    addr_type: AddrType::DIRECT,
                    children: Seq::empty(),
                    ..v
                },
                array_size: 0
            },
            v,
            c,
            f
        );
        lemma_measurement_read_13(v, c2, f);
    } else {
        assert(t + measurement_from_13(v) =~= measurement_from_13(v));
        lemma_measurement_read_13(v, c, f);
    }
}

proof fn lemma_measurement_read_11(v: MeasurementView, c: Cur, f: Setting)
    requires
        Measurement::fits(v, f),
        tokens_at(c.toks, c.pos, measurement_from_11(v)),
        c.pos + measurement_from_11(v).len() == c.toks.len(),
        toks_numbered(c.toks, f),
    ensures
        MeasurementParts::options(
            MeasurementPartsView {
                node: MeasurementView {
                    addr: AddressFieldsView { address: None, ..v.addr },
                    bit_mask: None,
                    error_mask: None,
                    discrete: false,
                    read_write: false,
                    matrix_dim: None,
                    addr_type: AddrType::DIRECT,
                    children: Seq::empty(),
                    ..v
                },
                array_size: 0
            },
            c
        ) matches Ok((w, _)) && w == (MeasurementPartsView { node: MeasurementView { children: Seq::empty(), ..v }, array_size: 0 }),
{
    reveal(measurement_part_11);
    let t = measurement_part_11(v);
    if v.addr.address is Some {
        lemma_tokens_at_split(c.toks, c.pos, t, measurement_from_12(v));
        let c2 = Cur { pos: c.pos + 2, ..c };
        lemma_measurement_step_11(
            MeasurementPartsView {
                node: MeasurementView {
                    addr: AddressFieldsView { address: None, ..v.addr },
                    bit_mask: None,
                    error_mask: None,
                    discrete: false,
                    read_write: false,
                    matrix_dim: None,
                    addr_type: AddrType::DIRECT,
                    children: Seq::empty(),
                    ..v
                },
                array_size: 0
            },
            v,
            c,
            f
        );
        lemma_measurement_read_12(v, c2, f);
    } else {
        assert(t + measurement_from_12(v) =~= measurement_from_12(v));
        lemma_measurement_read_12(v, c, f);
    }
}

proof fn lemma_measurement_read_10(v: MeasurementView, c: Cur, f: Setting)
    requires
        Measurement::fits(v, f),
        tokens_at(c.toks, c.pos, measurement_from_10(v)),
        c.pos + measurement_from_10(v).len() == c.toks.len(),
        toks_numbered(c.toks, f),
    ensures
        MeasurementParts::options(
            MeasurementPartsView {
                node: MeasurementView {
                    layout: IndexMode::NotSet,
                    addr: AddressFieldsView { address: None, ..v.addr },
                    bit_mask: None,
                    error_mask: None,
                    discrete: false,
                    read_write: false,
                    matrix_dim: None,
                    addr_type: AddrType::DIRECT,
                    children: Seq::empty(),
                    ..v
                },
                array_size: 0
            },
            c
        ) matches Ok((w, _)) && w == (MeasurementPartsView { node: MeasurementView { children: Seq::empty(), ..v }, array_size: 0 }),
{
    reveal(measurement_part_10);
    let t = measurement_part_10(v);
    if v.layout.word() is Some {
        lemma_tokens_at_split(c.toks, c.pos, t, measurement_from_11(v));
        let c2 = Cur { pos: c.pos + 2, ..c };
        lemma_measurement_step_10(
            MeasurementPartsView {
                node: MeasurementView {
                    layout: IndexMode::NotSet,
                    addr: AddressFieldsView { address: None, ..v.addr },
                    bit_mask: None,
                    error_mask: None,
                    discrete: false,
                    read_write: false,
                    matrix_dim: None,
                    addr_type: AddrType::DIRECT,
                    children: Seq::empty(),
                    ..v
                },
                array_size: 0
            },
            v,
            c,
            f
        );
        lemma_measurement_read_11(v, c2, f);
    } else {
        assert(t + measurement_from_11(v) =~= measurement_from_11(v));
        lemma_measurement_read_11(v, c, f);
    }
}

proof fn lemma_measurement_read_9(v: MeasurementView, c: Cur, f: Setting)
    requires
        Measurement::fits(v, f),
        tokens_at(c.toks, c.pos, measurement_from_9(v)),
        c.pos + measurement_from_9(v).len() == c.toks.len(),
        toks_numbered(c.toks, f),
    ensures
        MeasurementParts::options(
            MeasurementPartsView {
                node: MeasurementView {
                    conv: ConversionRefFieldsView { memory_segment_ref: None, ..v.conv },
                    layout: IndexMode::NotSet,
                    addr: AddressFieldsView { address: None, ..v.addr },
                    bit_mask: None,
                    error_mask: None,
                    discrete: false,
                    read_write: false,
                    matrix_dim: None,
                    addr_type: AddrType::DIRECT,
                    children: Seq::empty(),
                    ..v
                },
                array_size: 0
            },
            c
        ) matches Ok((w, _)) && w == (MeasurementPartsView { node: MeasurementView { children: Seq::empty(), ..v }, array_size: 0 }),
{
    reveal(measurement_part_9);
    let t = measurement_part_9(v);
    if v.conv.memory_segment_ref is Some {
        lemma_tokens_at_split(c.toks, c.pos, t, measurement_from_10(v));
        let c2 = Cur { pos: c.pos + 2, ..c };
        lemma_measurement_step_9(
            MeasurementPartsView {
                node: MeasurementView {
                    conv: ConversionRefFieldsView { memory_segment_ref: None, ..v.conv },
                    layout: IndexMode::NotSet,
                    addr: AddressFieldsView { address: None, ..v.addr },
                    bit_mask: None,
                    error_mask: None,
                    discrete: false,
                    read_write: false,
                    matrix_dim: None,
                    addr_type: AddrType::DIRECT,
                    children: Seq::empty(),
                    ..v
                },
                array_size: 0
            },
            v,
            c,
            f
        );
        lemma_measurement_read_10(v, c2, f);
    } else {
        assert(t + measurement_from_10(v) =~= measurement_from_10(v));
        lemma_measurement_read_10(v, c, f);
    }
}

proof fn lemma_measurement_read_8(v: MeasurementView, c: Cur, f: Setting)
    requires
        Measurement::fits(v, f),
        tokens_at(c.toks, c.pos, measurement_from_8(v)),
        c.pos + measurement_from_8(v).len() == c.toks.len(),
        toks_numbered(c.toks, f),
    ensures
        MeasurementParts::options(
            MeasurementPartsView {
                node: MeasurementView {
                    conv: ConversionRefFieldsView {
                        byte_order: ByteOrder::NotSet,
                        memory_segment_ref: None,
                        ..v.conv
                    },
                    layout: IndexMode::NotSet,
                    addr: AddressFieldsView { address: None, ..v.addr },
                    bit_mask: None,
                    error_mask: None,
                    discrete: false,
                    read_write: false,
                    matrix_dim: None,
                    addr_type: AddrType::DIRECT,
                    children: Seq::empty(),
                    ..v
                },
                array_size: 0
            },
            c
        ) matches Ok((w, _)) && w == (MeasurementPartsView { node: MeasurementView { children: Seq::empty(), ..v }, array_size: 0 }),
{
    reveal(measurement_part_8);
    let t = measurement_part_8(v);
    if v.conv.byte_order.word() is Some {
        lemma_tokens_at_split(c.toks, c.pos, t, measurement_from_9(v));
        let c2 = Cur { pos: c.pos + 2, ..c };
        lemma_measurement_step_8(
            MeasurementPartsView {
                node: MeasurementView {
                    conv: ConversionRefFieldsView {
                        byte_order: ByteOrder::NotSet,
                        memory_segment_ref: None,
                        ..v.conv
                    },
                    layout: IndexMode::NotSet,
                    addr: AddressFieldsView { address: None, ..v.addr },
                    bit_mask: None,
                    error_mask: None,
                    discrete: false,
                    read_write: false,
                    matrix_dim: None,
                    addr_type: AddrType::DIRECT,
                    children: Seq::empty(),
                    ..v
                },
                array_size: 0
            },
            v,
            c,
            f
        );
        lemma_measurement_read_9(v, c2, f);
    } else {
        assert(t + measurement_from_9(v) =~= measurement_from_9(v));
        lemma_measurement_read_9(v, c, f);
    }
}

proof fn lemma_measurement_read_7(v: MeasurementView, c: Cur, f: Setting)
    requires
        Measurement::fits(v, f),
        tokens_at(c.toks, c.pos, measurement_from_7(v)),
        c.pos + measurement_from_7(v).len() == c.toks.len(),
        toks_numbered(c.toks, f),
    ensures
        MeasurementParts::options(
            MeasurementPartsView {
                node: MeasurementView {
                    conv: ConversionRefFieldsView {
                        phys_unit: None,
                        byte_order: ByteOrder::NotSet,
                        memory_segment_ref: None,
                        ..v.conv
                    },
                    layout: IndexMode::NotSet,
                    addr: AddressFieldsView { address: None, ..v.addr },
                    bit_mask: None,
                    error_mask: None,
                    discrete: false,
                    read_write: false,
                    matrix_dim: None,
                    addr_type: AddrType::DIRECT,
                    children: Seq::empty(),
                    ..v
                },
                array_size: 0
            },
            c
        ) matches Ok((w, _)) && w == (MeasurementPartsView { node: MeasurementView { children: Seq::empty(), ..v }, array_size: 0 }),
{
    reveal(measurement_part_7);
    let t = measurement_part_7(v);
    if v.conv.phys_unit is Some {
        lemma_tokens_at_split(c.toks, c.pos, t, measurement_from_8(v));
        let c2 = Cur { pos: c.pos + 2, ..c };
        lemma_measurement_step_7(
            MeasurementPartsView {
                node: MeasurementView {
                    conv: ConversionRefFieldsView {
                        phys_unit: None,
                        byte_order: ByteOrder::NotSet,
                        memory_segment_ref: None,
                        ..v.conv
                    },
                    layout: IndexMode::NotSet,
                    addr: AddressFieldsView { address: None, ..v.addr },
                    bit_mask: None,
                    error_mask: None,
                    discrete: false,
                    read_write: false,
                    matrix_dim: None,
                    addr_type: AddrType::DIRECT,
                    children: Seq::empty(),
                    ..v
                },
                array_size: 0
            },
            v,
            c,
            f
        );
        lemma_measurement_read_8(v, c2, f);
    } else {
        assert(t + measurement_from_8(v) =~= measurement_from_8(v));
        lemma_measurement_read_8(v, c, f);
    }
}

proof fn lemma_measurement_read_6(v: MeasurementView, c: Cur, f: Setting)
    requires
        Measurement::fits(v, f),
        tokens_at(c.toks, c.pos, measurement_from_6(v)),
        c.pos + measurement_from_6(v).len() == c.toks.len(),
        toks_numbered(c.toks, f),
    ensures
        MeasurementParts::options(
            MeasurementPartsView {
                node: MeasurementView {
                    conv: ConversionRefFieldsView {
                        format: None,
                        phys_unit: None,
                        byte_order: ByteOrder::NotSet,
                        memory_segment_ref: None,
                        ..v.conv
                    },
                    layout: IndexMode::NotSet,
                    addr: AddressFieldsView { address: None, ..v.addr },
                    bit_mask: None,
                    error_mask: None,
                    discrete: false,
                    read_write: false,
                    matrix_dim: None,
                    addr_type: AddrType::DIRECT,
                    children: Seq::empty(),
                    ..v
                },
                array_size: 0
            },
            c
        ) matches Ok((w, _)) && w == (MeasurementPartsView { node: MeasurementView { children: Seq::empty(), ..v }, array_size: 0 }),
{
    reveal(measurement_part_6);
    let t = measurement_part_6(v);
    if v.conv.format is Some {
        lemma_tokens_at_split(c.toks, c.pos, t, measurement_from_7(v));
        let c2 = Cur { pos: c.pos + 2, ..c };
        lemma_measurement_step_6(
            MeasurementPartsView {
                node: MeasurementView {
                    conv: ConversionRefFieldsView {
                        format: None,
                        phys_unit: None,
                        byte_order: ByteOrder::NotSet,
                        memory_segment_ref: None,
                        ..v.conv
                    },
                    layout: IndexMode::NotSet,
                    addr: AddressFieldsView { address: None, ..v.addr },
                    bit_mask: None,
                    error_mask: None,
                    discrete: false,
                    read_write: false,
                    matrix_dim: None,
                    addr_type: AddrType::DIRECT,
                    children: Seq::empty(),
                    ..v
                },
                array_size: 0
            },
            v,
            c,
            f
        );
        lemma_measurement_read_7(v, c2, f);
    } else {
        assert(t + measurement_from_7(v) =~= measurement_from_7(v));
        lemma_measurement_read_7(v, c, f);
    }
}

proof fn lemma_measurement_read_5(v: MeasurementView, c: Cur, f: Setting)
    requires
        Measurement::fits(v, f),
        tokens_at(c.toks, c.pos, measurement_from_5(v)),
        c.pos + measurement_from_5(v).len() == c.toks.len(),
        toks_numbered(c.toks, f),
    ensures
        MeasurementParts::options(
            MeasurementPartsView {
                node: MeasurementView {
                    addr: AddressFieldsView { model_link: None, address: None, ..v.addr },
                    conv: ConversionRefFieldsView {
                        format: None,
                        phys_unit: None,
                        byte_order: ByteOrder::NotSet,
                        memory_segment_ref: None,
                        ..v.conv
                    },
                    layout: IndexMode::NotSet,
                    bit_mask: None,
                    error_mask: None,
                    discrete: false,
                    read_write: false,
                    matrix_dim: None,
                    addr_type: AddrType::DIRECT,
                    children: Seq::empty(),
                    ..v
                },
                array_size: 0
            },
            c
        ) matches Ok((w, _)) && w == (MeasurementPartsView { node: MeasurementView { children: Seq::empty(), ..v }, array_size: 0 }),
{
    reveal(measurement_part_5);
    let t = measurement_part_5(v);
    if v.addr.model_link is Some {
        lemma_tokens_at_split(c.toks, c.pos, t, measurement_from_6(v));
        let c2 = Cur { pos: c.pos + 2, ..c };
        lemma_measurement_step_5(
            MeasurementPartsView {
                node: MeasurementView {
                    addr: AddressFieldsView { model_link: None, address: None, ..v.addr },
                    conv: ConversionRefFieldsView {
                        format: None,
                        phys_unit: None,
                        byte_order: ByteOrder::NotSet,
                        memory_segment_ref: None,
                        ..v.conv
                    },
                    layout: IndexMode::NotSet,
                    bit_mask: None,
                    error_mask: None,
                    discrete: false,
                    read_write: false,
                    matrix_dim: None,
                    addr_type: AddrType::DIRECT,
                    children: Seq::empty(),
                    ..v
                },
                array_size: 0
            },
            v,
            c,
            f
        );
        lemma_measurement_read_6(v, c2, f);
    } else {
        assert(t + measurement_from_6(v) =~= measurement_from_6(v));
        lemma_measurement_read_6(v, c, f);
    }
}

proof fn lemma_measurement_read_4(v: MeasurementView, c: Cur, f: Setting)
    requires
        Measurement::fits(v, f),
        tokens_at(c.toks, c.pos, measurement_from_4(v)),
        c.pos + measurement_from_4(v).len() == c.toks.len(),
        toks_numbered(c.toks, f),
    ensures
        MeasurementParts::options(
            MeasurementPartsView {
                node: MeasurementView {
                    addr: AddressFieldsView {
                        symbol_link: None,
                        symbol_offset: 0,
                        model_link: None,
                        address: None,
                        ..v.addr
                    },
                    conv: ConversionRefFieldsView {
                        format: None,
                        phys_unit: None,
                        byte_order: ByteOrder::NotSet,
                        memory_segment_ref: None,
                        ..v.conv
                    },
                    layout: IndexMode::NotSet,
                    bit_mask: None,
                    error_mask: None,
                    discrete: false,
                    read_write: false,
                    matrix_dim: None,
                    addr_type: AddrType::DIRECT,
                    children: Seq::empty(),
                    ..v
                },
                array_size: 0
            },
            c
        ) matches Ok((w, _)) && w == (MeasurementPartsView { node: MeasurementView { children: Seq::empty(), ..v }, array_size: 0 }),
{
    reveal(measurement_part_4);
    let t = measurement_part_4(v);
    if v.addr.symbol_link is Some {
        lemma_tokens_at_split(c.toks, c.pos, t, measurement_from_5(v));
        let c2 = Cur { pos: c.pos + 3, ..c };
        lemma_measurement_step_4(
            MeasurementPartsView {
                node: MeasurementView {
                    addr: AddressFieldsView {
                        symbol_link: None,
                        symbol_offset: 0,
                        model_link: None,
                        address: None,
                        ..v.addr
                    },
                    conv: ConversionRefFieldsView {
                        format: None,
                        phys_unit: None,
                        byte_order: ByteOrder::NotSet,
                        memory_segment_ref: None,
                        ..v.conv
                    },
                    layout: IndexMode::NotSet,
                    bit_mask: None,
                    error_mask: None,
                    discrete: false,
                    read_write: false,
                    matrix_dim: None,
                    addr_type: AddrType::DIRECT,
                    children: Seq::empty(),
                    ..v
                },
                array_size: 0
            },
            v,
            c,
            f
        );
        lemma_measurement_read_5(v, c2, f);
    } else {
        assert(t + measurement_from_5(v) =~= measurement_from_5(v));
        lemma_measurement_read_5(v, c, f);
    }
}

proof fn lemma_measurement_read_3(v: MeasurementView, c: Cur, f: Setting)
    requires
        Measurement::fits(v, f),
        tokens_at(c.toks, c.pos, measurement_from_3(v)),
        c.pos + measurement_from_3(v).len() == c.toks.len(),
        toks_numbered(c.toks, f),
    ensures
        MeasurementParts::options(
            MeasurementPartsView {
                node: MeasurementView {
                    addr: AddressFieldsView {
                        max_refresh_unit: None,
                        max_refresh_rate: 0,
                        symbol_link: None,
                        symbol_offset: 0,
                        model_link: None,
                        address: None,
                        ..v.addr
                    },
                    conv: ConversionRefFieldsView {
                        format: None,
                        phys_unit: None,
                        byte_order: ByteOrder::NotSet,
                        memory_segment_ref: None,
                        ..v.conv
                    },
                    layout: IndexMode::NotSet,
                    bit_mask: None,
                    error_mask: None,
                    discrete: false,
                    read_write: false,
                    matrix_dim: None,
                    addr_type: AddrType::DIRECT,
                    children: Seq::empty(),
                    ..v
                },
                array_size: 0
            },
            c
        ) matches Ok((w, _)) && w == (MeasurementPartsView { node: MeasurementView { children: Seq::empty(), ..v }, array_size: 0 }),
{
    reveal(measurement_part_3);
    let t = measurement_part_3(v);
    if v.addr.max_refresh_unit is Some {
        lemma_tokens_at_split(c.toks, c.pos, t, measurement_from_4(v));
        let c2 = Cur { pos: c.pos + 3, ..c };
        lemma_measurement_step_3(
            MeasurementPartsView {
                node: MeasurementView {
                    addr: AddressFieldsView {
                        max_refresh_unit: None,
                        max_refresh_rate: 0,
                        symbol_link: None,
                        symbol_offset: 0,
                        model_link: None,
                        address: None,
                        ..v.addr
                    },
                    conv: ConversionRefFieldsView {
                        format: None,
                        phys_unit: None,
                        byte_order: ByteOrder::NotSet,
                        memory_segment_ref: None,
                        ..v.conv
                    },
                    layout: IndexMode::NotSet,
                    bit_mask: None,
                    error_mask: None,
                    discrete: false,
                    read_write: false,
                    matrix_dim: None,
                    addr_type: AddrType::DIRECT,
                    children: Seq::empty(),
                    ..v
                },
                array_size: 0
            },
            v,
            c,
            f
        );
        lemma_measurement_read_4(v, c2, f);
    } else {
        assert(t + measurement_from_4(v) =~= measurement_from_4(v));
        lemma_measurement_read_4(v, c, f);
    }
}

proof fn lemma_measurement_read_2(v: MeasurementView, c: Cur, f: Setting)
    requires
        Measurement::fits(v, f),
        tokens_at(c.toks, c.pos, measurement_from_2(v)),
        c.pos + measurement_from_2(v).len() == c.toks.len(),
        toks_numbered(c.toks, f),
    ensures
        MeasurementParts::options(
            MeasurementPartsView {
                node: MeasurementView {
                    addr: AddressFieldsView {
                        calib_access: CalibrationAccess::NotSet,
                        max_refresh_unit: None,
                        max_refresh_rate: 0,
                        symbol_link: None,
                        symbol_offset: 0,
                        model_link: None,
                        address: None,
                        ..v.addr
                    },
                    conv: ConversionRefFieldsView {
                        format: None,
                        phys_unit: None,
                        byte_order: ByteOrder::NotSet,
                        memory_segment_ref: None,
                        ..v.conv
                    },
                    layout: IndexMode::NotSet,
                    bit_mask: None,
                    error_mask: None,
                    discrete: false,
                    read_write: false,
                    matrix_dim: None,
                    addr_type: AddrType::DIRECT,
                    children: Seq::empty(),
                    ..v
                },
                array_size: 0
            },
            c
        ) matches Ok((w, _)) && w == (MeasurementPartsView { node: MeasurementView { children: Seq::empty(), ..v }, array_size: 0 }),
{
    reveal(measurement_part_2);
    let t = measurement_part_2(v);
    if v.addr.calib_access.word() is Some {
        lemma_tokens_at_split(c.toks, c.pos, t, measurement_from_3(v));
        let c2 = Cur { pos: c.pos + 2, ..c };
        lemma_measurement_step_2(
            MeasurementPartsView {
                node: MeasurementView {
                    addr: AddressFieldsView {
                        calib_access: CalibrationAccess::NotSet,
                        max_refresh_unit: None,
                        max_refresh_rate: 0,
                        symbol_link: None,
                        symbol_offset: 0,
                        model_link: None,
                        address: None,
                        ..v.addr
                    },
                    conv: ConversionRefFieldsView {
                        format: None,
                        phys_unit: None,
                        byte_order: ByteOrder::NotSet,
                        memory_segment_ref: None,
                        ..v.conv
                    },
                    layout: IndexMode::NotSet,
                    bit_mask: None,
                    error_mask: None,
                    discrete: false,
                    read_write: false,
                    matrix_dim: None,
                    addr_type: AddrType::DIRECT,
                    children: Seq::empty(),
                    ..v
                },
                array_size: 0
            },
            v,
            c,
            f
        );
        lemma_measurement_read_3(v, c2, f);
    } else {
        assert(t + measurement_from_3(v) =~= measurement_from_3(v));
        lemma_measurement_read_3(v, c, f);
    }
}

proof fn lemma_measurement_read_1(v: MeasurementView, c: Cur, f: Setting)
    requires
        Measurement::fits(v, f),
        tokens_at(c.toks, c.pos, measurement_from_1(v)),
        c.pos + measurement_from_1(v).len() == c.toks.len(),
        toks_numbered(c.toks, f),
    ensures
        MeasurementParts::options(
            MeasurementPartsView {
                node: MeasurementView {
                    addr: AddressFieldsView {
                        display_name: None,
                        calib_access: CalibrationAccess::NotSet,
                        max_refresh_unit: None,
                        max_refresh_rate: 0,
                        symbol_link: None,
                        symbol_offset: 0,
                        model_link: None,
                        address: None,
                        ..v.addr
                    },
                    conv: ConversionRefFieldsView {
                        format: None,
                        phys_unit: None,
                        byte_order: ByteOrder::NotSet,
                        memory_segment_ref: None,
                        ..v.conv
                    },
                    layout: IndexMode::NotSet,
                    bit_mask: None,
                    error_mask: None,
                    discrete: false,
                    read_write: false,
                    matrix_dim: None,
                    addr_type: AddrType::DIRECT,
                    children: Seq::empty(),
                    ..v
                },
                array_size: 0
            },
            c
        ) matches Ok((w, _)) && w == (MeasurementPartsView { node: MeasurementView { children: Seq::empty(), ..v }, array_size: 0 }),
{
    reveal(measurement_part_1);
    let t = measurement_part_1(v);
    if v.addr.display_name is Some {
        lemma_tokens_at_split(c.toks, c.pos, t, measurement_from_2(v));
        let c2 = Cur { pos: c.pos + 2, ..c };
        lemma_measurement_step_1(
            MeasurementPartsView {
                node: MeasurementView {
                    addr: AddressFieldsView {
                        display_name: None,
                        calib_access: CalibrationAccess::NotSet,
                        max_refresh_unit: None,
                        max_refresh_rate: 0,
                        symbol_link: None,
                        symbol_offset: 0,
                        model_link: None,
                        address: None,
                        ..v.addr
                    },
                    conv: ConversionRefFieldsView {
                        format: None,
                        phys_unit: None,
                        byte_order: ByteOrder::NotSet,
                        memory_segment_ref: None,
                        ..v.conv
                    },
                    layout: IndexMode::NotSet,
                    bit_mask: None,
                    error_mask: None,
                    discrete: false,
                    read_write: false,
                    matrix_dim: None,
                    addr_type: AddrType::DIRECT,
                    children: Seq::empty(),
                    ..v
                },
                array_size: 0
            },
            v,
            c,
            f
        );
        lemma_measurement_read_2(v, c2, f);
    } else {
        assert(t + measurement_from_2(v) =~= measurement_from_2(v));
        lemma_measurement_read_2(v, c, f);
    }
}

proof fn lemma_measurement_read_0(v: MeasurementView, c: Cur, f: Setting)
    requires
        Measurement::fits(v, f),
        tokens_at(c.toks, c.pos, measurement_from_0(v)),
        c.pos + measurement_from_0(v).len() == c.toks.len(),
        toks_numbered(c.toks, f),
    ensures
        MeasurementParts::options(
            MeasurementPartsView {
                node: MeasurementView {
                    addr: AddressFieldsView {
                        address_extension: None,
                        display_name: None,
                        calib_access: CalibrationAccess::NotSet,
                        max_refresh_unit: None,
                        max_refresh_rate: 0,
                        symbol_link: None,
                        symbol_offset: 0,
                        model_link: None,
                        address: None
                    },
                    conv: ConversionRefFieldsView {
                        format: None,
                        phys_unit: None,
                        byte_order: ByteOrder::NotSet,
                        memory_segment_ref: None,
                        ..v.conv
                    },
                    layout: IndexMode::NotSet,
                    bit_mask: None,
                    error_mask: None,
                    discrete: false,
                    read_write: false,
                    matrix_dim: None,
                    addr_type: AddrType::DIRECT,
                    children: Seq::empty(),
                    ..v
                },
                array_size: 0
            },
            c
        ) matches Ok((w, _)) && w == (MeasurementPartsView { node: MeasurementView { children: Seq::empty(), ..v }, array_size: 0 }),
{
    reveal(measurement_part_0);
    let t = measurement_part_0(v);
    if v.addr.address_extension is Some {
        lemma_tokens_at_split(c.toks, c.pos, t, measurement_from_1(v));
        let c2 = Cur { pos: c.pos + 2, ..c };
        lemma_measurement_step_0(
            MeasurementPartsView {
                node: MeasurementView {
                    addr: AddressFieldsView {
                        address_extension: None,
                        display_name: None,
                        calib_access: CalibrationAccess::NotSet,
                        max_refresh_unit: None,
                        max_refresh_rate: 0,
                        symbol_link: None,
                        symbol_offset: 0,
                        model_link: None,
                        address: None
                    },
                    conv: ConversionRefFieldsView {
                        format: None,
                        phys_unit: None,
                        byte_order: ByteOrder::NotSet,
                        memory_segment_ref: None,
                        ..v.conv
                    },
                    layout: IndexMode::NotSet,
                    bit_mask: None,
                    error_mask: None,
                    discrete: false,
                    read_write: false,
                    matrix_dim: None,
                    addr_type: AddrType::DIRECT,
                    children: Seq::empty(),
                    ..v
                },
                array_size: 0
            },
            v,
            c,
            f
        );
        lemma_measurement_read_1(v, c2, f);
    } else {
        assert(t + measurement_from_1(v) =~= measurement_from_1(v));
        lemma_measurement_read_1(v, c, f);
    }
}

impl Faithful for Measurement {
    open spec fn fits(v: MeasurementView, f: Setting) -> bool {
        &&& is_param(plain(v.named.name))
        &&& v.named.description is Some
        &&& v.data_type.word() is Some
        &&& is_param(plain(v.conv.conversion))
        &&& num_fits(v.accuracy, f)
        &&& num_fits(v.conv.lower_limit, f) && num_fits(v.conv.upper_limit, f)
        &&& (v.addr.display_name matches Some(x) ==> is_param(plain(x)))
        &&& (v.addr.max_refresh_unit is None ==> v.addr.max_refresh_rate == 0)
        &&& (
            match v.addr.symbol_link {
                Some(x) => x.len() > 0 && is_content(x),
                None => v.addr.symbol_offset == 0
            }
        )
        &&& (v.addr.model_link matches Some(x) ==> x.len() > 0)
        &&& (v.conv.format matches Some(x) ==> x.len() > 0)
        &&& (v.conv.phys_unit matches Some(x) ==> x.len() > 0)
        &&& (v.conv.memory_segment_ref matches Some(x) ==> is_param(plain(x)))
        &&& (v.bit_mask matches Some(x) ==> x != u64::MAX)
        &&& (v.error_mask matches Some(x) ==> x != 0)
        &&& (v.matrix_dim matches Some(x) ==> 0 < x.len() <= 5)
        &&& all_fit::<MeasurementChild>(v.children, f)
    }

    open spec fn shape(v: MeasurementView) -> Tree {
        shape_of(
            "MEASUREMENT"@,
            measurement_head(v) + measurement_from_0(v),
            shapes::<MeasurementChild>(v.children)
        )
    }

    proof fn law_shown(v: MeasurementView, p: Page, f: Setting) {
        reveal_strlit("MEASUREMENT");
        lemma_keyword_word("MEASUREMENT"@);
        reveal_strlit("MEASUREMENT ");
        reveal_strlit(" ");
        assert("MEASUREMENT "@ + v.named.name =~= "MEASUREMENT"@ + " "@ + v.named.name);
        lemma_spells_word("MEASUREMENT"@);
        lemma_spells_word(v.named.name);
        lemma_spells_join("MEASUREMENT"@, seq![plain("MEASUREMENT"@)], v.named.name, seq![plain(v.named.name)]);
        let h = seq![plain(v.named.name)];
        crate::a2l::tree_laws::lemma_shows_begin(
            p,
            "MEASUREMENT "@ + v.named.name,
            seq![plain("MEASUREMENT"@)] + h
        );
        let p0 = p.begin("MEASUREMENT "@ + v.named.name);
        lemma_measurement_body(v, p0, f);
        lemma_measurement_opening(v, p0, f);
        let p1 = measurement_opening(v, p0);
        lemma_measurement_shown_0(v, p1, f);
        let p2 = measurement_pages_0(v, p1);
        let hx = seq![
            string(escaped(v.named.description->Some_0)),
            plain(v.data_type.word()->Some_0),
            plain(v.conv.conversion),
            plain(dec_int(v.resolution as int)),
            plain(v.accuracy.text),
            plain(v.conv.lower_limit.text),
            plain(v.conv.upper_limit.text)
        ];
        let from = measurement_from_0(v);
        lemma_shows_join(p0, p1, p2, hx, from);
        lemma_children_shown::<MeasurementChild>(v.children, false, p2, f);
        lemma_shapes_sound::<MeasurementChild>(v.children, p, f);
        let q = children_written::<MeasurementChild>(v.children, 0, false, p2)->Ok_0;
        let kids = shapes::<MeasurementChild>(v.children);
        let y = blocks_tokens(kids, 0);
        lemma_shows_join(p0, p2, q, hx + from, y);
        let x = measurement_head(v) + from;
        lemma_shape_tokens(x, kids);
        lemma_all_params_join(measurement_head(v), from);
        lemma_sound_shape("MEASUREMENT"@, x, kids);
        assert(measurement_head(v) =~= h + hx);
        assert(h + (hx + from + y) =~= x + y);
        lemma_shows_block(p, "MEASUREMENT "@ + v.named.name, h, "MEASUREMENT"@, q, hx + from + y, Self::shape(v));
    }

    proof fn law_parsed(v: MeasurementView, tree: Tree, f: Setting) {
        let x = measurement_head(v) + measurement_from_0(v);
        let kids = shapes::<MeasurementChild>(v.children);
        lemma_shape_found(tree, "MEASUREMENT"@, x, kids, f);
        let c = Cur::start(tree);
        lemma_tokens_at_split(c.toks, 0, measurement_head(v), measurement_from_0(v));
        lemma_measurement_head(v, c, f);
        let c1 = Cur { pos: 8, ..c };
        lemma_measurement_read_0(v, c1, f);
        lemma_children_read::<MeasurementChild>(v.children, children_of(tree.items), f);
    }
}

impl FaithfulChild for AxisDescrChild {
    open spec fn fits(v: AxisDescrChildView, f: Setting) -> bool {
        match v {
            AxisDescrChildView::Annotation(n) => <Annotation as Faithful>::fits(n, f),
            AxisDescrChildView::Unsupported(n) => <UnsupportedNode as FaithfulChild>::fits(n, f) && !same_ignore_case(n.keyword, "ANNOTATION"@),
        }
    }

    open spec fn shape(v: AxisDescrChildView) -> Tree {
        match v {
            AxisDescrChildView::Annotation(n) => <Annotation as Faithful>::shape(n),
            AxisDescrChildView::Unsupported(n) => <UnsupportedNode as FaithfulChild>::shape(n),
        }
    }

    proof fn law_shown(v: AxisDescrChildView, p: Page, f: Setting) {
        match v {
            AxisDescrChildView::Annotation(n) => {
                lemma_node_shown::<Annotation>(n, p, f);
            },
            AxisDescrChildView::Unsupported(n) => {
                <UnsupportedNode as FaithfulChild>::law_shown(n, p, f);
            },
        }
    }

    proof fn law_parsed(v: AxisDescrChildView, tree: Tree, f: Setting) {
        match v {
            AxisDescrChildView::Annotation(n) => {
                reveal_strlit("ANNOTATION");
                lemma_same("ANNOTATION"@);
                assert(bare_tree(tree).keyword == "ANNOTATION"@);
                lemma_node_read::<Annotation>(n, tree, f);
            },
            AxisDescrChildView::Unsupported(n) => {
                <UnsupportedNode as FaithfulChild>::law_parsed(n, tree, f);
            },
        }
    }
}

/// The parameters at the start of the block.
pub open spec fn axis_descr_head(v: AxisDescrView) -> Seq<Tok> {
    seq![
        plain(v.axis_type.word()->Some_0),
        plain(v.input_quantity),
        plain(v.conversion),
        plain(dec_int(v.max_axis_points as int)),
        plain(v.lower_limit.text),
        plain(v.upper_limit.text)
    ]
}

/// The parameters of `AXIS_PTS_REF`.
#[verifier::opaque]
pub open spec fn axis_descr_part_0(v: AxisDescrView) -> Seq<Tok> {
    if v.axis_pts_ref is Some {
        seq![plain("AXIS_PTS_REF"@), plain(v.axis_pts_ref->Some_0)]
    } else { Seq::<Tok>::empty() }
}

/// The parameters from `AXIS_PTS_REF` on.
pub open spec fn axis_descr_from_0(v: AxisDescrView) -> Seq<Tok> {
    axis_descr_part_0(v) + axis_descr_from_1(v)
}

/// What is written for `AXIS_PTS_REF`.
#[verifier::opaque]
pub open spec fn axis_descr_page_0(v: AxisDescrView, p: Page) -> Page {
    match v.axis_pts_ref { Some(x) if x.len() > 0 => p.word("AXIS_PTS_REF"@, x), _ => p }
}

/// What is written from `AXIS_PTS_REF` on.
pub open spec fn axis_descr_pages_0(v: AxisDescrView, p: Page) -> Page {
    axis_descr_pages_1(v, axis_descr_page_0(v, p))
}

/// The parameters of `CURVE_AXIS_REF`.
#[verifier::opaque]
pub open spec fn axis_descr_part_1(v: AxisDescrView) -> Seq<Tok> {
    if v.curve_axis_ref is Some {
        seq![plain("CURVE_AXIS_REF"@), plain(v.curve_axis_ref->Some_0)]
    } else { Seq::<Tok>::empty() }
}

/// The parameters from `CURVE_AXIS_REF` on.
pub open spec fn axis_descr_from_1(v: AxisDescrView) -> Seq<Tok> {
    axis_descr_part_1(v) + axis_descr_from_2(v)
}

/// What is written for `CURVE_AXIS_REF`.
#[verifier::opaque]
pub open spec fn axis_descr_page_1(v: AxisDescrView, p: Page) -> Page {
    match v.curve_axis_ref { Some(x) if x.len() > 0 => p.word("CURVE_AXIS_REF"@, x), _ => p }
}

/// What is written from `CURVE_AXIS_REF` on.
pub open spec fn axis_descr_pages_1(v: AxisDescrView, p: Page) -> Page {
    axis_descr_pages_2(v, axis_descr_page_1(v, p))
}

/// The parameters of `READ_ONLY`.
#[verifier::opaque]
pub open spec fn axis_descr_part_2(v: AxisDescrView) -> Seq<Tok> {
    if v.read_only { seq![plain("READ_ONLY"@)] } else { Seq::<Tok>::empty() }
}

/// The parameters from `READ_ONLY` on.
pub open spec fn axis_descr_from_2(v: AxisDescrView) -> Seq<Tok> {
    axis_descr_part_2(v) + axis_descr_from_3(v)
}

/// What is written for `READ_ONLY`.
#[verifier::opaque]
pub open spec fn axis_descr_page_2(v: AxisDescrView, p: Page) -> Page {
    if v.read_only { p.line("READ_ONLY"@) } else { p }
}

/// What is written from `READ_ONLY` on.
pub open spec fn axis_descr_pages_2(v: AxisDescrView, p: Page) -> Page {
    axis_descr_pages_3(v, axis_descr_page_2(v, p))
}

/// The parameters of `EXTENDED_LIMITS`.
#[verifier::opaque]
pub open spec fn axis_descr_part_3(v: AxisDescrView) -> Seq<Tok> {
    if v.extended_limits is Some {
        seq![
            plain("EXTENDED_LIMITS"@),
            plain(v.extended_limits->Some_0.0.text),
            plain(v.extended_limits->Some_0.1.text)
        ]
    } else { Seq::<Tok>::empty() }
}

/// The parameters from `EXTENDED_LIMITS` on.
pub open spec fn axis_descr_from_3(v: AxisDescrView) -> Seq<Tok> {
    axis_descr_part_3(v) + axis_descr_from_4(v)
}

/// What is written for `EXTENDED_LIMITS`.
#[verifier::opaque]
pub open spec fn axis_descr_page_3(v: AxisDescrView, p: Page) -> Page {
    match v.extended_limits { Some((lo, hi)) => p.line("EXTENDED_LIMITS "@ + lo.text + " "@ + hi.text), None => p }
}

/// What is written from `EXTENDED_LIMITS` on.
pub open spec fn axis_descr_pages_3(v: AxisDescrView, p: Page) -> Page {
    axis_descr_pages_4(v, axis_descr_page_3(v, p))
}

/// The parameters of `MAX_GRAD`.
#[verifier::opaque]
pub open spec fn axis_descr_part_4(v: AxisDescrView) -> Seq<Tok> {
    if v.max_grad is Some { seq![plain("MAX_GRAD"@), plain(v.max_grad->Some_0.text)] } else { Seq::<Tok>::empty() }
}

/// The parameters from `MAX_GRAD` on.
pub open spec fn axis_descr_from_4(v: AxisDescrView) -> Seq<Tok> {
    axis_descr_part_4(v) + axis_descr_from_5(v)
}

/// What is written for `MAX_GRAD`.
#[verifier::opaque]
pub open spec fn axis_descr_page_4(v: AxisDescrView, p: Page) -> Page {
    match v.max_grad { Some(x) => p.word("MAX_GRAD"@, x.text), None => p }
}

/// What is written from `MAX_GRAD` on.
pub open spec fn axis_descr_pages_4(v: AxisDescrView, p: Page) -> Page {
    axis_descr_pages_5(v, axis_descr_page_4(v, p))
}

/// The parameters of `STEP_SIZE`.
#[verifier::opaque]
pub open spec fn axis_descr_part_5(v: AxisDescrView) -> Seq<Tok> {
    if v.step_size is Some {
        seq![plain("STEP_SIZE"@), plain(v.step_size->Some_0.text)]
    } else { Seq::<Tok>::empty() }
}

/// The parameters from `STEP_SIZE` on.
pub open spec fn axis_descr_from_5(v: AxisDescrView) -> Seq<Tok> {
    axis_descr_part_5(v) + axis_descr_from_6(v)
}

/// What is written for `STEP_SIZE`.
#[verifier::opaque]
pub open spec fn axis_descr_page_5(v: AxisDescrView, p: Page) -> Page {
    match v.step_size { Some(x) => p.word("STEP_SIZE"@, x.text), None => p }
}

/// What is written from `STEP_SIZE` on.
pub open spec fn axis_descr_pages_5(v: AxisDescrView, p: Page) -> Page {
    axis_descr_pages_6(v, axis_descr_page_5(v, p))
}

/// The parameters of `FORMAT`.
#[verifier::opaque]
pub open spec fn axis_descr_part_6(v: AxisDescrView) -> Seq<Tok> {
    if v.format is Some { seq![plain("FORMAT"@), string(escaped(v.format->Some_0))] } else { Seq::<Tok>::empty() }
}

/// The parameters from `FORMAT` on.
pub open spec fn axis_descr_from_6(v: AxisDescrView) -> Seq<Tok> {
    axis_descr_part_6(v) + axis_descr_from_7(v)
}

/// What is written for `FORMAT`.
#[verifier::opaque]
pub open spec fn axis_descr_page_6(v: AxisDescrView, p: Page) -> Page {
    match v.format { Some(x) if x.len() > 0 => p.quote("FORMAT"@, x), _ => p }
}

/// What is written from `FORMAT` on.
pub open spec fn axis_descr_pages_6(v: AxisDescrView, p: Page) -> Page {
    axis_descr_pages_7(v, axis_descr_page_6(v, p))
}

/// The parameters of `PHYS_UNIT`.
#[verifier::opaque]
pub open spec fn axis_descr_part_7(v: AxisDescrView) -> Seq<Tok> {
    if v.phys_unit is Some {
        seq![plain("PHYS_UNIT"@), string(escaped(v.phys_unit->Some_0))]
    } else { Seq::<Tok>::empty() }
}

/// The parameters from `PHYS_UNIT` on.
pub open spec fn axis_descr_from_7(v: AxisDescrView) -> Seq<Tok> {
    axis_descr_part_7(v) + axis_descr_from_8(v)
}

/// What is written for `PHYS_UNIT`.
#[verifier::opaque]
pub open spec fn axis_descr_page_7(v: AxisDescrView, p: Page) -> Page {
    match v.phys_unit { Some(x) if x.len() > 0 => p.quote("PHYS_UNIT"@, x), _ => p }
}

/// What is written from `PHYS_UNIT` on.
pub open spec fn axis_descr_pages_7(v: AxisDescrView, p: Page) -> Page {
    axis_descr_pages_8(v, axis_descr_page_7(v, p))
}

/// The parameters of `BYTE_ORDER`.
#[verifier::opaque]
pub open spec fn axis_descr_part_8(v: AxisDescrView) -> Seq<Tok> {
    if v.byte_order.word() is Some {
        seq![plain("BYTE_ORDER"@), plain(v.byte_order.word()->Some_0)]
    } else { Seq::<Tok>::empty() }
}

/// The parameters from `BYTE_ORDER` on.
pub open spec fn axis_descr_from_8(v: AxisDescrView) -> Seq<Tok> {
    axis_descr_part_8(v) + axis_descr_from_9(v)
}

/// What is written for `BYTE_ORDER`.
#[verifier::opaque]
pub open spec fn axis_descr_page_8(v: AxisDescrView, p: Page) -> Page {
    match v.byte_order.word() { Some(kw) => p.word("BYTE_ORDER"@, kw), None => p }
}

/// What is written from `BYTE_ORDER` on.
pub open spec fn axis_descr_pages_8(v: AxisDescrView, p: Page) -> Page {
    axis_descr_pages_9(v, axis_descr_page_8(v, p))
}

/// The parameters of `MONOTONY`.
#[verifier::opaque]
pub open spec fn axis_descr_part_9(v: AxisDescrView) -> Seq<Tok> {
    if v.monotony.word() is Some {
        seq![plain("MONOTONY"@), plain(v.monotony.word()->Some_0)]
    } else { Seq::<Tok>::empty() }
}

/// The parameters from `MONOTONY` on.
pub open spec fn axis_descr_from_9(v: AxisDescrView) -> Seq<Tok> {
    axis_descr_part_9(v) + axis_descr_from_10(v)
}

/// What is written for `MONOTONY`.
#[verifier::opaque]
pub open spec fn axis_descr_page_9(v: AxisDescrView, p: Page) -> Page {
    match v.monotony.word() { Some(kw) => p.word("MONOTONY"@, kw), None => p }
}

/// What is written from `MONOTONY` on.
pub open spec fn axis_descr_pages_9(v: AxisDescrView, p: Page) -> Page {
    axis_descr_pages_10(v, axis_descr_page_9(v, p))
}

/// The parameters of `DEPOSIT`.
#[verifier::opaque]
pub open spec fn axis_descr_part_10(v: AxisDescrView) -> Seq<Tok> {
    if v.deposit.word() is Some {
        seq![plain("DEPOSIT"@), plain(v.deposit.word()->Some_0)]
    } else { Seq::<Tok>::empty() }
}

/// The parameters from `DEPOSIT` on.
pub open spec fn axis_descr_from_10(v: AxisDescrView) -> Seq<Tok> {
    axis_descr_part_10(v) + axis_descr_from_11(v)
}

/// What is written for `DEPOSIT`.
#[verifier::opaque]
pub open spec fn axis_descr_page_10(v: AxisDescrView, p: Page) -> Page {
    match v.deposit.word() { Some(kw) => p.word("DEPOSIT"@, kw), None => p }
}

/// What is written from `DEPOSIT` on.
pub open spec fn axis_descr_pages_10(v: AxisDescrView, p: Page) -> Page {
    axis_descr_pages_11(v, axis_descr_page_10(v, p))
}

/// The parameters of `FIX_AXIS_PAR`.
#[verifier::opaque]
pub open spec fn axis_descr_part_11(v: AxisDescrView) -> Seq<Tok> {
    if v.fix_axis_par is Some {
        seq![
            plain("FIX_AXIS_PAR"@),
            plain(v.fix_axis_par->Some_0.offset.text),
            plain(v.fix_axis_par->Some_0.shift.text),
            plain(dec_int(v.fix_axis_par->Some_0.numberapo as int))
        ]
    } else { Seq::<Tok>::empty() }
}

/// The parameters from `FIX_AXIS_PAR` on.
pub open spec fn axis_descr_from_11(v: AxisDescrView) -> Seq<Tok> {
    axis_descr_part_11(v) + axis_descr_from_12(v)
}

/// What is written for `FIX_AXIS_PAR`.
#[verifier::opaque]
pub open spec fn axis_descr_page_11(v: AxisDescrView, p: Page) -> Page {
    match v.fix_axis_par {
        Some(x) => p.word(
            "FIX_AXIS_PAR"@,
            x.offset.text + " "@ + x.shift.text + " "@ + dec_int(x.numberapo as int)
        ),
        None => p
    }
}

/// What is written from `FIX_AXIS_PAR` on.
pub open spec fn axis_descr_pages_11(v: AxisDescrView, p: Page) -> Page {
    axis_descr_pages_12(v, axis_descr_page_11(v, p))
}

/// The parameters of `FIX_AXIS_PAR_DIST`.
#[verifier::opaque]
pub open spec fn axis_descr_part_12(v: AxisDescrView) -> Seq<Tok> {
    if v.fix_axis_par_dist is Some {
        seq![
            plain("FIX_AXIS_PAR_DIST"@),
            plain(v.fix_axis_par_dist->Some_0.offset.text),
            plain(v.fix_axis_par_dist->Some_0.distance.text),
            plain(dec_int(v.fix_axis_par_dist->Some_0.numberapo as int))
        ]
    } else { Seq::<Tok>::empty() }
}

/// The parameters from `FIX_AXIS_PAR_DIST` on.
pub open spec fn axis_descr_from_12(v: AxisDescrView) -> Seq<Tok> {
    axis_descr_part_12(v) + axis_descr_from_13(v)
}

/// What is written for `FIX_AXIS_PAR_DIST`.
#[verifier::opaque]
pub open spec fn axis_descr_page_12(v: AxisDescrView, p: Page) -> Page {
    match v.fix_axis_par_dist {
        Some(x) => p.word(
            "FIX_AXIS_PAR_DIST"@,
            x.offset.text + " "@ + x.distance.text + " "@ + dec_int(x.numberapo as int)
        ),
        None => p
    }
}

/// What is written from `FIX_AXIS_PAR_DIST` on.
pub open spec fn axis_descr_pages_12(v: AxisDescrView, p: Page) -> Page {
    axis_descr_pages_13(v, axis_descr_page_12(v, p))
}

/// The parameters behind the last keyword.
pub open spec fn axis_descr_from_13(v: AxisDescrView) -> Seq<Tok> {
    Seq::empty()
}

/// What is written behind the last keyword.
pub open spec fn axis_descr_pages_13(v: AxisDescrView, p: Page) -> Page {
    p
}

proof fn lemma_axis_descr_part_12(v: AxisDescrView, p: Page, f: Setting)
    requires
        AxisDescr::fits(v, f),
        indents_by_blanks(p),
    ensures
        shows(p, axis_descr_page_12(v, p), axis_descr_part_12(v)),
        axis_descr_page_12(v, p).depth == p.depth,
        axis_descr_page_12(v, p).style == p.style,
        all_params(axis_descr_part_12(v)),
{
    reveal(axis_descr_page_12);
    reveal(axis_descr_part_12);
    if v.fix_axis_par_dist is Some {
        reveal_strlit("FIX_AXIS_PAR_DIST");
        assert(is_keyword("FIX_AXIS_PAR_DIST"@));
        lemma_keyword_param("FIX_AXIS_PAR_DIST"@);
        let a = v.fix_axis_par_dist->Some_0.offset.text;
        let b = v.fix_axis_par_dist->Some_0.distance.text;
        let n = dec_int(v.fix_axis_par_dist->Some_0.numberapo as int);
        lemma_dec_param(v.fix_axis_par_dist->Some_0.numberapo as int);
        lemma_spells_pair(a, b);
        lemma_spells_word(n);
        lemma_spells_join(a + " "@ + b, seq![plain(a), plain(b)], n, seq![plain(n)]);
        lemma_shows_tagged(
            p,
            "FIX_AXIS_PAR_DIST"@,
            a + " "@ + b + " "@ + n,
            seq![plain(a), plain(b)] + seq![plain(n)]
        );
        assert(
            seq![plain("FIX_AXIS_PAR_DIST"@)] + (
                seq![plain(a), plain(b)] + seq![plain(n)]
            ) =~= seq![
                plain("FIX_AXIS_PAR_DIST"@),
                plain(a),
                plain(b),
                plain(n)
            ]
        );
        reveal_strlit("FIX_AXIS_PAR_DIST");
        assert(is_keyword("FIX_AXIS_PAR_DIST"@));
        lemma_keyword_param("FIX_AXIS_PAR_DIST"@);
        lemma_dec_param(v.fix_axis_par_dist->Some_0.numberapo as int);
        assert(
            all_params(
                seq![
                    plain("FIX_AXIS_PAR_DIST"@),
                    plain(v.fix_axis_par_dist->Some_0.offset.text),
                    plain(v.fix_axis_par_dist->Some_0.distance.text),
                    plain(dec_int(v.fix_axis_par_dist->Some_0.numberapo as int))
                ]
            )
        );
        
    } else {
        lemma_shows_nothing(p);
    }
}

proof fn lemma_axis_descr_part_11(v: AxisDescrView, p: Page, f: Setting)
    requires
        AxisDescr::fits(v, f),
        indents_by_blanks(p),
    ensures
        shows(p, axis_descr_page_11(v, p), axis_descr_part_11(v)),
        axis_descr_page_11(v, p).depth == p.depth,
        axis_descr_page_11(v, p).style == p.style,
        all_params(axis_descr_part_11(v)),
{
    reveal(axis_descr_page_11);
    reveal(axis_descr_part_11);
    if v.fix_axis_par is Some {
        reveal_strlit("FIX_AXIS_PAR");
        assert(is_keyword("FIX_AXIS_PAR"@));
        lemma_keyword_param("FIX_AXIS_PAR"@);
        let a = v.fix_axis_par->Some_0.offset.text;
        let b = v.fix_axis_par->Some_0.shift.text;
        let n = dec_int(v.fix_axis_par->Some_0.numberapo as int);
        lemma_dec_param(v.fix_axis_par->Some_0.numberapo as int);
        lemma_spells_pair(a, b);
        lemma_spells_word(n);
        lemma_spells_join(a + " "@ + b, seq![plain(a), plain(b)], n, seq![plain(n)]);
        lemma_shows_tagged(p, "FIX_AXIS_PAR"@, a + " "@ + b + " "@ + n, seq![plain(a), plain(b)] + seq![plain(n)]);
        assert(
            seq![plain("FIX_AXIS_PAR"@)] + (seq![plain(a), plain(b)] + seq![plain(n)]) =~= seq![
                plain("FIX_AXIS_PAR"@),
                plain(a),
                plain(b),
                plain(n)
            ]
        );
        reveal_strlit("FIX_AXIS_PAR");
        assert(is_keyword("FIX_AXIS_PAR"@));
        lemma_keyword_param("FIX_AXIS_PAR"@);
        lemma_dec_param(v.fix_axis_par->Some_0.numberapo as int);
        assert(
            all_params(
                seq![
                    plain("FIX_AXIS_PAR"@),
                    plain(v.fix_axis_par->Some_0.offset.text),
                    plain(v.fix_axis_par->Some_0.shift.text),
                    plain(dec_int(v.fix_axis_par->Some_0.numberapo as int))
                ]
            )
        );
        
    } else {
        lemma_shows_nothing(p);
    }
}

proof fn lemma_axis_descr_part_10(v: AxisDescrView, p: Page, f: Setting)
    requires
        AxisDescr::fits(v, f),
        indents_by_blanks(p),
    ensures
        shows(p, axis_descr_page_10(v, p), axis_descr_part_10(v)),
        axis_descr_page_10(v, p).depth == p.depth,
        axis_descr_page_10(v, p).style == p.style,
        all_params(axis_descr_part_10(v)),
{
    reveal(axis_descr_page_10);
    reveal(axis_descr_part_10);
    if v.deposit.word() is Some {
        reveal_strlit("DEPOSIT");
        assert(is_keyword("DEPOSIT"@));
        lemma_keyword_param("DEPOSIT"@);
        v.deposit.lemma_word();
        lemma_shows_word(p, "DEPOSIT"@, v.deposit.word()->Some_0);
        reveal_strlit("DEPOSIT");
        assert(is_keyword("DEPOSIT"@));
        lemma_keyword_param("DEPOSIT"@);
        v.deposit.lemma_word();
        assert(all_params(seq![plain("DEPOSIT"@), plain(v.deposit.word()->Some_0)]));
        
    } else {
        lemma_shows_nothing(p);
    }
}

proof fn lemma_axis_descr_part_9(v: AxisDescrView, p: Page, f: Setting)
    requires
        AxisDescr::fits(v, f),
        indents_by_blanks(p),
    ensures
        shows(p, axis_descr_page_9(v, p), axis_descr_part_9(v)),
        axis_descr_page_9(v, p).depth == p.depth,
        axis_descr_page_9(v, p).style == p.style,
        all_params(axis_descr_part_9(v)),
{
    reveal(axis_descr_page_9);
    reveal(axis_descr_part_9);
    if v.monotony.word() is Some {
        reveal_strlit("MONOTONY");
        assert(is_keyword("MONOTONY"@));
        lemma_keyword_param("MONOTONY"@);
        v.monotony.lemma_word();
        lemma_shows_word(p, "MONOTONY"@, v.monotony.word()->Some_0);
        reveal_strlit("MONOTONY");
        assert(is_keyword("MONOTONY"@));
        lemma_keyword_param("MONOTONY"@);
        v.monotony.lemma_word();
        assert(all_params(seq![plain("MONOTONY"@), plain(v.monotony.word()->Some_0)]));
        
    } else {
        lemma_shows_nothing(p);
    }
}

proof fn lemma_axis_descr_part_8(v: AxisDescrView, p: Page, f: Setting)
    requires
        AxisDescr::fits(v, f),
        indents_by_blanks(p),
    ensures
        shows(p, axis_descr_page_8(v, p), axis_descr_part_8(v)),
        axis_descr_page_8(v, p).depth == p.depth,
        axis_descr_page_8(v, p).style == p.style,
        all_params(axis_descr_part_8(v)),
{
    reveal(axis_descr_page_8);
    reveal(axis_descr_part_8);
    if v.byte_order.word() is Some {
        reveal_strlit("BYTE_ORDER");
        assert(is_keyword("BYTE_ORDER"@));
        lemma_keyword_param("BYTE_ORDER"@);
        v.byte_order.lemma_word();
        lemma_shows_word(p, "BYTE_ORDER"@, v.byte_order.word()->Some_0);
        reveal_strlit("BYTE_ORDER");
        assert(is_keyword("BYTE_ORDER"@));
        lemma_keyword_param("BYTE_ORDER"@);
        v.byte_order.lemma_word();
        assert(all_params(seq![plain("BYTE_ORDER"@), plain(v.byte_order.word()->Some_0)]));
        
    } else {
        lemma_shows_nothing(p);
    }
}

proof fn lemma_axis_descr_part_7(v: AxisDescrView, p: Page, f: Setting)
    requires
        AxisDescr::fits(v, f),
        indents_by_blanks(p),
    ensures
        shows(p, axis_descr_page_7(v, p), axis_descr_part_7(v)),
        axis_descr_page_7(v, p).depth == p.depth,
        axis_descr_page_7(v, p).style == p.style,
        all_params(axis_descr_part_7(v)),
{
    reveal(axis_descr_page_7);
    reveal(axis_descr_part_7);
    if v.phys_unit is Some {
        reveal_strlit("PHYS_UNIT");
        assert(is_keyword("PHYS_UNIT"@));
        lemma_keyword_param("PHYS_UNIT"@);
        lemma_shows_quote(p, "PHYS_UNIT"@, v.phys_unit->Some_0);
        reveal_strlit("PHYS_UNIT");
        assert(is_keyword("PHYS_UNIT"@));
        lemma_keyword_param("PHYS_UNIT"@);
        lemma_string_param(v.phys_unit->Some_0);
        assert(all_params(seq![plain("PHYS_UNIT"@), string(escaped(v.phys_unit->Some_0))]));
        
    } else {
        lemma_shows_nothing(p);
    }
}

proof fn lemma_axis_descr_part_6(v: AxisDescrView, p: Page, f: Setting)
    requires
        AxisDescr::fits(v, f),
        indents_by_blanks(p),
    ensures
        shows(p, axis_descr_page_6(v, p), axis_descr_part_6(v)),
        axis_descr_page_6(v, p).depth == p.depth,
        axis_descr_page_6(v, p).style == p.style,
        all_params(axis_descr_part_6(v)),
{
    reveal(axis_descr_page_6);
    reveal(axis_descr_part_6);
    if v.format is Some {
        reveal_strlit("FORMAT");
        assert(is_keyword("FORMAT"@));
        lemma_keyword_param("FORMAT"@);
        lemma_shows_quote(p, "FORMAT"@, v.format->Some_0);
        reveal_strlit("FORMAT");
        assert(is_keyword("FORMAT"@));
        lemma_keyword_param("FORMAT"@);
        lemma_string_param(v.format->Some_0);
        assert(all_params(seq![plain("FORMAT"@), string(escaped(v.format->Some_0))]));
        
    } else {
        lemma_shows_nothing(p);
    }
}

proof fn lemma_axis_descr_part_5(v: AxisDescrView, p: Page, f: Setting)
    requires
        AxisDescr::fits(v, f),
        indents_by_blanks(p),
    ensures
        shows(p, axis_descr_page_5(v, p), axis_descr_part_5(v)),
        axis_descr_page_5(v, p).depth == p.depth,
        axis_descr_page_5(v, p).style == p.style,
        all_params(axis_descr_part_5(v)),
{
    reveal(axis_descr_page_5);
    reveal(axis_descr_part_5);
    if v.step_size is Some {
        reveal_strlit("STEP_SIZE");
        assert(is_keyword("STEP_SIZE"@));
        lemma_keyword_param("STEP_SIZE"@);
        lemma_shows_word(p, "STEP_SIZE"@, v.step_size->Some_0.text);
        reveal_strlit("STEP_SIZE");
        assert(is_keyword("STEP_SIZE"@));
        lemma_keyword_param("STEP_SIZE"@);
        assert(all_params(seq![plain("STEP_SIZE"@), plain(v.step_size->Some_0.text)]));
        
    } else {
        lemma_shows_nothing(p);
    }
}

proof fn lemma_axis_descr_part_4(v: AxisDescrView, p: Page, f: Setting)
    requires
        AxisDescr::fits(v, f),
        indents_by_blanks(p),
    ensures
        shows(p, axis_descr_page_4(v, p), axis_descr_part_4(v)),
        axis_descr_page_4(v, p).depth == p.depth,
        axis_descr_page_4(v, p).style == p.style,
        all_params(axis_descr_part_4(v)),
{
    reveal(axis_descr_page_4);
    reveal(axis_descr_part_4);
    if v.max_grad is Some {
        reveal_strlit("MAX_GRAD");
        assert(is_keyword("MAX_GRAD"@));
        lemma_keyword_param("MAX_GRAD"@);
        lemma_shows_word(p, "MAX_GRAD"@, v.max_grad->Some_0.text);
        reveal_strlit("MAX_GRAD");
        assert(is_keyword("MAX_GRAD"@));
        lemma_keyword_param("MAX_GRAD"@);
        assert(all_params(seq![plain("MAX_GRAD"@), plain(v.max_grad->Some_0.text)]));
        
    } else {
        lemma_shows_nothing(p);
    }
}

proof fn lemma_axis_descr_part_3(v: AxisDescrView, p: Page, f: Setting)
    requires
        AxisDescr::fits(v, f),
        indents_by_blanks(p),
    ensures
        shows(p, axis_descr_page_3(v, p), axis_descr_part_3(v)),
        axis_descr_page_3(v, p).depth == p.depth,
        axis_descr_page_3(v, p).style == p.style,
        all_params(axis_descr_part_3(v)),
{
    reveal(axis_descr_page_3);
    reveal(axis_descr_part_3);
    if v.extended_limits is Some {
        reveal_strlit("EXTENDED_LIMITS");
        assert(is_keyword("EXTENDED_LIMITS"@));
        lemma_keyword_param("EXTENDED_LIMITS"@);
        let (lo, hi) = v.extended_limits->Some_0;
        reveal_strlit("EXTENDED_LIMITS ");
        reveal_strlit("EXTENDED_LIMITS");
        reveal_strlit(" ");
        assert(
            "EXTENDED_LIMITS "@ + lo.text + " "@ + hi.text =~= "EXTENDED_LIMITS"@ + " "@ + (lo.text + " "@ + hi.text)
        );
        lemma_spells_pair(lo.text, hi.text);
        lemma_shows_tagged(p, "EXTENDED_LIMITS"@, lo.text + " "@ + hi.text, seq![plain(lo.text), plain(hi.text)]);
        assert(
            seq![plain("EXTENDED_LIMITS"@)] + seq![plain(lo.text), plain(hi.text)] =~= seq![
                plain("EXTENDED_LIMITS"@),
                plain(lo.text),
                plain(hi.text)
            ]
        );
        reveal_strlit("EXTENDED_LIMITS");
        assert(is_keyword("EXTENDED_LIMITS"@));
        lemma_keyword_param("EXTENDED_LIMITS"@);
        assert(
            all_params(
                seq![
                    plain("EXTENDED_LIMITS"@),
                    plain(v.extended_limits->Some_0.0.text),
                    plain(v.extended_limits->Some_0.1.text)
                ]
            )
        );
        
    } else {
        lemma_shows_nothing(p);
    }
}

proof fn lemma_axis_descr_part_2(v: AxisDescrView, p: Page, f: Setting)
    requires
        AxisDescr::fits(v, f),
        indents_by_blanks(p),
    ensures
        shows(p, axis_descr_page_2(v, p), axis_descr_part_2(v)),
        axis_descr_page_2(v, p).depth == p.depth,
        axis_descr_page_2(v, p).style == p.style,
        all_params(axis_descr_part_2(v)),
{
    reveal(axis_descr_page_2);
    reveal(axis_descr_part_2);
    if v.read_only {
        reveal_strlit("READ_ONLY");
        assert(is_keyword("READ_ONLY"@));
        lemma_keyword_param("READ_ONLY"@);
        lemma_shows_word_line(p, "READ_ONLY"@);
        reveal_strlit("READ_ONLY");
        assert(is_keyword("READ_ONLY"@));
        lemma_keyword_param("READ_ONLY"@);
        assert(all_params(seq![plain("READ_ONLY"@)]));
        
    } else {
        lemma_shows_nothing(p);
    }
}

proof fn lemma_axis_descr_part_1(v: AxisDescrView, p: Page, f: Setting)
    requires
        AxisDescr::fits(v, f),
        indents_by_blanks(p),
    ensures
        shows(p, axis_descr_page_1(v, p), axis_descr_part_1(v)),
        axis_descr_page_1(v, p).depth == p.depth,
        axis_descr_page_1(v, p).style == p.style,
        all_params(axis_descr_part_1(v)),
{
    reveal(axis_descr_page_1);
    reveal(axis_descr_part_1);
    if v.curve_axis_ref is Some {
        reveal_strlit("CURVE_AXIS_REF");
        assert(is_keyword("CURVE_AXIS_REF"@));
        lemma_keyword_param("CURVE_AXIS_REF"@);
        lemma_shows_word(p, "CURVE_AXIS_REF"@, v.curve_axis_ref->Some_0);
        reveal_strlit("CURVE_AXIS_REF");
        assert(is_keyword("CURVE_AXIS_REF"@));
        lemma_keyword_param("CURVE_AXIS_REF"@);
        assert(all_params(seq![plain("CURVE_AXIS_REF"@), plain(v.curve_axis_ref->Some_0)]));
        
    } else {
        lemma_shows_nothing(p);
    }
}

proof fn lemma_axis_descr_part_0(v: AxisDescrView, p: Page, f: Setting)
    requires
        AxisDescr::fits(v, f),
        indents_by_blanks(p),
    ensures
        shows(p, axis_descr_page_0(v, p), axis_descr_part_0(v)),
        axis_descr_page_0(v, p).depth == p.depth,
        axis_descr_page_0(v, p).style == p.style,
        all_params(axis_descr_part_0(v)),
{
    reveal(axis_descr_page_0);
    reveal(axis_descr_part_0);
    if v.axis_pts_ref is Some {
        reveal_strlit("AXIS_PTS_REF");
        assert(is_keyword("AXIS_PTS_REF"@));
        lemma_keyword_param("AXIS_PTS_REF"@);
        lemma_shows_word(p, "AXIS_PTS_REF"@, v.axis_pts_ref->Some_0);
        reveal_strlit("AXIS_PTS_REF");
        assert(is_keyword("AXIS_PTS_REF"@));
        lemma_keyword_param("AXIS_PTS_REF"@);
        assert(all_params(seq![plain("AXIS_PTS_REF"@), plain(v.axis_pts_ref->Some_0)]));
        
    } else {
        lemma_shows_nothing(p);
    }
}

proof fn lemma_axis_descr_shown_13(v: AxisDescrView, p: Page, f: Setting)
    requires
        AxisDescr::fits(v, f),
        indents_by_blanks(p),
    ensures
        shows(p, axis_descr_pages_13(v, p), axis_descr_from_13(v)),
        axis_descr_pages_13(v, p).depth == p.depth,
        axis_descr_pages_13(v, p).style == p.style,
        all_params(axis_descr_from_13(v)),
{
    lemma_shows_nothing(p);
}

proof fn lemma_axis_descr_shown_12(v: AxisDescrView, p: Page, f: Setting)
    requires
        AxisDescr::fits(v, f),
        indents_by_blanks(p),
    ensures
        shows(p, axis_descr_pages_12(v, p), axis_descr_from_12(v)),
        axis_descr_pages_12(v, p).depth == p.depth,
        axis_descr_pages_12(v, p).style == p.style,
        all_params(axis_descr_from_12(v)),
{
    lemma_axis_descr_part_12(v, p, f);
    let q = axis_descr_page_12(v, p);
    lemma_axis_descr_shown_13(v, q, f);
    lemma_shows_join(p, q, axis_descr_pages_13(v, q), axis_descr_part_12(v), axis_descr_from_13(v));
    lemma_all_params_join(axis_descr_part_12(v), axis_descr_from_13(v));
}

proof fn lemma_axis_descr_shown_11(v: AxisDescrView, p: Page, f: Setting)
    requires
        AxisDescr::fits(v, f),
        indents_by_blanks(p),
    ensures
        shows(p, axis_descr_pages_11(v, p), axis_descr_from_11(v)),
        axis_descr_pages_11(v, p).depth == p.depth,
        axis_descr_pages_11(v, p).style == p.style,
        all_params(axis_descr_from_11(v)),
{
    lemma_axis_descr_part_11(v, p, f);
    let q = axis_descr_page_11(v, p);
    lemma_axis_descr_shown_12(v, q, f);
    lemma_shows_join(p, q, axis_descr_pages_12(v, q), axis_descr_part_11(v), axis_descr_from_12(v));
    lemma_all_params_join(axis_descr_part_11(v), axis_descr_from_12(v));
}

proof fn lemma_axis_descr_shown_10(v: AxisDescrView, p: Page, f: Setting)
    requires
        AxisDescr::fits(v, f),
        indents_by_blanks(p),
    ensures
        shows(p, axis_descr_pages_10(v, p), axis_descr_from_10(v)),
        axis_descr_pages_10(v, p).depth == p.depth,
        axis_descr_pages_10(v, p).style == p.style,
        all_params(axis_descr_from_10(v)),
{
    lemma_axis_descr_part_10(v, p, f);
    let q = axis_descr_page_10(v, p);
    lemma_axis_descr_shown_11(v, q, f);
    lemma_shows_join(p, q, axis_descr_pages_11(v, q), axis_descr_part_10(v), axis_descr_from_11(v));
    lemma_all_params_join(axis_descr_part_10(v), axis_descr_from_11(v));
}

proof fn lemma_axis_descr_shown_9(v: AxisDescrView, p: Page, f: Setting)
    requires
        AxisDescr::fits(v, f),
        indents_by_blanks(p),
    ensures
        shows(p, axis_descr_pages_9(v, p), axis_descr_from_9(v)),
        axis_descr_pages_9(v, p).depth == p.depth,
        axis_descr_pages_9(v, p).style == p.style,
        all_params(axis_descr_from_9(v)),
{
    lemma_axis_descr_part_9(v, p, f);
    let q = axis_descr_page_9(v, p);
    lemma_axis_descr_shown_10(v, q, f);
    lemma_shows_join(p, q, axis_descr_pages_10(v, q), axis_descr_part_9(v), axis_descr_from_10(v));
    lemma_all_params_join(axis_descr_part_9(v), axis_descr_from_10(v));
}

proof fn lemma_axis_descr_shown_8(v: AxisDescrView, p: Page, f: Setting)
    requires
        AxisDescr::fits(v, f),
        indents_by_blanks(p),
    ensures
        shows(p, axis_descr_pages_8(v, p), axis_descr_from_8(v)),
        axis_descr_pages_8(v, p).depth == p.depth,
        axis_descr_pages_8(v, p).style == p.style,
        all_params(axis_descr_from_8(v)),
{
    lemma_axis_descr_part_8(v, p, f);
    let q = axis_descr_page_8(v, p);
    lemma_axis_descr_shown_9(v, q, f);
    lemma_shows_join(p, q, axis_descr_pages_9(v, q), axis_descr_part_8(v), axis_descr_from_9(v));
    lemma_all_params_join(axis_descr_part_8(v), axis_descr_from_9(v));
}

proof fn lemma_axis_descr_shown_7(v: AxisDescrView, p: Page, f: Setting)
    requires
        AxisDescr::fits(v, f),
        indents_by_blanks(p),
    ensures
        shows(p, axis_descr_pages_7(v, p), axis_descr_from_7(v)),
        axis_descr_pages_7(v, p).depth == p.depth,
        axis_descr_pages_7(v, p).style == p.style,
        all_params(axis_descr_from_7(v)),
{
    lemma_axis_descr_part_7(v, p, f);
    let q = axis_descr_page_7(v, p);
    lemma_axis_descr_shown_8(v, q, f);
    lemma_shows_join(p, q, axis_descr_pages_8(v, q), axis_descr_part_7(v), axis_descr_from_8(v));
    lemma_all_params_join(axis_descr_part_7(v), axis_descr_from_8(v));
}

proof fn lemma_axis_descr_shown_6(v: AxisDescrView, p: Page, f: Setting)
    requires
        AxisDescr::fits(v, f),
        indents_by_blanks(p),
    ensures
        shows(p, axis_descr_pages_6(v, p), axis_descr_from_6(v)),
        axis_descr_pages_6(v, p).depth == p.depth,
        axis_descr_pages_6(v, p).style == p.style,
        all_params(axis_descr_from_6(v)),
{
    lemma_axis_descr_part_6(v, p, f);
    let q = axis_descr_page_6(v, p);
    lemma_axis_descr_shown_7(v, q, f);
    lemma_shows_join(p, q, axis_descr_pages_7(v, q), axis_descr_part_6(v), axis_descr_from_7(v));
    lemma_all_params_join(axis_descr_part_6(v), axis_descr_from_7(v));
}

proof fn lemma_axis_descr_shown_5(v: AxisDescrView, p: Page, f: Setting)
    requires
        AxisDescr::fits(v, f),
        indents_by_blanks(p),
    ensures
        shows(p, axis_descr_pages_5(v, p), axis_descr_from_5(v)),
        axis_descr_pages_5(v, p).depth == p.depth,
        axis_descr_pages_5(v, p).style == p.style,
        all_params(axis_descr_from_5(v)),
{
    lemma_axis_descr_part_5(v, p, f);
    let q = axis_descr_page_5(v, p);
    lemma_axis_descr_shown_6(v, q, f);
    lemma_shows_join(p, q, axis_descr_pages_6(v, q), axis_descr_part_5(v), axis_descr_from_6(v));
    lemma_all_params_join(axis_descr_part_5(v), axis_descr_from_6(v));
}

proof fn lemma_axis_descr_shown_4(v: AxisDescrView, p: Page, f: Setting)
    requires
        AxisDescr::fits(v, f),
        indents_by_blanks(p),
    ensures
        shows(p, axis_descr_pages_4(v, p), axis_descr_from_4(v)),
        axis_descr_pages_4(v, p).depth == p.depth,
        axis_descr_pages_4(v, p).style == p.style,
        all_params(axis_descr_from_4(v)),
{
    lemma_axis_descr_part_4(v, p, f);
    let q = axis_descr_page_4(v, p);
    lemma_axis_descr_shown_5(v, q, f);
    lemma_shows_join(p, q, axis_descr_pages_5(v, q), axis_descr_part_4(v), axis_descr_from_5(v));
    lemma_all_params_join(axis_descr_part_4(v), axis_descr_from_5(v));
}

proof fn lemma_axis_descr_shown_3(v: AxisDescrView, p: Page, f: Setting)
    requires
        AxisDescr::fits(v, f),
        indents_by_blanks(p),
    ensures
        shows(p, axis_descr_pages_3(v, p), axis_descr_from_3(v)),
        axis_descr_pages_3(v, p).depth == p.depth,
        axis_descr_pages_3(v, p).style == p.style,
        all_params(axis_descr_from_3(v)),
{
    lemma_axis_descr_part_3(v, p, f);
    let q = axis_descr_page_3(v, p);
    lemma_axis_descr_shown_4(v, q, f);
    lemma_shows_join(p, q, axis_descr_pages_4(v, q), axis_descr_part_3(v), axis_descr_from_4(v));
    lemma_all_params_join(axis_descr_part_3(v), axis_descr_from_4(v));
}

proof fn lemma_axis_descr_shown_2(v: AxisDescrView, p: Page, f: Setting)
    requires
        AxisDescr::fits(v, f),
        indents_by_blanks(p),
    ensures
        shows(p, axis_descr_pages_2(v, p), axis_descr_from_2(v)),
        axis_descr_pages_2(v, p).depth == p.depth,
        axis_descr_pages_2(v, p).style == p.style,
        all_params(axis_descr_from_2(v)),
{
    lemma_axis_descr_part_2(v, p, f);
    let q = axis_descr_page_2(v, p);
    lemma_axis_descr_shown_3(v, q, f);
    lemma_shows_join(p, q, axis_descr_pages_3(v, q), axis_descr_part_2(v), axis_descr_from_3(v));
    lemma_all_params_join(axis_descr_part_2(v), axis_descr_from_3(v));
}

proof fn lemma_axis_descr_shown_1(v: AxisDescrView, p: Page, f: Setting)
    requires
        AxisDescr::fits(v, f),
        indents_by_blanks(p),
    ensures
        shows(p, axis_descr_pages_1(v, p), axis_descr_from_1(v)),
        axis_descr_pages_1(v, p).depth == p.depth,
        axis_descr_pages_1(v, p).style == p.style,
        all_params(axis_descr_from_1(v)),
{
    lemma_axis_descr_part_1(v, p, f);
    let q = axis_descr_page_1(v, p);
    lemma_axis_descr_shown_2(v, q, f);
    lemma_shows_join(p, q, axis_descr_pages_2(v, q), axis_descr_part_1(v), axis_descr_from_2(v));
    lemma_all_params_join(axis_descr_part_1(v), axis_descr_from_2(v));
}

proof fn lemma_axis_descr_shown_0(v: AxisDescrView, p: Page, f: Setting)
    requires
        AxisDescr::fits(v, f),
        indents_by_blanks(p),
    ensures
        shows(p, axis_descr_pages_0(v, p), axis_descr_from_0(v)),
        axis_descr_pages_0(v, p).depth == p.depth,
        axis_descr_pages_0(v, p).style == p.style,
        all_params(axis_descr_from_0(v)),
{
    lemma_axis_descr_part_0(v, p, f);
    let q = axis_descr_page_0(v, p);
    lemma_axis_descr_shown_1(v, q, f);
    lemma_shows_join(p, q, axis_descr_pages_1(v, q), axis_descr_part_0(v), axis_descr_from_1(v));
    lemma_all_params_join(axis_descr_part_0(v), axis_descr_from_1(v));
}

/// What is written for the parameters at the start.
#[verifier::opaque]
pub open spec fn axis_descr_opening(v: AxisDescrView, p0: Page) -> Page {
    let p1 = p0.line(word_or(v.axis_type.word(), "STD_AXIS"@));
    let p2 = p1.line(v.input_quantity);
    let p3 = p2.line(v.conversion);
    let p4 = p3.line(dec_int(v.max_axis_points as int));
    let p5 = p4.line(v.lower_limit.text + " "@ + v.upper_limit.text);
    p5
}

proof fn lemma_axis_descr_opening(v: AxisDescrView, p0: Page, f: Setting)
    requires
        AxisDescr::fits(v, f),
        indents_by_blanks(p0),
    ensures
        shows(
            p0,
            axis_descr_opening(v, p0),
            seq![
                plain(v.axis_type.word()->Some_0),
                plain(v.input_quantity),
                plain(v.conversion),
                plain(dec_int(v.max_axis_points as int)),
                plain(v.lower_limit.text),
                plain(v.upper_limit.text)
            ]
        ),
        axis_descr_opening(v, p0).depth == p0.depth,
        axis_descr_opening(v, p0).style == p0.style,
        all_params(axis_descr_head(v)),
{
    reveal(axis_descr_opening);
    lemma_shows_nothing(p0);
    let x0 = Seq::<Tok>::empty();
    let p1 = p0.line(word_or(v.axis_type.word(), "STD_AXIS"@));
    assert(
        shows(
            p0,
            p1,
            seq![plain(v.axis_type.word()->Some_0)]
        ) && p1.depth == p0.depth && p1.style == p0.style
    ) by {
        let p = p0;
        v.axis_type.lemma_word();
        lemma_shows_word_line(p, v.axis_type.word()->Some_0);
    }
    lemma_shows_join(p0, p0, p1, x0, seq![plain(v.axis_type.word()->Some_0)]);
    let x1 = x0 + seq![plain(v.axis_type.word()->Some_0)];
    let p2 = p1.line(v.input_quantity);
    assert(shows(p1, p2, seq![plain(v.input_quantity)]) && p2.depth == p1.depth && p2.style == p1.style) by {
        let p = p1;
        lemma_shows_word_line(p, v.input_quantity);
    }
    lemma_shows_join(p0, p1, p2, x1, seq![plain(v.input_quantity)]);
    let x2 = x1 + seq![plain(v.input_quantity)];
    let p3 = p2.line(v.conversion);
    assert(shows(p2, p3, seq![plain(v.conversion)]) && p3.depth == p2.depth && p3.style == p2.style) by {
        let p = p2;
        lemma_shows_word_line(p, v.conversion);
    }
    lemma_shows_join(p0, p2, p3, x2, seq![plain(v.conversion)]);
    let x3 = x2 + seq![plain(v.conversion)];
    let p4 = p3.line(dec_int(v.max_axis_points as int));
    assert(
        shows(
            p3,
            p4,
            seq![plain(dec_int(v.max_axis_points as int))]
        ) && p4.depth == p3.depth && p4.style == p3.style
    ) by {
        let p = p3;
        lemma_dec_param(v.max_axis_points as int);
        lemma_shows_word_line(p, dec_int(v.max_axis_points as int));
    }
    lemma_shows_join(p0, p3, p4, x3, seq![plain(dec_int(v.max_axis_points as int))]);
    let x4 = x3 + seq![plain(dec_int(v.max_axis_points as int))];
    let p5 = p4.line(v.lower_limit.text + " "@ + v.upper_limit.text);
    assert(
        shows(
            p4,
            p5,
            seq![plain(v.lower_limit.text), plain(v.upper_limit.text)]
        ) && p5.depth == p4.depth && p5.style == p4.style
    ) by {
        let p = p4;
        lemma_spells_pair(v.lower_limit.text, v.upper_limit.text);
        lemma_shows_line(
            p,
            v.lower_limit.text + " "@ + v.upper_limit.text,
            seq![plain(v.lower_limit.text), plain(v.upper_limit.text)]
        );
    }
    lemma_shows_join(p0, p4, p5, x4, seq![plain(v.lower_limit.text), plain(v.upper_limit.text)]);
    let x5 = x4 + seq![plain(v.lower_limit.text), plain(v.upper_limit.text)];
    assert(
        x5 =~= seq![
            plain(v.axis_type.word()->Some_0),
            plain(v.input_quantity),
            plain(v.conversion),
            plain(dec_int(v.max_axis_points as int)),
            plain(v.lower_limit.text),
            plain(v.upper_limit.text)
        ]
    );
    v.axis_type.lemma_word();
    lemma_dec_param(v.max_axis_points as int);
}

proof fn lemma_axis_descr_body(v: AxisDescrView, p: Page, f: Setting)
    requires
        AxisDescr::fits(v, f),
    ensures
        AxisDescr::body(v, p) == children_written::<AxisDescrChild>(
            v.children,
            0,
            false,
            axis_descr_pages_0(v, axis_descr_opening(v, p))
        ),
{
    reveal(axis_descr_opening);
    let q0 = axis_descr_opening(v, p);
    let q1 = match v.axis_pts_ref { Some(x) if x.len() > 0 => q0.word("AXIS_PTS_REF"@, x), _ => q0 };
    assert(q1 == axis_descr_page_0(v, q0)) by {
        reveal(axis_descr_page_0);
    }
    let q2 = match v.curve_axis_ref { Some(x) if x.len() > 0 => q1.word("CURVE_AXIS_REF"@, x), _ => q1 };
    assert(q2 == axis_descr_page_1(v, q1)) by {
        reveal(axis_descr_page_1);
    }
    let q3 = if v.read_only { q2.line("READ_ONLY"@) } else { q2 };
    assert(q3 == axis_descr_page_2(v, q2)) by {
        reveal(axis_descr_page_2);
    }
    let q4 = match v.extended_limits {
        Some((lo, hi)) => q3.line("EXTENDED_LIMITS "@ + lo.text + " "@ + hi.text),
        None => q3
    };
    assert(q4 == axis_descr_page_3(v, q3)) by {
        reveal(axis_descr_page_3);
    }
    let q5 = match v.max_grad { Some(x) => q4.word("MAX_GRAD"@, x.text), None => q4 };
    assert(q5 == axis_descr_page_4(v, q4)) by {
        reveal(axis_descr_page_4);
    }
    let q6 = match v.step_size { Some(x) => q5.word("STEP_SIZE"@, x.text), None => q5 };
    assert(q6 == axis_descr_page_5(v, q5)) by {
        reveal(axis_descr_page_5);
    }
    let q7 = match v.format { Some(x) if x.len() > 0 => q6.quote("FORMAT"@, x), _ => q6 };
    assert(q7 == axis_descr_page_6(v, q6)) by {
        reveal(axis_descr_page_6);
    }
    let q8 = match v.phys_unit { Some(x) if x.len() > 0 => q7.quote("PHYS_UNIT"@, x), _ => q7 };
    assert(q8 == axis_descr_page_7(v, q7)) by {
        reveal(axis_descr_page_7);
    }
    let q9 = match v.byte_order.word() { Some(kw) => q8.word("BYTE_ORDER"@, kw), None => q8 };
    assert(q9 == axis_descr_page_8(v, q8)) by {
        reveal(axis_descr_page_8);
    }
    let q10 = match v.monotony.word() { Some(kw) => q9.word("MONOTONY"@, kw), None => q9 };
    assert(q10 == axis_descr_page_9(v, q9)) by {
        reveal(axis_descr_page_9);
    }
    let q11 = match v.deposit.word() { Some(kw) => q10.word("DEPOSIT"@, kw), None => q10 };
    assert(q11 == axis_descr_page_10(v, q10)) by {
        reveal(axis_descr_page_10);
    }
    let q12 = match v.fix_axis_par {
        Some(x) => q11.word(
            "FIX_AXIS_PAR"@,
            x.offset.text + " "@ + x.shift.text + " "@ + dec_int(x.numberapo as int)
        ),
        None => q11
    };
    assert(q12 == axis_descr_page_11(v, q11)) by {
        reveal(axis_descr_page_11);
    }
    let q13 = match v.fix_axis_par_dist {
        Some(x) => q12.word(
            "FIX_AXIS_PAR_DIST"@,
            x.offset.text + " "@ + x.distance.text + " "@ + dec_int(x.numberapo as int)
        ),
        None => q12
    };
    assert(q13 == axis_descr_page_12(v, q12)) by {
        reveal(axis_descr_page_12);
    }
}

proof fn lemma_axis_descr_head(v: AxisDescrView, c: Cur, f: Setting)
    requires
        AxisDescr::fits(v, f),
        tokens_at(c.toks, c.pos, axis_descr_head(v)),
        toks_numbered(c.toks, f),
    ensures
        AxisDescr::head(c) == Ok::<(AxisDescrView, Cur), Failure>(
            (
                AxisDescrView {
                    axis_pts_ref: None,
                    curve_axis_ref: None,
                    read_only: false,
                    extended_limits: None,
                    max_grad: None,
                    step_size: None,
                    format: None,
                    phys_unit: None,
                    byte_order: ByteOrder::NotSet,
                    monotony: MonotonyType::NotSet,
                    deposit: DepositType::NotSet,
                    fix_axis_par: None,
                    fix_axis_par_dist: None,
                    children: Seq::empty(),
                    ..v
                },
                Cur { pos: c.pos + 6, ..c }
            ),
        ),
{
    v.axis_type.law_named_of_word();
    law_integer_of_dec(v.max_axis_points as int);
    assert(bare(c.toks[c.pos + 0]) == axis_descr_head(v)[0]);
    assert(bare(c.toks[c.pos + 1]) == axis_descr_head(v)[1]);
    assert(bare(c.toks[c.pos + 2]) == axis_descr_head(v)[2]);
    assert(bare(c.toks[c.pos + 3]) == axis_descr_head(v)[3]);
    assert(bare(c.toks[c.pos + 4]) == axis_descr_head(v)[4]);
    assert(bare(c.toks[c.pos + 5]) == axis_descr_head(v)[5]);
}

proof fn lemma_axis_descr_step_0(w: AxisDescrView, v: AxisDescrView, c: Cur, f: Setting)
    requires
        AxisDescr::fits(v, f),
        v.axis_pts_ref is Some,
        tokens_at(c.toks, c.pos, seq![plain("AXIS_PTS_REF"@), plain(v.axis_pts_ref->Some_0)]),
        toks_numbered(c.toks, f),
    ensures
        AxisDescr::option(w, c) == Ok::<(AxisDescrView, Cur), Failure>(
            (AxisDescrView { axis_pts_ref: v.axis_pts_ref, ..w }, Cur { pos: c.pos + 2, ..c }),
        ),
{
    reveal_strlit("AXIS_PTS_REF");
    lemma_same("AXIS_PTS_REF"@);
    assert(bare(c.toks[c.pos + 0]) == (seq![plain("AXIS_PTS_REF"@), plain(v.axis_pts_ref->Some_0)])[0]);
    assert(bare(c.toks[c.pos + 1]) == (seq![plain("AXIS_PTS_REF"@), plain(v.axis_pts_ref->Some_0)])[1]);
    
}

proof fn lemma_axis_descr_step_1(w: AxisDescrView, v: AxisDescrView, c: Cur, f: Setting)
    requires
        AxisDescr::fits(v, f),
        v.curve_axis_ref is Some,
        tokens_at(c.toks, c.pos, seq![plain("CURVE_AXIS_REF"@), plain(v.curve_axis_ref->Some_0)]),
        toks_numbered(c.toks, f),
    ensures
        AxisDescr::option(w, c) == Ok::<(AxisDescrView, Cur), Failure>(
            (AxisDescrView { curve_axis_ref: v.curve_axis_ref, ..w }, Cur { pos: c.pos + 2, ..c }),
        ),
{
    reveal_strlit("CURVE_AXIS_REF");
    reveal_strlit("AXIS_PTS_REF");
    lemma_differ("CURVE_AXIS_REF"@, "AXIS_PTS_REF"@, 0);
    lemma_same("CURVE_AXIS_REF"@);
    assert(bare(c.toks[c.pos + 0]) == (seq![plain("CURVE_AXIS_REF"@), plain(v.curve_axis_ref->Some_0)])[0]);
    assert(bare(c.toks[c.pos + 1]) == (seq![plain("CURVE_AXIS_REF"@), plain(v.curve_axis_ref->Some_0)])[1]);
    
}

proof fn lemma_axis_descr_step_2(w: AxisDescrView, v: AxisDescrView, c: Cur, f: Setting)
    requires
        AxisDescr::fits(v, f),
        v.read_only,
        tokens_at(c.toks, c.pos, seq![plain("READ_ONLY"@)]),
        toks_numbered(c.toks, f),
    ensures
        AxisDescr::option(w, c) == Ok::<(AxisDescrView, Cur), Failure>(
            (AxisDescrView { read_only: v.read_only, ..w }, Cur { pos: c.pos + 1, ..c }),
        ),
{
    reveal_strlit("READ_ONLY");
    reveal_strlit("AXIS_PTS_REF");
    lemma_differ("READ_ONLY"@, "AXIS_PTS_REF"@, 0);
    reveal_strlit("CURVE_AXIS_REF");
    lemma_differ("READ_ONLY"@, "CURVE_AXIS_REF"@, 0);
    lemma_same("READ_ONLY"@);
    assert(bare(c.toks[c.pos + 0]) == (seq![plain("READ_ONLY"@)])[0]);
    
}

proof fn lemma_axis_descr_step_3(w: AxisDescrView, v: AxisDescrView, c: Cur, f: Setting)
    requires
        AxisDescr::fits(v, f),
        v.extended_limits is Some,
        tokens_at(
            c.toks,
            c.pos,
            seq![
                plain("EXTENDED_LIMITS"@),
                plain(v.extended_limits->Some_0.0.text),
                plain(v.extended_limits->Some_0.1.text)
            ]
        ),
        toks_numbered(c.toks, f),
    ensures
        AxisDescr::option(w, c) == Ok::<(AxisDescrView, Cur), Failure>(
            (AxisDescrView { extended_limits: v.extended_limits, ..w }, Cur { pos: c.pos + 3, ..c }),
        ),
{
    reveal_strlit("EXTENDED_LIMITS");
    reveal_strlit("AXIS_PTS_REF");
    lemma_differ("EXTENDED_LIMITS"@, "AXIS_PTS_REF"@, 0);
    reveal_strlit("CURVE_AXIS_REF");
    lemma_differ("EXTENDED_LIMITS"@, "CURVE_AXIS_REF"@, 0);
    reveal_strlit("READ_ONLY");
    lemma_differ("EXTENDED_LIMITS"@, "READ_ONLY"@, 0);
    lemma_same("EXTENDED_LIMITS"@);
    assert(
        bare(c.toks[c.pos + 0]) == (
            seq![
                plain("EXTENDED_LIMITS"@),
                plain(v.extended_limits->Some_0.0.text),
                plain(v.extended_limits->Some_0.1.text)
            ]
        )[0]
    );
    assert(
        bare(c.toks[c.pos + 1]) == (
            seq![
                plain("EXTENDED_LIMITS"@),
                plain(v.extended_limits->Some_0.0.text),
                plain(v.extended_limits->Some_0.1.text)
            ]
        )[1]
    );
    assert(
        bare(c.toks[c.pos + 2]) == (
            seq![
                plain("EXTENDED_LIMITS"@),
                plain(v.extended_limits->Some_0.0.text),
                plain(v.extended_limits->Some_0.1.text)
            ]
        )[2]
    );
    
}

proof fn lemma_axis_descr_step_4(w: AxisDescrView, v: AxisDescrView, c: Cur, f: Setting)
    requires
        AxisDescr::fits(v, f),
        v.max_grad is Some,
        tokens_at(c.toks, c.pos, seq![plain("MAX_GRAD"@), plain(v.max_grad->Some_0.text)]),
        toks_numbered(c.toks, f),
    ensures
        AxisDescr::option(w, c) == Ok::<(AxisDescrView, Cur), Failure>(
            (AxisDescrView { max_grad: v.max_grad, ..w }, Cur { pos: c.pos + 2, ..c }),
        ),
{
    reveal_strlit("MAX_GRAD");
    reveal_strlit("AXIS_PTS_REF");
    lemma_differ("MAX_GRAD"@, "AXIS_PTS_REF"@, 0);
    reveal_strlit("CURVE_AXIS_REF");
    lemma_differ("MAX_GRAD"@, "CURVE_AXIS_REF"@, 0);
    reveal_strlit("READ_ONLY");
    lemma_differ("MAX_GRAD"@, "READ_ONLY"@, 0);
    reveal_strlit("EXTENDED_LIMITS");
    lemma_differ("MAX_GRAD"@, "EXTENDED_LIMITS"@, 0);
    lemma_same("MAX_GRAD"@);
    assert(bare(c.toks[c.pos + 0]) == (seq![plain("MAX_GRAD"@), plain(v.max_grad->Some_0.text)])[0]);
    assert(bare(c.toks[c.pos + 1]) == (seq![plain("MAX_GRAD"@), plain(v.max_grad->Some_0.text)])[1]);
    
}

proof fn lemma_axis_descr_step_5(w: AxisDescrView, v: AxisDescrView, c: Cur, f: Setting)
    requires
        AxisDescr::fits(v, f),
        v.step_size is Some,
        tokens_at(c.toks, c.pos, seq![plain("STEP_SIZE"@), plain(v.step_size->Some_0.text)]),
        toks_numbered(c.toks, f),
    ensures
        AxisDescr::option(w, c) == Ok::<(AxisDescrView, Cur), Failure>(
            (AxisDescrView { step_size: v.step_size, ..w }, Cur { pos: c.pos + 2, ..c }),
        ),
{
    reveal_strlit("STEP_SIZE");
    reveal_strlit("AXIS_PTS_REF");
    lemma_differ("STEP_SIZE"@, "AXIS_PTS_REF"@, 0);
    reveal_strlit("CURVE_AXIS_REF");
    lemma_differ("STEP_SIZE"@, "CURVE_AXIS_REF"@, 0);
    reveal_strlit("READ_ONLY");
    lemma_differ("STEP_SIZE"@, "READ_ONLY"@, 0);
    reveal_strlit("EXTENDED_LIMITS");
    lemma_differ("STEP_SIZE"@, "EXTENDED_LIMITS"@, 0);
    reveal_strlit("MAX_GRAD");
    lemma_differ("STEP_SIZE"@, "MAX_GRAD"@, 0);
    lemma_same("STEP_SIZE"@);
    assert(bare(c.toks[c.pos + 0]) == (seq![plain("STEP_SIZE"@), plain(v.step_size->Some_0.text)])[0]);
    assert(bare(c.toks[c.pos + 1]) == (seq![plain("STEP_SIZE"@), plain(v.step_size->Some_0.text)])[1]);
    
}

proof fn lemma_axis_descr_step_6(w: AxisDescrView, v: AxisDescrView, c: Cur, f: Setting)
    requires
        AxisDescr::fits(v, f),
        v.format is Some,
        tokens_at(c.toks, c.pos, seq![plain("FORMAT"@), string(escaped(v.format->Some_0))]),
        toks_numbered(c.toks, f),
    ensures
        AxisDescr::option(w, c) == Ok::<(AxisDescrView, Cur), Failure>(
            (AxisDescrView { format: v.format, ..w }, Cur { pos: c.pos + 2, ..c }),
        ),
{
    reveal_strlit("FORMAT");
    reveal_strlit("AXIS_PTS_REF");
    lemma_differ("FORMAT"@, "AXIS_PTS_REF"@, 0);
    reveal_strlit("CURVE_AXIS_REF");
    lemma_differ("FORMAT"@, "CURVE_AXIS_REF"@, 0);
    reveal_strlit("READ_ONLY");
    lemma_differ("FORMAT"@, "READ_ONLY"@, 0);
    reveal_strlit("EXTENDED_LIMITS");
    lemma_differ("FORMAT"@, "EXTENDED_LIMITS"@, 0);
    reveal_strlit("MAX_GRAD");
    lemma_differ("FORMAT"@, "MAX_GRAD"@, 0);
    reveal_strlit("STEP_SIZE");
    lemma_differ("FORMAT"@, "STEP_SIZE"@, 0);
    lemma_same("FORMAT"@);
    assert(bare(c.toks[c.pos + 0]) == (seq![plain("FORMAT"@), string(escaped(v.format->Some_0))])[0]);
    assert(bare(c.toks[c.pos + 1]) == (seq![plain("FORMAT"@), string(escaped(v.format->Some_0))])[1]);
    law_unescaped_of_escaped(v.format->Some_0);
}

proof fn lemma_axis_descr_step_7(w: AxisDescrView, v: AxisDescrView, c: Cur, f: Setting)
    requires
        AxisDescr::fits(v, f),
        v.phys_unit is Some,
        tokens_at(c.toks, c.pos, seq![plain("PHYS_UNIT"@), string(escaped(v.phys_unit->Some_0))]),
        toks_numbered(c.toks, f),
    ensures
        AxisDescr::option(w, c) == Ok::<(AxisDescrView, Cur), Failure>(
            (AxisDescrView { phys_unit: v.phys_unit, ..w }, Cur { pos: c.pos + 2, ..c }),
        ),
{
    reveal_strlit("PHYS_UNIT");
    reveal_strlit("AXIS_PTS_REF");
    lemma_differ("PHYS_UNIT"@, "AXIS_PTS_REF"@, 0);
    reveal_strlit("CURVE_AXIS_REF");
    lemma_differ("PHYS_UNIT"@, "CURVE_AXIS_REF"@, 0);
    reveal_strlit("READ_ONLY");
    lemma_differ("PHYS_UNIT"@, "READ_ONLY"@, 0);
    reveal_strlit("EXTENDED_LIMITS");
    lemma_differ("PHYS_UNIT"@, "EXTENDED_LIMITS"@, 0);
    reveal_strlit("MAX_GRAD");
    lemma_differ("PHYS_UNIT"@, "MAX_GRAD"@, 0);
    reveal_strlit("STEP_SIZE");
    lemma_differ("PHYS_UNIT"@, "STEP_SIZE"@, 0);
    reveal_strlit("FORMAT");
    lemma_differ("PHYS_UNIT"@, "FORMAT"@, 0);
    lemma_same("PHYS_UNIT"@);
    assert(bare(c.toks[c.pos + 0]) == (seq![plain("PHYS_UNIT"@), string(escaped(v.phys_unit->Some_0))])[0]);
    assert(bare(c.toks[c.pos + 1]) == (seq![plain("PHYS_UNIT"@), string(escaped(v.phys_unit->Some_0))])[1]);
    law_unescaped_of_escaped(v.phys_unit->Some_0);
}

proof fn lemma_axis_descr_step_8(w: AxisDescrView, v: AxisDescrView, c: Cur, f: Setting)
    requires
        AxisDescr::fits(v, f),
        v.byte_order.word() is Some,
        tokens_at(c.toks, c.pos, seq![plain("BYTE_ORDER"@), plain(v.byte_order.word()->Some_0)]),
        toks_numbered(c.toks, f),
    ensures
        AxisDescr::option(w, c) == Ok::<(AxisDescrView, Cur), Failure>(
            (AxisDescrView { byte_order: v.byte_order, ..w }, Cur { pos: c.pos + 2, ..c }),
        ),
{
    reveal_strlit("BYTE_ORDER");
    reveal_strlit("AXIS_PTS_REF");
    lemma_differ("BYTE_ORDER"@, "AXIS_PTS_REF"@, 0);
    reveal_strlit("CURVE_AXIS_REF");
    lemma_differ("BYTE_ORDER"@, "CURVE_AXIS_REF"@, 0);
    reveal_strlit("READ_ONLY");
    lemma_differ("BYTE_ORDER"@, "READ_ONLY"@, 0);
    reveal_strlit("EXTENDED_LIMITS");
    lemma_differ("BYTE_ORDER"@, "EXTENDED_LIMITS"@, 0);
    reveal_strlit("MAX_GRAD");
    lemma_differ("BYTE_ORDER"@, "MAX_GRAD"@, 0);
    reveal_strlit("STEP_SIZE");
    lemma_differ("BYTE_ORDER"@, "STEP_SIZE"@, 0);
    reveal_strlit("FORMAT");
    lemma_differ("BYTE_ORDER"@, "FORMAT"@, 0);
    reveal_strlit("PHYS_UNIT");
    lemma_differ("BYTE_ORDER"@, "PHYS_UNIT"@, 0);
    lemma_same("BYTE_ORDER"@);
    assert(bare(c.toks[c.pos + 0]) == (seq![plain("BYTE_ORDER"@), plain(v.byte_order.word()->Some_0)])[0]);
    assert(bare(c.toks[c.pos + 1]) == (seq![plain("BYTE_ORDER"@), plain(v.byte_order.word()->Some_0)])[1]);
    v.byte_order.law_named_of_word();
    v.byte_order.lemma_word();
}

proof fn lemma_axis_descr_step_9(w: AxisDescrView, v: AxisDescrView, c: Cur, f: Setting)
    requires
        AxisDescr::fits(v, f),
        v.monotony.word() is Some,
        tokens_at(c.toks, c.pos, seq![plain("MONOTONY"@), plain(v.monotony.word()->Some_0)]),
        toks_numbered(c.toks, f),
    ensures
        AxisDescr::option(w, c) == Ok::<(AxisDescrView, Cur), Failure>(
            (AxisDescrView { monotony: v.monotony, ..w }, Cur { pos: c.pos + 2, ..c }),
        ),
{
    reveal_strlit("MONOTONY");
    reveal_strlit("AXIS_PTS_REF");
    lemma_differ("MONOTONY"@, "AXIS_PTS_REF"@, 0);
    reveal_strlit("CURVE_AXIS_REF");
    lemma_differ("MONOTONY"@, "CURVE_AXIS_REF"@, 0);
    reveal_strlit("READ_ONLY");
    lemma_differ("MONOTONY"@, "READ_ONLY"@, 0);
    reveal_strlit("EXTENDED_LIMITS");
    lemma_differ("MONOTONY"@, "EXTENDED_LIMITS"@, 0);
    reveal_strlit("MAX_GRAD");
    lemma_differ("MONOTONY"@, "MAX_GRAD"@, 1);
    reveal_strlit("STEP_SIZE");
    lemma_differ("MONOTONY"@, "STEP_SIZE"@, 0);
    reveal_strlit("FORMAT");
    lemma_differ("MONOTONY"@, "FORMAT"@, 0);
    reveal_strlit("PHYS_UNIT");
    lemma_differ("MONOTONY"@, "PHYS_UNIT"@, 0);
    reveal_strlit("BYTE_ORDER");
    lemma_differ("MONOTONY"@, "BYTE_ORDER"@, 0);
    lemma_same("MONOTONY"@);
    assert(bare(c.toks[c.pos + 0]) == (seq![plain("MONOTONY"@), plain(v.monotony.word()->Some_0)])[0]);
    assert(bare(c.toks[c.pos + 1]) == (seq![plain("MONOTONY"@), plain(v.monotony.word()->Some_0)])[1]);
    v.monotony.law_named_of_word();
    v.monotony.lemma_word();
}

proof fn lemma_axis_descr_step_10(w: AxisDescrView, v: AxisDescrView, c: Cur, f: Setting)
    requires
        AxisDescr::fits(v, f),
        v.deposit.word() is Some,
        tokens_at(c.toks, c.pos, seq![plain("DEPOSIT"@), plain(v.deposit.word()->Some_0)]),
        toks_numbered(c.toks, f),
    ensures
        AxisDescr::option(w, c) == Ok::<(AxisDescrView, Cur), Failure>(
            (AxisDescrView { deposit: v.deposit, ..w }, Cur { pos: c.pos + 2, ..c }),
        ),
{
    reveal_strlit("DEPOSIT");
    reveal_strlit("AXIS_PTS_REF");
    lemma_differ("DEPOSIT"@, "AXIS_PTS_REF"@, 0);
    reveal_strlit("CURVE_AXIS_REF");
    lemma_differ("DEPOSIT"@, "CURVE_AXIS_REF"@, 0);
    reveal_strlit("READ_ONLY");
    lemma_differ("DEPOSIT"@, "READ_ONLY"@, 0);
    reveal_strlit("EXTENDED_LIMITS");
    lemma_differ("DEPOSIT"@, "EXTENDED_LIMITS"@, 0);
    reveal_strlit("MAX_GRAD");
    lemma_differ("DEPOSIT"@, "MAX_GRAD"@, 0);
    reveal_strlit("STEP_SIZE");
    lemma_differ("DEPOSIT"@, "STEP_SIZE"@, 0);
    reveal_strlit("FORMAT");
    lemma_differ("DEPOSIT"@, "FORMAT"@, 0);
    reveal_strlit("PHYS_UNIT");
    lemma_differ("DEPOSIT"@, "PHYS_UNIT"@, 0);
    reveal_strlit("BYTE_ORDER");
    lemma_differ("DEPOSIT"@, "BYTE_ORDER"@, 0);
    reveal_strlit("MONOTONY");
    lemma_differ("DEPOSIT"@, "MONOTONY"@, 0);
    lemma_same("DEPOSIT"@);
    assert(bare(c.toks[c.pos + 0]) == (seq![plain("DEPOSIT"@), plain(v.deposit.word()->Some_0)])[0]);
    assert(bare(c.toks[c.pos + 1]) == (seq![plain("DEPOSIT"@), plain(v.deposit.word()->Some_0)])[1]);
    v.deposit.law_named_of_word();
    v.deposit.lemma_word();
}

proof fn lemma_axis_descr_step_11(w: AxisDescrView, v: AxisDescrView, c: Cur, f: Setting)
    requires
        AxisDescr::fits(v, f),
        v.fix_axis_par is Some,
        tokens_at(
            c.toks,
            c.pos,
            seq![
                plain("FIX_AXIS_PAR"@),
                plain(v.fix_axis_par->Some_0.offset.text),
                plain(v.fix_axis_par->Some_0.shift.text),
                plain(dec_int(v.fix_axis_par->Some_0.numberapo as int))
            ]
        ),
        toks_numbered(c.toks, f),
    ensures
        AxisDescr::option(w, c) == Ok::<(AxisDescrView, Cur), Failure>(
            (AxisDescrView { fix_axis_par: v.fix_axis_par, ..w }, Cur { pos: c.pos + 4, ..c }),
        ),
{
    reveal_strlit("FIX_AXIS_PAR");
    reveal_strlit("AXIS_PTS_REF");
    lemma_differ("FIX_AXIS_PAR"@, "AXIS_PTS_REF"@, 0);
    reveal_strlit("CURVE_AXIS_REF");
    lemma_differ("FIX_AXIS_PAR"@, "CURVE_AXIS_REF"@, 0);
    reveal_strlit("READ_ONLY");
    lemma_differ("FIX_AXIS_PAR"@, "READ_ONLY"@, 0);
    reveal_strlit("EXTENDED_LIMITS");
    lemma_differ("FIX_AXIS_PAR"@, "EXTENDED_LIMITS"@, 0);
    reveal_strlit("MAX_GRAD");
    lemma_differ("FIX_AXIS_PAR"@, "MAX_GRAD"@, 0);
    reveal_strlit("STEP_SIZE");
    lemma_differ("FIX_AXIS_PAR"@, "STEP_SIZE"@, 0);
    reveal_strlit("FORMAT");
    lemma_differ("FIX_AXIS_PAR"@, "FORMAT"@, 0);
    reveal_strlit("PHYS_UNIT");
    lemma_differ("FIX_AXIS_PAR"@, "PHYS_UNIT"@, 0);
    reveal_strlit("BYTE_ORDER");
    lemma_differ("FIX_AXIS_PAR"@, "BYTE_ORDER"@, 0);
    reveal_strlit("MONOTONY");
    lemma_differ("FIX_AXIS_PAR"@, "MONOTONY"@, 0);
    reveal_strlit("DEPOSIT");
    lemma_differ("FIX_AXIS_PAR"@, "DEPOSIT"@, 0);
    lemma_same("FIX_AXIS_PAR"@);
    assert(
        bare(c.toks[c.pos + 0]) == (
            seq![
                plain("FIX_AXIS_PAR"@),
                plain(v.fix_axis_par->Some_0.offset.text),
                plain(v.fix_axis_par->Some_0.shift.text),
                plain(dec_int(v.fix_axis_par->Some_0.numberapo as int))
            ]
        )[0]
    );
    assert(
        bare(c.toks[c.pos + 1]) == (
            seq![
                plain("FIX_AXIS_PAR"@),
                plain(v.fix_axis_par->Some_0.offset.text),
                plain(v.fix_axis_par->Some_0.shift.text),
                plain(dec_int(v.fix_axis_par->Some_0.numberapo as int))
            ]
        )[1]
    );
    assert(
        bare(c.toks[c.pos + 2]) == (
            seq![
                plain("FIX_AXIS_PAR"@),
                plain(v.fix_axis_par->Some_0.offset.text),
                plain(v.fix_axis_par->Some_0.shift.text),
                plain(dec_int(v.fix_axis_par->Some_0.numberapo as int))
            ]
        )[2]
    );
    assert(
        bare(c.toks[c.pos + 3]) == (
            seq![
                plain("FIX_AXIS_PAR"@),
                plain(v.fix_axis_par->Some_0.offset.text),
                plain(v.fix_axis_par->Some_0.shift.text),
                plain(dec_int(v.fix_axis_par->Some_0.numberapo as int))
            ]
        )[3]
    );
    law_integer_of_dec(v.fix_axis_par->Some_0.numberapo as int);
}

proof fn lemma_axis_descr_step_12(w: AxisDescrView, v: AxisDescrView, c: Cur, f: Setting)
    requires
        AxisDescr::fits(v, f),
        v.fix_axis_par_dist is Some,
        tokens_at(
            c.toks,
            c.pos,
            seq![
                plain("FIX_AXIS_PAR_DIST"@),
                plain(v.fix_axis_par_dist->Some_0.offset.text),
                plain(v.fix_axis_par_dist->Some_0.distance.text),
                plain(dec_int(v.fix_axis_par_dist->Some_0.numberapo as int))
            ]
        ),
        toks_numbered(c.toks, f),
    ensures
        AxisDescr::option(w, c) == Ok::<(AxisDescrView, Cur), Failure>(
            (AxisDescrView { fix_axis_par_dist: v.fix_axis_par_dist, ..w }, Cur { pos: c.pos + 4, ..c }),
        ),
{
    reveal_strlit("FIX_AXIS_PAR_DIST");
    reveal_strlit("AXIS_PTS_REF");
    lemma_differ("FIX_AXIS_PAR_DIST"@, "AXIS_PTS_REF"@, 0);
    reveal_strlit("CURVE_AXIS_REF");
    lemma_differ("FIX_AXIS_PAR_DIST"@, "CURVE_AXIS_REF"@, 0);
    reveal_strlit("READ_ONLY");
    lemma_differ("FIX_AXIS_PAR_DIST"@, "READ_ONLY"@, 0);
    reveal_strlit("EXTENDED_LIMITS");
    lemma_differ("FIX_AXIS_PAR_DIST"@, "EXTENDED_LIMITS"@, 0);
    reveal_strlit("MAX_GRAD");
    lemma_differ("FIX_AXIS_PAR_DIST"@, "MAX_GRAD"@, 0);
    reveal_strlit("STEP_SIZE");
    lemma_differ("FIX_AXIS_PAR_DIST"@, "STEP_SIZE"@, 0);
    reveal_strlit("FORMAT");
    lemma_differ("FIX_AXIS_PAR_DIST"@, "FORMAT"@, 0);
    reveal_strlit("PHYS_UNIT");
    lemma_differ("FIX_AXIS_PAR_DIST"@, "PHYS_UNIT"@, 0);
    reveal_strlit("BYTE_ORDER");
    lemma_differ("FIX_AXIS_PAR_DIST"@, "BYTE_ORDER"@, 0);
    reveal_strlit("MONOTONY");
    lemma_differ("FIX_AXIS_PAR_DIST"@, "MONOTONY"@, 0);
    reveal_strlit("DEPOSIT");
    lemma_differ("FIX_AXIS_PAR_DIST"@, "DEPOSIT"@, 0);
    reveal_strlit("FIX_AXIS_PAR");
    lemma_differ("FIX_AXIS_PAR_DIST"@, "FIX_AXIS_PAR"@, 0);
    lemma_same("FIX_AXIS_PAR_DIST"@);
    assert(
        bare(c.toks[c.pos + 0]) == (
            seq![
                plain("FIX_AXIS_PAR_DIST"@),
                plain(v.fix_axis_par_dist->Some_0.offset.text),
                plain(v.fix_axis_par_dist->Some_0.distance.text),
                plain(dec_int(v.fix_axis_par_dist->Some_0.numberapo as int))
            ]
        )[0]
    );
    assert(
        bare(c.toks[c.pos + 1]) == (
            seq![
                plain("FIX_AXIS_PAR_DIST"@),
                plain(v.fix_axis_par_dist->Some_0.offset.text),
                plain(v.fix_axis_par_dist->Some_0.distance.text),
                plain(dec_int(v.fix_axis_par_dist->Some_0.numberapo as int))
            ]
        )[1]
    );
    assert(
        bare(c.toks[c.pos + 2]) == (
            seq![
                plain("FIX_AXIS_PAR_DIST"@),
                plain(v.fix_axis_par_dist->Some_0.offset.text),
                plain(v.fix_axis_par_dist->Some_0.distance.text),
                plain(dec_int(v.fix_axis_par_dist->Some_0.numberapo as int))
            ]
        )[2]
    );
    assert(
        bare(c.toks[c.pos + 3]) == (
            seq![
                plain("FIX_AXIS_PAR_DIST"@),
                plain(v.fix_axis_par_dist->Some_0.offset.text),
                plain(v.fix_axis_par_dist->Some_0.distance.text),
                plain(dec_int(v.fix_axis_par_dist->Some_0.numberapo as int))
            ]
        )[3]
    );
    law_integer_of_dec(v.fix_axis_par_dist->Some_0.numberapo as int);
}

proof fn lemma_axis_descr_read_13(v: AxisDescrView, c: Cur, f: Setting)
    requires
        AxisDescr::fits(v, f),
        tokens_at(c.toks, c.pos, axis_descr_from_13(v)),
        c.pos + axis_descr_from_13(v).len() == c.toks.len(),
        toks_numbered(c.toks, f),
    ensures
        AxisDescr::options(
            AxisDescrView { children: Seq::empty(), ..v },
            c
        ) matches Ok((w, _)) && w == (AxisDescrView { children: Seq::empty(), ..v }),
{
}

proof fn lemma_axis_descr_read_12(v: AxisDescrView, c: Cur, f: Setting)
    requires
        AxisDescr::fits(v, f),
        tokens_at(c.toks, c.pos, axis_descr_from_12(v)),
        c.pos + axis_descr_from_12(v).len() == c.toks.len(),
        toks_numbered(c.toks, f),
    ensures
        AxisDescr::options(
            AxisDescrView { fix_axis_par_dist: None, children: Seq::empty(), ..v },
            c
        ) matches Ok((w, _)) && w == (AxisDescrView { children: Seq::empty(), ..v }),
{
    reveal(axis_descr_part_12);
    let t = axis_descr_part_12(v);
    if v.fix_axis_par_dist is Some {
        lemma_tokens_at_split(c.toks, c.pos, t, axis_descr_from_13(v));
        let c2 = Cur { pos: c.pos + 4, ..c };
        lemma_axis_descr_step_12(AxisDescrView { fix_axis_par_dist: None, children: Seq::empty(), ..v }, v, c, f);
        lemma_axis_descr_read_13(v, c2, f);
    } else {
        assert(t + axis_descr_from_13(v) =~= axis_descr_from_13(v));
        lemma_axis_descr_read_13(v, c, f);
    }
}

proof fn lemma_axis_descr_read_11(v: AxisDescrView, c: Cur, f: Setting)
    requires
        AxisDescr::fits(v, f),
        tokens_at(c.toks, c.pos, axis_descr_from_11(v)),
        c.pos + axis_descr_from_11(v).len() == c.toks.len(),
        toks_numbered(c.toks, f),
    ensures
        AxisDescr::options(
            AxisDescrView {
                fix_axis_par: None,
                fix_axis_par_dist: None,
                children: Seq::empty(),
                ..v
            },
            c
        ) matches Ok((w, _)) && w == (AxisDescrView { children: Seq::empty(), ..v }),
{
    reveal(axis_descr_part_11);
    let t = axis_descr_part_11(v);
    if v.fix_axis_par is Some {
        lemma_tokens_at_split(c.toks, c.pos, t, axis_descr_from_12(v));
        let c2 = Cur { pos: c.pos + 4, ..c };
        lemma_axis_descr_step_11(
            AxisDescrView {
                fix_axis_par: None,
                fix_axis_par_dist: None,
                children: Seq::empty(),
                ..v
            },
            v,
            c,
            f
        );
        lemma_axis_descr_read_12(v, c2, f);
    } else {
        assert(t + axis_descr_from_12(v) =~= axis_descr_from_12(v));
        lemma_axis_descr_read_12(v, c, f);
    }
}

proof fn lemma_axis_descr_read_10(v: AxisDescrView, c: Cur, f: Setting)
    requires
        AxisDescr::fits(v, f),
        tokens_at(c.toks, c.pos, axis_descr_from_10(v)),
        c.pos + axis_descr_from_10(v).len() == c.toks.len(),
        toks_numbered(c.toks, f),
    ensures
        AxisDescr::options(
            AxisDescrView {
                deposit: DepositType::NotSet,
                fix_axis_par: None,
                fix_axis_par_dist: None,
                children: Seq::empty(),
                ..v
            },
            c
        ) matches Ok((w, _)) && w == (AxisDescrView { children: Seq::empty(), ..v }),
{
    reveal(axis_descr_part_10);
    let t = axis_descr_part_10(v);
    if v.deposit.word() is Some {
        lemma_tokens_at_split(c.toks, c.pos, t, axis_descr_from_11(v));
        let c2 = Cur { pos: c.pos + 2, ..c };
        lemma_axis_descr_step_10(
            AxisDescrView {
                deposit: DepositType::NotSet,
                fix_axis_par: None,
                fix_axis_par_dist: None,
                children: Seq::empty(),
                ..v
            },
            v,
            c,
            f
        );
        lemma_axis_descr_read_11(v, c2, f);
    } else {
        assert(t + axis_descr_from_11(v) =~= axis_descr_from_11(v));
        lemma_axis_descr_read_11(v, c, f);
    }
}

proof fn lemma_axis_descr_read_9(v: AxisDescrView, c: Cur, f: Setting)
    requires
        AxisDescr::fits(v, f),
        tokens_at(c.toks, c.pos, axis_descr_from_9(v)),
        c.pos + axis_descr_from_9(v).len() == c.toks.len(),
        toks_numbered(c.toks, f),
    ensures
        AxisDescr::options(
            AxisDescrView {
                monotony: MonotonyType::NotSet,
                deposit: DepositType::NotSet,
                fix_axis_par: None,
                fix_axis_par_dist: None,
                children: Seq::empty(),
                ..v
            },
            c
        ) matches Ok((w, _)) && w == (AxisDescrView { children: Seq::empty(), ..v }),
{
    reveal(axis_descr_part_9);
    let t = axis_descr_part_9(v);
    if v.monotony.word() is Some {
        lemma_tokens_at_split(c.toks, c.pos, t, axis_descr_from_10(v));
        let c2 = Cur { pos: c.pos + 2, ..c };
        lemma_axis_descr_step_9(
            AxisDescrView {
                monotony: MonotonyType::NotSet,
                deposit: DepositType::NotSet,
                fix_axis_par: None,
                fix_axis_par_dist: None,
                children: Seq::empty(),
                ..v
            },
            v,
            c,
            f
        );
        lemma_axis_descr_read_10(v, c2, f);
    } else {
        assert(t + axis_descr_from_10(v) =~= axis_descr_from_10(v));
        lemma_axis_descr_read_10(v, c, f);
    }
}

proof fn lemma_axis_descr_read_8(v: AxisDescrView, c: Cur, f: Setting)
    requires
        AxisDescr::fits(v, f),
        tokens_at(c.toks, c.pos, axis_descr_from_8(v)),
        c.pos + axis_descr_from_8(v).len() == c.toks.len(),
        toks_numbered(c.toks, f),
    ensures
        AxisDescr::options(
            AxisDescrView {
                byte_order: ByteOrder::NotSet,
                monotony: MonotonyType::NotSet,
                deposit: DepositType::NotSet,
                fix_axis_par: None,
                fix_axis_par_dist: None,
                children: Seq::empty(),
                ..v
            },
            c
        ) matches Ok((w, _)) && w == (AxisDescrView { children: Seq::empty(), ..v }),
{
    reveal(axis_descr_part_8);
    let t = axis_descr_part_8(v);
    if v.byte_order.word() is Some {
        lemma_tokens_at_split(c.toks, c.pos, t, axis_descr_from_9(v));
        let c2 = Cur { pos: c.pos + 2, ..c };
        lemma_axis_descr_step_8(
            AxisDescrView {
                byte_order: ByteOrder::NotSet,
                monotony: MonotonyType::NotSet,
                deposit: DepositType::NotSet,
                fix_axis_par: None,
                fix_axis_par_dist: None,
                children: Seq::empty(),
                ..v
            },
            v,
            c,
            f
        );
        lemma_axis_descr_read_9(v, c2, f);
    } else {
        assert(t + axis_descr_from_9(v) =~= axis_descr_from_9(v));
        lemma_axis_descr_read_9(v, c, f);
    }
}

proof fn lemma_axis_descr_read_7(v: AxisDescrView, c: Cur, f: Setting)
    requires
        AxisDescr::fits(v, f),
        tokens_at(c.toks, c.pos, axis_descr_from_7(v)),
        c.pos + axis_descr_from_7(v).len() == c.toks.len(),
        toks_numbered(c.toks, f),
    ensures
        AxisDescr::options(
            AxisDescrView {
                phys_unit: None,
                byte_order: ByteOrder::NotSet,
                monotony: MonotonyType::NotSet,
                deposit: DepositType::NotSet,
                fix_axis_par: None,
                fix_axis_par_dist: None,
                children: Seq::empty(),
                ..v
            },
            c
        ) matches Ok((w, _)) && w == (AxisDescrView { children: Seq::empty(), ..v }),
{
    reveal(axis_descr_part_7);
    let t = axis_descr_part_7(v);
    if v.phys_unit is Some {
        lemma_tokens_at_split(c.toks, c.pos, t, axis_descr_from_8(v));
        let c2 = Cur { pos: c.pos + 2, ..c };
        lemma_axis_descr_step_7(
            AxisDescrView {
                phys_unit: None,
                byte_order: ByteOrder::NotSet,
                monotony: MonotonyType::NotSet,
                deposit: DepositType::NotSet,
                fix_axis_par: None,
                fix_axis_par_dist: None,
                children: Seq::empty(),
                ..v
            },
            v,
            c,
            f
        );
        lemma_axis_descr_read_8(v, c2, f);
    } else {
        assert(t + axis_descr_from_8(v) =~= axis_descr_from_8(v));
        lemma_axis_descr_read_8(v, c, f);
    }
}

proof fn lemma_axis_descr_read_6(v: AxisDescrView, c: Cur, f: Setting)
    requires
        AxisDescr::fits(v, f),
        tokens_at(c.toks, c.pos, axis_descr_from_6(v)),
        c.pos + axis_descr_from_6(v).len() == c.toks.len(),
        toks_numbered(c.toks, f),
    ensures
        AxisDescr::options(
            AxisDescrView {
                format: None,
                phys_unit: None,
                byte_order: ByteOrder::NotSet,
                monotony: MonotonyType::NotSet,
                deposit: DepositType::NotSet,
                fix_axis_par: None,
                fix_axis_par_dist: None,
                children: Seq::empty(),
                ..v
            },
            c
        ) matches Ok((w, _)) && w == (AxisDescrView { children: Seq::empty(), ..v }),
{
    reveal(axis_descr_part_6);
    let t = axis_descr_part_6(v);
    if v.format is Some {
        lemma_tokens_at_split(c.toks, c.pos, t, axis_descr_from_7(v));
        let c2 = Cur { pos: c.pos + 2, ..c };
        lemma_axis_descr_step_6(
            AxisDescrView {
                format: None,
                phys_unit: None,
                byte_order: ByteOrder::NotSet,
                monotony: MonotonyType::NotSet,
                deposit: DepositType::NotSet,
                fix_axis_par: None,
                fix_axis_par_dist: None,
                children: Seq::empty(),
                ..v
            },
            v,
            c,
            f
        );
        lemma_axis_descr_read_7(v, c2, f);
    } else {
        assert(t + axis_descr_from_7(v) =~= axis_descr_from_7(v));
        lemma_axis_descr_read_7(v, c, f);
    }
}

proof fn lemma_axis_descr_read_5(v: AxisDescrView, c: Cur, f: Setting)
    requires
        AxisDescr::fits(v, f),
        tokens_at(c.toks, c.pos, axis_descr_from_5(v)),
        c.pos + axis_descr_from_5(v).len() == c.toks.len(),
        toks_numbered(c.toks, f),
    ensures
        AxisDescr::options(
            AxisDescrView {
                step_size: None,
                format: None,
                phys_unit: None,
                byte_order: ByteOrder::NotSet,
                monotony: MonotonyType::NotSet,
                deposit: DepositType::NotSet,
                fix_axis_par: None,
                fix_axis_par_dist: None,
                children: Seq::empty(),
                ..v
            },
            c
        ) matches Ok((w, _)) && w == (AxisDescrView { children: Seq::empty(), ..v }),
{
    reveal(axis_descr_part_5);
    let t = axis_descr_part_5(v);
    if v.step_size is Some {
        lemma_tokens_at_split(c.toks, c.pos, t, axis_descr_from_6(v));
        let c2 = Cur { pos: c.pos + 2, ..c };
        lemma_axis_descr_step_5(
            AxisDescrView {
                step_size: None,
                format: None,
                phys_unit: None,
                byte_order: ByteOrder::NotSet,
                monotony: MonotonyType::NotSet,
                deposit: DepositType::NotSet,
                fix_axis_par: None,
                fix_axis_par_dist: None,
                children: Seq::empty(),
                ..v
            },
            v,
            c,
            f
        );
        lemma_axis_descr_read_6(v, c2, f);
    } else {
        assert(t + axis_descr_from_6(v) =~= axis_descr_from_6(v));
        lemma_axis_descr_read_6(v, c, f);
    }
}

proof fn lemma_axis_descr_read_4(v: AxisDescrView, c: Cur, f: Setting)
    requires
        AxisDescr::fits(v, f),
        tokens_at(c.toks, c.pos, axis_descr_from_4(v)),
        c.pos + axis_descr_from_4(v).len() == c.toks.len(),
        toks_numbered(c.toks, f),
    ensures
        AxisDescr::options(
            AxisDescrView {
                max_grad: None,
                step_size: None,
                format: None,
                phys_unit: None,
                byte_order: ByteOrder::NotSet,
                monotony: MonotonyType::NotSet,
                deposit: DepositType::NotSet,
                fix_axis_par: None,
                fix_axis_par_dist: None,
                children: Seq::empty(),
                ..v
            },
            c
        ) matches Ok((w, _)) && w == (AxisDescrView { children: Seq::empty(), ..v }),
{
    reveal(axis_descr_part_4);
    let t = axis_descr_part_4(v);
    if v.max_grad is Some {
        lemma_tokens_at_split(c.toks, c.pos, t, axis_descr_from_5(v));
        let c2 = Cur { pos: c.pos + 2, ..c };
        lemma_axis_descr_step_4(
            AxisDescrView {
                max_grad: None,
                step_size: None,
                format: None,
                phys_unit: None,
                byte_order: ByteOrder::NotSet,
                monotony: MonotonyType::NotSet,
                deposit: DepositType::NotSet,
                fix_axis_par: None,
                fix_axis_par_dist: None,
                children: Seq::empty(),
                ..v
            },
            v,
            c,
            f
        );
        lemma_axis_descr_read_5(v, c2, f);
    } else {
        assert(t + axis_descr_from_5(v) =~= axis_descr_from_5(v));
        lemma_axis_descr_read_5(v, c, f);
    }
}

proof fn lemma_axis_descr_read_3(v: AxisDescrView, c: Cur, f: Setting)
    requires
        AxisDescr::fits(v, f),
        tokens_at(c.toks, c.pos, axis_descr_from_3(v)),
        c.pos + axis_descr_from_3(v).len() == c.toks.len(),
        toks_numbered(c.toks, f),
    ensures
        AxisDescr::options(
            AxisDescrView {
                extended_limits: None,
                max_grad: None,
                step_size: None,
                format: None,
                phys_unit: None,
                byte_order: ByteOrder::NotSet,
                monotony: MonotonyType::NotSet,
                deposit: DepositType::NotSet,
                fix_axis_par: None,
                fix_axis_par_dist: None,
                children: Seq::empty(),
                ..v
            },
            c
        ) matches Ok((w, _)) && w == (AxisDescrView { children: Seq::empty(), ..v }),
{
    reveal(axis_descr_part_3);
    let t = axis_descr_part_3(v);
    if v.extended_limits is Some {
        lemma_tokens_at_split(c.toks, c.pos, t, axis_descr_from_4(v));
        let c2 = Cur { pos: c.pos + 3, ..c };
        lemma_axis_descr_step_3(
            AxisDescrView {
                extended_limits: None,
                max_grad: None,
                step_size: None,
                format: None,
                phys_unit: None,
                byte_order: ByteOrder::NotSet,
                monotony: MonotonyType::NotSet,
                deposit: DepositType::NotSet,
                fix_axis_par: None,
                fix_axis_par_dist: None,
                children: Seq::empty(),
                ..v
            },
            v,
            c,
            f
        );
        lemma_axis_descr_read_4(v, c2, f);
    } else {
        assert(t + axis_descr_from_4(v) =~= axis_descr_from_4(v));
        lemma_axis_descr_read_4(v, c, f);
    }
}

proof fn lemma_axis_descr_read_2(v: AxisDescrView, c: Cur, f: Setting)
    requires
        AxisDescr::fits(v, f),
        tokens_at(c.toks, c.pos, axis_descr_from_2(v)),
        c.pos + axis_descr_from_2(v).len() == c.toks.len(),
        toks_numbered(c.toks, f),
    ensures
        AxisDescr::options(
            AxisDescrView {
                read_only: false,
                extended_limits: None,
                max_grad: None,
                step_size: None,
                format: None,
                phys_unit: None,
                byte_order: ByteOrder::NotSet,
                monotony: MonotonyType::NotSet,
                deposit: DepositType::NotSet,
                fix_axis_par: None,
                fix_axis_par_dist: None,
                children: Seq::empty(),
                ..v
            },
            c
        ) matches Ok((w, _)) && w == (AxisDescrView { children: Seq::empty(), ..v }),
{
    reveal(axis_descr_part_2);
    let t = axis_descr_part_2(v);
    if v.read_only {
        lemma_tokens_at_split(c.toks, c.pos, t, axis_descr_from_3(v));
        let c2 = Cur { pos: c.pos + 1, ..c };
        lemma_axis_descr_step_2(
            AxisDescrView {
                read_only: false,
                extended_limits: None,
                max_grad: None,
                step_size: None,
                format: None,
                phys_unit: None,
                byte_order: ByteOrder::NotSet,
                monotony: MonotonyType::NotSet,
                deposit: DepositType::NotSet,
                fix_axis_par: None,
                fix_axis_par_dist: None,
                children: Seq::empty(),
                ..v
            },
            v,
            c,
            f
        );
        lemma_axis_descr_read_3(v, c2, f);
    } else {
        assert(t + axis_descr_from_3(v) =~= axis_descr_from_3(v));
        lemma_axis_descr_read_3(v, c, f);
    }
}

proof fn lemma_axis_descr_read_1(v: AxisDescrView, c: Cur, f: Setting)
    requires
        AxisDescr::fits(v, f),
        tokens_at(c.toks, c.pos, axis_descr_from_1(v)),
        c.pos + axis_descr_from_1(v).len() == c.toks.len(),
        toks_numbered(c.toks, f),
    ensures
        AxisDescr::options(
            AxisDescrView {
                curve_axis_ref: None,
                read_only: false,
                extended_limits: None,
                max_grad: None,
                step_size: None,
                format: None,
                phys_unit: None,
                byte_order: ByteOrder::NotSet,
                monotony: MonotonyType::NotSet,
                deposit: DepositType::NotSet,
                fix_axis_par: None,
                fix_axis_par_dist: None,
                children: Seq::empty(),
                ..v
            },
            c
        ) matches Ok((w, _)) && w == (AxisDescrView { children: Seq::empty(), ..v }),
{
    reveal(axis_descr_part_1);
    let t = axis_descr_part_1(v);
    if v.curve_axis_ref is Some {
        lemma_tokens_at_split(c.toks, c.pos, t, axis_descr_from_2(v));
        let c2 = Cur { pos: c.pos + 2, ..c };
        lemma_axis_descr_step_1(
            AxisDescrView {
                curve_axis_ref: None,
                read_only: false,
                extended_limits: None,
                max_grad: None,
                step_size: None,
                format: None,
                phys_unit: None,
                byte_order: ByteOrder::NotSet,
                monotony: MonotonyType::NotSet,
                deposit: DepositType::NotSet,
                fix_axis_par: None,
                fix_axis_par_dist: None,
                children: Seq::empty(),
                ..v
            },
            v,
            c,
            f
        );
        lemma_axis_descr_read_2(v, c2, f);
    } else {
        assert(t + axis_descr_from_2(v) =~= axis_descr_from_2(v));
        lemma_axis_descr_read_2(v, c, f);
    }
}

proof fn lemma_axis_descr_read_0(v: AxisDescrView, c: Cur, f: Setting)
    requires
        AxisDescr::fits(v, f),
        tokens_at(c.toks, c.pos, axis_descr_from_0(v)),
        c.pos + axis_descr_from_0(v).len() == c.toks.len(),
        toks_numbered(c.toks, f),
    ensures
        AxisDescr::options(
            AxisDescrView {
                axis_pts_ref: None,
                curve_axis_ref: None,
                read_only: false,
                extended_limits: None,
                max_grad: None,
                step_size: None,
                format: None,
                phys_unit: None,
                byte_order: ByteOrder::NotSet,
                monotony: MonotonyType::NotSet,
                deposit: DepositType::NotSet,
                fix_axis_par: None,
                fix_axis_par_dist: None,
                children: Seq::empty(),
                ..v
            },
            c
        ) matches Ok((w, _)) && w == (AxisDescrView { children: Seq::empty(), ..v }),
{
    reveal(axis_descr_part_0);
    let t = axis_descr_part_0(v);
    if v.axis_pts_ref is Some {
        lemma_tokens_at_split(c.toks, c.pos, t, axis_descr_from_1(v));
        let c2 = Cur { pos: c.pos + 2, ..c };
        lemma_axis_descr_step_0(
            AxisDescrView {
                axis_pts_ref: None,
                curve_axis_ref: None,
                read_only: false,
                extended_limits: None,
                max_grad: None,
                step_size: None,
                format: None,
                phys_unit: None,
                byte_order: ByteOrder::NotSet,
                monotony: MonotonyType::NotSet,
                deposit: DepositType::NotSet,
                fix_axis_par: None,
                fix_axis_par_dist: None,
                children: Seq::empty(),
                ..v
            },
            v,
            c,
            f
        );
        lemma_axis_descr_read_1(v, c2, f);
    } else {
        assert(t + axis_descr_from_1(v) =~= axis_descr_from_1(v));
        lemma_axis_descr_read_1(v, c, f);
    }
}

impl Faithful for AxisDescr {
    open spec fn fits(v: AxisDescrView, f: Setting) -> bool {
        &&& v.axis_type.word() is Some
        &&& is_param(plain(v.input_quantity))
        &&& is_param(plain(v.conversion))
        &&& num_fits(v.lower_limit, f) && num_fits(v.upper_limit, f)
        &&& (v.axis_pts_ref matches Some(x) ==> is_param(plain(x)))
        &&& (v.curve_axis_ref matches Some(x) ==> is_param(plain(x)))
        &&& (v.extended_limits matches Some(x) ==> num_fits(x.0, f) && num_fits(x.1, f))
        &&& (v.max_grad matches Some(x) ==> num_fits(x, f))
        &&& (v.step_size matches Some(x) ==> num_fits(x, f))
        &&& (v.format matches Some(x) ==> x.len() > 0)
        &&& (v.phys_unit matches Some(x) ==> x.len() > 0)
        &&& (v.fix_axis_par matches Some(x) ==> num_fits(x.offset, f) && num_fits(x.shift, f))
        &&& (v.fix_axis_par_dist matches Some(x) ==> num_fits(x.offset, f) && num_fits(x.distance, f))
        &&& all_fit::<AxisDescrChild>(v.children, f)
    }

    open spec fn shape(v: AxisDescrView) -> Tree {
        shape_of("AXIS_DESCR"@, axis_descr_head(v) + axis_descr_from_0(v), shapes::<AxisDescrChild>(v.children))
    }

    proof fn law_shown(v: AxisDescrView, p: Page, f: Setting) {
        reveal_strlit("AXIS_DESCR");
        lemma_keyword_word("AXIS_DESCR"@);
        lemma_spells_word("AXIS_DESCR"@);
        let h = Seq::<Tok>::empty();
        assert(seq![plain("AXIS_DESCR"@)] + h =~= seq![plain("AXIS_DESCR"@)]);
        crate::a2l::tree_laws::lemma_shows_begin(p, "AXIS_DESCR"@, seq![plain("AXIS_DESCR"@)] + h);
        let p0 = p.begin("AXIS_DESCR"@);
        lemma_axis_descr_body(v, p0, f);
        lemma_axis_descr_opening(v, p0, f);
        let p1 = axis_descr_opening(v, p0);
        lemma_axis_descr_shown_0(v, p1, f);
        let p2 = axis_descr_pages_0(v, p1);
        let hx = seq![
            plain(v.axis_type.word()->Some_0),
            plain(v.input_quantity),
            plain(v.conversion),
            plain(dec_int(v.max_axis_points as int)),
            plain(v.lower_limit.text),
            plain(v.upper_limit.text)
        ];
        let from = axis_descr_from_0(v);
        lemma_shows_join(p0, p1, p2, hx, from);
        lemma_children_shown::<AxisDescrChild>(v.children, false, p2, f);
        lemma_shapes_sound::<AxisDescrChild>(v.children, p, f);
        let q = children_written::<AxisDescrChild>(v.children, 0, false, p2)->Ok_0;
        let kids = shapes::<AxisDescrChild>(v.children);
        let y = blocks_tokens(kids, 0);
        lemma_shows_join(p0, p2, q, hx + from, y);
        let x = axis_descr_head(v) + from;
        lemma_shape_tokens(x, kids);
        lemma_all_params_join(axis_descr_head(v), from);
        lemma_sound_shape("AXIS_DESCR"@, x, kids);
        assert(axis_descr_head(v) =~= h + hx);
        assert(h + (hx + from + y) =~= x + y);
        lemma_shows_block(p, "AXIS_DESCR"@, h, "AXIS_DESCR"@, q, hx + from + y, Self::shape(v));
    }

    proof fn law_parsed(v: AxisDescrView, tree: Tree, f: Setting) {
        let x = axis_descr_head(v) + axis_descr_from_0(v);
        let kids = shapes::<AxisDescrChild>(v.children);
        lemma_shape_found(tree, "AXIS_DESCR"@, x, kids, f);
        let c = Cur::start(tree);
        lemma_tokens_at_split(c.toks, 0, axis_descr_head(v), axis_descr_from_0(v));
        lemma_axis_descr_head(v, c, f);
        let c1 = Cur { pos: 6, ..c };
        lemma_axis_descr_read_0(v, c1, f);
        lemma_children_read::<AxisDescrChild>(v.children, children_of(tree.items), f);
    }
}

impl FaithfulChild for BlobChild {
    open spec fn fits(v: BlobChildView, f: Setting) -> bool {
        match v {
            BlobChildView::Annotation(n) => <Annotation as Faithful>::fits(n, f),
            BlobChildView::Unsupported(n) => <UnsupportedNode as FaithfulChild>::fits(n, f) && !same_ignore_case(n.keyword, "ANNOTATION"@),
        }
    }

    open spec fn shape(v: BlobChildView) -> Tree {
        match v {
            BlobChildView::Annotation(n) => <Annotation as Faithful>::shape(n),
            BlobChildView::Unsupported(n) => <UnsupportedNode as FaithfulChild>::shape(n),
        }
    }

    proof fn law_shown(v: BlobChildView, p: Page, f: Setting) {
        match v {
            BlobChildView::Annotation(n) => {
                lemma_node_shown::<Annotation>(n, p, f);
            },
            BlobChildView::Unsupported(n) => {
                <UnsupportedNode as FaithfulChild>::law_shown(n, p, f);
            },
        }
    }

    proof fn law_parsed(v: BlobChildView, tree: Tree, f: Setting) {
        match v {
            BlobChildView::Annotation(n) => {
                reveal_strlit("ANNOTATION");
                lemma_same("ANNOTATION"@);
                assert(bare_tree(tree).keyword == "ANNOTATION"@);
                lemma_node_read::<Annotation>(n, tree, f);
            },
            BlobChildView::Unsupported(n) => {
                <UnsupportedNode as FaithfulChild>::law_parsed(n, tree, f);
            },
        }
    }
}

/// The parameters at the start of the block.
pub open spec fn blob_head(v: BlobView) -> Seq<Tok> {
    seq![
        plain(v.named.name),
        string(escaped(v.named.description->Some_0)),
        plain(hex_form(v.addr.address->Some_0 as nat)),
        plain(hex_form(v.size as nat))
    ]
}

/// The parameters of `ECU_ADDRESS_EXTENSION`.
#[verifier::opaque]
pub open spec fn blob_part_0(v: BlobView) -> Seq<Tok> {
    if v.addr.address_extension is Some {
        seq![
            plain("ECU_ADDRESS_EXTENSION"@),
            plain(dec_int(v.addr.address_extension->Some_0 as int))
        ]
    } else { Seq::<Tok>::empty() }
}

/// The parameters from `ECU_ADDRESS_EXTENSION` on.
pub open spec fn blob_from_0(v: BlobView) -> Seq<Tok> {
    blob_part_0(v) + blob_from_1(v)
}

/// What is written for `ECU_ADDRESS_EXTENSION`.
#[verifier::opaque]
pub open spec fn blob_page_0(v: BlobView, p: Page) -> Page {
    match v.addr.address_extension { Some(x) => p.word("ECU_ADDRESS_EXTENSION"@, dec_int(x as int)), None => p }
}

/// What is written from `ECU_ADDRESS_EXTENSION` on.
pub open spec fn blob_pages_0(v: BlobView, p: Page) -> Page {
    blob_pages_1(v, blob_page_0(v, p))
}

/// The parameters of `DISPLAY_IDENTIFIER`.
#[verifier::opaque]
pub open spec fn blob_part_1(v: BlobView) -> Seq<Tok> {
    if v.addr.display_name is Some {
        seq![plain("DISPLAY_IDENTIFIER"@), plain(v.addr.display_name->Some_0)]
    } else { Seq::<Tok>::empty() }
}

/// The parameters from `DISPLAY_IDENTIFIER` on.
pub open spec fn blob_from_1(v: BlobView) -> Seq<Tok> {
    blob_part_1(v) + blob_from_2(v)
}

/// What is written for `DISPLAY_IDENTIFIER`.
#[verifier::opaque]
pub open spec fn blob_page_1(v: BlobView, p: Page) -> Page {
    match v.addr.display_name { Some(x) if x.len() > 0 => p.word("DISPLAY_IDENTIFIER"@, x), _ => p }
}

/// What is written from `DISPLAY_IDENTIFIER` on.
pub open spec fn blob_pages_1(v: BlobView, p: Page) -> Page {
    blob_pages_2(v, blob_page_1(v, p))
}

/// The parameters of `CALIBRATION_ACCESS`.
#[verifier::opaque]
pub open spec fn blob_part_2(v: BlobView) -> Seq<Tok> {
    if v.addr.calib_access.word() is Some {
        seq![plain("CALIBRATION_ACCESS"@), plain(v.addr.calib_access.word()->Some_0)]
    } else { Seq::<Tok>::empty() }
}

/// The parameters from `CALIBRATION_ACCESS` on.
pub open spec fn blob_from_2(v: BlobView) -> Seq<Tok> {
    blob_part_2(v) + blob_from_3(v)
}

/// What is written for `CALIBRATION_ACCESS`.
#[verifier::opaque]
pub open spec fn blob_page_2(v: BlobView, p: Page) -> Page {
    match v.addr.calib_access.word() { Some(kw) => p.word("CALIBRATION_ACCESS"@, kw), None => p }
}

/// What is written from `CALIBRATION_ACCESS` on.
pub open spec fn blob_pages_2(v: BlobView, p: Page) -> Page {
    blob_pages_3(v, blob_page_2(v, p))
}

/// The parameters of `MAX_REFRESH`.
#[verifier::opaque]
pub open spec fn blob_part_3(v: BlobView) -> Seq<Tok> {
    if v.addr.max_refresh_unit is Some {
        seq![
            plain("MAX_REFRESH"@),
            plain(dec(v.addr.max_refresh_unit->Some_0.number() as nat)),
            plain(dec_int(v.addr.max_refresh_rate as int))
        ]
    } else { Seq::<Tok>::empty() }
}

/// The parameters from `MAX_REFRESH` on.
pub open spec fn blob_from_3(v: BlobView) -> Seq<Tok> {
    blob_part_3(v) + blob_from_4(v)
}

/// What is written for `MAX_REFRESH`.
#[verifier::opaque]
pub open spec fn blob_page_3(v: BlobView, p: Page) -> Page {
    match v.addr.max_refresh_unit {
        Some(x) => p.word(
            "MAX_REFRESH"@,
            dec(x.number() as nat) + " "@ + dec_int(v.addr.max_refresh_rate as int)
        ),
        None => p
    }
}

/// What is written from `MAX_REFRESH` on.
pub open spec fn blob_pages_3(v: BlobView, p: Page) -> Page {
    blob_pages_4(v, blob_page_3(v, p))
}

/// The parameters of `SYMBOL_LINK`.
#[verifier::opaque]
pub open spec fn blob_part_4(v: BlobView) -> Seq<Tok> {
    if v.addr.symbol_link is Some {
        seq![
            plain("SYMBOL_LINK"@),
            string(v.addr.symbol_link->Some_0),
            plain(dec_int(v.addr.symbol_offset as int))
        ]
    } else { Seq::<Tok>::empty() }
}

/// The parameters from `SYMBOL_LINK` on.
pub open spec fn blob_from_4(v: BlobView) -> Seq<Tok> {
    blob_part_4(v) + blob_from_5(v)
}

/// What is written for `SYMBOL_LINK`.
#[verifier::opaque]
pub open spec fn blob_page_4(v: BlobView, p: Page) -> Page {
    match v.addr.symbol_link {
        Some(x) if x.len() > 0 => p.word(
            "SYMBOL_LINK"@,
            "\""@ + x + "\" "@ + dec_int(v.addr.symbol_offset as int)
        ),
        _ => p
    }
}

/// What is written from `SYMBOL_LINK` on.
pub open spec fn blob_pages_4(v: BlobView, p: Page) -> Page {
    blob_pages_5(v, blob_page_4(v, p))
}

/// The parameters of `MODEL_LINK`.
#[verifier::opaque]
pub open spec fn blob_part_5(v: BlobView) -> Seq<Tok> {
    if v.addr.model_link is Some {
        seq![plain("MODEL_LINK"@), string(escaped(v.addr.model_link->Some_0))]
    } else { Seq::<Tok>::empty() }
}

/// The parameters from `MODEL_LINK` on.
pub open spec fn blob_from_5(v: BlobView) -> Seq<Tok> {
    blob_part_5(v) + blob_from_6(v)
}

/// What is written for `MODEL_LINK`.
#[verifier::opaque]
pub open spec fn blob_page_5(v: BlobView, p: Page) -> Page {
    match v.addr.model_link { Some(x) if x.len() > 0 => p.quote("MODEL_LINK"@, x), _ => p }
}

/// What is written from `MODEL_LINK` on.
pub open spec fn blob_pages_5(v: BlobView, p: Page) -> Page {
    blob_pages_6(v, blob_page_5(v, p))
}

/// The parameters of `ADDRESS_TYPE`.
#[verifier::opaque]
pub open spec fn blob_part_6(v: BlobView) -> Seq<Tok> {
    if v.addr_type != AddrType::DIRECT {
        seq![plain("ADDRESS_TYPE"@), plain(v.addr_type.word()->Some_0)]
    } else { Seq::<Tok>::empty() }
}

/// The parameters from `ADDRESS_TYPE` on.
pub open spec fn blob_from_6(v: BlobView) -> Seq<Tok> {
    blob_part_6(v) + blob_from_7(v)
}

/// What is written for `ADDRESS_TYPE`.
#[verifier::opaque]
pub open spec fn blob_page_6(v: BlobView, p: Page) -> Page {
    if v.addr_type != AddrType::DIRECT {
        match v.addr_type.word() { Some(kw) => p.word("ADDRESS_TYPE"@, kw), None => p }
    } else { p }
}

/// What is written from `ADDRESS_TYPE` on.
pub open spec fn blob_pages_6(v: BlobView, p: Page) -> Page {
    blob_pages_7(v, blob_page_6(v, p))
}

/// The parameters behind the last keyword.
pub open spec fn blob_from_7(v: BlobView) -> Seq<Tok> {
    Seq::empty()
}

/// What is written behind the last keyword.
pub open spec fn blob_pages_7(v: BlobView, p: Page) -> Page {
    p
}

proof fn lemma_blob_part_6(v: BlobView, p: Page, f: Setting)
    requires
        Blob::fits(v, f),
        indents_by_blanks(p),
    ensures
        shows(p, blob_page_6(v, p), blob_part_6(v)),
        blob_page_6(v, p).depth == p.depth,
        blob_page_6(v, p).style == p.style,
        all_params(blob_part_6(v)),
{
    reveal(blob_page_6);
    reveal(blob_part_6);
    if v.addr_type != AddrType::DIRECT {
        reveal_strlit("ADDRESS_TYPE");
        assert(is_keyword("ADDRESS_TYPE"@));
        lemma_keyword_param("ADDRESS_TYPE"@);
        v.addr_type.lemma_word();
        lemma_shows_word(p, "ADDRESS_TYPE"@, v.addr_type.word()->Some_0);
        reveal_strlit("ADDRESS_TYPE");
        assert(is_keyword("ADDRESS_TYPE"@));
        lemma_keyword_param("ADDRESS_TYPE"@);
        v.addr_type.lemma_word();
        assert(all_params(seq![plain("ADDRESS_TYPE"@), plain(v.addr_type.word()->Some_0)]));
        
    } else {
        lemma_shows_nothing(p);
    }
}

proof fn lemma_blob_part_5(v: BlobView, p: Page, f: Setting)
    requires
        Blob::fits(v, f),
        indents_by_blanks(p),
    ensures
        shows(p, blob_page_5(v, p), blob_part_5(v)),
        blob_page_5(v, p).depth == p.depth,
        blob_page_5(v, p).style == p.style,
        all_params(blob_part_5(v)),
{
    reveal(blob_page_5);
    reveal(blob_part_5);
    if v.addr.model_link is Some {
        reveal_strlit("MODEL_LINK");
        assert(is_keyword("MODEL_LINK"@));
        lemma_keyword_param("MODEL_LINK"@);
        lemma_shows_quote(p, "MODEL_LINK"@, v.addr.model_link->Some_0);
        reveal_strlit("MODEL_LINK");
        assert(is_keyword("MODEL_LINK"@));
        lemma_keyword_param("MODEL_LINK"@);
        lemma_string_param(v.addr.model_link->Some_0);
        assert(all_params(seq![plain("MODEL_LINK"@), string(escaped(v.addr.model_link->Some_0))]));
        
    } else {
        lemma_shows_nothing(p);
    }
}

proof fn lemma_blob_part_4(v: BlobView, p: Page, f: Setting)
    requires
        Blob::fits(v, f),
        indents_by_blanks(p),
    ensures
        shows(p, blob_page_4(v, p), blob_part_4(v)),
        blob_page_4(v, p).depth == p.depth,
        blob_page_4(v, p).style == p.style,
        all_params(blob_part_4(v)),
{
    reveal(blob_page_4);
    reveal(blob_part_4);
    if v.addr.symbol_link is Some {
        reveal_strlit("SYMBOL_LINK");
        assert(is_keyword("SYMBOL_LINK"@));
        lemma_keyword_param("SYMBOL_LINK"@);
        let link = v.addr.symbol_link->Some_0;
        let offset = dec_int(v.addr.symbol_offset as int);
        reveal_strlit("\"");
        reveal_strlit("\" ");
        reveal_strlit(" ");
        lemma_dec_param(v.addr.symbol_offset as int);
        assert("\""@ + link + "\" "@ + offset =~= ("\""@ + link + "\""@) + " "@ + offset);
        lemma_spells_content(link);
        lemma_spells_word(offset);
        lemma_spells_join("\""@ + link + "\""@, seq![string(link)], offset, seq![plain(offset)]);
        lemma_shows_tagged(
            p,
            "SYMBOL_LINK"@,
            "\""@ + link + "\" "@ + offset,
            seq![string(link)] + seq![plain(offset)]
        );
        assert(
            seq![plain("SYMBOL_LINK"@)] + (seq![string(link)] + seq![plain(offset)]) =~= seq![
                plain("SYMBOL_LINK"@),
                string(link),
                plain(offset)
            ]
        );
        reveal_strlit("SYMBOL_LINK");
        assert(is_keyword("SYMBOL_LINK"@));
        lemma_keyword_param("SYMBOL_LINK"@);
        lemma_dec_param(v.addr.symbol_offset as int);
        assert(
            all_params(
                seq![
                    plain("SYMBOL_LINK"@),
                    string(v.addr.symbol_link->Some_0),
                    plain(dec_int(v.addr.symbol_offset as int))
                ]
            )
        );
        
    } else {
        lemma_shows_nothing(p);
    }
}

proof fn lemma_blob_part_3(v: BlobView, p: Page, f: Setting)
    requires
        Blob::fits(v, f),
        indents_by_blanks(p),
    ensures
        shows(p, blob_page_3(v, p), blob_part_3(v)),
        blob_page_3(v, p).depth == p.depth,
        blob_page_3(v, p).style == p.style,
        all_params(blob_part_3(v)),
{
    reveal(blob_page_3);
    reveal(blob_part_3);
    if v.addr.max_refresh_unit is Some {
        reveal_strlit("MAX_REFRESH");
        assert(is_keyword("MAX_REFRESH"@));
        lemma_keyword_param("MAX_REFRESH"@);
        let unit = dec(v.addr.max_refresh_unit->Some_0.number() as nat);
        let rate = dec_int(v.addr.max_refresh_rate as int);
        lemma_dec_param(v.addr.max_refresh_unit->Some_0.number() as int);
        lemma_dec_param(v.addr.max_refresh_rate as int);
        lemma_spells_pair(unit, rate);
        lemma_shows_tagged(p, "MAX_REFRESH"@, unit + " "@ + rate, seq![plain(unit), plain(rate)]);
        assert(
            seq![plain("MAX_REFRESH"@)] + seq![plain(unit), plain(rate)] =~= seq![
                plain("MAX_REFRESH"@),
                plain(unit),
                plain(rate)
            ]
        );
        reveal_strlit("MAX_REFRESH");
        assert(is_keyword("MAX_REFRESH"@));
        lemma_keyword_param("MAX_REFRESH"@);
        lemma_dec_param(v.addr.max_refresh_unit->Some_0.number() as int);
        lemma_dec_param(v.addr.max_refresh_rate as int);
        assert(
            all_params(
                seq![
                    plain("MAX_REFRESH"@),
                    plain(dec(v.addr.max_refresh_unit->Some_0.number() as nat)),
                    plain(dec_int(v.addr.max_refresh_rate as int))
                ]
            )
        );
        
    } else {
        lemma_shows_nothing(p);
    }
}

proof fn lemma_blob_part_2(v: BlobView, p: Page, f: Setting)
    requires
        Blob::fits(v, f),
        indents_by_blanks(p),
    ensures
        shows(p, blob_page_2(v, p), blob_part_2(v)),
        blob_page_2(v, p).depth == p.depth,
        blob_page_2(v, p).style == p.style,
        all_params(blob_part_2(v)),
{
    reveal(blob_page_2);
    reveal(blob_part_2);
    if v.addr.calib_access.word() is Some {
        reveal_strlit("CALIBRATION_ACCESS");
        assert(is_keyword("CALIBRATION_ACCESS"@));
        lemma_keyword_param("CALIBRATION_ACCESS"@);
        v.addr.calib_access.lemma_word();
        lemma_shows_word(p, "CALIBRATION_ACCESS"@, v.addr.calib_access.word()->Some_0);
        reveal_strlit("CALIBRATION_ACCESS");
        assert(is_keyword("CALIBRATION_ACCESS"@));
        lemma_keyword_param("CALIBRATION_ACCESS"@);
        v.addr.calib_access.lemma_word();
        assert(all_params(seq![plain("CALIBRATION_ACCESS"@), plain(v.addr.calib_access.word()->Some_0)]));
        
    } else {
        lemma_shows_nothing(p);
    }
}

proof fn lemma_blob_part_1(v: BlobView, p: Page, f: Setting)
    requires
        Blob::fits(v, f),
        indents_by_blanks(p),
    ensures
        shows(p, blob_page_1(v, p), blob_part_1(v)),
        blob_page_1(v, p).depth == p.depth,
        blob_page_1(v, p).style == p.style,
        all_params(blob_part_1(v)),
{
    reveal(blob_page_1);
    reveal(blob_part_1);
    if v.addr.display_name is Some {
        reveal_strlit("DISPLAY_IDENTIFIER");
        assert(is_keyword("DISPLAY_IDENTIFIER"@));
        lemma_keyword_param("DISPLAY_IDENTIFIER"@);
        lemma_shows_word(p, "DISPLAY_IDENTIFIER"@, v.addr.display_name->Some_0);
        reveal_strlit("DISPLAY_IDENTIFIER");
        assert(is_keyword("DISPLAY_IDENTIFIER"@));
        lemma_keyword_param("DISPLAY_IDENTIFIER"@);
        assert(all_params(seq![plain("DISPLAY_IDENTIFIER"@), plain(v.addr.display_name->Some_0)]));
        
    } else {
        lemma_shows_nothing(p);
    }
}

proof fn lemma_blob_part_0(v: BlobView, p: Page, f: Setting)
    requires
        Blob::fits(v, f),
        indents_by_blanks(p),
    ensures
        shows(p, blob_page_0(v, p), blob_part_0(v)),
        blob_page_0(v, p).depth == p.depth,
        blob_page_0(v, p).style == p.style,
        all_params(blob_part_0(v)),
{
    reveal(blob_page_0);
    reveal(blob_part_0);
    if v.addr.address_extension is Some {
        reveal_strlit("ECU_ADDRESS_EXTENSION");
        assert(is_keyword("ECU_ADDRESS_EXTENSION"@));
        lemma_keyword_param("ECU_ADDRESS_EXTENSION"@);
        lemma_dec_param(v.addr.address_extension->Some_0 as int);
        lemma_shows_word(p, "ECU_ADDRESS_EXTENSION"@, dec_int(v.addr.address_extension->Some_0 as int));
        reveal_strlit("ECU_ADDRESS_EXTENSION");
        assert(is_keyword("ECU_ADDRESS_EXTENSION"@));
        lemma_keyword_param("ECU_ADDRESS_EXTENSION"@);
        lemma_dec_param(v.addr.address_extension->Some_0 as int);
        assert(
            all_params(
                seq![
                    plain("ECU_ADDRESS_EXTENSION"@),
                    plain(dec_int(v.addr.address_extension->Some_0 as int))
                ]
            )
        );
        
    } else {
        lemma_shows_nothing(p);
    }
}

proof fn lemma_blob_shown_7(v: BlobView, p: Page, f: Setting)
    requires
        Blob::fits(v, f),
        indents_by_blanks(p),
    ensures
        shows(p, blob_pages_7(v, p), blob_from_7(v)),
        blob_pages_7(v, p).depth == p.depth,
        blob_pages_7(v, p).style == p.style,
        all_params(blob_from_7(v)),
{
    lemma_shows_nothing(p);
}

proof fn lemma_blob_shown_6(v: BlobView, p: Page, f: Setting)
    requires
        Blob::fits(v, f),
        indents_by_blanks(p),
    ensures
        shows(p, blob_pages_6(v, p), blob_from_6(v)),
        blob_pages_6(v, p).depth == p.depth,
        blob_pages_6(v, p).style == p.style,
        all_params(blob_from_6(v)),
{
    lemma_blob_part_6(v, p, f);
    let q = blob_page_6(v, p);
    lemma_blob_shown_7(v, q, f);
    lemma_shows_join(p, q, blob_pages_7(v, q), blob_part_6(v), blob_from_7(v));
    lemma_all_params_join(blob_part_6(v), blob_from_7(v));
}

proof fn lemma_blob_shown_5(v: BlobView, p: Page, f: Setting)
    requires
        Blob::fits(v, f),
        indents_by_blanks(p),
    ensures
        shows(p, blob_pages_5(v, p), blob_from_5(v)),
        blob_pages_5(v, p).depth == p.depth,
        blob_pages_5(v, p).style == p.style,
        all_params(blob_from_5(v)),
{
    lemma_blob_part_5(v, p, f);
    let q = blob_page_5(v, p);
    lemma_blob_shown_6(v, q, f);
    lemma_shows_join(p, q, blob_pages_6(v, q), blob_part_5(v), blob_from_6(v));
    lemma_all_params_join(blob_part_5(v), blob_from_6(v));
}

proof fn lemma_blob_shown_4(v: BlobView, p: Page, f: Setting)
    requires
        Blob::fits(v, f),
        indents_by_blanks(p),
    ensures
        shows(p, blob_pages_4(v, p), blob_from_4(v)),
        blob_pages_4(v, p).depth == p.depth,
        blob_pages_4(v, p).style == p.style,
        all_params(blob_from_4(v)),
{
    lemma_blob_part_4(v, p, f);
    let q = blob_page_4(v, p);
    lemma_blob_shown_5(v, q, f);
    lemma_shows_join(p, q, blob_pages_5(v, q), blob_part_4(v), blob_from_5(v));
    lemma_all_params_join(blob_part_4(v), blob_from_5(v));
}

proof fn lemma_blob_shown_3(v: BlobView, p: Page, f: Setting)
    requires
        Blob::fits(v, f),
        indents_by_blanks(p),
    ensures
        shows(p, blob_pages_3(v, p), blob_from_3(v)),
        blob_pages_3(v, p).depth == p.depth,
        blob_pages_3(v, p).style == p.style,
        all_params(blob_from_3(v)),
{
    lemma_blob_part_3(v, p, f);
    let q = blob_page_3(v, p);
    lemma_blob_shown_4(v, q, f);
    lemma_shows_join(p, q, blob_pages_4(v, q), blob_part_3(v), blob_from_4(v));
    lemma_all_params_join(blob_part_3(v), blob_from_4(v));
}

proof fn lemma_blob_shown_2(v: BlobView, p: Page, f: Setting)
    requires
        Blob::fits(v, f),
        indents_by_blanks(p),
    ensures
        shows(p, blob_pages_2(v, p), blob_from_2(v)),
        blob_pages_2(v, p).depth == p.depth,
        blob_pages_2(v, p).style == p.style,
        all_params(blob_from_2(v)),
{
    lemma_blob_part_2(v, p, f);
    let q = blob_page_2(v, p);
    lemma_blob_shown_3(v, q, f);
    lemma_shows_join(p, q, blob_pages_3(v, q), blob_part_2(v), blob_from_3(v));
    lemma_all_params_join(blob_part_2(v), blob_from_3(v));
}

proof fn lemma_blob_shown_1(v: BlobView, p: Page, f: Setting)
    requires
        Blob::fits(v, f),
        indents_by_blanks(p),
    ensures
        shows(p, blob_pages_1(v, p), blob_from_1(v)),
        blob_pages_1(v, p).depth == p.depth,
        blob_pages_1(v, p).style == p.style,
        all_params(blob_from_1(v)),
{
    lemma_blob_part_1(v, p, f);
    let q = blob_page_1(v, p);
    lemma_blob_shown_2(v, q, f);
    lemma_shows_join(p, q, blob_pages_2(v, q), blob_part_1(v), blob_from_2(v));
    lemma_all_params_join(blob_part_1(v), blob_from_2(v));
}

proof fn lemma_blob_shown_0(v: BlobView, p: Page, f: Setting)
    requires
        Blob::fits(v, f),
        indents_by_blanks(p),
    ensures
        shows(p, blob_pages_0(v, p), blob_from_0(v)),
        blob_pages_0(v, p).depth == p.depth,
        blob_pages_0(v, p).style == p.style,
        all_params(blob_from_0(v)),
{
    lemma_blob_part_0(v, p, f);
    let q = blob_page_0(v, p);
    lemma_blob_shown_1(v, q, f);
    lemma_shows_join(p, q, blob_pages_1(v, q), blob_part_0(v), blob_from_1(v));
    lemma_all_params_join(blob_part_0(v), blob_from_1(v));
}

/// What is written for the parameters at the start.
#[verifier::opaque]
pub open spec fn blob_opening(v: BlobView, p0: Page) -> Page {
    let p1 = match v.named.description { Some(x) => p0.quote_line(x), None => p0.quote_line(""@) };
    let p2 = match v.addr.address { Some(x) => p1.line(hex_form(x as nat)), None => p1 };
    let p3 = p2.line(hex_form(v.size as nat));
    p3
}

proof fn lemma_blob_opening(v: BlobView, p0: Page, f: Setting)
    requires
        Blob::fits(v, f),
        indents_by_blanks(p0),
    ensures
        shows(
            p0,
            blob_opening(v, p0),
            seq![
                string(escaped(v.named.description->Some_0)),
                plain(hex_form(v.addr.address->Some_0 as nat)),
                plain(hex_form(v.size as nat))
            ]
        ),
        blob_opening(v, p0).depth == p0.depth,
        blob_opening(v, p0).style == p0.style,
        all_params(blob_head(v)),
{
    reveal(blob_opening);
    lemma_shows_nothing(p0);
    let x0 = Seq::<Tok>::empty();
    let p1 = match v.named.description { Some(x) => p0.quote_line(x), None => p0.quote_line(""@) };
    assert(
        shows(
            p0,
            p1,
            seq![string(escaped(v.named.description->Some_0))]
        ) && p1.depth == p0.depth && p1.style == p0.style
    ) by {
        let p = p0;
        lemma_shows_quote_line(p, v.named.description->Some_0);
    }
    lemma_shows_join(p0, p0, p1, x0, seq![string(escaped(v.named.description->Some_0))]);
    let x1 = x0 + seq![string(escaped(v.named.description->Some_0))];
    let p2 = match v.addr.address { Some(x) => p1.line(hex_form(x as nat)), None => p1 };
    assert(
        shows(
            p1,
            p2,
            seq![plain(hex_form(v.addr.address->Some_0 as nat))]
        ) && p2.depth == p1.depth && p2.style == p1.style
    ) by {
        let p = p1;
        lemma_hex_param(v.addr.address->Some_0 as nat);
        lemma_shows_word_line(p, hex_form(v.addr.address->Some_0 as nat));
    }
    lemma_shows_join(p0, p1, p2, x1, seq![plain(hex_form(v.addr.address->Some_0 as nat))]);
    let x2 = x1 + seq![plain(hex_form(v.addr.address->Some_0 as nat))];
    let p3 = p2.line(hex_form(v.size as nat));
    assert(
        shows(
            p2,
            p3,
            seq![plain(hex_form(v.size as nat))]
        ) && p3.depth == p2.depth && p3.style == p2.style
    ) by {
        let p = p2;
        lemma_hex_param(v.size as nat);
        lemma_shows_word_line(p, hex_form(v.size as nat));
    }
    lemma_shows_join(p0, p2, p3, x2, seq![plain(hex_form(v.size as nat))]);
    let x3 = x2 + seq![plain(hex_form(v.size as nat))];
    assert(
        x3 =~= seq![
            string(escaped(v.named.description->Some_0)),
            plain(hex_form(v.addr.address->Some_0 as nat)),
            plain(hex_form(v.size as nat))
        ]
    );
    lemma_string_param(v.named.description->Some_0);
    lemma_hex_param(v.addr.address->Some_0 as nat);
    lemma_hex_param(v.size as nat);
}

proof fn lemma_blob_addr(v: BlobView, q: Page, f: Setting)
    requires
        Blob::fits(v, f),
    ensures
        AddressFields::written(v.addr, q) == blob_page_5(
            v,
            blob_page_4(v, blob_page_3(v, blob_page_2(v, blob_page_1(v, blob_page_0(v, q)))))
        ),
{
    reveal(blob_page_0);
    reveal(blob_page_1);
    reveal(blob_page_2);
    reveal(blob_page_3);
    reveal(blob_page_4);
    reveal(blob_page_5);
}

proof fn lemma_blob_body(v: BlobView, p: Page, f: Setting)
    requires
        Blob::fits(v, f),
    ensures
        Blob::body(v, p) == children_written::<BlobChild>(
            v.children,
            0,
            false,
            blob_pages_0(v, blob_opening(v, p))
        ),
{
    reveal(blob_opening);
    let q0 = blob_opening(v, p);
    lemma_blob_addr(v, q0, f);
    let q1 = blob_page_0(v, q0);
    let q2 = blob_page_1(v, q1);
    let q3 = blob_page_2(v, q2);
    let q4 = blob_page_3(v, q3);
    let q5 = blob_page_4(v, q4);
    let q6 = blob_page_5(v, q5);
    let q7 = if v.addr_type != AddrType::DIRECT {
        match v.addr_type.word() { Some(kw) => q6.word("ADDRESS_TYPE"@, kw), None => q6 }
    } else { q6 };
    assert(q7 == blob_page_6(v, q6)) by {
        reveal(blob_page_6);
    }
}

proof fn lemma_blob_head(v: BlobView, c: Cur, f: Setting)
    requires
        Blob::fits(v, f),
        tokens_at(c.toks, c.pos, blob_head(v)),
        toks_numbered(c.toks, f),
    ensures
        Blob::head(c) == Ok::<(BlobView, Cur), Failure>(
            (
                BlobView {
                    addr: AddressFieldsView {
                        address_extension: None,
                        display_name: None,
                        calib_access: CalibrationAccess::NotSet,
                        max_refresh_unit: None,
                        max_refresh_rate: 0,
                        symbol_link: None,
                        symbol_offset: 0,
                        model_link: None,
                        ..v.addr
                    },
                    addr_type: AddrType::DIRECT,
                    children: Seq::empty(),
                    ..v
                },
                Cur { pos: c.pos + 4, ..c }
            ),
        ),
{
    law_unescaped_of_escaped(v.named.description->Some_0);
    law_integer_of_hex(v.addr.address->Some_0 as nat);
    law_integer_of_hex(v.size as nat);
    assert(bare(c.toks[c.pos + 0]) == blob_head(v)[0]);
    assert(bare(c.toks[c.pos + 1]) == blob_head(v)[1]);
    assert(bare(c.toks[c.pos + 2]) == blob_head(v)[2]);
    assert(bare(c.toks[c.pos + 3]) == blob_head(v)[3]);
}

proof fn lemma_blob_step_0(w: BlobView, v: BlobView, c: Cur, f: Setting)
    requires
        Blob::fits(v, f),
        v.addr.address_extension is Some,
        tokens_at(
            c.toks,
            c.pos,
            seq![
                plain("ECU_ADDRESS_EXTENSION"@),
                plain(dec_int(v.addr.address_extension->Some_0 as int))
            ]
        ),
        toks_numbered(c.toks, f),
    ensures
        Blob::option(w, c) == Ok::<(BlobView, Cur), Failure>(
            (
                BlobView {
                    addr: AddressFieldsView {
                        address_extension: v.addr.address_extension,
                        ..w.addr
                    },
                    ..w
                },
                Cur { pos: c.pos + 2, ..c }
            ),
        ),
{
    reveal_strlit("ECU_ADDRESS_EXTENSION");
    reveal_strlit("ADDRESS_TYPE");
    lemma_differ("ECU_ADDRESS_EXTENSION"@, "ADDRESS_TYPE"@, 0);
    lemma_same("ECU_ADDRESS_EXTENSION"@);
    assert(
        bare(c.toks[c.pos + 0]) == (
            seq![
                plain("ECU_ADDRESS_EXTENSION"@),
                plain(dec_int(v.addr.address_extension->Some_0 as int))
            ]
        )[0]
    );
    assert(
        bare(c.toks[c.pos + 1]) == (
            seq![
                plain("ECU_ADDRESS_EXTENSION"@),
                plain(dec_int(v.addr.address_extension->Some_0 as int))
            ]
        )[1]
    );
    law_integer_of_dec(v.addr.address_extension->Some_0 as int);
}

proof fn lemma_blob_step_1(w: BlobView, v: BlobView, c: Cur, f: Setting)
    requires
        Blob::fits(v, f),
        v.addr.display_name is Some,
        tokens_at(c.toks, c.pos, seq![plain("DISPLAY_IDENTIFIER"@), plain(v.addr.display_name->Some_0)]),
        toks_numbered(c.toks, f),
    ensures
        Blob::option(w, c) == Ok::<(BlobView, Cur), Failure>(
            (
                BlobView {
                    addr: AddressFieldsView { display_name: v.addr.display_name, ..w.addr },
                    ..w
                },
                Cur { pos: c.pos + 2, ..c }
            ),
        ),
{
    reveal_strlit("DISPLAY_IDENTIFIER");
    reveal_strlit("ADDRESS_TYPE");
    lemma_differ("DISPLAY_IDENTIFIER"@, "ADDRESS_TYPE"@, 0);
    reveal_strlit("ECU_ADDRESS_EXTENSION");
    lemma_differ("DISPLAY_IDENTIFIER"@, "ECU_ADDRESS_EXTENSION"@, 0);
    lemma_same("DISPLAY_IDENTIFIER"@);
    assert(bare(c.toks[c.pos + 0]) == (seq![plain("DISPLAY_IDENTIFIER"@), plain(v.addr.display_name->Some_0)])[0]);
    assert(bare(c.toks[c.pos + 1]) == (seq![plain("DISPLAY_IDENTIFIER"@), plain(v.addr.display_name->Some_0)])[1]);
    
}

proof fn lemma_blob_step_2(w: BlobView, v: BlobView, c: Cur, f: Setting)
    requires
        Blob::fits(v, f),
        v.addr.calib_access.word() is Some,
        tokens_at(c.toks, c.pos, seq![plain("CALIBRATION_ACCESS"@), plain(v.addr.calib_access.word()->Some_0)]),
        toks_numbered(c.toks, f),
    ensures
        Blob::option(w, c) == Ok::<(BlobView, Cur), Failure>(
            (
                BlobView {
                    addr: AddressFieldsView { calib_access: v.addr.calib_access, ..w.addr },
                    ..w
                },
                Cur { pos: c.pos + 2, ..c }
            ),
        ),
{
    reveal_strlit("CALIBRATION_ACCESS");
    reveal_strlit("ADDRESS_TYPE");
    lemma_differ("CALIBRATION_ACCESS"@, "ADDRESS_TYPE"@, 0);
    reveal_strlit("ECU_ADDRESS_EXTENSION");
    lemma_differ("CALIBRATION_ACCESS"@, "ECU_ADDRESS_EXTENSION"@, 0);
    reveal_strlit("DISPLAY_IDENTIFIER");
    lemma_differ("CALIBRATION_ACCESS"@, "DISPLAY_IDENTIFIER"@, 0);
    lemma_same("CALIBRATION_ACCESS"@);
    assert(
        bare(c.toks[c.pos + 0]) == (
            seq![plain("CALIBRATION_ACCESS"@), plain(v.addr.calib_access.word()->Some_0)]
        )[0]
    );
    assert(
        bare(c.toks[c.pos + 1]) == (
            seq![plain("CALIBRATION_ACCESS"@), plain(v.addr.calib_access.word()->Some_0)]
        )[1]
    );
    v.addr.calib_access.law_named_of_word();
    v.addr.calib_access.lemma_word();
}

proof fn lemma_blob_step_3(w: BlobView, v: BlobView, c: Cur, f: Setting)
    requires
        Blob::fits(v, f),
        v.addr.max_refresh_unit is Some,
        tokens_at(
            c.toks,
            c.pos,
            seq![
                plain("MAX_REFRESH"@),
                plain(dec(v.addr.max_refresh_unit->Some_0.number() as nat)),
                plain(dec_int(v.addr.max_refresh_rate as int))
            ]
        ),
        toks_numbered(c.toks, f),
    ensures
        Blob::option(w, c) == Ok::<(BlobView, Cur), Failure>(
            (
                BlobView {
                    addr: AddressFieldsView {
                        max_refresh_unit: v.addr.max_refresh_unit,
                        max_refresh_rate: v.addr.max_refresh_rate,
                        ..w.addr
                    },
                    ..w
                },
                Cur { pos: c.pos + 3, ..c }
            ),
        ),
{
    reveal_strlit("MAX_REFRESH");
    reveal_strlit("ADDRESS_TYPE");
    lemma_differ("MAX_REFRESH"@, "ADDRESS_TYPE"@, 0);
    reveal_strlit("ECU_ADDRESS_EXTENSION");
    lemma_differ("MAX_REFRESH"@, "ECU_ADDRESS_EXTENSION"@, 0);
    reveal_strlit("DISPLAY_IDENTIFIER");
    lemma_differ("MAX_REFRESH"@, "DISPLAY_IDENTIFIER"@, 0);
    reveal_strlit("CALIBRATION_ACCESS");
    lemma_differ("MAX_REFRESH"@, "CALIBRATION_ACCESS"@, 0);
    lemma_same("MAX_REFRESH"@);
    assert(
        bare(c.toks[c.pos + 0]) == (
            seq![
                plain("MAX_REFRESH"@),
                plain(dec(v.addr.max_refresh_unit->Some_0.number() as nat)),
                plain(dec_int(v.addr.max_refresh_rate as int))
            ]
        )[0]
    );
    assert(
        bare(c.toks[c.pos + 1]) == (
            seq![
                plain("MAX_REFRESH"@),
                plain(dec(v.addr.max_refresh_unit->Some_0.number() as nat)),
                plain(dec_int(v.addr.max_refresh_rate as int))
            ]
        )[1]
    );
    assert(
        bare(c.toks[c.pos + 2]) == (
            seq![
                plain("MAX_REFRESH"@),
                plain(dec(v.addr.max_refresh_unit->Some_0.number() as nat)),
                plain(dec_int(v.addr.max_refresh_rate as int))
            ]
        )[2]
    );
    law_integer_of_dec(v.addr.max_refresh_unit->Some_0.number() as int);
    law_integer_of_dec(v.addr.max_refresh_rate as int);
    lemma_refresh_found(v.addr.max_refresh_unit->Some_0);
}

proof fn lemma_blob_step_4(w: BlobView, v: BlobView, c: Cur, f: Setting)
    requires
        Blob::fits(v, f),
        v.addr.symbol_link is Some,
        tokens_at(
            c.toks,
            c.pos,
            seq![
                plain("SYMBOL_LINK"@),
                string(v.addr.symbol_link->Some_0),
                plain(dec_int(v.addr.symbol_offset as int))
            ]
        ),
        toks_numbered(c.toks, f),
    ensures
        Blob::option(w, c) == Ok::<(BlobView, Cur), Failure>(
            (
                BlobView {
                    addr: AddressFieldsView {
                        symbol_link: v.addr.symbol_link,
                        symbol_offset: v.addr.symbol_offset,
                        ..w.addr
                    },
                    ..w
                },
                Cur { pos: c.pos + 3, ..c }
            ),
        ),
{
    reveal_strlit("SYMBOL_LINK");
    reveal_strlit("ADDRESS_TYPE");
    lemma_differ("SYMBOL_LINK"@, "ADDRESS_TYPE"@, 0);
    reveal_strlit("ECU_ADDRESS_EXTENSION");
    lemma_differ("SYMBOL_LINK"@, "ECU_ADDRESS_EXTENSION"@, 0);
    reveal_strlit("DISPLAY_IDENTIFIER");
    lemma_differ("SYMBOL_LINK"@, "DISPLAY_IDENTIFIER"@, 0);
    reveal_strlit("CALIBRATION_ACCESS");
    lemma_differ("SYMBOL_LINK"@, "CALIBRATION_ACCESS"@, 0);
    reveal_strlit("MAX_REFRESH");
    lemma_differ("SYMBOL_LINK"@, "MAX_REFRESH"@, 0);
    lemma_same("SYMBOL_LINK"@);
    assert(
        bare(c.toks[c.pos + 0]) == (
            seq![
                plain("SYMBOL_LINK"@),
                string(v.addr.symbol_link->Some_0),
                plain(dec_int(v.addr.symbol_offset as int))
            ]
        )[0]
    );
    assert(
        bare(c.toks[c.pos + 1]) == (
            seq![
                plain("SYMBOL_LINK"@),
                string(v.addr.symbol_link->Some_0),
                plain(dec_int(v.addr.symbol_offset as int))
            ]
        )[1]
    );
    assert(
        bare(c.toks[c.pos + 2]) == (
            seq![
                plain("SYMBOL_LINK"@),
                string(v.addr.symbol_link->Some_0),
                plain(dec_int(v.addr.symbol_offset as int))
            ]
        )[2]
    );
    law_integer_of_dec(v.addr.symbol_offset as int);
}

proof fn lemma_blob_step_5(w: BlobView, v: BlobView, c: Cur, f: Setting)
    requires
        Blob::fits(v, f),
        v.addr.model_link is Some,
        tokens_at(c.toks, c.pos, seq![plain("MODEL_LINK"@), string(escaped(v.addr.model_link->Some_0))]),
        toks_numbered(c.toks, f),
    ensures
        Blob::option(w, c) == Ok::<(BlobView, Cur), Failure>(
            (
                BlobView {
                    addr: AddressFieldsView { model_link: v.addr.model_link, ..w.addr },
                    ..w
                },
                Cur { pos: c.pos + 2, ..c }
            ),
        ),
{
    reveal_strlit("MODEL_LINK");
    reveal_strlit("ADDRESS_TYPE");
    lemma_differ("MODEL_LINK"@, "ADDRESS_TYPE"@, 0);
    reveal_strlit("ECU_ADDRESS_EXTENSION");
    lemma_differ("MODEL_LINK"@, "ECU_ADDRESS_EXTENSION"@, 0);
    reveal_strlit("DISPLAY_IDENTIFIER");
    lemma_differ("MODEL_LINK"@, "DISPLAY_IDENTIFIER"@, 0);
    reveal_strlit("CALIBRATION_ACCESS");
    lemma_differ("MODEL_LINK"@, "CALIBRATION_ACCESS"@, 0);
    reveal_strlit("MAX_REFRESH");
    lemma_differ("MODEL_LINK"@, "MAX_REFRESH"@, 0);
    reveal_strlit("SYMBOL_LINK");
    lemma_differ("MODEL_LINK"@, "SYMBOL_LINK"@, 0);
    lemma_same("MODEL_LINK"@);
    assert(bare(c.toks[c.pos + 0]) == (seq![plain("MODEL_LINK"@), string(escaped(v.addr.model_link->Some_0))])[0]);
    assert(bare(c.toks[c.pos + 1]) == (seq![plain("MODEL_LINK"@), string(escaped(v.addr.model_link->Some_0))])[1]);
    law_unescaped_of_escaped(v.addr.model_link->Some_0);
}

proof fn lemma_blob_step_6(w: BlobView, v: BlobView, c: Cur, f: Setting)
    requires
        Blob::fits(v, f),
        v.addr_type != AddrType::DIRECT,
        tokens_at(c.toks, c.pos, seq![plain("ADDRESS_TYPE"@), plain(v.addr_type.word()->Some_0)]),
        toks_numbered(c.toks, f),
    ensures
        Blob::option(w, c) == Ok::<(BlobView, Cur), Failure>(
            (BlobView { addr_type: v.addr_type, ..w }, Cur { pos: c.pos + 2, ..c }),
        ),
{
    reveal_strlit("ADDRESS_TYPE");
    lemma_same("ADDRESS_TYPE"@);
    assert(bare(c.toks[c.pos + 0]) == (seq![plain("ADDRESS_TYPE"@), plain(v.addr_type.word()->Some_0)])[0]);
    assert(bare(c.toks[c.pos + 1]) == (seq![plain("ADDRESS_TYPE"@), plain(v.addr_type.word()->Some_0)])[1]);
    v.addr_type.law_named_of_word();
    v.addr_type.lemma_word();
}

proof fn lemma_blob_read_7(v: BlobView, c: Cur, f: Setting)
    requires
        Blob::fits(v, f),
        tokens_at(c.toks, c.pos, blob_from_7(v)),
        c.pos + blob_from_7(v).len() == c.toks.len(),
        toks_numbered(c.toks, f),
    ensures
        Blob::options(
            BlobView { children: Seq::empty(), ..v },
            c
        ) matches Ok((w, _)) && w == (BlobView { children: Seq::empty(), ..v }),
{
}

proof fn lemma_blob_read_6(v: BlobView, c: Cur, f: Setting)
    requires
        Blob::fits(v, f),
        tokens_at(c.toks, c.pos, blob_from_6(v)),
        c.pos + blob_from_6(v).len() == c.toks.len(),
        toks_numbered(c.toks, f),
    ensures
        Blob::options(
            BlobView { addr_type: AddrType::DIRECT, children: Seq::empty(), ..v },
            c
        ) matches Ok((w, _)) && w == (BlobView { children: Seq::empty(), ..v }),
{
    reveal(blob_part_6);
    let t = blob_part_6(v);
    if v.addr_type != AddrType::DIRECT {
        lemma_tokens_at_split(c.toks, c.pos, t, blob_from_7(v));
        let c2 = Cur { pos: c.pos + 2, ..c };
        lemma_blob_step_6(BlobView { addr_type: AddrType::DIRECT, children: Seq::empty(), ..v }, v, c, f);
        lemma_blob_read_7(v, c2, f);
    } else {
        assert(t + blob_from_7(v) =~= blob_from_7(v));
        lemma_blob_read_7(v, c, f);
    }
}

proof fn lemma_blob_read_5(v: BlobView, c: Cur, f: Setting)
    requires
        Blob::fits(v, f),
        tokens_at(c.toks, c.pos, blob_from_5(v)),
        c.pos + blob_from_5(v).len() == c.toks.len(),
        toks_numbered(c.toks, f),
    ensures
        Blob::options(
            BlobView {
                addr: AddressFieldsView { model_link: None, ..v.addr },
                addr_type: AddrType::DIRECT,
                children: Seq::empty(),
                ..v
            },
            c
        ) matches Ok((w, _)) && w == (BlobView { children: Seq::empty(), ..v }),
{
    reveal(blob_part_5);
    let t = blob_part_5(v);
    if v.addr.model_link is Some {
        lemma_tokens_at_split(c.toks, c.pos, t, blob_from_6(v));
        let c2 = Cur { pos: c.pos + 2, ..c };
        lemma_blob_step_5(
            BlobView {
                addr: AddressFieldsView { model_link: None, ..v.addr },
                addr_type: AddrType::DIRECT,
                children: Seq::empty(),
                ..v
            },
            v,
            c,
            f
        );
        lemma_blob_read_6(v, c2, f);
    } else {
        assert(t + blob_from_6(v) =~= blob_from_6(v));
        lemma_blob_read_6(v, c, f);
    }
}

proof fn lemma_blob_read_4(v: BlobView, c: Cur, f: Setting)
    requires
        Blob::fits(v, f),
        tokens_at(c.toks, c.pos, blob_from_4(v)),
        c.pos + blob_from_4(v).len() == c.toks.len(),
        toks_numbered(c.toks, f),
    ensures
        Blob::options(
            BlobView {
                addr: AddressFieldsView {
                    symbol_link: None,
                    symbol_offset: 0,
                    model_link: None,
                    ..v.addr
                },
                addr_type: AddrType::DIRECT,
                children: Seq::empty(),
                ..v
            },
            c
        ) matches Ok((w, _)) && w == (BlobView { children: Seq::empty(), ..v }),
{
    reveal(blob_part_4);
    let t = blob_part_4(v);
    if v.addr.symbol_link is Some {
        lemma_tokens_at_split(c.toks, c.pos, t, blob_from_5(v));
        let c2 = Cur { pos: c.pos + 3, ..c };
        lemma_blob_step_4(
            BlobView {
                addr: AddressFieldsView {
                    symbol_link: None,
                    symbol_offset: 0,
                    model_link: None,
                    ..v.addr
                },
                addr_type: AddrType::DIRECT,
                children: Seq::empty(),
                ..v
            },
            v,
            c,
            f
        );
        lemma_blob_read_5(v, c2, f);
    } else {
        assert(t + blob_from_5(v) =~= blob_from_5(v));
        lemma_blob_read_5(v, c, f);
    }
}

proof fn lemma_blob_read_3(v: BlobView, c: Cur, f: Setting)
    requires
        Blob::fits(v, f),
        tokens_at(c.toks, c.pos, blob_from_3(v)),
        c.pos + blob_from_3(v).len() == c.toks.len(),
        toks_numbered(c.toks, f),
    ensures
        Blob::options(
            BlobView {
                addr: AddressFieldsView {
                    max_refresh_unit: None,
                    max_refresh_rate: 0,
                    symbol_link: None,
                    symbol_offset: 0,
                    model_link: None,
                    ..v.addr
                },
                addr_type: AddrType::DIRECT,
                children: Seq::empty(),
                ..v
            },
            c
        ) matches Ok((w, _)) && w == (BlobView { children: Seq::empty(), ..v }),
{
    reveal(blob_part_3);
    let t = blob_part_3(v);
    if v.addr.max_refresh_unit is Some {
        lemma_tokens_at_split(c.toks, c.pos, t, blob_from_4(v));
        let c2 = Cur { pos: c.pos + 3, ..c };
        lemma_blob_step_3(
            BlobView {
                addr: AddressFieldsView {
                    max_refresh_unit: None,
                    max_refresh_rate: 0,
                    symbol_link: None,
                    symbol_offset: 0,
                    model_link: None,
                    ..v.addr
                },
                addr_type: AddrType::DIRECT,
                children: Seq::empty(),
                ..v
            },
            v,
            c,
            f
        );
        lemma_blob_read_4(v, c2, f);
    } else {
        assert(t + blob_from_4(v) =~= blob_from_4(v));
        lemma_blob_read_4(v, c, f);
    }
}

proof fn lemma_blob_read_2(v: BlobView, c: Cur, f: Setting)
    requires
        Blob::fits(v, f),
        tokens_at(c.toks, c.pos, blob_from_2(v)),
        c.pos + blob_from_2(v).len() == c.toks.len(),
        toks_numbered(c.toks, f),
    ensures
        Blob::options(
            BlobView {
                addr: AddressFieldsView {
                    calib_access: CalibrationAccess::NotSet,
                    max_refresh_unit: None,
                    max_refresh_rate: 0,
                    symbol_link: None,
                    symbol_offset: 0,
                    model_link: None,
                    ..v.addr
                },
                addr_type: AddrType::DIRECT,
                children: Seq::empty(),
                ..v
            },
            c
        ) matches Ok((w, _)) && w == (BlobView { children: Seq::empty(), ..v }),
{
    reveal(blob_part_2);
    let t = blob_part_2(v);
    if v.addr.calib_access.word() is Some {
        lemma_tokens_at_split(c.toks, c.pos, t, blob_from_3(v));
        let c2 = Cur { pos: c.pos + 2, ..c };
        lemma_blob_step_2(
            BlobView {
                addr: AddressFieldsView {
                    calib_access: CalibrationAccess::NotSet,
                    max_refresh_unit: None,
                    max_refresh_rate: 0,
                    symbol_link: None,
                    symbol_offset: 0,
                    model_link: None,
                    ..v.addr
                },
                addr_type: AddrType::DIRECT,
                children: Seq::empty(),
                ..v
            },
            v,
            c,
            f
        );
        lemma_blob_read_3(v, c2, f);
    } else {
        assert(t + blob_from_3(v) =~= blob_from_3(v));
        lemma_blob_read_3(v, c, f);
    }
}

proof fn lemma_blob_read_1(v: BlobView, c: Cur, f: Setting)
    requires
        Blob::fits(v, f),
        tokens_at(c.toks, c.pos, blob_from_1(v)),
        c.pos + blob_from_1(v).len() == c.toks.len(),
        toks_numbered(c.toks, f),
    ensures
        Blob::options(
            BlobView {
                addr: AddressFieldsView {
                    display_name: None,
                    calib_access: CalibrationAccess::NotSet,
                    max_refresh_unit: None,
                    max_refresh_rate: 0,
                    symbol_link: None,
                    symbol_offset: 0,
                    model_link: None,
                    ..v.addr
                },
                addr_type: AddrType::DIRECT,
                children: Seq::empty(),
                ..v
            },
            c
        ) matches Ok((w, _)) && w == (BlobView { children: Seq::empty(), ..v }),
{
    reveal(blob_part_1);
    let t = blob_part_1(v);
    if v.addr.display_name is Some {
        lemma_tokens_at_split(c.toks, c.pos, t, blob_from_2(v));
        let c2 = Cur { pos: c.pos + 2, ..c };
        lemma_blob_step_1(
            BlobView {
                addr: AddressFieldsView {
                    display_name: None,
                    calib_access: CalibrationAccess::NotSet,
                    max_refresh_unit: None,
                    max_refresh_rate: 0,
                    symbol_link: None,
                    symbol_offset: 0,
                    model_link: None,
                    ..v.addr
                },
                addr_type: AddrType::DIRECT,
                children: Seq::empty(),
                ..v
            },
            v,
            c,
            f
        );
        lemma_blob_read_2(v, c2, f);
    } else {
        assert(t + blob_from_2(v) =~= blob_from_2(v));
        lemma_blob_read_2(v, c, f);
    }
}

proof fn lemma_blob_read_0(v: BlobView, c: Cur, f: Setting)
    requires
        Blob::fits(v, f),
        tokens_at(c.toks, c.pos, blob_from_0(v)),
        c.pos + blob_from_0(v).len() == c.toks.len(),
        toks_numbered(c.toks, f),
    ensures
        Blob::options(
            BlobView {
                addr: AddressFieldsView {
                    address_extension: None,
                    display_name: None,
                    calib_access: CalibrationAccess::NotSet,
                    max_refresh_unit: None,
                    max_refresh_rate: 0,
                    symbol_link: None,
                    symbol_offset: 0,
                    model_link: None,
                    ..v.addr
                },
                addr_type: AddrType::DIRECT,
                children: Seq::empty(),
                ..v
            },
            c
        ) matches Ok((w, _)) && w == (BlobView { children: Seq::empty(), ..v }),
{
    reveal(blob_part_0);
    let t = blob_part_0(v);
    if v.addr.address_extension is Some {
        lemma_tokens_at_split(c.toks, c.pos, t, blob_from_1(v));
        let c2 = Cur { pos: c.pos + 2, ..c };
        lemma_blob_step_0(
            BlobView {
                addr: AddressFieldsView {
                    address_extension: None,
                    display_name: None,
                    calib_access: CalibrationAccess::NotSet,
                    max_refresh_unit: None,
                    max_refresh_rate: 0,
                    symbol_link: None,
                    symbol_offset: 0,
                    model_link: None,
                    ..v.addr
                },
                addr_type: AddrType::DIRECT,
                children: Seq::empty(),
                ..v
            },
            v,
            c,
            f
        );
        lemma_blob_read_1(v, c2, f);
    } else {
        assert(t + blob_from_1(v) =~= blob_from_1(v));
        lemma_blob_read_1(v, c, f);
    }
}

impl Faithful for Blob {
    open spec fn fits(v: BlobView, f: Setting) -> bool {
        &&& is_param(plain(v.named.name))
        &&& v.named.description is Some
        &&& v.addr.address is Some
        &&& (v.addr.display_name matches Some(x) ==> is_param(plain(x)))
        &&& (v.addr.max_refresh_unit is None ==> v.addr.max_refresh_rate == 0)
        &&& (
            match v.addr.symbol_link {
                Some(x) => x.len() > 0 && is_content(x),
                None => v.addr.symbol_offset == 0
            }
        )
        &&& (v.addr.model_link matches Some(x) ==> x.len() > 0)
        &&& all_fit::<BlobChild>(v.children, f)
    }

    open spec fn shape(v: BlobView) -> Tree {
        shape_of("BLOB"@, blob_head(v) + blob_from_0(v), shapes::<BlobChild>(v.children))
    }

    proof fn law_shown(v: BlobView, p: Page, f: Setting) {
        reveal_strlit("BLOB");
        lemma_keyword_word("BLOB"@);
        reveal_strlit("BLOB ");
        reveal_strlit(" ");
        assert("BLOB "@ + v.named.name =~= "BLOB"@ + " "@ + v.named.name);
        lemma_spells_word("BLOB"@);
        lemma_spells_word(v.named.name);
        lemma_spells_join("BLOB"@, seq![plain("BLOB"@)], v.named.name, seq![plain(v.named.name)]);
        let h = seq![plain(v.named.name)];
        crate::a2l::tree_laws::lemma_shows_begin(p, "BLOB "@ + v.named.name, seq![plain("BLOB"@)] + h);
        let p0 = p.begin("BLOB "@ + v.named.name);
        lemma_blob_body(v, p0, f);
        lemma_blob_opening(v, p0, f);
        let p1 = blob_opening(v, p0);
        lemma_blob_shown_0(v, p1, f);
        let p2 = blob_pages_0(v, p1);
        let hx = seq![
            string(escaped(v.named.description->Some_0)),
            plain(hex_form(v.addr.address->Some_0 as nat)),
            plain(hex_form(v.size as nat))
        ];
        let from = blob_from_0(v);
        lemma_shows_join(p0, p1, p2, hx, from);
        lemma_children_shown::<BlobChild>(v.children, false, p2, f);
        lemma_shapes_sound::<BlobChild>(v.children, p, f);
        let q = children_written::<BlobChild>(v.children, 0, false, p2)->Ok_0;
        let kids = shapes::<BlobChild>(v.children);
        let y = blocks_tokens(kids, 0);
        lemma_shows_join(p0, p2, q, hx + from, y);
        let x = blob_head(v) + from;
        lemma_shape_tokens(x, kids);
        lemma_all_params_join(blob_head(v), from);
        lemma_sound_shape("BLOB"@, x, kids);
        assert(blob_head(v) =~= h + hx);
        assert(h + (hx + from + y) =~= x + y);
        lemma_shows_block(p, "BLOB "@ + v.named.name, h, "BLOB"@, q, hx + from + y, Self::shape(v));
    }

    proof fn law_parsed(v: BlobView, tree: Tree, f: Setting) {
        let x = blob_head(v) + blob_from_0(v);
        let kids = shapes::<BlobChild>(v.children);
        lemma_shape_found(tree, "BLOB"@, x, kids, f);
        let c = Cur::start(tree);
        lemma_tokens_at_split(c.toks, 0, blob_head(v), blob_from_0(v));
        lemma_blob_head(v, c, f);
        let c1 = Cur { pos: 4, ..c };
        lemma_blob_read_0(v, c1, f);
        lemma_children_read::<BlobChild>(v.children, children_of(tree.items), f);
    }
}

impl FaithfulChild for InstanceChild {
    open spec fn fits(v: InstanceChildView, f: Setting) -> bool {
        match v {
            InstanceChildView::Annotation(n) => <Annotation as Faithful>::fits(n, f),
            InstanceChildView::Unsupported(n) => <UnsupportedNode as FaithfulChild>::fits(n, f) && !same_ignore_case(n.keyword, "ANNOTATION"@),
        }
    }

    open spec fn shape(v: InstanceChildView) -> Tree {
        match v {
            InstanceChildView::Annotation(n) => <Annotation as Faithful>::shape(n),
            InstanceChildView::Unsupported(n) => <UnsupportedNode as FaithfulChild>::shape(n),
        }
    }

    proof fn law_shown(v: InstanceChildView, p: Page, f: Setting) {
        match v {
            InstanceChildView::Annotation(n) => {
                lemma_node_shown::<Annotation>(n, p, f);
            },
            InstanceChildView::Unsupported(n) => {
                <UnsupportedNode as FaithfulChild>::law_shown(n, p, f);
            },
        }
    }

    proof fn law_parsed(v: InstanceChildView, tree: Tree, f: Setting) {
        match v {
            InstanceChildView::Annotation(n) => {
                reveal_strlit("ANNOTATION");
                lemma_same("ANNOTATION"@);
                assert(bare_tree(tree).keyword == "ANNOTATION"@);
                lemma_node_read::<Annotation>(n, tree, f);
            },
            InstanceChildView::Unsupported(n) => {
                <UnsupportedNode as FaithfulChild>::law_parsed(n, tree, f);
            },
        }
    }
}

/// The parameters at the start of the block.
pub open spec fn instance_head(v: InstanceView) -> Seq<Tok> {
    seq![
        plain(v.named.name),
        string(escaped(v.named.description->Some_0)),
        plain(v.typedef_name),
        plain(hex_form(v.addr.address->Some_0 as nat))
    ]
}

/// The parameters of `ECU_ADDRESS_EXTENSION`.
#[verifier::opaque]
pub open spec fn instance_part_0(v: InstanceView) -> Seq<Tok> {
    if v.addr.address_extension is Some {
        seq![
            plain("ECU_ADDRESS_EXTENSION"@),
            plain(dec_int(v.addr.address_extension->Some_0 as int))
        ]
    } else { Seq::<Tok>::empty() }
}

/// The parameters from `ECU_ADDRESS_EXTENSION` on.
pub open spec fn instance_from_0(v: InstanceView) -> Seq<Tok> {
    instance_part_0(v) + instance_from_1(v)
}

/// What is written for `ECU_ADDRESS_EXTENSION`.
#[verifier::opaque]
pub open spec fn instance_page_0(v: InstanceView, p: Page) -> Page {
    match v.addr.address_extension { Some(x) => p.word("ECU_ADDRESS_EXTENSION"@, dec_int(x as int)), None => p }
}

/// What is written from `ECU_ADDRESS_EXTENSION` on.
pub open spec fn instance_pages_0(v: InstanceView, p: Page) -> Page {
    instance_pages_1(v, instance_page_0(v, p))
}

/// The parameters of `DISPLAY_IDENTIFIER`.
#[verifier::opaque]
pub open spec fn instance_part_1(v: InstanceView) -> Seq<Tok> {
    if v.addr.display_name is Some {
        seq![plain("DISPLAY_IDENTIFIER"@), plain(v.addr.display_name->Some_0)]
    } else { Seq::<Tok>::empty() }
}

/// The parameters from `DISPLAY_IDENTIFIER` on.
pub open spec fn instance_from_1(v: InstanceView) -> Seq<Tok> {
    instance_part_1(v) + instance_from_2(v)
}

/// What is written for `DISPLAY_IDENTIFIER`.
#[verifier::opaque]
pub open spec fn instance_page_1(v: InstanceView, p: Page) -> Page {
    match v.addr.display_name { Some(x) if x.len() > 0 => p.word("DISPLAY_IDENTIFIER"@, x), _ => p }
}

/// What is written from `DISPLAY_IDENTIFIER` on.
pub open spec fn instance_pages_1(v: InstanceView, p: Page) -> Page {
    instance_pages_2(v, instance_page_1(v, p))
}

/// The parameters of `CALIBRATION_ACCESS`.
#[verifier::opaque]
pub open spec fn instance_part_2(v: InstanceView) -> Seq<Tok> {
    if v.addr.calib_access.word() is Some {
        seq![plain("CALIBRATION_ACCESS"@), plain(v.addr.calib_access.word()->Some_0)]
    } else { Seq::<Tok>::empty() }
}

/// The parameters from `CALIBRATION_ACCESS` on.
pub open spec fn instance_from_2(v: InstanceView) -> Seq<Tok> {
    instance_part_2(v) + instance_from_3(v)
}

/// What is written for `CALIBRATION_ACCESS`.
#[verifier::opaque]
pub open spec fn instance_page_2(v: InstanceView, p: Page) -> Page {
    match v.addr.calib_access.word() { Some(kw) => p.word("CALIBRATION_ACCESS"@, kw), None => p }
}

/// What is written from `CALIBRATION_ACCESS` on.
pub open spec fn instance_pages_2(v: InstanceView, p: Page) -> Page {
    instance_pages_3(v, instance_page_2(v, p))
}

/// The parameters of `MAX_REFRESH`.
#[verifier::opaque]
pub open spec fn instance_part_3(v: InstanceView) -> Seq<Tok> {
    if v.addr.max_refresh_unit is Some {
        seq![
            plain("MAX_REFRESH"@),
            plain(dec(v.addr.max_refresh_unit->Some_0.number() as nat)),
            plain(dec_int(v.addr.max_refresh_rate as int))
        ]
    } else { Seq::<Tok>::empty() }
}

/// The parameters from `MAX_REFRESH` on.
pub open spec fn instance_from_3(v: InstanceView) -> Seq<Tok> {
    instance_part_3(v) + instance_from_4(v)
}

/// What is written for `MAX_REFRESH`.
#[verifier::opaque]
pub open spec fn instance_page_3(v: InstanceView, p: Page) -> Page {
    match v.addr.max_refresh_unit {
        Some(x) => p.word(
            "MAX_REFRESH"@,
            dec(x.number() as nat) + " "@ + dec_int(v.addr.max_refresh_rate as int)
        ),
        None => p
    }
}

/// What is written from `MAX_REFRESH` on.
pub open spec fn instance_pages_3(v: InstanceView, p: Page) -> Page {
    instance_pages_4(v, instance_page_3(v, p))
}

/// The parameters of `SYMBOL_LINK`.
#[verifier::opaque]
pub open spec fn instance_part_4(v: InstanceView) -> Seq<Tok> {
    if v.addr.symbol_link is Some {
        seq![
            plain("SYMBOL_LINK"@),
            string(v.addr.symbol_link->Some_0),
            plain(dec_int(v.addr.symbol_offset as int))
        ]
    } else { Seq::<Tok>::empty() }
}

/// The parameters from `SYMBOL_LINK` on.
pub open spec fn instance_from_4(v: InstanceView) -> Seq<Tok> {
    instance_part_4(v) + instance_from_5(v)
}

/// What is written for `SYMBOL_LINK`.
#[verifier::opaque]
pub open spec fn instance_page_4(v: InstanceView, p: Page) -> Page {
    match v.addr.symbol_link {
        Some(x) if x.len() > 0 => p.word(
            "SYMBOL_LINK"@,
            "\""@ + x + "\" "@ + dec_int(v.addr.symbol_offset as int)
        ),
        _ => p
    }
}

/// What is written from `SYMBOL_LINK` on.
pub open spec fn instance_pages_4(v: InstanceView, p: Page) -> Page {
    instance_pages_5(v, instance_page_4(v, p))
}

/// The parameters of `MODEL_LINK`.
#[verifier::opaque]
pub open spec fn instance_part_5(v: InstanceView) -> Seq<Tok> {
    if v.addr.model_link is Some {
        seq![plain("MODEL_LINK"@), string(escaped(v.addr.model_link->Some_0))]
    } else { Seq::<Tok>::empty() }
}

/// The parameters from `MODEL_LINK` on.
pub open spec fn instance_from_5(v: InstanceView) -> Seq<Tok> {
    instance_part_5(v) + instance_from_6(v)
}

/// What is written for `MODEL_LINK`.
#[verifier::opaque]
pub open spec fn instance_page_5(v: InstanceView, p: Page) -> Page {
    match v.addr.model_link { Some(x) if x.len() > 0 => p.quote("MODEL_LINK"@, x), _ => p }
}

/// What is written from `MODEL_LINK` on.
pub open spec fn instance_pages_5(v: InstanceView, p: Page) -> Page {
    instance_pages_6(v, instance_page_5(v, p))
}

/// The parameters of `LAYOUT`.
#[verifier::opaque]
pub open spec fn instance_part_6(v: InstanceView) -> Seq<Tok> {
    if v.layout.word() is Some {
        seq![plain("LAYOUT"@), plain(v.layout.word()->Some_0)]
    } else { Seq::<Tok>::empty() }
}

/// The parameters from `LAYOUT` on.
pub open spec fn instance_from_6(v: InstanceView) -> Seq<Tok> {
    instance_part_6(v) + instance_from_7(v)
}

/// What is written for `LAYOUT`.
#[verifier::opaque]
pub open spec fn instance_page_6(v: InstanceView, p: Page) -> Page {
    match v.layout.word() { Some(kw) => p.word("LAYOUT"@, kw), None => p }
}

/// What is written from `LAYOUT` on.
pub open spec fn instance_pages_6(v: InstanceView, p: Page) -> Page {
    instance_pages_7(v, instance_page_6(v, p))
}

/// The parameters of `READ_WRITE`.
#[verifier::opaque]
pub open spec fn instance_part_7(v: InstanceView) -> Seq<Tok> {
    if v.read_write { seq![plain("READ_WRITE"@)] } else { Seq::<Tok>::empty() }
}

/// The parameters from `READ_WRITE` on.
pub open spec fn instance_from_7(v: InstanceView) -> Seq<Tok> {
    instance_part_7(v) + instance_from_8(v)
}

/// What is written for `READ_WRITE`.
#[verifier::opaque]
pub open spec fn instance_page_7(v: InstanceView, p: Page) -> Page {
    if v.read_write { p.line("READ_WRITE"@) } else { p }
}

/// What is written from `READ_WRITE` on.
pub open spec fn instance_pages_7(v: InstanceView, p: Page) -> Page {
    instance_pages_8(v, instance_page_7(v, p))
}

/// The parameters of `MATRIX_DIM`.
#[verifier::opaque]
pub open spec fn instance_part_8(v: InstanceView) -> Seq<Tok> {
    if v.matrix_dim is Some {
        seq![plain("MATRIX_DIM"@)] + int_tokens(v.matrix_dim->Some_0)
    } else { Seq::<Tok>::empty() }
}

/// The parameters from `MATRIX_DIM` on.
pub open spec fn instance_from_8(v: InstanceView) -> Seq<Tok> {
    instance_part_8(v) + instance_from_9(v)
}

/// What is written for `MATRIX_DIM`.
#[verifier::opaque]
pub open spec fn instance_page_8(v: InstanceView, p: Page) -> Page {
    match v.matrix_dim { Some(x) => p.word("MATRIX_DIM"@, listed(x)), None => p }
}

/// What is written from `MATRIX_DIM` on.
pub open spec fn instance_pages_8(v: InstanceView, p: Page) -> Page {
    instance_pages_9(v, instance_page_8(v, p))
}

/// The parameters behind the last keyword.
pub open spec fn instance_from_9(v: InstanceView) -> Seq<Tok> {
    Seq::empty()
}

/// What is written behind the last keyword.
pub open spec fn instance_pages_9(v: InstanceView, p: Page) -> Page {
    p
}

proof fn lemma_instance_part_8(v: InstanceView, p: Page, f: Setting)
    requires
        Instance::fits(v, f),
        indents_by_blanks(p),
    ensures
        shows(p, instance_page_8(v, p), instance_part_8(v)),
        instance_page_8(v, p).depth == p.depth,
        instance_page_8(v, p).style == p.style,
        all_params(instance_part_8(v)),
{
    reveal(instance_page_8);
    reveal(instance_part_8);
    if v.matrix_dim is Some {
        reveal_strlit("MATRIX_DIM");
        assert(is_keyword("MATRIX_DIM"@));
        lemma_keyword_param("MATRIX_DIM"@);
        lemma_spells_ints(v.matrix_dim->Some_0);
        lemma_shows_tagged(p, "MATRIX_DIM"@, listed(v.matrix_dim->Some_0), int_tokens(v.matrix_dim->Some_0));
        reveal_strlit("MATRIX_DIM");
        assert(is_keyword("MATRIX_DIM"@));
        lemma_keyword_param("MATRIX_DIM"@);
        assert(all_params(seq![plain("MATRIX_DIM"@)]));
        lemma_int_params(v.matrix_dim->Some_0);
        lemma_all_params_join(seq![plain("MATRIX_DIM"@)], int_tokens(v.matrix_dim->Some_0));
    } else {
        lemma_shows_nothing(p);
    }
}

proof fn lemma_instance_part_7(v: InstanceView, p: Page, f: Setting)
    requires
        Instance::fits(v, f),
        indents_by_blanks(p),
    ensures
        shows(p, instance_page_7(v, p), instance_part_7(v)),
        instance_page_7(v, p).depth == p.depth,
        instance_page_7(v, p).style == p.style,
        all_params(instance_part_7(v)),
{
    reveal(instance_page_7);
    reveal(instance_part_7);
    if v.read_write {
        reveal_strlit("READ_WRITE");
        assert(is_keyword("READ_WRITE"@));
        lemma_keyword_param("READ_WRITE"@);
        lemma_shows_word_line(p, "READ_WRITE"@);
        reveal_strlit("READ_WRITE");
        assert(is_keyword("READ_WRITE"@));
        lemma_keyword_param("READ_WRITE"@);
        assert(all_params(seq![plain("READ_WRITE"@)]));
        
    } else {
        lemma_shows_nothing(p);
    }
}

proof fn lemma_instance_part_6(v: InstanceView, p: Page, f: Setting)
    requires
        Instance::fits(v, f),
        indents_by_blanks(p),
    ensures
        shows(p, instance_page_6(v, p), instance_part_6(v)),
        instance_page_6(v, p).depth == p.depth,
        instance_page_6(v, p).style == p.style,
        all_params(instance_part_6(v)),
{
    reveal(instance_page_6);
    reveal(instance_part_6);
    if v.layout.word() is Some {
        reveal_strlit("LAYOUT");
        assert(is_keyword("LAYOUT"@));
        lemma_keyword_param("LAYOUT"@);
        v.layout.lemma_word();
        lemma_shows_word(p, "LAYOUT"@, v.layout.word()->Some_0);
        reveal_strlit("LAYOUT");
        assert(is_keyword("LAYOUT"@));
        lemma_keyword_param("LAYOUT"@);
        v.layout.lemma_word();
        assert(all_params(seq![plain("LAYOUT"@), plain(v.layout.word()->Some_0)]));
        
    } else {
        lemma_shows_nothing(p);
    }
}

proof fn lemma_instance_part_5(v: InstanceView, p: Page, f: Setting)
    requires
        Instance::fits(v, f),
        indents_by_blanks(p),
    ensures
        shows(p, instance_page_5(v, p), instance_part_5(v)),
        instance_page_5(v, p).depth == p.depth,
        instance_page_5(v, p).style == p.style,
        all_params(instance_part_5(v)),
{
    reveal(instance_page_5);
    reveal(instance_part_5);
    if v.addr.model_link is Some {
        reveal_strlit("MODEL_LINK");
        assert(is_keyword("MODEL_LINK"@));
        lemma_keyword_param("MODEL_LINK"@);
        lemma_shows_quote(p, "MODEL_LINK"@, v.addr.model_link->Some_0);
        reveal_strlit("MODEL_LINK");
        assert(is_keyword("MODEL_LINK"@));
        lemma_keyword_param("MODEL_LINK"@);
        lemma_string_param(v.addr.model_link->Some_0);
        assert(all_params(seq![plain("MODEL_LINK"@), string(escaped(v.addr.model_link->Some_0))]));
        
    } else {
        lemma_shows_nothing(p);
    }
}

proof fn lemma_instance_part_4(v: InstanceView, p: Page, f: Setting)
    requires
        Instance::fits(v, f),
        indents_by_blanks(p),
    ensures
        shows(p, instance_page_4(v, p), instance_part_4(v)),
        instance_page_4(v, p).depth == p.depth,
        instance_page_4(v, p).style == p.style,
        all_params(instance_part_4(v)),
{
    reveal(instance_page_4);
    reveal(instance_part_4);
    if v.addr.symbol_link is Some {
        reveal_strlit("SYMBOL_LINK");
        assert(is_keyword("SYMBOL_LINK"@));
        lemma_keyword_param("SYMBOL_LINK"@);
        let link = v.addr.symbol_link->Some_0;
        let offset = dec_int(v.addr.symbol_offset as int);
        reveal_strlit("\"");
        reveal_strlit("\" ");
        reveal_strlit(" ");
        lemma_dec_param(v.addr.symbol_offset as int);
        assert("\""@ + link + "\" "@ + offset =~= ("\""@ + link + "\""@) + " "@ + offset);
        lemma_spells_content(link);
        lemma_spells_word(offset);
        lemma_spells_join("\""@ + link + "\""@, seq![string(link)], offset, seq![plain(offset)]);
        lemma_shows_tagged(
            p,
            "SYMBOL_LINK"@,
            "\""@ + link + "\" "@ + offset,
            seq![string(link)] + seq![plain(offset)]
        );
        assert(
            seq![plain("SYMBOL_LINK"@)] + (seq![string(link)] + seq![plain(offset)]) =~= seq![
                plain("SYMBOL_LINK"@),
                string(link),
                plain(offset)
            ]
        );
        reveal_strlit("SYMBOL_LINK");
        assert(is_keyword("SYMBOL_LINK"@));
        lemma_keyword_param("SYMBOL_LINK"@);
        lemma_dec_param(v.addr.symbol_offset as int);
        assert(
            all_params(
                seq![
                    plain("SYMBOL_LINK"@),
                    string(v.addr.symbol_link->Some_0),
                    plain(dec_int(v.addr.symbol_offset as int))
                ]
            )
        );
        
    } else {
        lemma_shows_nothing(p);
    }
}

proof fn lemma_instance_part_3(v: InstanceView, p: Page, f: Setting)
    requires
        Instance::fits(v, f),
        indents_by_blanks(p),
    ensures
        shows(p, instance_page_3(v, p), instance_part_3(v)),
        instance_page_3(v, p).depth == p.depth,
        instance_page_3(v, p).style == p.style,
        all_params(instance_part_3(v)),
{
    reveal(instance_page_3);
    reveal(instance_part_3);
    if v.addr.max_refresh_unit is Some {
        reveal_strlit("MAX_REFRESH");
        assert(is_keyword("MAX_REFRESH"@));
        lemma_keyword_param("MAX_REFRESH"@);
        let unit = dec(v.addr.max_refresh_unit->Some_0.number() as nat);
        let rate = dec_int(v.addr.max_refresh_rate as int);
        lemma_dec_param(v.addr.max_refresh_unit->Some_0.number() as int);
        lemma_dec_param(v.addr.max_refresh_rate as int);
        lemma_spells_pair(unit, rate);
        lemma_shows_tagged(p, "MAX_REFRESH"@, unit + " "@ + rate, seq![plain(unit), plain(rate)]);
        assert(
            seq![plain("MAX_REFRESH"@)] + seq![plain(unit), plain(rate)] =~= seq![
                plain("MAX_REFRESH"@),
                plain(unit),
                plain(rate)
            ]
        );
        reveal_strlit("MAX_REFRESH");
        assert(is_keyword("MAX_REFRESH"@));
        lemma_keyword_param("MAX_REFRESH"@);
        lemma_dec_param(v.addr.max_refresh_unit->Some_0.number() as int);
        lemma_dec_param(v.addr.max_refresh_rate as int);
        assert(
            all_params(
                seq![
                    plain("MAX_REFRESH"@),
                    plain(dec(v.addr.max_refresh_unit->Some_0.number() as nat)),
                    plain(dec_int(v.addr.max_refresh_rate as int))
                ]
            )
        );
        
    } else {
        lemma_shows_nothing(p);
    }
}

proof fn lemma_instance_part_2(v: InstanceView, p: Page, f: Setting)
    requires
        Instance::fits(v, f),
        indents_by_blanks(p),
    ensures
        shows(p, instance_page_2(v, p), instance_part_2(v)),
        instance_page_2(v, p).depth == p.depth,
        instance_page_2(v, p).style == p.style,
        all_params(instance_part_2(v)),
{
    reveal(instance_page_2);
    reveal(instance_part_2);
    if v.addr.calib_access.word() is Some {
        reveal_strlit("CALIBRATION_ACCESS");
        assert(is_keyword("CALIBRATION_ACCESS"@));
        lemma_keyword_param("CALIBRATION_ACCESS"@);
        v.addr.calib_access.lemma_word();
        lemma_shows_word(p, "CALIBRATION_ACCESS"@, v.addr.calib_access.word()->Some_0);
        reveal_strlit("CALIBRATION_ACCESS");
        assert(is_keyword("CALIBRATION_ACCESS"@));
        lemma_keyword_param("CALIBRATION_ACCESS"@);
        v.addr.calib_access.lemma_word();
        assert(all_params(seq![plain("CALIBRATION_ACCESS"@), plain(v.addr.calib_access.word()->Some_0)]));
        
    } else {
        lemma_shows_nothing(p);
    }
}

proof fn lemma_instance_part_1(v: InstanceView, p: Page, f: Setting)
    requires
        Instance::fits(v, f),
        indents_by_blanks(p),
    ensures
        shows(p, instance_page_1(v, p), instance_part_1(v)),
        instance_page_1(v, p).depth == p.depth,
        instance_page_1(v, p).style == p.style,
        all_params(instance_part_1(v)),
{
    reveal(instance_page_1);
    reveal(instance_part_1);
    if v.addr.display_name is Some {
        reveal_strlit("DISPLAY_IDENTIFIER");
        assert(is_keyword("DISPLAY_IDENTIFIER"@));
        lemma_keyword_param("DISPLAY_IDENTIFIER"@);
        lemma_shows_word(p, "DISPLAY_IDENTIFIER"@, v.addr.display_name->Some_0);
        reveal_strlit("DISPLAY_IDENTIFIER");
        assert(is_keyword("DISPLAY_IDENTIFIER"@));
        lemma_keyword_param("DISPLAY_IDENTIFIER"@);
        assert(all_params(seq![plain("DISPLAY_IDENTIFIER"@), plain(v.addr.display_name->Some_0)]));
        
    } else {
        lemma_shows_nothing(p);
    }
}

proof fn lemma_instance_part_0(v: InstanceView, p: Page, f: Setting)
    requires
        Instance::fits(v, f),
        indents_by_blanks(p),
    ensures
        shows(p, instance_page_0(v, p), instance_part_0(v)),
        instance_page_0(v, p).depth == p.depth,
        instance_page_0(v, p).style == p.style,
        all_params(instance_part_0(v)),
{
    reveal(instance_page_0);
    reveal(instance_part_0);
    if v.addr.address_extension is Some {
        reveal_strlit("ECU_ADDRESS_EXTENSION");
        assert(is_keyword("ECU_ADDRESS_EXTENSION"@));
        lemma_keyword_param("ECU_ADDRESS_EXTENSION"@);
        lemma_dec_param(v.addr.address_extension->Some_0 as int);
        lemma_shows_word(p, "ECU_ADDRESS_EXTENSION"@, dec_int(v.addr.address_extension->Some_0 as int));
        reveal_strlit("ECU_ADDRESS_EXTENSION");
        assert(is_keyword("ECU_ADDRESS_EXTENSION"@));
        lemma_keyword_param("ECU_ADDRESS_EXTENSION"@);
        lemma_dec_param(v.addr.address_extension->Some_0 as int);
        assert(
            all_params(
                seq![
                    plain("ECU_ADDRESS_EXTENSION"@),
                    plain(dec_int(v.addr.address_extension->Some_0 as int))
                ]
            )
        );
        
    } else {
        lemma_shows_nothing(p);
    }
}

proof fn lemma_instance_shown_9(v: InstanceView, p: Page, f: Setting)
    requires
        Instance::fits(v, f),
        indents_by_blanks(p),
    ensures
        shows(p, instance_pages_9(v, p), instance_from_9(v)),
        instance_pages_9(v, p).depth == p.depth,
        instance_pages_9(v, p).style == p.style,
        all_params(instance_from_9(v)),
{
    lemma_shows_nothing(p);
}

proof fn lemma_instance_shown_8(v: InstanceView, p: Page, f: Setting)
    requires
        Instance::fits(v, f),
        indents_by_blanks(p),
    ensures
        shows(p, instance_pages_8(v, p), instance_from_8(v)),
        instance_pages_8(v, p).depth == p.depth,
        instance_pages_8(v, p).style == p.style,
        all_params(instance_from_8(v)),
{
    lemma_instance_part_8(v, p, f);
    let q = instance_page_8(v, p);
    lemma_instance_shown_9(v, q, f);
    lemma_shows_join(p, q, instance_pages_9(v, q), instance_part_8(v), instance_from_9(v));
    lemma_all_params_join(instance_part_8(v), instance_from_9(v));
}

proof fn lemma_instance_shown_7(v: InstanceView, p: Page, f: Setting)
    requires
        Instance::fits(v, f),
        indents_by_blanks(p),
    ensures
        shows(p, instance_pages_7(v, p), instance_from_7(v)),
        instance_pages_7(v, p).depth == p.depth,
        instance_pages_7(v, p).style == p.style,
        all_params(instance_from_7(v)),
{
    lemma_instance_part_7(v, p, f);
    let q = instance_page_7(v, p);
    lemma_instance_shown_8(v, q, f);
    lemma_shows_join(p, q, instance_pages_8(v, q), instance_part_7(v), instance_from_8(v));
    lemma_all_params_join(instance_part_7(v), instance_from_8(v));
}

proof fn lemma_instance_shown_6(v: InstanceView, p: Page, f: Setting)
    requires
        Instance::fits(v, f),
        indents_by_blanks(p),
    ensures
        shows(p, instance_pages_6(v, p), instance_from_6(v)),
        instance_pages_6(v, p).depth == p.depth,
        instance_pages_6(v, p).style == p.style,
        all_params(instance_from_6(v)),
{
    lemma_instance_part_6(v, p, f);
    let q = instance_page_6(v, p);
    lemma_instance_shown_7(v, q, f);
    lemma_shows_join(p, q, instance_pages_7(v, q), instance_part_6(v), instance_from_7(v));
    lemma_all_params_join(instance_part_6(v), instance_from_7(v));
}

proof fn lemma_instance_shown_5(v: InstanceView, p: Page, f: Setting)
    requires
        Instance::fits(v, f),
        indents_by_blanks(p),
    ensures
        shows(p, instance_pages_5(v, p), instance_from_5(v)),
        instance_pages_5(v, p).depth == p.depth,
        instance_pages_5(v, p).style == p.style,
        all_params(instance_from_5(v)),
{
    lemma_instance_part_5(v, p, f);
    let q = instance_page_5(v, p);
    lemma_instance_shown_6(v, q, f);
    lemma_shows_join(p, q, instance_pages_6(v, q), instance_part_5(v), instance_from_6(v));
    lemma_all_params_join(instance_part_5(v), instance_from_6(v));
}

proof fn lemma_instance_shown_4(v: InstanceView, p: Page, f: Setting)
    requires
        Instance::fits(v, f),
        indents_by_blanks(p),
    ensures
        shows(p, instance_pages_4(v, p), instance_from_4(v)),
        instance_pages_4(v, p).depth == p.depth,
        instance_pages_4(v, p).style == p.style,
        all_params(instance_from_4(v)),
{
    lemma_instance_part_4(v, p, f);
    let q = instance_page_4(v, p);
    lemma_instance_shown_5(v, q, f);
    lemma_shows_join(p, q, instance_pages_5(v, q), instance_part_4(v), instance_from_5(v));
    lemma_all_params_join(instance_part_4(v), instance_from_5(v));
}

proof fn lemma_instance_shown_3(v: InstanceView, p: Page, f: Setting)
    requires
        Instance::fits(v, f),
        indents_by_blanks(p),
    ensures
        shows(p, instance_pages_3(v, p), instance_from_3(v)),
        instance_pages_3(v, p).depth == p.depth,
        instance_pages_3(v, p).style == p.style,
        all_params(instance_from_3(v)),
{
    lemma_instance_part_3(v, p, f);
    let q = instance_page_3(v, p);
    lemma_instance_shown_4(v, q, f);
    lemma_shows_join(p, q, instance_pages_4(v, q), instance_part_3(v), instance_from_4(v));
    lemma_all_params_join(instance_part_3(v), instance_from_4(v));
}

proof fn lemma_instance_shown_2(v: InstanceView, p: Page, f: Setting)
    requires
        Instance::fits(v, f),
        indents_by_blanks(p),
    ensures
        shows(p, instance_pages_2(v, p), instance_from_2(v)),
        instance_pages_2(v, p).depth == p.depth,
        instance_pages_2(v, p).style == p.style,
        all_params(instance_from_2(v)),
{
    lemma_instance_part_2(v, p, f);
    let q = instance_page_2(v, p);
    lemma_instance_shown_3(v, q, f);
    lemma_shows_join(p, q, instance_pages_3(v, q), instance_part_2(v), instance_from_3(v));
    lemma_all_params_join(instance_part_2(v), instance_from_3(v));
}

proof fn lemma_instance_shown_1(v: InstanceView, p: Page, f: Setting)
    requires
        Instance::fits(v, f),
        indents_by_blanks(p),
    ensures
        shows(p, instance_pages_1(v, p), instance_from_1(v)),
        instance_pages_1(v, p).depth == p.depth,
        instance_pages_1(v, p).style == p.style,
        all_params(instance_from_1(v)),
{
    lemma_instance_part_1(v, p, f);
    let q = instance_page_1(v, p);
    lemma_instance_shown_2(v, q, f);
    lemma_shows_join(p, q, instance_pages_2(v, q), instance_part_1(v), instance_from_2(v));
    lemma_all_params_join(instance_part_1(v), instance_from_2(v));
}

proof fn lemma_instance_shown_0(v: InstanceView, p: Page, f: Setting)
    requires
        Instance::fits(v, f),
        indents_by_blanks(p),
    ensures
        shows(p, instance_pages_0(v, p), instance_from_0(v)),
        instance_pages_0(v, p).depth == p.depth,
        instance_pages_0(v, p).style == p.style,
        all_params(instance_from_0(v)),
{
    lemma_instance_part_0(v, p, f);
    let q = instance_page_0(v, p);
    lemma_instance_shown_1(v, q, f);
    lemma_shows_join(p, q, instance_pages_1(v, q), instance_part_0(v), instance_from_1(v));
    lemma_all_params_join(instance_part_0(v), instance_from_1(v));
}

/// What is written for the parameters at the start.
#[verifier::opaque]
pub open spec fn instance_opening(v: InstanceView, p0: Page) -> Page {
    let p1 = match v.named.description { Some(x) => p0.quote_line(x), None => p0.quote_line(""@) };
    let p2 = p1.line(v.typedef_name);
    let p3 = match v.addr.address { Some(x) => p2.line(hex_form(x as nat)), None => p2 };
    p3
}

proof fn lemma_instance_opening(v: InstanceView, p0: Page, f: Setting)
    requires
        Instance::fits(v, f),
        indents_by_blanks(p0),
    ensures
        shows(
            p0,
            instance_opening(v, p0),
            seq![
                string(escaped(v.named.description->Some_0)),
                plain(v.typedef_name),
                plain(hex_form(v.addr.address->Some_0 as nat))
            ]
        ),
        instance_opening(v, p0).depth == p0.depth,
        instance_opening(v, p0).style == p0.style,
        all_params(instance_head(v)),
{
    reveal(instance_opening);
    lemma_shows_nothing(p0);
    let x0 = Seq::<Tok>::empty();
    let p1 = match v.named.description { Some(x) => p0.quote_line(x), None => p0.quote_line(""@) };
    assert(
        shows(
            p0,
            p1,
            seq![string(escaped(v.named.description->Some_0))]
        ) && p1.depth == p0.depth && p1.style == p0.style
    ) by {
        let p = p0;
        lemma_shows_quote_line(p, v.named.description->Some_0);
    }
    lemma_shows_join(p0, p0, p1, x0, seq![string(escaped(v.named.description->Some_0))]);
    let x1 = x0 + seq![string(escaped(v.named.description->Some_0))];
    let p2 = p1.line(v.typedef_name);
    assert(shows(p1, p2, seq![plain(v.typedef_name)]) && p2.depth == p1.depth && p2.style == p1.style) by {
        let p = p1;
        lemma_shows_word_line(p, v.typedef_name);
    }
    lemma_shows_join(p0, p1, p2, x1, seq![plain(v.typedef_name)]);
    let x2 = x1 + seq![plain(v.typedef_name)];
    let p3 = match v.addr.address { Some(x) => p2.line(hex_form(x as nat)), None => p2 };
    assert(
        shows(
            p2,
            p3,
            seq![plain(hex_form(v.addr.address->Some_0 as nat))]
        ) && p3.depth == p2.depth && p3.style == p2.style
    ) by {
        let p = p2;
        lemma_hex_param(v.addr.address->Some_0 as nat);
        lemma_shows_word_line(p, hex_form(v.addr.address->Some_0 as nat));
    }
    lemma_shows_join(p0, p2, p3, x2, seq![plain(hex_form(v.addr.address->Some_0 as nat))]);
    let x3 = x2 + seq![plain(hex_form(v.addr.address->Some_0 as nat))];
    assert(
        x3 =~= seq![
            string(escaped(v.named.description->Some_0)),
            plain(v.typedef_name),
            plain(hex_form(v.addr.address->Some_0 as nat))
        ]
    );
    lemma_string_param(v.named.description->Some_0);
    lemma_hex_param(v.addr.address->Some_0 as nat);
}

proof fn lemma_instance_addr(v: InstanceView, q: Page, f: Setting)
    requires
        Instance::fits(v, f),
    ensures
        AddressFields::written(v.addr, q) == instance_page_5(
            v,
            instance_page_4(
                v,
                instance_page_3(v, instance_page_2(v, instance_page_1(v, instance_page_0(v, q))))
            )
        ),
{
    reveal(instance_page_0);
    reveal(instance_page_1);
    reveal(instance_page_2);
    reveal(instance_page_3);
    reveal(instance_page_4);
    reveal(instance_page_5);
}

proof fn lemma_instance_body(v: InstanceView, p: Page, f: Setting)
    requires
        Instance::fits(v, f),
    ensures
        Instance::body(v, p) == children_written::<InstanceChild>(
            v.children,
            0,
            false,
            instance_pages_0(v, instance_opening(v, p))
        ),
{
    reveal(instance_opening);
    let q0 = instance_opening(v, p);
    lemma_instance_addr(v, q0, f);
    let q1 = instance_page_0(v, q0);
    let q2 = instance_page_1(v, q1);
    let q3 = instance_page_2(v, q2);
    let q4 = instance_page_3(v, q3);
    let q5 = instance_page_4(v, q4);
    let q6 = instance_page_5(v, q5);
    let q7 = match v.layout.word() { Some(kw) => q6.word("LAYOUT"@, kw), None => q6 };
    assert(q7 == instance_page_6(v, q6)) by {
        reveal(instance_page_6);
    }
    let q8 = if v.read_write { q7.line("READ_WRITE"@) } else { q7 };
    assert(q8 == instance_page_7(v, q7)) by {
        reveal(instance_page_7);
    }
    let q9 = match v.matrix_dim { Some(x) => q8.word("MATRIX_DIM"@, listed(x)), None => q8 };
    assert(q9 == instance_page_8(v, q8)) by {
        reveal(instance_page_8);
    }
}

proof fn lemma_instance_head(v: InstanceView, c: Cur, f: Setting)
    requires
        Instance::fits(v, f),
        tokens_at(c.toks, c.pos, instance_head(v)),
        toks_numbered(c.toks, f),
    ensures
        Instance::head(c) == Ok::<(InstanceView, Cur), Failure>(
            (
                InstanceView {
                    addr: AddressFieldsView {
                        address_extension: None,
                        display_name: None,
                        calib_access: CalibrationAccess::NotSet,
                        max_refresh_unit: None,
                        max_refresh_rate: 0,
                        symbol_link: None,
                        symbol_offset: 0,
                        model_link: None,
                        ..v.addr
                    },
                    layout: IndexMode::NotSet,
                    read_write: false,
                    matrix_dim: None,
                    children: Seq::empty(),
                    ..v
                },
                Cur { pos: c.pos + 4, ..c }
            ),
        ),
{
    law_unescaped_of_escaped(v.named.description->Some_0);
    law_integer_of_hex(v.addr.address->Some_0 as nat);
    assert(bare(c.toks[c.pos + 0]) == instance_head(v)[0]);
    assert(bare(c.toks[c.pos + 1]) == instance_head(v)[1]);
    assert(bare(c.toks[c.pos + 2]) == instance_head(v)[2]);
    assert(bare(c.toks[c.pos + 3]) == instance_head(v)[3]);
}

proof fn lemma_instance_step_0(w: InstanceView, v: InstanceView, c: Cur, f: Setting)
    requires
        Instance::fits(v, f),
        v.addr.address_extension is Some,
        tokens_at(
            c.toks,
            c.pos,
            seq![
                plain("ECU_ADDRESS_EXTENSION"@),
                plain(dec_int(v.addr.address_extension->Some_0 as int))
            ]
        ),
        toks_numbered(c.toks, f),
    ensures
        Instance::option(w, c) == Ok::<(InstanceView, Cur), Failure>(
            (
                InstanceView {
                    addr: AddressFieldsView {
                        address_extension: v.addr.address_extension,
                        ..w.addr
                    },
                    ..w
                },
                Cur { pos: c.pos + 2, ..c }
            ),
        ),
{
    reveal_strlit("ECU_ADDRESS_EXTENSION");
    reveal_strlit("LAYOUT");
    lemma_differ("ECU_ADDRESS_EXTENSION"@, "LAYOUT"@, 0);
    reveal_strlit("READ_WRITE");
    lemma_differ("ECU_ADDRESS_EXTENSION"@, "READ_WRITE"@, 0);
    reveal_strlit("MATRIX_DIM");
    lemma_differ("ECU_ADDRESS_EXTENSION"@, "MATRIX_DIM"@, 0);
    lemma_same("ECU_ADDRESS_EXTENSION"@);
    assert(
        bare(c.toks[c.pos + 0]) == (
            seq![
                plain("ECU_ADDRESS_EXTENSION"@),
                plain(dec_int(v.addr.address_extension->Some_0 as int))
            ]
        )[0]
    );
    assert(
        bare(c.toks[c.pos + 1]) == (
            seq![
                plain("ECU_ADDRESS_EXTENSION"@),
                plain(dec_int(v.addr.address_extension->Some_0 as int))
            ]
        )[1]
    );
    law_integer_of_dec(v.addr.address_extension->Some_0 as int);
}

proof fn lemma_instance_step_1(w: InstanceView, v: InstanceView, c: Cur, f: Setting)
    requires
        Instance::fits(v, f),
        v.addr.display_name is Some,
        tokens_at(c.toks, c.pos, seq![plain("DISPLAY_IDENTIFIER"@), plain(v.addr.display_name->Some_0)]),
        toks_numbered(c.toks, f),
    ensures
        Instance::option(w, c) == Ok::<(InstanceView, Cur), Failure>(
            (
                InstanceView {
                    addr: AddressFieldsView { display_name: v.addr.display_name, ..w.addr },
                    ..w
                },
                Cur { pos: c.pos + 2, ..c }
            ),
        ),
{
    reveal_strlit("DISPLAY_IDENTIFIER");
    reveal_strlit("LAYOUT");
    lemma_differ("DISPLAY_IDENTIFIER"@, "LAYOUT"@, 0);
    reveal_strlit("READ_WRITE");
    lemma_differ("DISPLAY_IDENTIFIER"@, "READ_WRITE"@, 0);
    reveal_strlit("MATRIX_DIM");
    lemma_differ("DISPLAY_IDENTIFIER"@, "MATRIX_DIM"@, 0);
    reveal_strlit("ECU_ADDRESS_EXTENSION");
    lemma_differ("DISPLAY_IDENTIFIER"@, "ECU_ADDRESS_EXTENSION"@, 0);
    lemma_same("DISPLAY_IDENTIFIER"@);
    assert(bare(c.toks[c.pos + 0]) == (seq![plain("DISPLAY_IDENTIFIER"@), plain(v.addr.display_name->Some_0)])[0]);
    assert(bare(c.toks[c.pos + 1]) == (seq![plain("DISPLAY_IDENTIFIER"@), plain(v.addr.display_name->Some_0)])[1]);
    
}

proof fn lemma_instance_step_2(w: InstanceView, v: InstanceView, c: Cur, f: Setting)
    requires
        Instance::fits(v, f),
        v.addr.calib_access.word() is Some,
        tokens_at(c.toks, c.pos, seq![plain("CALIBRATION_ACCESS"@), plain(v.addr.calib_access.word()->Some_0)]),
        toks_numbered(c.toks, f),
    ensures
        Instance::option(w, c) == Ok::<(InstanceView, Cur), Failure>(
            (
                InstanceView {
                    addr: AddressFieldsView { calib_access: v.addr.calib_access, ..w.addr },
                    ..w
                },
                Cur { pos: c.pos + 2, ..c }
            ),
        ),
{
    reveal_strlit("CALIBRATION_ACCESS");
    reveal_strlit("LAYOUT");
    lemma_differ("CALIBRATION_ACCESS"@, "LAYOUT"@, 0);
    reveal_strlit("READ_WRITE");
    lemma_differ("CALIBRATION_ACCESS"@, "READ_WRITE"@, 0);
    reveal_strlit("MATRIX_DIM");
    lemma_differ("CALIBRATION_ACCESS"@, "MATRIX_DIM"@, 0);
    reveal_strlit("ECU_ADDRESS_EXTENSION");
    lemma_differ("CALIBRATION_ACCESS"@, "ECU_ADDRESS_EXTENSION"@, 0);
    reveal_strlit("DISPLAY_IDENTIFIER");
    lemma_differ("CALIBRATION_ACCESS"@, "DISPLAY_IDENTIFIER"@, 0);
    lemma_same("CALIBRATION_ACCESS"@);
    assert(
        bare(c.toks[c.pos + 0]) == (
            seq![plain("CALIBRATION_ACCESS"@), plain(v.addr.calib_access.word()->Some_0)]
        )[0]
    );
    assert(
        bare(c.toks[c.pos + 1]) == (
            seq![plain("CALIBRATION_ACCESS"@), plain(v.addr.calib_access.word()->Some_0)]
        )[1]
    );
    v.addr.calib_access.law_named_of_word();
    v.addr.calib_access.lemma_word();
}

proof fn lemma_instance_step_3(w: InstanceView, v: InstanceView, c: Cur, f: Setting)
    requires
        Instance::fits(v, f),
        v.addr.max_refresh_unit is Some,
        tokens_at(
            c.toks,
            c.pos,
            seq![
                plain("MAX_REFRESH"@),
                plain(dec(v.addr.max_refresh_unit->Some_0.number() as nat)),
                plain(dec_int(v.addr.max_refresh_rate as int))
            ]
        ),
        toks_numbered(c.toks, f),
    ensures
        Instance::option(w, c) == Ok::<(InstanceView, Cur), Failure>(
            (
                InstanceView {
                    addr: AddressFieldsView {
                        max_refresh_unit: v.addr.max_refresh_unit,
                        max_refresh_rate: v.addr.max_refresh_rate,
                        ..w.addr
                    },
                    ..w
                },
                Cur { pos: c.pos + 3, ..c }
            ),
        ),
{
    reveal_strlit("MAX_REFRESH");
    reveal_strlit("LAYOUT");
    lemma_differ("MAX_REFRESH"@, "LAYOUT"@, 0);
    reveal_strlit("READ_WRITE");
    lemma_differ("MAX_REFRESH"@, "READ_WRITE"@, 0);
    reveal_strlit("MATRIX_DIM");
    lemma_differ("MAX_REFRESH"@, "MATRIX_DIM"@, 0);
    reveal_strlit("ECU_ADDRESS_EXTENSION");
    lemma_differ("MAX_REFRESH"@, "ECU_ADDRESS_EXTENSION"@, 0);
    reveal_strlit("DISPLAY_IDENTIFIER");
    lemma_differ("MAX_REFRESH"@, "DISPLAY_IDENTIFIER"@, 0);
    reveal_strlit("CALIBRATION_ACCESS");
    lemma_differ("MAX_REFRESH"@, "CALIBRATION_ACCESS"@, 0);
    lemma_same("MAX_REFRESH"@);
    assert(
        bare(c.toks[c.pos + 0]) == (
            seq![
                plain("MAX_REFRESH"@),
                plain(dec(v.addr.max_refresh_unit->Some_0.number() as nat)),
                plain(dec_int(v.addr.max_refresh_rate as int))
            ]
        )[0]
    );
    assert(
        bare(c.toks[c.pos + 1]) == (
            seq![
                plain("MAX_REFRESH"@),
                plain(dec(v.addr.max_refresh_unit->Some_0.number() as nat)),
                plain(dec_int(v.addr.max_refresh_rate as int))
            ]
        )[1]
    );
    assert(
        bare(c.toks[c.pos + 2]) == (
            seq![
                plain("MAX_REFRESH"@),
                plain(dec(v.addr.max_refresh_unit->Some_0.number() as nat)),
                plain(dec_int(v.addr.max_refresh_rate as int))
            ]
        )[2]
    );
    law_integer_of_dec(v.addr.max_refresh_unit->Some_0.number() as int);
    law_integer_of_dec(v.addr.max_refresh_rate as int);
    lemma_refresh_found(v.addr.max_refresh_unit->Some_0);
}

proof fn lemma_instance_step_4(w: InstanceView, v: InstanceView, c: Cur, f: Setting)
    requires
        Instance::fits(v, f),
        v.addr.symbol_link is Some,
        tokens_at(
            c.toks,
            c.pos,
            seq![
                plain("SYMBOL_LINK"@),
                string(v.addr.symbol_link->Some_0),
                plain(dec_int(v.addr.symbol_offset as int))
            ]
        ),
        toks_numbered(c.toks, f),
    ensures
        Instance::option(w, c) == Ok::<(InstanceView, Cur), Failure>(
            (
                InstanceView {
                    addr: AddressFieldsView {
                        symbol_link: v.addr.symbol_link,
                        symbol_offset: v.addr.symbol_offset,
                        ..w.addr
                    },
                    ..w
                },
                Cur { pos: c.pos + 3, ..c }
            ),
        ),
{
    reveal_strlit("SYMBOL_LINK");
    reveal_strlit("LAYOUT");
    lemma_differ("SYMBOL_LINK"@, "LAYOUT"@, 0);
    reveal_strlit("READ_WRITE");
    lemma_differ("SYMBOL_LINK"@, "READ_WRITE"@, 0);
    reveal_strlit("MATRIX_DIM");
    lemma_differ("SYMBOL_LINK"@, "MATRIX_DIM"@, 0);
    reveal_strlit("ECU_ADDRESS_EXTENSION");
    lemma_differ("SYMBOL_LINK"@, "ECU_ADDRESS_EXTENSION"@, 0);
    reveal_strlit("DISPLAY_IDENTIFIER");
    lemma_differ("SYMBOL_LINK"@, "DISPLAY_IDENTIFIER"@, 0);
    reveal_strlit("CALIBRATION_ACCESS");
    lemma_differ("SYMBOL_LINK"@, "CALIBRATION_ACCESS"@, 0);
    reveal_strlit("MAX_REFRESH");
    lemma_differ("SYMBOL_LINK"@, "MAX_REFRESH"@, 0);
    lemma_same("SYMBOL_LINK"@);
    assert(
        bare(c.toks[c.pos + 0]) == (
            seq![
                plain("SYMBOL_LINK"@),
                string(v.addr.symbol_link->Some_0),
                plain(dec_int(v.addr.symbol_offset as int))
            ]
        )[0]
    );
    assert(
        bare(c.toks[c.pos + 1]) == (
            seq![
                plain("SYMBOL_LINK"@),
                string(v.addr.symbol_link->Some_0),
                plain(dec_int(v.addr.symbol_offset as int))
            ]
        )[1]
    );
    assert(
        bare(c.toks[c.pos + 2]) == (
            seq![
                plain("SYMBOL_LINK"@),
                string(v.addr.symbol_link->Some_0),
                plain(dec_int(v.addr.symbol_offset as int))
            ]
        )[2]
    );
    law_integer_of_dec(v.addr.symbol_offset as int);
}

proof fn lemma_instance_step_5(w: InstanceView, v: InstanceView, c: Cur, f: Setting)
    requires
        Instance::fits(v, f),
        v.addr.model_link is Some,
        tokens_at(c.toks, c.pos, seq![plain("MODEL_LINK"@), string(escaped(v.addr.model_link->Some_0))]),
        toks_numbered(c.toks, f),
    ensures
        Instance::option(w, c) == Ok::<(InstanceView, Cur), Failure>(
            (
                InstanceView {
                    addr: AddressFieldsView { model_link: v.addr.model_link, ..w.addr },
                    ..w
                },
                Cur { pos: c.pos + 2, ..c }
            ),
        ),
{
    reveal_strlit("MODEL_LINK");
    reveal_strlit("LAYOUT");
    lemma_differ("MODEL_LINK"@, "LAYOUT"@, 0);
    reveal_strlit("READ_WRITE");
    lemma_differ("MODEL_LINK"@, "READ_WRITE"@, 0);
    reveal_strlit("MATRIX_DIM");
    lemma_differ("MODEL_LINK"@, "MATRIX_DIM"@, 1);
    reveal_strlit("ECU_ADDRESS_EXTENSION");
    lemma_differ("MODEL_LINK"@, "ECU_ADDRESS_EXTENSION"@, 0);
    reveal_strlit("DISPLAY_IDENTIFIER");
    lemma_differ("MODEL_LINK"@, "DISPLAY_IDENTIFIER"@, 0);
    reveal_strlit("CALIBRATION_ACCESS");
    lemma_differ("MODEL_LINK"@, "CALIBRATION_ACCESS"@, 0);
    reveal_strlit("MAX_REFRESH");
    lemma_differ("MODEL_LINK"@, "MAX_REFRESH"@, 0);
    reveal_strlit("SYMBOL_LINK");
    lemma_differ("MODEL_LINK"@, "SYMBOL_LINK"@, 0);
    lemma_same("MODEL_LINK"@);
    assert(bare(c.toks[c.pos + 0]) == (seq![plain("MODEL_LINK"@), string(escaped(v.addr.model_link->Some_0))])[0]);
    assert(bare(c.toks[c.pos + 1]) == (seq![plain("MODEL_LINK"@), string(escaped(v.addr.model_link->Some_0))])[1]);
    law_unescaped_of_escaped(v.addr.model_link->Some_0);
}

proof fn lemma_instance_step_6(w: InstanceView, v: InstanceView, c: Cur, f: Setting)
    requires
        Instance::fits(v, f),
        v.layout.word() is Some,
        tokens_at(c.toks, c.pos, seq![plain("LAYOUT"@), plain(v.layout.word()->Some_0)]),
        toks_numbered(c.toks, f),
    ensures
        Instance::option(w, c) == Ok::<(InstanceView, Cur), Failure>(
            (InstanceView { layout: v.layout, ..w }, Cur { pos: c.pos + 2, ..c }),
        ),
{
    reveal_strlit("LAYOUT");
    lemma_same("LAYOUT"@);
    assert(bare(c.toks[c.pos + 0]) == (seq![plain("LAYOUT"@), plain(v.layout.word()->Some_0)])[0]);
    assert(bare(c.toks[c.pos + 1]) == (seq![plain("LAYOUT"@), plain(v.layout.word()->Some_0)])[1]);
    v.layout.law_named_of_word();
    v.layout.lemma_word();
}

proof fn lemma_instance_step_7(w: InstanceView, v: InstanceView, c: Cur, f: Setting)
    requires
        Instance::fits(v, f),
        v.read_write,
        tokens_at(c.toks, c.pos, seq![plain("READ_WRITE"@)]),
        toks_numbered(c.toks, f),
    ensures
        Instance::option(w, c) == Ok::<(InstanceView, Cur), Failure>(
            (InstanceView { read_write: v.read_write, ..w }, Cur { pos: c.pos + 1, ..c }),
        ),
{
    reveal_strlit("READ_WRITE");
    reveal_strlit("LAYOUT");
    lemma_differ("READ_WRITE"@, "LAYOUT"@, 0);
    lemma_same("READ_WRITE"@);
    assert(bare(c.toks[c.pos + 0]) == (seq![plain("READ_WRITE"@)])[0]);
    
}

proof fn lemma_instance_step_8(w: InstanceView, v: InstanceView, c: Cur, f: Setting)
    requires
        Instance::fits(v, f),
        v.matrix_dim is Some,
        tokens_at(c.toks, c.pos, seq![plain("MATRIX_DIM"@)] + int_tokens(v.matrix_dim->Some_0)),
        toks_numbered(c.toks, f),
        no_int_at(c.toks, c.pos + 1 + int_tokens(v.matrix_dim->Some_0).len()) || v.matrix_dim->Some_0.len() == 5,
    ensures
        Instance::option(w, c) == Ok::<(InstanceView, Cur), Failure>(
            (
                InstanceView { matrix_dim: v.matrix_dim, ..w },
                Cur { pos: c.pos + 1 + int_tokens(v.matrix_dim->Some_0).len(), ..c }
            ),
        ),
{
    reveal_strlit("MATRIX_DIM");
    reveal_strlit("LAYOUT");
    lemma_differ("MATRIX_DIM"@, "LAYOUT"@, 0);
    reveal_strlit("READ_WRITE");
    lemma_differ("MATRIX_DIM"@, "READ_WRITE"@, 0);
    lemma_same("MATRIX_DIM"@);
    assert(bare(c.toks[c.pos + 0]) == (seq![plain("MATRIX_DIM"@)] + int_tokens(v.matrix_dim->Some_0))[0]);
    lemma_tokens_at_split(c.toks, c.pos, seq![plain("MATRIX_DIM"@)], int_tokens(v.matrix_dim->Some_0));
    lemma_dims_read(c.step(), v.matrix_dim->Some_0);
}

proof fn lemma_instance_read_9(v: InstanceView, c: Cur, f: Setting)
    requires
        Instance::fits(v, f),
        tokens_at(c.toks, c.pos, instance_from_9(v)),
        c.pos + instance_from_9(v).len() == c.toks.len(),
        toks_numbered(c.toks, f),
    ensures
        Instance::options(
            InstanceView { children: Seq::empty(), ..v },
            c
        ) matches Ok((w, _)) && w == (InstanceView { children: Seq::empty(), ..v }),
{
}

proof fn lemma_instance_next_9(v: InstanceView, c: Cur)
    requires
        tokens_at(c.toks, c.pos, instance_from_9(v)),
        c.pos + instance_from_9(v).len() == c.toks.len(),
    ensures
        no_int_at(c.toks, c.pos),
{
}

proof fn lemma_instance_read_8(v: InstanceView, c: Cur, f: Setting)
    requires
        Instance::fits(v, f),
        tokens_at(c.toks, c.pos, instance_from_8(v)),
        c.pos + instance_from_8(v).len() == c.toks.len(),
        toks_numbered(c.toks, f),
    ensures
        Instance::options(
            InstanceView { matrix_dim: None, children: Seq::empty(), ..v },
            c
        ) matches Ok((w, _)) && w == (InstanceView { children: Seq::empty(), ..v }),
{
    reveal(instance_part_8);
    let t = instance_part_8(v);
    if v.matrix_dim is Some {
        lemma_tokens_at_split(c.toks, c.pos, t, instance_from_9(v));
        let c2 = Cur { pos: c.pos + 1 + int_tokens(v.matrix_dim->Some_0).len(), ..c };
        lemma_instance_next_9(v, c2);
        lemma_instance_step_8(InstanceView { matrix_dim: None, children: Seq::empty(), ..v }, v, c, f);
        lemma_instance_read_9(v, c2, f);
    } else {
        assert(t + instance_from_9(v) =~= instance_from_9(v));
        lemma_instance_read_9(v, c, f);
    }
}

proof fn lemma_instance_read_7(v: InstanceView, c: Cur, f: Setting)
    requires
        Instance::fits(v, f),
        tokens_at(c.toks, c.pos, instance_from_7(v)),
        c.pos + instance_from_7(v).len() == c.toks.len(),
        toks_numbered(c.toks, f),
    ensures
        Instance::options(
            InstanceView { read_write: false, matrix_dim: None, children: Seq::empty(), ..v },
            c
        ) matches Ok((w, _)) && w == (InstanceView { children: Seq::empty(), ..v }),
{
    reveal(instance_part_7);
    let t = instance_part_7(v);
    if v.read_write {
        lemma_tokens_at_split(c.toks, c.pos, t, instance_from_8(v));
        let c2 = Cur { pos: c.pos + 1, ..c };
        lemma_instance_step_7(
            InstanceView { read_write: false, matrix_dim: None, children: Seq::empty(), ..v },
            v,
            c,
            f
        );
        lemma_instance_read_8(v, c2, f);
    } else {
        assert(t + instance_from_8(v) =~= instance_from_8(v));
        lemma_instance_read_8(v, c, f);
    }
}

proof fn lemma_instance_read_6(v: InstanceView, c: Cur, f: Setting)
    requires
        Instance::fits(v, f),
        tokens_at(c.toks, c.pos, instance_from_6(v)),
        c.pos + instance_from_6(v).len() == c.toks.len(),
        toks_numbered(c.toks, f),
    ensures
        Instance::options(
            InstanceView {
                layout: IndexMode::NotSet,
                read_write: false,
                matrix_dim: None,
                children: Seq::empty(),
                ..v
            },
            c
        ) matches Ok((w, _)) && w == (InstanceView { children: Seq::empty(), ..v }),
{
    reveal(instance_part_6);
    let t = instance_part_6(v);
    if v.layout.word() is Some {
        lemma_tokens_at_split(c.toks, c.pos, t, instance_from_7(v));
        let c2 = Cur { pos: c.pos + 2, ..c };
        lemma_instance_step_6(
            InstanceView {
                layout: IndexMode::NotSet,
                read_write: false,
                matrix_dim: None,
                children: Seq::empty(),
                ..v
            },
            v,
            c,
            f
        );
        lemma_instance_read_7(v, c2, f);
    } else {
        assert(t + instance_from_7(v) =~= instance_from_7(v));
        lemma_instance_read_7(v, c, f);
    }
}

proof fn lemma_instance_read_5(v: InstanceView, c: Cur, f: Setting)
    requires
        Instance::fits(v, f),
        tokens_at(c.toks, c.pos, instance_from_5(v)),
        c.pos + instance_from_5(v).len() == c.toks.len(),
        toks_numbered(c.toks, f),
    ensures
        Instance::options(
            InstanceView {
                addr: AddressFieldsView { model_link: None, ..v.addr },
                layout: IndexMode::NotSet,
                read_write: false,
                matrix_dim: None,
                children: Seq::empty(),
                ..v
            },
            c
        ) matches Ok((w, _)) && w == (InstanceView { children: Seq::empty(), ..v }),
{
    reveal(instance_part_5);
    let t = instance_part_5(v);
    if v.addr.model_link is Some {
        lemma_tokens_at_split(c.toks, c.pos, t, instance_from_6(v));
        let c2 = Cur { pos: c.pos + 2, ..c };
        lemma_instance_step_5(
            InstanceView {
                addr: AddressFieldsView { model_link: None, ..v.addr },
                layout: IndexMode::NotSet,
                read_write: false,
                matrix_dim: None,
                children: Seq::empty(),
                ..v
            },
            v,
            c,
            f
        );
        lemma_instance_read_6(v, c2, f);
    } else {
        assert(t + instance_from_6(v) =~= instance_from_6(v));
        lemma_instance_read_6(v, c, f);
    }
}

proof fn lemma_instance_read_4(v: InstanceView, c: Cur, f: Setting)
    requires
        Instance::fits(v, f),
        tokens_at(c.toks, c.pos, instance_from_4(v)),
        c.pos + instance_from_4(v).len() == c.toks.len(),
        toks_numbered(c.toks, f),
    ensures
        Instance::options(
            InstanceView {
                addr: AddressFieldsView {
                    symbol_link: None,
                    symbol_offset: 0,
                    model_link: None,
                    ..v.addr
                },
                layout: IndexMode::NotSet,
                read_write: false,
                matrix_dim: None,
                children: Seq::empty(),
                ..v
            },
            c
        ) matches Ok((w, _)) && w == (InstanceView { children: Seq::empty(), ..v }),
{
    reveal(instance_part_4);
    let t = instance_part_4(v);
    if v.addr.symbol_link is Some {
        lemma_tokens_at_split(c.toks, c.pos, t, instance_from_5(v));
        let c2 = Cur { pos: c.pos + 3, ..c };
        lemma_instance_step_4(
            InstanceView {
                addr: AddressFieldsView {
                    symbol_link: None,
                    symbol_offset: 0,
                    model_link: None,
                    ..v.addr
                },
                layout: IndexMode::NotSet,
                read_write: false,
                matrix_dim: None,
                children: Seq::empty(),
                ..v
            },
            v,
            c,
            f
        );
        lemma_instance_read_5(v, c2, f);
    } else {
        assert(t + instance_from_5(v) =~= instance_from_5(v));
        lemma_instance_read_5(v, c, f);
    }
}

proof fn lemma_instance_read_3(v: InstanceView, c: Cur, f: Setting)
    requires
        Instance::fits(v, f),
        tokens_at(c.toks, c.pos, instance_from_3(v)),
        c.pos + instance_from_3(v).len() == c.toks.len(),
        toks_numbered(c.toks, f),
    ensures
        Instance::options(
            InstanceView {
                addr: AddressFieldsView {
                    max_refresh_unit: None,
                    max_refresh_rate: 0,
                    symbol_link: None,
                    symbol_offset: 0,
                    model_link: None,
                    ..v.addr
                },
                layout: IndexMode::NotSet,
                read_write: false,
                matrix_dim: None,
                children: Seq::empty(),
                ..v
            },
            c
        ) matches Ok((w, _)) && w == (InstanceView { children: Seq::empty(), ..v }),
{
    reveal(instance_part_3);
    let t = instance_part_3(v);
    if v.addr.max_refresh_unit is Some {
        lemma_tokens_at_split(c.toks, c.pos, t, instance_from_4(v));
        let c2 = Cur { pos: c.pos + 3, ..c };
        lemma_instance_step_3(
            InstanceView {
                addr: AddressFieldsView {
                    max_refresh_unit: None,
                    max_refresh_rate: 0,
                    symbol_link: None,
                    symbol_offset: 0,
                    model_link: None,
                    ..v.addr
                },
                layout: IndexMode::NotSet,
                read_write: false,
                matrix_dim: None,
                children: Seq::empty(),
                ..v
            },
            v,
            c,
            f
        );
        lemma_instance_read_4(v, c2, f);
    } else {
        assert(t + instance_from_4(v) =~= instance_from_4(v));
        lemma_instance_read_4(v, c, f);
    }
}

proof fn lemma_instance_read_2(v: InstanceView, c: Cur, f: Setting)
    requires
        Instance::fits(v, f),
        tokens_at(c.toks, c.pos, instance_from_2(v)),
        c.pos + instance_from_2(v).len() == c.toks.len(),
        toks_numbered(c.toks, f),
    ensures
        Instance::options(
            InstanceView {
                addr: AddressFieldsView {
                    calib_access: CalibrationAccess::NotSet,
                    max_refresh_unit: None,
                    max_refresh_rate: 0,
                    symbol_link: None,
                    symbol_offset: 0,
                    model_link: None,
                    ..v.addr
                },
                layout: IndexMode::NotSet,
                read_write: false,
                matrix_dim: None,
                children: Seq::empty(),
                ..v
            },
            c
        ) matches Ok((w, _)) && w == (InstanceView { children: Seq::empty(), ..v }),
{
    reveal(instance_part_2);
    let t = instance_part_2(v);
    if v.addr.calib_access.word() is Some {
        lemma_tokens_at_split(c.toks, c.pos, t, instance_from_3(v));
        let c2 = Cur { pos: c.pos + 2, ..c };
        lemma_instance_step_2(
            InstanceView {
                addr: AddressFieldsView {
                    calib_access: CalibrationAccess::NotSet,
                    max_refresh_unit: None,
                    max_refresh_rate: 0,
                    symbol_link: None,
                    symbol_offset: 0,
                    model_link: None,
                    ..v.addr
                },
                layout: IndexMode::NotSet,
                read_write: false,
                matrix_dim: None,
                children: Seq::empty(),
                ..v
            },
            v,
            c,
            f
        );
        lemma_instance_read_3(v, c2, f);
    } else {
        assert(t + instance_from_3(v) =~= instance_from_3(v));
        lemma_instance_read_3(v, c, f);
    }
}

proof fn lemma_instance_read_1(v: InstanceView, c: Cur, f: Setting)
    requires
        Instance::fits(v, f),
        tokens_at(c.toks, c.pos, instance_from_1(v)),
        c.pos + instance_from_1(v).len() == c.toks.len(),
        toks_numbered(c.toks, f),
    ensures
        Instance::options(
            InstanceView {
                addr: AddressFieldsView {
                    display_name: None,
                    calib_access: CalibrationAccess::NotSet,
                    max_refresh_unit: None,
                    max_refresh_rate: 0,
                    symbol_link: None,
                    symbol_offset: 0,
                    model_link: None,
                    ..v.addr
                },
                layout: IndexMode::NotSet,
                read_write: false,
                matrix_dim: None,
                children: Seq::empty(),
                ..v
            },
            c
        ) matches Ok((w, _)) && w == (InstanceView { children: Seq::empty(), ..v }),
{
    reveal(instance_part_1);
    let t = instance_part_1(v);
    if v.addr.display_name is Some {
        lemma_tokens_at_split(c.toks, c.pos, t, instance_from_2(v));
        let c2 = Cur { pos: c.pos + 2, ..c };
        lemma_instance_step_1(
            InstanceView {
                addr: AddressFieldsView {
                    display_name: None,
                    calib_access: CalibrationAccess::NotSet,
                    max_refresh_unit: None,
                    max_refresh_rate: 0,
                    symbol_link: None,
                    symbol_offset: 0,
                    model_link: None,
                    ..v.addr
                },
                layout: IndexMode::NotSet,
                read_write: false,
                matrix_dim: None,
                children: Seq::empty(),
                ..v
            },
            v,
            c,
            f
        );
        lemma_instance_read_2(v, c2, f);
    } else {
        assert(t + instance_from_2(v) =~= instance_from_2(v));
        lemma_instance_read_2(v, c, f);
    }
}

proof fn lemma_instance_read_0(v: InstanceView, c: Cur, f: Setting)
    requires
        Instance::fits(v, f),
        tokens_at(c.toks, c.pos, instance_from_0(v)),
        c.pos + instance_from_0(v).len() == c.toks.len(),
        toks_numbered(c.toks, f),
    ensures
        Instance::options(
            InstanceView {
                addr: AddressFieldsView {
                    address_extension: None,
                    display_name: None,
                    calib_access: CalibrationAccess::NotSet,
                    max_refresh_unit: None,
                    max_refresh_rate: 0,
                    symbol_link: None,
                    symbol_offset: 0,
                    model_link: None,
                    ..v.addr
                },
                layout: IndexMode::NotSet,
                read_write: false,
                matrix_dim: None,
                children: Seq::empty(),
                ..v
            },
            c
        ) matches Ok((w, _)) && w == (InstanceView { children: Seq::empty(), ..v }),
{
    reveal(instance_part_0);
    let t = instance_part_0(v);
    if v.addr.address_extension is Some {
        lemma_tokens_at_split(c.toks, c.pos, t, instance_from_1(v));
        let c2 = Cur { pos: c.pos + 2, ..c };
        lemma_instance_step_0(
            InstanceView {
                addr: AddressFieldsView {
                    address_extension: None,
                    display_name: None,
                    calib_access: CalibrationAccess::NotSet,
                    max_refresh_unit: None,
                    max_refresh_rate: 0,
                    symbol_link: None,
                    symbol_offset: 0,
                    model_link: None,
                    ..v.addr
                },
                layout: IndexMode::NotSet,
                read_write: false,
                matrix_dim: None,
                children: Seq::empty(),
                ..v
            },
            v,
            c,
            f
        );
        lemma_instance_read_1(v, c2, f);
    } else {
        assert(t + instance_from_1(v) =~= instance_from_1(v));
        lemma_instance_read_1(v, c, f);
    }
}

impl Faithful for Instance {
    open spec fn fits(v: InstanceView, f: Setting) -> bool {
        &&& is_param(plain(v.named.name))
        &&& v.named.description is Some
        &&& is_param(plain(v.typedef_name))
        &&& v.addr.address is Some
        &&& (v.addr.display_name matches Some(x) ==> is_param(plain(x)))
        &&& (v.addr.max_refresh_unit is None ==> v.addr.max_refresh_rate == 0)
        &&& (
            match v.addr.symbol_link {
                Some(x) => x.len() > 0 && is_content(x),
                None => v.addr.symbol_offset == 0
            }
        )
        &&& (v.addr.model_link matches Some(x) ==> x.len() > 0)
        &&& (v.matrix_dim matches Some(x) ==> 0 < x.len() <= 5)
        &&& all_fit::<InstanceChild>(v.children, f)
    }

    open spec fn shape(v: InstanceView) -> Tree {
        shape_of("INSTANCE"@, instance_head(v) + instance_from_0(v), shapes::<InstanceChild>(v.children))
    }

    proof fn law_shown(v: InstanceView, p: Page, f: Setting) {
        reveal_strlit("INSTANCE");
        lemma_keyword_word("INSTANCE"@);
        reveal_strlit("INSTANCE ");
        reveal_strlit(" ");
        assert("INSTANCE "@ + v.named.name =~= "INSTANCE"@ + " "@ + v.named.name);
        lemma_spells_word("INSTANCE"@);
        lemma_spells_word(v.named.name);
        lemma_spells_join("INSTANCE"@, seq![plain("INSTANCE"@)], v.named.name, seq![plain(v.named.name)]);
        let h = seq![plain(v.named.name)];
        crate::a2l::tree_laws::lemma_shows_begin(p, "INSTANCE "@ + v.named.name, seq![plain("INSTANCE"@)] + h);
        let p0 = p.begin("INSTANCE "@ + v.named.name);
        lemma_instance_body(v, p0, f);
        lemma_instance_opening(v, p0, f);
        let p1 = instance_opening(v, p0);
        lemma_instance_shown_0(v, p1, f);
        let p2 = instance_pages_0(v, p1);
        let hx = seq![
            string(escaped(v.named.description->Some_0)),
            plain(v.typedef_name),
            plain(hex_form(v.addr.address->Some_0 as nat))
        ];
        let from = instance_from_0(v);
        lemma_shows_join(p0, p1, p2, hx, from);
        lemma_children_shown::<InstanceChild>(v.children, false, p2, f);
        lemma_shapes_sound::<InstanceChild>(v.children, p, f);
        let q = children_written::<InstanceChild>(v.children, 0, false, p2)->Ok_0;
        let kids = shapes::<InstanceChild>(v.children);
        let y = blocks_tokens(kids, 0);
        lemma_shows_join(p0, p2, q, hx + from, y);
        let x = instance_head(v) + from;
        lemma_shape_tokens(x, kids);
        lemma_all_params_join(instance_head(v), from);
        lemma_sound_shape("INSTANCE"@, x, kids);
        assert(instance_head(v) =~= h + hx);
        assert(h + (hx + from + y) =~= x + y);
        lemma_shows_block(p, "INSTANCE "@ + v.named.name, h, "INSTANCE"@, q, hx + from + y, Self::shape(v));
    }

    proof fn law_parsed(v: InstanceView, tree: Tree, f: Setting) {
        let x = instance_head(v) + instance_from_0(v);
        let kids = shapes::<InstanceChild>(v.children);
        lemma_shape_found(tree, "INSTANCE"@, x, kids, f);
        let c = Cur::start(tree);
        lemma_tokens_at_split(c.toks, 0, instance_head(v), instance_from_0(v));
        lemma_instance_head(v, c, f);
        let c1 = Cur { pos: 4, ..c };
        lemma_instance_read_0(v, c1, f);
        lemma_children_read::<InstanceChild>(v.children, children_of(tree.items), f);
    }
}

} // verus!
