//! Characteristics and axis points read back from what is written for them.

use crate::a2l::block::{Tree, bare_tree, children_of};
use crate::a2l::error::Failure;
use crate::a2l::faithful::{
    Faithful, FaithfulChild, KeywordText, Setting, all_fit, all_params, blocks_tokens, int_tokens,
    is_keyword, lemma_all_params_join, lemma_children_read, lemma_children_shown, lemma_dec_param,
    lemma_dims_read, lemma_hex_param, lemma_int_params, lemma_keyword_param, lemma_keyword_word,
    lemma_no_int, lemma_node_read, lemma_node_shown, lemma_refresh_found, lemma_shape_found,
    lemma_shape_tokens, lemma_shapes_sound, lemma_shows_block, lemma_shows_quote,
    lemma_shows_quote_line, lemma_shows_tagged, lemma_shows_word, lemma_shows_word_line,
    lemma_sound_shape, lemma_spells_ints, lemma_spells_pair, lemma_string_param, no_int_at,
    num_fits, shape_of, shapes, toks_numbered,
};
use crate::a2l::model::annotation::Annotation;
use crate::a2l::model::base::{
    AddressFields, AddressFieldsView, ByteOrder, ConversionRefFields, ConversionRefFieldsView,
    RecordLayoutRefFields, RecordLayoutRefFieldsView,
};
use crate::a2l::model::characteristic::{
    AxisPts, AxisPtsChild, AxisPtsChildView, AxisPtsView, Characteristic, CharacteristicChild,
    CharacteristicChildView, CharacteristicView,
};
use crate::a2l::model::enums::{
    A2lKeyword, CalibrationAccess, DepositType, EncodingType, MonotonyType,
};
use crate::a2l::model::function::{DependentCharacteristic, VirtualCharacteristic};
use crate::a2l::model::measurement::AxisDescr;
use crate::a2l::model::parts::{children_written, hex_form, listed};
use crate::a2l::model::unsupported::UnsupportedNode;
use crate::a2l::node::Node;
use crate::a2l::params::{Cur, law_integer_of_dec, law_integer_of_hex};
use crate::a2l::spell::{
    indents_by_blanks, is_content, law_unescaped_of_escaped, lemma_shows_join, lemma_shows_line,
    lemma_shows_nothing, lemma_spells_content, lemma_spells_join, lemma_spells_word, plain, shows,
    string,
};
use crate::a2l::token::{Tok, bare};
use crate::a2l::tree_laws::{is_param, lemma_shows_begin, lemma_tokens_at_split, tokens_at};
use crate::a2l::writer::{Page, escaped};
use crate::text::{dec, dec_int, lemma_differ, lemma_same, same_ignore_case};
use vstd::prelude::*;

verus! {

impl FaithfulChild for CharacteristicChild {
    open spec fn fits(v: CharacteristicChildView, f: Setting) -> bool {
        match v {
            CharacteristicChildView::Annotation(n) => <Annotation as Faithful>::fits(n, f),
            CharacteristicChildView::AxisDescr(n) => <AxisDescr as Faithful>::fits(n, f),
            CharacteristicChildView::DependentCharacteristic(n) => <DependentCharacteristic as Faithful>::fits(n, f),
            CharacteristicChildView::VirtualCharacteristic(n) => <VirtualCharacteristic as Faithful>::fits(n, f),
            CharacteristicChildView::Unsupported(n) => <UnsupportedNode as FaithfulChild>::fits(n, f) && !same_ignore_case(n.keyword, "ANNOTATION"@) && !same_ignore_case(n.keyword, "AXIS_DESCR"@) && !same_ignore_case(
                n.keyword,
                "DEPENDENT_CHARACTERISTIC"@
            ) && !same_ignore_case(n.keyword, "VIRTUAL_CHARACTERISTIC"@),
        }
    }

    open spec fn shape(v: CharacteristicChildView) -> Tree {
        match v {
            CharacteristicChildView::Annotation(n) => <Annotation as Faithful>::shape(n),
            CharacteristicChildView::AxisDescr(n) => <AxisDescr as Faithful>::shape(n),
            CharacteristicChildView::DependentCharacteristic(n) => <DependentCharacteristic as Faithful>::shape(n),
            CharacteristicChildView::VirtualCharacteristic(n) => <VirtualCharacteristic as Faithful>::shape(n),
            CharacteristicChildView::Unsupported(n) => <UnsupportedNode as FaithfulChild>::shape(n),
        }
    }

    proof fn law_shown(v: CharacteristicChildView, p: Page, f: Setting) {
        match v {
            CharacteristicChildView::Annotation(n) => {
                lemma_node_shown::<Annotation>(n, p, f);
            },
            CharacteristicChildView::AxisDescr(n) => {
                lemma_node_shown::<AxisDescr>(n, p, f);
            },
            CharacteristicChildView::DependentCharacteristic(n) => {
                lemma_node_shown::<DependentCharacteristic>(n, p, f);
            },
            CharacteristicChildView::VirtualCharacteristic(n) => {
                lemma_node_shown::<VirtualCharacteristic>(n, p, f);
            },
            CharacteristicChildView::Unsupported(n) => {
                <UnsupportedNode as FaithfulChild>::law_shown(n, p, f);
            },
        }
    }

    proof fn law_parsed(v: CharacteristicChildView, tree: Tree, f: Setting) {
        match v {
            CharacteristicChildView::Annotation(n) => {
                reveal_strlit("ANNOTATION");
                lemma_same("ANNOTATION"@);
                assert(bare_tree(tree).keyword == "ANNOTATION"@);
                lemma_node_read::<Annotation>(n, tree, f);
            },
            CharacteristicChildView::AxisDescr(n) => {
                reveal_strlit("AXIS_DESCR");
                reveal_strlit("ANNOTATION");
                lemma_differ("AXIS_DESCR"@, "ANNOTATION"@, 1);
                lemma_same("AXIS_DESCR"@);
                assert(bare_tree(tree).keyword == "AXIS_DESCR"@);
                lemma_node_read::<AxisDescr>(n, tree, f);
            },
            CharacteristicChildView::DependentCharacteristic(n) => {
                reveal_strlit("DEPENDENT_CHARACTERISTIC");
                reveal_strlit("ANNOTATION");
                lemma_differ("DEPENDENT_CHARACTERISTIC"@, "ANNOTATION"@, 0);
                reveal_strlit("AXIS_DESCR");
                lemma_differ("DEPENDENT_CHARACTERISTIC"@, "AXIS_DESCR"@, 0);
                lemma_same("DEPENDENT_CHARACTERISTIC"@);
                assert(bare_tree(tree).keyword == "DEPENDENT_CHARACTERISTIC"@);
                lemma_node_read::<DependentCharacteristic>(n, tree, f);
            },
            CharacteristicChildView::VirtualCharacteristic(n) => {
                reveal_strlit("VIRTUAL_CHARACTERISTIC");
                reveal_strlit("ANNOTATION");
                lemma_differ("VIRTUAL_CHARACTERISTIC"@, "ANNOTATION"@, 0);
                reveal_strlit("AXIS_DESCR");
                lemma_differ("VIRTUAL_CHARACTERISTIC"@, "AXIS_DESCR"@, 0);
                reveal_strlit("DEPENDENT_CHARACTERISTIC");
                lemma_differ("VIRTUAL_CHARACTERISTIC"@, "DEPENDENT_CHARACTERISTIC"@, 0);
                lemma_same("VIRTUAL_CHARACTERISTIC"@);
                assert(bare_tree(tree).keyword == "VIRTUAL_CHARACTERISTIC"@);
                lemma_node_read::<VirtualCharacteristic>(n, tree, f);
            },
            CharacteristicChildView::Unsupported(n) => {
                <UnsupportedNode as FaithfulChild>::law_parsed(n, tree, f);
            },
        }
    }
}

/// The parameters at the start of the block.
pub open spec fn characteristic_head(v: CharacteristicView) -> Seq<Tok> {
    seq![
        plain(v.named.name),
        string(escaped(v.named.description->Some_0)),
        plain(v.char_type.word()->Some_0),
        plain(hex_form(v.addr.address->Some_0 as nat)),
        plain(v.rec.record_layout),
        plain(v.rec.max_diff.text),
        plain(v.conv.conversion),
        plain(v.conv.lower_limit.text),
        plain(v.conv.upper_limit.text)
    ]
}

/// The parameters of `ECU_ADDRESS_EXTENSION`.
#[verifier::opaque]
pub open spec fn characteristic_part_0(v: CharacteristicView) -> Seq<Tok> {
    if v.addr.address_extension is Some {
        seq![
            plain("ECU_ADDRESS_EXTENSION"@),
            plain(dec_int(v.addr.address_extension->Some_0 as int))
        ]
    } else { Seq::<Tok>::empty() }
}

/// The parameters from `ECU_ADDRESS_EXTENSION` on.
pub open spec fn characteristic_from_0(v: CharacteristicView) -> Seq<Tok> {
    characteristic_part_0(v) + characteristic_from_1(v)
}

/// What is written for `ECU_ADDRESS_EXTENSION`.
#[verifier::opaque]
pub open spec fn characteristic_page_0(v: CharacteristicView, p: Page) -> Page {
    match v.addr.address_extension { Some(x) => p.word("ECU_ADDRESS_EXTENSION"@, dec_int(x as int)), None => p }
}

/// What is written from `ECU_ADDRESS_EXTENSION` on.
pub open spec fn characteristic_pages_0(v: CharacteristicView, p: Page) -> Page {
    characteristic_pages_1(v, characteristic_page_0(v, p))
}

/// The parameters of `DISPLAY_IDENTIFIER`.
#[verifier::opaque]
pub open spec fn characteristic_part_1(v: CharacteristicView) -> Seq<Tok> {
    if v.addr.display_name is Some {
        seq![plain("DISPLAY_IDENTIFIER"@), plain(v.addr.display_name->Some_0)]
    } else { Seq::<Tok>::empty() }
}

/// The parameters from `DISPLAY_IDENTIFIER` on.
pub open spec fn characteristic_from_1(v: CharacteristicView) -> Seq<Tok> {
    characteristic_part_1(v) + characteristic_from_2(v)
}

/// What is written for `DISPLAY_IDENTIFIER`.
#[verifier::opaque]
pub open spec fn characteristic_page_1(v: CharacteristicView, p: Page) -> Page {
    match v.addr.display_name { Some(x) if x.len() > 0 => p.word("DISPLAY_IDENTIFIER"@, x), _ => p }
}

/// What is written from `DISPLAY_IDENTIFIER` on.
pub open spec fn characteristic_pages_1(v: CharacteristicView, p: Page) -> Page {
    characteristic_pages_2(v, characteristic_page_1(v, p))
}

/// The parameters of `CALIBRATION_ACCESS`.
#[verifier::opaque]
pub open spec fn characteristic_part_2(v: CharacteristicView) -> Seq<Tok> {
    if v.addr.calib_access.word() is Some {
        seq![plain("CALIBRATION_ACCESS"@), plain(v.addr.calib_access.word()->Some_0)]
    } else { Seq::<Tok>::empty() }
}

/// The parameters from `CALIBRATION_ACCESS` on.
pub open spec fn characteristic_from_2(v: CharacteristicView) -> Seq<Tok> {
    characteristic_part_2(v) + characteristic_from_3(v)
}

/// What is written for `CALIBRATION_ACCESS`.
#[verifier::opaque]
pub open spec fn characteristic_page_2(v: CharacteristicView, p: Page) -> Page {
    match v.addr.calib_access.word() { Some(kw) => p.word("CALIBRATION_ACCESS"@, kw), None => p }
}

/// What is written from `CALIBRATION_ACCESS` on.
pub open spec fn characteristic_pages_2(v: CharacteristicView, p: Page) -> Page {
    characteristic_pages_3(v, characteristic_page_2(v, p))
}

/// The parameters of `MAX_REFRESH`.
#[verifier::opaque]
pub open spec fn characteristic_part_3(v: CharacteristicView) -> Seq<Tok> {
    if v.addr.max_refresh_unit is Some {
        seq![
            plain("MAX_REFRESH"@),
            plain(dec(v.addr.max_refresh_unit->Some_0.number() as nat)),
            plain(dec_int(v.addr.max_refresh_rate as int))
        ]
    } else { Seq::<Tok>::empty() }
}

/// The parameters from `MAX_REFRESH` on.
pub open spec fn characteristic_from_3(v: CharacteristicView) -> Seq<Tok> {
    characteristic_part_3(v) + characteristic_from_4(v)
}

/// What is written for `MAX_REFRESH`.
#[verifier::opaque]
pub open spec fn characteristic_page_3(v: CharacteristicView, p: Page) -> Page {
    match v.addr.max_refresh_unit {
        Some(x) => p.word(
            "MAX_REFRESH"@,
            dec(x.number() as nat) + " "@ + dec_int(v.addr.max_refresh_rate as int)
        ),
        None => p
    }
}

/// What is written from `MAX_REFRESH` on.
pub open spec fn characteristic_pages_3(v: CharacteristicView, p: Page) -> Page {
    characteristic_pages_4(v, characteristic_page_3(v, p))
}

/// The parameters of `SYMBOL_LINK`.
#[verifier::opaque]
pub open spec fn characteristic_part_4(v: CharacteristicView) -> Seq<Tok> {
    if v.addr.symbol_link is Some {
        seq![
            plain("SYMBOL_LINK"@),
            string(v.addr.symbol_link->Some_0),
            plain(dec_int(v.addr.symbol_offset as int))
        ]
    } else { Seq::<Tok>::empty() }
}

/// The parameters from `SYMBOL_LINK` on.
pub open spec fn characteristic_from_4(v: CharacteristicView) -> Seq<Tok> {
    characteristic_part_4(v) + characteristic_from_5(v)
}

/// What is written for `SYMBOL_LINK`.
#[verifier::opaque]
pub open spec fn characteristic_page_4(v: CharacteristicView, p: Page) -> Page {
    match v.addr.symbol_link {
        Some(x) if x.len() > 0 => p.word(
            "SYMBOL_LINK"@,
            "\""@ + x + "\" "@ + dec_int(v.addr.symbol_offset as int)
        ),
        _ => p
    }
}

/// What is written from `SYMBOL_LINK` on.
pub open spec fn characteristic_pages_4(v: CharacteristicView, p: Page) -> Page {
    characteristic_pages_5(v, characteristic_page_4(v, p))
}

/// The parameters of `MODEL_LINK`.
#[verifier::opaque]
pub open spec fn characteristic_part_5(v: CharacteristicView) -> Seq<Tok> {
    if v.addr.model_link is Some {
        seq![plain("MODEL_LINK"@), string(escaped(v.addr.model_link->Some_0))]
    } else { Seq::<Tok>::empty() }
}

/// The parameters from `MODEL_LINK` on.
pub open spec fn characteristic_from_5(v: CharacteristicView) -> Seq<Tok> {
    characteristic_part_5(v) + characteristic_from_6(v)
}

/// What is written for `MODEL_LINK`.
#[verifier::opaque]
pub open spec fn characteristic_page_5(v: CharacteristicView, p: Page) -> Page {
    match v.addr.model_link { Some(x) if x.len() > 0 => p.quote("MODEL_LINK"@, x), _ => p }
}

/// What is written from `MODEL_LINK` on.
pub open spec fn characteristic_pages_5(v: CharacteristicView, p: Page) -> Page {
    characteristic_pages_6(v, characteristic_page_5(v, p))
}

/// The parameters of `FORMAT`.
#[verifier::opaque]
pub open spec fn characteristic_part_6(v: CharacteristicView) -> Seq<Tok> {
    if v.conv.format is Some {
        seq![plain("FORMAT"@), string(escaped(v.conv.format->Some_0))]
    } else { Seq::<Tok>::empty() }
}

/// The parameters from `FORMAT` on.
pub open spec fn characteristic_from_6(v: CharacteristicView) -> Seq<Tok> {
    characteristic_part_6(v) + characteristic_from_7(v)
}

/// What is written for `FORMAT`.
#[verifier::opaque]
pub open spec fn characteristic_page_6(v: CharacteristicView, p: Page) -> Page {
    match v.conv.format { Some(x) if x.len() > 0 => p.quote("FORMAT"@, x), _ => p }
}

/// What is written from `FORMAT` on.
pub open spec fn characteristic_pages_6(v: CharacteristicView, p: Page) -> Page {
    characteristic_pages_7(v, characteristic_page_6(v, p))
}

/// The parameters of `PHYS_UNIT`.
#[verifier::opaque]
pub open spec fn characteristic_part_7(v: CharacteristicView) -> Seq<Tok> {
    if v.conv.phys_unit is Some {
        seq![plain("PHYS_UNIT"@), string(escaped(v.conv.phys_unit->Some_0))]
    } else { Seq::<Tok>::empty() }
}

/// The parameters from `PHYS_UNIT` on.
pub open spec fn characteristic_from_7(v: CharacteristicView) -> Seq<Tok> {
    characteristic_part_7(v) + characteristic_from_8(v)
}

/// What is written for `PHYS_UNIT`.
#[verifier::opaque]
pub open spec fn characteristic_page_7(v: CharacteristicView, p: Page) -> Page {
    match v.conv.phys_unit { Some(x) if x.len() > 0 => p.quote("PHYS_UNIT"@, x), _ => p }
}

/// What is written from `PHYS_UNIT` on.
pub open spec fn characteristic_pages_7(v: CharacteristicView, p: Page) -> Page {
    characteristic_pages_8(v, characteristic_page_7(v, p))
}

/// The parameters of `BYTE_ORDER`.
#[verifier::opaque]
pub open spec fn characteristic_part_8(v: CharacteristicView) -> Seq<Tok> {
    if v.conv.byte_order.word() is Some {
        seq![plain("BYTE_ORDER"@), plain(v.conv.byte_order.word()->Some_0)]
    } else { Seq::<Tok>::empty() }
}

/// The parameters from `BYTE_ORDER` on.
pub open spec fn characteristic_from_8(v: CharacteristicView) -> Seq<Tok> {
    characteristic_part_8(v) + characteristic_from_9(v)
}

/// What is written for `BYTE_ORDER`.
#[verifier::opaque]
pub open spec fn characteristic_page_8(v: CharacteristicView, p: Page) -> Page {
    match v.conv.byte_order.word() { Some(kw) => p.word("BYTE_ORDER"@, kw), None => p }
}

/// What is written from `BYTE_ORDER` on.
pub open spec fn characteristic_pages_8(v: CharacteristicView, p: Page) -> Page {
    characteristic_pages_9(v, characteristic_page_8(v, p))
}

/// The parameters of `REF_MEMORY_SEGMENT`.
#[verifier::opaque]
pub open spec fn characteristic_part_9(v: CharacteristicView) -> Seq<Tok> {
    if v.conv.memory_segment_ref is Some {
        seq![plain("REF_MEMORY_SEGMENT"@), plain(v.conv.memory_segment_ref->Some_0)]
    } else { Seq::<Tok>::empty() }
}

/// The parameters from `REF_MEMORY_SEGMENT` on.
pub open spec fn characteristic_from_9(v: CharacteristicView) -> Seq<Tok> {
    characteristic_part_9(v) + characteristic_from_10(v)
}

/// What is written for `REF_MEMORY_SEGMENT`.
#[verifier::opaque]
pub open spec fn characteristic_page_9(v: CharacteristicView, p: Page) -> Page {
    match v.conv.memory_segment_ref { Some(x) if x.len() > 0 => p.word("REF_MEMORY_SEGMENT"@, x), _ => p }
}

/// What is written from `REF_MEMORY_SEGMENT` on.
pub open spec fn characteristic_pages_9(v: CharacteristicView, p: Page) -> Page {
    characteristic_pages_10(v, characteristic_page_9(v, p))
}

/// The parameters of `READ_ONLY`.
#[verifier::opaque]
pub open spec fn characteristic_part_10(v: CharacteristicView) -> Seq<Tok> {
    if v.rec.read_only { seq![plain("READ_ONLY"@)] } else { Seq::<Tok>::empty() }
}

/// The parameters from `READ_ONLY` on.
pub open spec fn characteristic_from_10(v: CharacteristicView) -> Seq<Tok> {
    characteristic_part_10(v) + characteristic_from_11(v)
}

/// What is written for `READ_ONLY`.
#[verifier::opaque]
pub open spec fn characteristic_page_10(v: CharacteristicView, p: Page) -> Page {
    if v.rec.read_only { p.line("READ_ONLY"@) } else { p }
}

/// What is written from `READ_ONLY` on.
pub open spec fn characteristic_pages_10(v: CharacteristicView, p: Page) -> Page {
    characteristic_pages_11(v, characteristic_page_10(v, p))
}

/// The parameters of `EXTENDED_LIMITS`.
#[verifier::opaque]
pub open spec fn characteristic_part_11(v: CharacteristicView) -> Seq<Tok> {
    if v.rec.extended_limits is Some {
        seq![
            plain("EXTENDED_LIMITS"@),
            plain(v.rec.extended_limits->Some_0.0.text),
            plain(v.rec.extended_limits->Some_0.1.text)
        ]
    } else { Seq::<Tok>::empty() }
}

/// The parameters from `EXTENDED_LIMITS` on.
pub open spec fn characteristic_from_11(v: CharacteristicView) -> Seq<Tok> {
    characteristic_part_11(v) + characteristic_from_12(v)
}

/// What is written for `EXTENDED_LIMITS`.
#[verifier::opaque]
pub open spec fn characteristic_page_11(v: CharacteristicView, p: Page) -> Page {
    match v.rec.extended_limits {
        Some((lo, hi)) => p.line("EXTENDED_LIMITS "@ + lo.text + " "@ + hi.text),
        None => p
    }
}

/// What is written from `EXTENDED_LIMITS` on.
pub open spec fn characteristic_pages_11(v: CharacteristicView, p: Page) -> Page {
    characteristic_pages_12(v, characteristic_page_11(v, p))
}

/// The parameters of `STEP_SIZE`.
#[verifier::opaque]
pub open spec fn characteristic_part_12(v: CharacteristicView) -> Seq<Tok> {
    if v.rec.step_size is Some {
        seq![plain("STEP_SIZE"@), plain(v.rec.step_size->Some_0.text)]
    } else { Seq::<Tok>::empty() }
}

/// The parameters from `STEP_SIZE` on.
pub open spec fn characteristic_from_12(v: CharacteristicView) -> Seq<Tok> {
    characteristic_part_12(v) + characteristic_from_13(v)
}

/// What is written for `STEP_SIZE`.
#[verifier::opaque]
pub open spec fn characteristic_page_12(v: CharacteristicView, p: Page) -> Page {
    match v.rec.step_size { Some(x) => p.word("STEP_SIZE"@, x.text), None => p }
}

/// What is written from `STEP_SIZE` on.
pub open spec fn characteristic_pages_12(v: CharacteristicView, p: Page) -> Page {
    characteristic_pages_13(v, characteristic_page_12(v, p))
}

/// The parameters of `GUARD_RAILS`.
#[verifier::opaque]
pub open spec fn characteristic_part_13(v: CharacteristicView) -> Seq<Tok> {
    if v.rec.guard_rails { seq![plain("GUARD_RAILS"@)] } else { Seq::<Tok>::empty() }
}

/// The parameters from `GUARD_RAILS` on.
pub open spec fn characteristic_from_13(v: CharacteristicView) -> Seq<Tok> {
    characteristic_part_13(v) + characteristic_from_14(v)
}

/// What is written for `GUARD_RAILS`.
#[verifier::opaque]
pub open spec fn characteristic_page_13(v: CharacteristicView, p: Page) -> Page {
    if v.rec.guard_rails { p.line("GUARD_RAILS"@) } else { p }
}

/// What is written from `GUARD_RAILS` on.
pub open spec fn characteristic_pages_13(v: CharacteristicView, p: Page) -> Page {
    characteristic_pages_14(v, characteristic_page_13(v, p))
}

/// The parameters of `BIT_MASK`.
#[verifier::opaque]
pub open spec fn characteristic_part_14(v: CharacteristicView) -> Seq<Tok> {
    if v.bitmask is Some {
        seq![plain("BIT_MASK"@), plain(hex_form(v.bitmask->Some_0 as nat))]
    } else { Seq::<Tok>::empty() }
}

/// The parameters from `BIT_MASK` on.
pub open spec fn characteristic_from_14(v: CharacteristicView) -> Seq<Tok> {
    characteristic_part_14(v) + characteristic_from_15(v)
}

/// What is written for `BIT_MASK`.
#[verifier::opaque]
pub open spec fn characteristic_page_14(v: CharacteristicView, p: Page) -> Page {
    match v.bitmask { Some(x) => p.word("BIT_MASK"@, hex_form(x as nat)), None => p }
}

/// What is written from `BIT_MASK` on.
pub open spec fn characteristic_pages_14(v: CharacteristicView, p: Page) -> Page {
    characteristic_pages_15(v, characteristic_page_14(v, p))
}

/// The parameters of `NUMBER`.
#[verifier::opaque]
pub open spec fn characteristic_part_15(v: CharacteristicView) -> Seq<Tok> {
    if v.number != 0 { seq![plain("NUMBER"@), plain(dec_int(v.number as int))] } else { Seq::<Tok>::empty() }
}

/// The parameters from `NUMBER` on.
pub open spec fn characteristic_from_15(v: CharacteristicView) -> Seq<Tok> {
    characteristic_part_15(v) + characteristic_from_16(v)
}

/// What is written for `NUMBER`.
#[verifier::opaque]
pub open spec fn characteristic_page_15(v: CharacteristicView, p: Page) -> Page {
    if v.number != 0 { p.word("NUMBER"@, dec_int(v.number as int)) } else { p }
}

/// What is written from `NUMBER` on.
pub open spec fn characteristic_pages_15(v: CharacteristicView, p: Page) -> Page {
    characteristic_pages_16(v, characteristic_page_15(v, p))
}

/// The parameters of `MATRIX_DIM`.
#[verifier::opaque]
pub open spec fn characteristic_part_16(v: CharacteristicView) -> Seq<Tok> {
    if v.matrix_dim is Some {
        seq![plain("MATRIX_DIM"@)] + int_tokens(v.matrix_dim->Some_0)
    } else { Seq::<Tok>::empty() }
}

/// The parameters from `MATRIX_DIM` on.
pub open spec fn characteristic_from_16(v: CharacteristicView) -> Seq<Tok> {
    characteristic_part_16(v) + characteristic_from_17(v)
}

/// What is written for `MATRIX_DIM`.
#[verifier::opaque]
pub open spec fn characteristic_page_16(v: CharacteristicView, p: Page) -> Page {
    match v.matrix_dim { Some(x) => p.word("MATRIX_DIM"@, listed(x)), None => p }
}

/// What is written from `MATRIX_DIM` on.
pub open spec fn characteristic_pages_16(v: CharacteristicView, p: Page) -> Page {
    characteristic_pages_17(v, characteristic_page_16(v, p))
}

/// The parameters of `DISCRETE`.
#[verifier::opaque]
pub open spec fn characteristic_part_17(v: CharacteristicView) -> Seq<Tok> {
    if v.discrete { seq![plain("DISCRETE"@)] } else { Seq::<Tok>::empty() }
}

/// The parameters from `DISCRETE` on.
pub open spec fn characteristic_from_17(v: CharacteristicView) -> Seq<Tok> {
    characteristic_part_17(v) + characteristic_from_18(v)
}

/// What is written for `DISCRETE`.
#[verifier::opaque]
pub open spec fn characteristic_page_17(v: CharacteristicView, p: Page) -> Page {
    if v.discrete { p.line("DISCRETE"@) } else { p }
}

/// What is written from `DISCRETE` on.
pub open spec fn characteristic_pages_17(v: CharacteristicView, p: Page) -> Page {
    characteristic_pages_18(v, characteristic_page_17(v, p))
}

/// The parameters of `ENCODING`.
#[verifier::opaque]
pub open spec fn characteristic_part_18(v: CharacteristicView) -> Seq<Tok> {
    if v.encoding != EncodingType::ASCII {
        seq![plain("ENCODING"@), plain(v.encoding.word()->Some_0)]
    } else { Seq::<Tok>::empty() }
}

/// The parameters from `ENCODING` on.
pub open spec fn characteristic_from_18(v: CharacteristicView) -> Seq<Tok> {
    characteristic_part_18(v) + characteristic_from_19(v)
}

/// What is written for `ENCODING`.
#[verifier::opaque]
pub open spec fn characteristic_page_18(v: CharacteristicView, p: Page) -> Page {
    if v.encoding != EncodingType::ASCII {
        match v.encoding.word() { Some(kw) => p.word("ENCODING"@, kw), None => p }
    } else { p }
}

/// What is written from `ENCODING` on.
pub open spec fn characteristic_pages_18(v: CharacteristicView, p: Page) -> Page {
    characteristic_pages_19(v, characteristic_page_18(v, p))
}

/// The parameters behind the last keyword.
pub open spec fn characteristic_from_19(v: CharacteristicView) -> Seq<Tok> {
    Seq::empty()
}

/// What is written behind the last keyword.
pub open spec fn characteristic_pages_19(v: CharacteristicView, p: Page) -> Page {
    p
}

proof fn lemma_characteristic_part_18(v: CharacteristicView, p: Page, f: Setting)
    requires
        Characteristic::fits(v, f),
        indents_by_blanks(p),
    ensures
        shows(p, characteristic_page_18(v, p), characteristic_part_18(v)),
        characteristic_page_18(v, p).depth == p.depth,
        characteristic_page_18(v, p).style == p.style,
        all_params(characteristic_part_18(v)),
{
    reveal(characteristic_page_18);
    reveal(characteristic_part_18);
    if v.encoding != EncodingType::ASCII {
        reveal_strlit("ENCODING");
        assert(is_keyword("ENCODING"@));
        lemma_keyword_param("ENCODING"@);
        v.encoding.lemma_word();
        lemma_shows_word(p, "ENCODING"@, v.encoding.word()->Some_0);
        reveal_strlit("ENCODING");
        assert(is_keyword("ENCODING"@));
        lemma_keyword_param("ENCODING"@);
        v.encoding.lemma_word();
        assert(all_params(seq![plain("ENCODING"@), plain(v.encoding.word()->Some_0)]));
        
    } else {
        lemma_shows_nothing(p);
    }
}

proof fn lemma_characteristic_part_17(v: CharacteristicView, p: Page, f: Setting)
    requires
        Characteristic::fits(v, f),
        indents_by_blanks(p),
    ensures
        shows(p, characteristic_page_17(v, p), characteristic_part_17(v)),
        characteristic_page_17(v, p).depth == p.depth,
        characteristic_page_17(v, p).style == p.style,
        all_params(characteristic_part_17(v)),
{
    reveal(characteristic_page_17);
    reveal(characteristic_part_17);
    if v.discrete {
        reveal_strlit("DISCRETE");
        assert(is_keyword("DISCRETE"@));
        lemma_keyword_param("DISCRETE"@);
        lemma_shows_word_line(p, "DISCRETE"@);
        reveal_strlit("DISCRETE");
        assert(is_keyword("DISCRETE"@));
        lemma_keyword_param("DISCRETE"@);
        assert(all_params(seq![plain("DISCRETE"@)]));
        
    } else {
        lemma_shows_nothing(p);
    }
}

proof fn lemma_characteristic_part_16(v: CharacteristicView, p: Page, f: Setting)
    requires
        Characteristic::fits(v, f),
        indents_by_blanks(p),
    ensures
        shows(p, characteristic_page_16(v, p), characteristic_part_16(v)),
        characteristic_page_16(v, p).depth == p.depth,
        characteristic_page_16(v, p).style == p.style,
        all_params(characteristic_part_16(v)),
{
    reveal(characteristic_page_16);
    reveal(characteristic_part_16);
    if v.matrix_dim is Some {
        reveal_strlit("MATRIX_DIM");
        assert(is_keyword("MATRIX_DIM"@));
        lemma_keyword_param("MATRIX_DIM"@);
        lemma_spells_ints(v.matrix_dim->Some_0);
        lemma_shows_tagged(p, "MATRIX_DIM"@, listed(v.matrix_dim->Some_0), int_tokens(v.matrix_dim->Some_0));
        reveal_strlit("MATRIX_DIM");
        assert(is_keyword("MATRIX_DIM"@));
        lemma_keyword_param("MATRIX_DIM"@);
        assert(all_params(seq![plain("MATRIX_DIM"@)]));
        lemma_int_params(v.matrix_dim->Some_0);
        lemma_all_params_join(seq![plain("MATRIX_DIM"@)], int_tokens(v.matrix_dim->Some_0));
    } else {
        lemma_shows_nothing(p);
    }
}

proof fn lemma_characteristic_part_15(v: CharacteristicView, p: Page, f: Setting)
    requires
        Characteristic::fits(v, f),
        indents_by_blanks(p),
    ensures
        shows(p, characteristic_page_15(v, p), characteristic_part_15(v)),
        characteristic_page_15(v, p).depth == p.depth,
        characteristic_page_15(v, p).style == p.style,
        all_params(characteristic_part_15(v)),
{
    reveal(characteristic_page_15);
    reveal(characteristic_part_15);
    if v.number != 0 {
        reveal_strlit("NUMBER");
        assert(is_keyword("NUMBER"@));
        lemma_keyword_param("NUMBER"@);
        lemma_dec_param(v.number as int);
        lemma_shows_word(p, "NUMBER"@, dec_int(v.number as int));
        reveal_strlit("NUMBER");
        assert(is_keyword("NUMBER"@));
        lemma_keyword_param("NUMBER"@);
        lemma_dec_param(v.number as int);
        assert(all_params(seq![plain("NUMBER"@), plain(dec_int(v.number as int))]));
        
    } else {
        lemma_shows_nothing(p);
    }
}

proof fn lemma_characteristic_part_14(v: CharacteristicView, p: Page, f: Setting)
    requires
        Characteristic::fits(v, f),
        indents_by_blanks(p),
    ensures
        shows(p, characteristic_page_14(v, p), characteristic_part_14(v)),
        characteristic_page_14(v, p).depth == p.depth,
        characteristic_page_14(v, p).style == p.style,
        all_params(characteristic_part_14(v)),
{
    reveal(characteristic_page_14);
    reveal(characteristic_part_14);
    if v.bitmask is Some {
        reveal_strlit("BIT_MASK");
        assert(is_keyword("BIT_MASK"@));
        lemma_keyword_param("BIT_MASK"@);
        lemma_hex_param(v.bitmask->Some_0 as nat);
        lemma_shows_word(p, "BIT_MASK"@, hex_form(v.bitmask->Some_0 as nat));
        reveal_strlit("BIT_MASK");
        assert(is_keyword("BIT_MASK"@));
        lemma_keyword_param("BIT_MASK"@);
        lemma_hex_param(v.bitmask->Some_0 as nat);
        assert(all_params(seq![plain("BIT_MASK"@), plain(hex_form(v.bitmask->Some_0 as nat))]));
        
    } else {
        lemma_shows_nothing(p);
    }
}

proof fn lemma_characteristic_part_13(v: CharacteristicView, p: Page, f: Setting)
    requires
        Characteristic::fits(v, f),
        indents_by_blanks(p),
    ensures
        shows(p, characteristic_page_13(v, p), characteristic_part_13(v)),
        characteristic_page_13(v, p).depth == p.depth,
        characteristic_page_13(v, p).style == p.style,
        all_params(characteristic_part_13(v)),
{
    reveal(characteristic_page_13);
    reveal(characteristic_part_13);
    if v.rec.guard_rails {
        reveal_strlit("GUARD_RAILS");
        assert(is_keyword("GUARD_RAILS"@));
        lemma_keyword_param("GUARD_RAILS"@);
        lemma_shows_word_line(p, "GUARD_RAILS"@);
        reveal_strlit("GUARD_RAILS");
        assert(is_keyword("GUARD_RAILS"@));
        lemma_keyword_param("GUARD_RAILS"@);
        assert(all_params(seq![plain("GUARD_RAILS"@)]));
        
    } else {
        lemma_shows_nothing(p);
    }
}

proof fn lemma_characteristic_part_12(v: CharacteristicView, p: Page, f: Setting)
    requires
        Characteristic::fits(v, f),
        indents_by_blanks(p),
    ensures
        shows(p, characteristic_page_12(v, p), characteristic_part_12(v)),
        characteristic_page_12(v, p).depth == p.depth,
        characteristic_page_12(v, p).style == p.style,
        all_params(characteristic_part_12(v)),
{
    reveal(characteristic_page_12);
    reveal(characteristic_part_12);
    if v.rec.step_size is Some {
        reveal_strlit("STEP_SIZE");
        assert(is_keyword("STEP_SIZE"@));
        lemma_keyword_param("STEP_SIZE"@);
        lemma_shows_word(p, "STEP_SIZE"@, v.rec.step_size->Some_0.text);
        reveal_strlit("STEP_SIZE");
        assert(is_keyword("STEP_SIZE"@));
        lemma_keyword_param("STEP_SIZE"@);
        assert(all_params(seq![plain("STEP_SIZE"@), plain(v.rec.step_size->Some_0.text)]));
        
    } else {
        lemma_shows_nothing(p);
    }
}

proof fn lemma_characteristic_part_11(v: CharacteristicView, p: Page, f: Setting)
    requires
        Characteristic::fits(v, f),
        indents_by_blanks(p),
    ensures
        shows(p, characteristic_page_11(v, p), characteristic_part_11(v)),
        characteristic_page_11(v, p).depth == p.depth,
        characteristic_page_11(v, p).style == p.style,
        all_params(characteristic_part_11(v)),
{
    reveal(characteristic_page_11);
    reveal(characteristic_part_11);
    if v.rec.extended_limits is Some {
        reveal_strlit("EXTENDED_LIMITS");
        assert(is_keyword("EXTENDED_LIMITS"@));
        lemma_keyword_param("EXTENDED_LIMITS"@);
        let (lo, hi) = v.rec.extended_limits->Some_0;
        reveal_strlit("EXTENDED_LIMITS ");
        reveal_strlit("EXTENDED_LIMITS");
        reveal_strlit(" ");
        assert(
            "EXTENDED_LIMITS "@ + lo.text + " "@ + hi.text =~= "EXTENDED_LIMITS"@ + " "@ + (lo.text + " "@ + hi.text)
        );
        lemma_spells_pair(lo.text, hi.text);
        lemma_shows_tagged(p, "EXTENDED_LIMITS"@, lo.text + " "@ + hi.text, seq![plain(lo.text), plain(hi.text)]);
        assert(
            seq![plain("EXTENDED_LIMITS"@)] + seq![plain(lo.text), plain(hi.text)] =~= seq![
                plain("EXTENDED_LIMITS"@),
                plain(lo.text),
                plain(hi.text)
            ]
        );
        reveal_strlit("EXTENDED_LIMITS");
        assert(is_keyword("EXTENDED_LIMITS"@));
        lemma_keyword_param("EXTENDED_LIMITS"@);
        assert(
            all_params(
                seq![
                    plain("EXTENDED_LIMITS"@),
                    plain(v.rec.extended_limits->Some_0.0.text),
                    plain(v.rec.extended_limits->Some_0.1.text)
                ]
            )
        );
        
    } else {
        lemma_shows_nothing(p);
    }
}

proof fn lemma_characteristic_part_10(v: CharacteristicView, p: Page, f: Setting)
    requires
        Characteristic::fits(v, f),
        indents_by_blanks(p),
    ensures
        shows(p, characteristic_page_10(v, p), characteristic_part_10(v)),
        characteristic_page_10(v, p).depth == p.depth,
        characteristic_page_10(v, p).style == p.style,
        all_params(characteristic_part_10(v)),
{
    reveal(characteristic_page_10);
    reveal(characteristic_part_10);
    if v.rec.read_only {
        reveal_strlit("READ_ONLY");
        assert(is_keyword("READ_ONLY"@));
        lemma_keyword_param("READ_ONLY"@);
        lemma_shows_word_line(p, "READ_ONLY"@);
        reveal_strlit("READ_ONLY");
        assert(is_keyword("READ_ONLY"@));
        lemma_keyword_param("READ_ONLY"@);
        assert(all_params(seq![plain("READ_ONLY"@)]));
        
    } else {
        lemma_shows_nothing(p);
    }
}

proof fn lemma_characteristic_part_9(v: CharacteristicView, p: Page, f: Setting)
    requires
        Characteristic::fits(v, f),
        indents_by_blanks(p),
    ensures
        shows(p, characteristic_page_9(v, p), characteristic_part_9(v)),
        characteristic_page_9(v, p).depth == p.depth,
        characteristic_page_9(v, p).style == p.style,
        all_params(characteristic_part_9(v)),
{
    reveal(characteristic_page_9);
    reveal(characteristic_part_9);
    if v.conv.memory_segment_ref is Some {
        reveal_strlit("REF_MEMORY_SEGMENT");
        assert(is_keyword("REF_MEMORY_SEGMENT"@));
        lemma_keyword_param("REF_MEMORY_SEGMENT"@);
        lemma_shows_word(p, "REF_MEMORY_SEGMENT"@, v.conv.memory_segment_ref->Some_0);
        reveal_strlit("REF_MEMORY_SEGMENT");
        assert(is_keyword("REF_MEMORY_SEGMENT"@));
        lemma_keyword_param("REF_MEMORY_SEGMENT"@);
        assert(all_params(seq![plain("REF_MEMORY_SEGMENT"@), plain(v.conv.memory_segment_ref->Some_0)]));
        
    } else {
        lemma_shows_nothing(p);
    }
}

proof fn lemma_characteristic_part_8(v: CharacteristicView, p: Page, f: Setting)
    requires
        Characteristic::fits(v, f),
        indents_by_blanks(p),
    ensures
        shows(p, characteristic_page_8(v, p), characteristic_part_8(v)),
        characteristic_page_8(v, p).depth == p.depth,
        characteristic_page_8(v, p).style == p.style,
        all_params(characteristic_part_8(v)),
{
    reveal(characteristic_page_8);
    reveal(characteristic_part_8);
    if v.conv.byte_order.word() is Some {
        reveal_strlit("BYTE_ORDER");
        assert(is_keyword("BYTE_ORDER"@));
        lemma_keyword_param("BYTE_ORDER"@);
        v.conv.byte_order.lemma_word();
        lemma_shows_word(p, "BYTE_ORDER"@, v.conv.byte_order.word()->Some_0);
        reveal_strlit("BYTE_ORDER");
        assert(is_keyword("BYTE_ORDER"@));
        lemma_keyword_param("BYTE_ORDER"@);
        v.conv.byte_order.lemma_word();
        assert(all_params(seq![plain("BYTE_ORDER"@), plain(v.conv.byte_order.word()->Some_0)]));
        
    } else {
        lemma_shows_nothing(p);
    }
}

proof fn lemma_characteristic_part_7(v: CharacteristicView, p: Page, f: Setting)
    requires
        Characteristic::fits(v, f),
        indents_by_blanks(p),
    ensures
        shows(p, characteristic_page_7(v, p), characteristic_part_7(v)),
        characteristic_page_7(v, p).depth == p.depth,
        characteristic_page_7(v, p).style == p.style,
        all_params(characteristic_part_7(v)),
{
    reveal(characteristic_page_7);
    reveal(characteristic_part_7);
    if v.conv.phys_unit is Some {
        reveal_strlit("PHYS_UNIT");
        assert(is_keyword("PHYS_UNIT"@));
        lemma_keyword_param("PHYS_UNIT"@);
        lemma_shows_quote(p, "PHYS_UNIT"@, v.conv.phys_unit->Some_0);
        reveal_strlit("PHYS_UNIT");
        assert(is_keyword("PHYS_UNIT"@));
        lemma_keyword_param("PHYS_UNIT"@);
        lemma_string_param(v.conv.phys_unit->Some_0);
        assert(all_params(seq![plain("PHYS_UNIT"@), string(escaped(v.conv.phys_unit->Some_0))]));
        
    } else {
        lemma_shows_nothing(p);
    }
}

proof fn lemma_characteristic_part_6(v: CharacteristicView, p: Page, f: Setting)
    requires
        Characteristic::fits(v, f),
        indents_by_blanks(p),
    ensures
        shows(p, characteristic_page_6(v, p), characteristic_part_6(v)),
        characteristic_page_6(v, p).depth == p.depth,
        characteristic_page_6(v, p).style == p.style,
        all_params(characteristic_part_6(v)),
{
    reveal(characteristic_page_6);
    reveal(characteristic_part_6);
    if v.conv.format is Some {
        reveal_strlit("FORMAT");
        assert(is_keyword("FORMAT"@));
        lemma_keyword_param("FORMAT"@);
        lemma_shows_quote(p, "FORMAT"@, v.conv.format->Some_0);
        reveal_strlit("FORMAT");
        assert(is_keyword("FORMAT"@));
        lemma_keyword_param("FORMAT"@);
        lemma_string_param(v.conv.format->Some_0);
        assert(all_params(seq![plain("FORMAT"@), string(escaped(v.conv.format->Some_0))]));
        
    } else {
        lemma_shows_nothing(p);
    }
}

proof fn lemma_characteristic_part_5(v: CharacteristicView, p: Page, f: Setting)
    requires
        Characteristic::fits(v, f),
        indents_by_blanks(p),
    ensures
        shows(p, characteristic_page_5(v, p), characteristic_part_5(v)),
        characteristic_page_5(v, p).depth == p.depth,
        characteristic_page_5(v, p).style == p.style,
        all_params(characteristic_part_5(v)),
{
    reveal(characteristic_page_5);
    reveal(characteristic_part_5);
    if v.addr.model_link is Some {
        reveal_strlit("MODEL_LINK");
        assert(is_keyword("MODEL_LINK"@));
        lemma_keyword_param("MODEL_LINK"@);
        lemma_shows_quote(p, "MODEL_LINK"@, v.addr.model_link->Some_0);
        reveal_strlit("MODEL_LINK");
        assert(is_keyword("MODEL_LINK"@));
        lemma_keyword_param("MODEL_LINK"@);
        lemma_string_param(v.addr.model_link->Some_0);
        assert(all_params(seq![plain("MODEL_LINK"@), string(escaped(v.addr.model_link->Some_0))]));
        
    } else {
        lemma_shows_nothing(p);
    }
}

proof fn lemma_characteristic_part_4(v: CharacteristicView, p: Page, f: Setting)
    requires
        Characteristic::fits(v, f),
        indents_by_blanks(p),
    ensures
        shows(p, characteristic_page_4(v, p), characteristic_part_4(v)),
        characteristic_page_4(v, p).depth == p.depth,
        characteristic_page_4(v, p).style == p.style,
        all_params(characteristic_part_4(v)),
{
    reveal(characteristic_page_4);
    reveal(characteristic_part_4);
    if v.addr.symbol_link is Some {
        reveal_strlit("SYMBOL_LINK");
        assert(is_keyword("SYMBOL_LINK"@));
        lemma_keyword_param("SYMBOL_LINK"@);
        let link = v.addr.symbol_link->Some_0;
        let offset = dec_int(v.addr.symbol_offset as int);
        reveal_strlit("\"");
        reveal_strlit("\" ");
        reveal_strlit(" ");
        lemma_dec_param(v.addr.symbol_offset as int);
        assert("\""@ + link + "\" "@ + offset =~= ("\""@ + link + "\""@) + " "@ + offset);
        lemma_spells_content(link);
        lemma_spells_word(offset);
        lemma_spells_join("\""@ + link + "\""@, seq![string(link)], offset, seq![plain(offset)]);
        lemma_shows_tagged(
            p,
            "SYMBOL_LINK"@,
            "\""@ + link + "\" "@ + offset,
            seq![string(link)] + seq![plain(offset)]
        );
        assert(
            seq![plain("SYMBOL_LINK"@)] + (seq![string(link)] + seq![plain(offset)]) =~= seq![
                plain("SYMBOL_LINK"@),
                string(link),
                plain(offset)
            ]
        );
        reveal_strlit("SYMBOL_LINK");
        assert(is_keyword("SYMBOL_LINK"@));
        lemma_keyword_param("SYMBOL_LINK"@);
        lemma_dec_param(v.addr.symbol_offset as int);
        assert(
            all_params(
                seq![
                    plain("SYMBOL_LINK"@),
                    string(v.addr.symbol_link->Some_0),
                    plain(dec_int(v.addr.symbol_offset as int))
                ]
            )
        );
        
    } else {
        lemma_shows_nothing(p);
    }
}

proof fn lemma_characteristic_part_3(v: CharacteristicView, p: Page, f: Setting)
    requires
        Characteristic::fits(v, f),
        indents_by_blanks(p),
    ensures
        shows(p, characteristic_page_3(v, p), characteristic_part_3(v)),
        characteristic_page_3(v, p).depth == p.depth,
        characteristic_page_3(v, p).style == p.style,
        all_params(characteristic_part_3(v)),
{
    reveal(characteristic_page_3);
    reveal(characteristic_part_3);
    if v.addr.max_refresh_unit is Some {
        reveal_strlit("MAX_REFRESH");
        assert(is_keyword("MAX_REFRESH"@));
        lemma_keyword_param("MAX_REFRESH"@);
        let unit = dec(v.addr.max_refresh_unit->Some_0.number() as nat);
        let rate = dec_int(v.addr.max_refresh_rate as int);
        lemma_dec_param(v.addr.max_refresh_unit->Some_0.number() as int);
        lemma_dec_param(v.addr.max_refresh_rate as int);
        lemma_spells_pair(unit, rate);
        lemma_shows_tagged(p, "MAX_REFRESH"@, unit + " "@ + rate, seq![plain(unit), plain(rate)]);
        assert(
            seq![plain("MAX_REFRESH"@)] + seq![plain(unit), plain(rate)] =~= seq![
                plain("MAX_REFRESH"@),
                plain(unit),
                plain(rate)
            ]
        );
        reveal_strlit("MAX_REFRESH");
        assert(is_keyword("MAX_REFRESH"@));
        lemma_keyword_param("MAX_REFRESH"@);
        lemma_dec_param(v.addr.max_refresh_unit->Some_0.number() as int);
        lemma_dec_param(v.addr.max_refresh_rate as int);
        assert(
            all_params(
                seq![
                    plain("MAX_REFRESH"@),
                    plain(dec(v.addr.max_refresh_unit->Some_0.number() as nat)),
                    plain(dec_int(v.addr.max_refresh_rate as int))
                ]
            )
        );
        
    } else {
        lemma_shows_nothing(p);
    }
}

proof fn lemma_characteristic_part_2(v: CharacteristicView, p: Page, f: Setting)
    requires
        Characteristic::fits(v, f),
        indents_by_blanks(p),
    ensures
        shows(p, characteristic_page_2(v, p), characteristic_part_2(v)),
        characteristic_page_2(v, p).depth == p.depth,
        characteristic_page_2(v, p).style == p.style,
        all_params(characteristic_part_2(v)),
{
    reveal(characteristic_page_2);
    reveal(characteristic_part_2);
    if v.addr.calib_access.word() is Some {
        reveal_strlit("CALIBRATION_ACCESS");
        assert(is_keyword("CALIBRATION_ACCESS"@));
        lemma_keyword_param("CALIBRATION_ACCESS"@);
        v.addr.calib_access.lemma_word();
        lemma_shows_word(p, "CALIBRATION_ACCESS"@, v.addr.calib_access.word()->Some_0);
        reveal_strlit("CALIBRATION_ACCESS");
        assert(is_keyword("CALIBRATION_ACCESS"@));
        lemma_keyword_param("CALIBRATION_ACCESS"@);
        v.addr.calib_access.lemma_word();
        assert(all_params(seq![plain("CALIBRATION_ACCESS"@), plain(v.addr.calib_access.word()->Some_0)]));
        
    } else {
        lemma_shows_nothing(p);
    }
}

proof fn lemma_characteristic_part_1(v: CharacteristicView, p: Page, f: Setting)
    requires
        Characteristic::fits(v, f),
        indents_by_blanks(p),
    ensures
        shows(p, characteristic_page_1(v, p), characteristic_part_1(v)),
        characteristic_page_1(v, p).depth == p.depth,
        characteristic_page_1(v, p).style == p.style,
        all_params(characteristic_part_1(v)),
{
    reveal(characteristic_page_1);
    reveal(characteristic_part_1);
    if v.addr.display_name is Some {
        reveal_strlit("DISPLAY_IDENTIFIER");
        assert(is_keyword("DISPLAY_IDENTIFIER"@));
        lemma_keyword_param("DISPLAY_IDENTIFIER"@);
        lemma_shows_word(p, "DISPLAY_IDENTIFIER"@, v.addr.display_name->Some_0);
        reveal_strlit("DISPLAY_IDENTIFIER");
        assert(is_keyword("DISPLAY_IDENTIFIER"@));
        lemma_keyword_param("DISPLAY_IDENTIFIER"@);
        assert(all_params(seq![plain("DISPLAY_IDENTIFIER"@), plain(v.addr.display_name->Some_0)]));
        
    } else {
        lemma_shows_nothing(p);
    }
}

proof fn lemma_characteristic_part_0(v: CharacteristicView, p: Page, f: Setting)
    requires
        Characteristic::fits(v, f),
        indents_by_blanks(p),
    ensures
        shows(p, characteristic_page_0(v, p), characteristic_part_0(v)),
        characteristic_page_0(v, p).depth == p.depth,
        characteristic_page_0(v, p).style == p.style,
        all_params(characteristic_part_0(v)),
{
    reveal(characteristic_page_0);
    reveal(characteristic_part_0);
    if v.addr.address_extension is Some {
        reveal_strlit("ECU_ADDRESS_EXTENSION");
        assert(is_keyword("ECU_ADDRESS_EXTENSION"@));
        lemma_keyword_param("ECU_ADDRESS_EXTENSION"@);
        lemma_dec_param(v.addr.address_extension->Some_0 as int);
        lemma_shows_word(p, "ECU_ADDRESS_EXTENSION"@, dec_int(v.addr.address_extension->Some_0 as int));
        reveal_strlit("ECU_ADDRESS_EXTENSION");
        assert(is_keyword("ECU_ADDRESS_EXTENSION"@));
        lemma_keyword_param("ECU_ADDRESS_EXTENSION"@);
        lemma_dec_param(v.addr.address_extension->Some_0 as int);
        assert(
            all_params(
                seq![
                    plain("ECU_ADDRESS_EXTENSION"@),
                    plain(dec_int(v.addr.address_extension->Some_0 as int))
                ]
            )
        );
        
    } else {
        lemma_shows_nothing(p);
    }
}

proof fn lemma_characteristic_shown_19(v: CharacteristicView, p: Page, f: Setting)
    requires
        Characteristic::fits(v, f),
        indents_by_blanks(p),
    ensures
        shows(p, characteristic_pages_19(v, p), characteristic_from_19(v)),
        characteristic_pages_19(v, p).depth == p.depth,
        characteristic_pages_19(v, p).style == p.style,
        all_params(characteristic_from_19(v)),
{
    lemma_shows_nothing(p);
}

proof fn lemma_characteristic_shown_18(v: CharacteristicView, p: Page, f: Setting)
    requires
        Characteristic::fits(v, f),
        indents_by_blanks(p),
    ensures
        shows(p, characteristic_pages_18(v, p), characteristic_from_18(v)),
        characteristic_pages_18(v, p).depth == p.depth,
        characteristic_pages_18(v, p).style == p.style,
        all_params(characteristic_from_18(v)),
{
    lemma_characteristic_part_18(v, p, f);
    let q = characteristic_page_18(v, p);
    lemma_characteristic_shown_19(v, q, f);
    lemma_shows_join(p, q, characteristic_pages_19(v, q), characteristic_part_18(v), characteristic_from_19(v));
    lemma_all_params_join(characteristic_part_18(v), characteristic_from_19(v));
}

proof fn lemma_characteristic_shown_17(v: CharacteristicView, p: Page, f: Setting)
    requires
        Characteristic::fits(v, f),
        indents_by_blanks(p),
    ensures
        shows(p, characteristic_pages_17(v, p), characteristic_from_17(v)),
        characteristic_pages_17(v, p).depth == p.depth,
        characteristic_pages_17(v, p).style == p.style,
        all_params(characteristic_from_17(v)),
{
    lemma_characteristic_part_17(v, p, f);
    let q = characteristic_page_17(v, p);
    lemma_characteristic_shown_18(v, q, f);
    lemma_shows_join(p, q, characteristic_pages_18(v, q), characteristic_part_17(v), characteristic_from_18(v));
    lemma_all_params_join(characteristic_part_17(v), characteristic_from_18(v));
}

proof fn lemma_characteristic_shown_16(v: CharacteristicView, p: Page, f: Setting)
    requires
        Characteristic::fits(v, f),
        indents_by_blanks(p),
    ensures
        shows(p, characteristic_pages_16(v, p), characteristic_from_16(v)),
        characteristic_pages_16(v, p).depth == p.depth,
        characteristic_pages_16(v, p).style == p.style,
        all_params(characteristic_from_16(v)),
{
    lemma_characteristic_part_16(v, p, f);
    let q = characteristic_page_16(v, p);
    lemma_characteristic_shown_17(v, q, f);
    lemma_shows_join(p, q, characteristic_pages_17(v, q), characteristic_part_16(v), characteristic_from_17(v));
    lemma_all_params_join(characteristic_part_16(v), characteristic_from_17(v));
}

proof fn lemma_characteristic_shown_15(v: CharacteristicView, p: Page, f: Setting)
    requires
        Characteristic::fits(v, f),
        indents_by_blanks(p),
    ensures
        shows(p, characteristic_pages_15(v, p), characteristic_from_15(v)),
        characteristic_pages_15(v, p).depth == p.depth,
        characteristic_pages_15(v, p).style == p.style,
        all_params(characteristic_from_15(v)),
{
    lemma_characteristic_part_15(v, p, f);
    let q = characteristic_page_15(v, p);
    lemma_characteristic_shown_16(v, q, f);
    lemma_shows_join(p, q, characteristic_pages_16(v, q), characteristic_part_15(v), characteristic_from_16(v));
    lemma_all_params_join(characteristic_part_15(v), characteristic_from_16(v));
}

proof fn lemma_characteristic_shown_14(v: CharacteristicView, p: Page, f: Setting)
    requires
        Characteristic::fits(v, f),
        indents_by_blanks(p),
    ensures
        shows(p, characteristic_pages_14(v, p), characteristic_from_14(v)),
        characteristic_pages_14(v, p).depth == p.depth,
        characteristic_pages_14(v, p).style == p.style,
        all_params(characteristic_from_14(v)),
{
    lemma_characteristic_part_14(v, p, f);
    let q = characteristic_page_14(v, p);
    lemma_characteristic_shown_15(v, q, f);
    lemma_shows_join(p, q, characteristic_pages_15(v, q), characteristic_part_14(v), characteristic_from_15(v));
    lemma_all_params_join(characteristic_part_14(v), characteristic_from_15(v));
}

proof fn lemma_characteristic_shown_13(v: CharacteristicView, p: Page, f: Setting)
    requires
        Characteristic::fits(v, f),
        indents_by_blanks(p),
    ensures
        shows(p, characteristic_pages_13(v, p), characteristic_from_13(v)),
        characteristic_pages_13(v, p).depth == p.depth,
        characteristic_pages_13(v, p).style == p.style,
        all_params(characteristic_from_13(v)),
{
    lemma_characteristic_part_13(v, p, f);
    let q = characteristic_page_13(v, p);
    lemma_characteristic_shown_14(v, q, f);
    lemma_shows_join(p, q, characteristic_pages_14(v, q), characteristic_part_13(v), characteristic_from_14(v));
    lemma_all_params_join(characteristic_part_13(v), characteristic_from_14(v));
}

proof fn lemma_characteristic_shown_12(v: CharacteristicView, p: Page, f: Setting)
    requires
        Characteristic::fits(v, f),
        indents_by_blanks(p),
    ensures
        shows(p, characteristic_pages_12(v, p), characteristic_from_12(v)),
        characteristic_pages_12(v, p).depth == p.depth,
        characteristic_pages_12(v, p).style == p.style,
        all_params(characteristic_from_12(v)),
{
    lemma_characteristic_part_12(v, p, f);
    let q = characteristic_page_12(v, p);
    lemma_characteristic_shown_13(v, q, f);
    lemma_shows_join(p, q, characteristic_pages_13(v, q), characteristic_part_12(v), characteristic_from_13(v));
    lemma_all_params_join(characteristic_part_12(v), characteristic_from_13(v));
}

proof fn lemma_characteristic_shown_11(v: CharacteristicView, p: Page, f: Setting)
    requires
        Characteristic::fits(v, f),
        indents_by_blanks(p),
    ensures
        shows(p, characteristic_pages_11(v, p), characteristic_from_11(v)),
        characteristic_pages_11(v, p).depth == p.depth,
        characteristic_pages_11(v, p).style == p.style,
        all_params(characteristic_from_11(v)),
{
    lemma_characteristic_part_11(v, p, f);
    let q = characteristic_page_11(v, p);
    lemma_characteristic_shown_12(v, q, f);
    lemma_shows_join(p, q, characteristic_pages_12(v, q), characteristic_part_11(v), characteristic_from_12(v));
    lemma_all_params_join(characteristic_part_11(v), characteristic_from_12(v));
}

proof fn lemma_characteristic_shown_10(v: CharacteristicView, p: Page, f: Setting)
    requires
        Characteristic::fits(v, f),
        indents_by_blanks(p),
    ensures
        shows(p, characteristic_pages_10(v, p), characteristic_from_10(v)),
        characteristic_pages_10(v, p).depth == p.depth,
        characteristic_pages_10(v, p).style == p.style,
        all_params(characteristic_from_10(v)),
{
    lemma_characteristic_part_10(v, p, f);
    let q = characteristic_page_10(v, p);
    lemma_characteristic_shown_11(v, q, f);
    lemma_shows_join(p, q, characteristic_pages_11(v, q), characteristic_part_10(v), characteristic_from_11(v));
    lemma_all_params_join(characteristic_part_10(v), characteristic_from_11(v));
}

proof fn lemma_characteristic_shown_9(v: CharacteristicView, p: Page, f: Setting)
    requires
        Characteristic::fits(v, f),
        indents_by_blanks(p),
    ensures
        shows(p, characteristic_pages_9(v, p), characteristic_from_9(v)),
        characteristic_pages_9(v, p).depth == p.depth,
        characteristic_pages_9(v, p).style == p.style,
        all_params(characteristic_from_9(v)),
{
    lemma_characteristic_part_9(v, p, f);
    let q = characteristic_page_9(v, p);
    lemma_characteristic_shown_10(v, q, f);
    lemma_shows_join(p, q, characteristic_pages_10(v, q), characteristic_part_9(v), characteristic_from_10(v));
    lemma_all_params_join(characteristic_part_9(v), characteristic_from_10(v));
}

proof fn lemma_characteristic_shown_8(v: CharacteristicView, p: Page, f: Setting)
    requires
        Characteristic::fits(v, f),
        indents_by_blanks(p),
    ensures
        shows(p, characteristic_pages_8(v, p), characteristic_from_8(v)),
        characteristic_pages_8(v, p).depth == p.depth,
        characteristic_pages_8(v, p).style == p.style,
        all_params(characteristic_from_8(v)),
{
    lemma_characteristic_part_8(v, p, f);
    let q = characteristic_page_8(v, p);
    lemma_characteristic_shown_9(v, q, f);
    lemma_shows_join(p, q, characteristic_pages_9(v, q), characteristic_part_8(v), characteristic_from_9(v));
    lemma_all_params_join(characteristic_part_8(v), characteristic_from_9(v));
}

proof fn lemma_characteristic_shown_7(v: CharacteristicView, p: Page, f: Setting)
    requires
        Characteristic::fits(v, f),
        indents_by_blanks(p),
    ensures
        shows(p, characteristic_pages_7(v, p), characteristic_from_7(v)),
        characteristic_pages_7(v, p).depth == p.depth,
        characteristic_pages_7(v, p).style == p.style,
        all_params(characteristic_from_7(v)),
{
    lemma_characteristic_part_7(v, p, f);
    let q = characteristic_page_7(v, p);
    lemma_characteristic_shown_8(v, q, f);
    lemma_shows_join(p, q, characteristic_pages_8(v, q), characteristic_part_7(v), characteristic_from_8(v));
    lemma_all_params_join(characteristic_part_7(v), characteristic_from_8(v));
}

proof fn lemma_characteristic_shown_6(v: CharacteristicView, p: Page, f: Setting)
    requires
        Characteristic::fits(v, f),
        indents_by_blanks(p),
    ensures
        shows(p, characteristic_pages_6(v, p), characteristic_from_6(v)),
        characteristic_pages_6(v, p).depth == p.depth,
        characteristic_pages_6(v, p).style == p.style,
        all_params(characteristic_from_6(v)),
{
    lemma_characteristic_part_6(v, p, f);
    let q = characteristic_page_6(v, p);
    lemma_characteristic_shown_7(v, q, f);
    lemma_shows_join(p, q, characteristic_pages_7(v, q), characteristic_part_6(v), characteristic_from_7(v));
    lemma_all_params_join(characteristic_part_6(v), characteristic_from_7(v));
}

proof fn lemma_characteristic_shown_5(v: CharacteristicView, p: Page, f: Setting)
    requires
        Characteristic::fits(v, f),
        indents_by_blanks(p),
    ensures
        shows(p, characteristic_pages_5(v, p), characteristic_from_5(v)),
        characteristic_pages_5(v, p).depth == p.depth,
        characteristic_pages_5(v, p).style == p.style,
        all_params(characteristic_from_5(v)),
{
    lemma_characteristic_part_5(v, p, f);
    let q = characteristic_page_5(v, p);
    lemma_characteristic_shown_6(v, q, f);
    lemma_shows_join(p, q, characteristic_pages_6(v, q), characteristic_part_5(v), characteristic_from_6(v));
    lemma_all_params_join(characteristic_part_5(v), characteristic_from_6(v));
}

proof fn lemma_characteristic_shown_4(v: CharacteristicView, p: Page, f: Setting)
    requires
        Characteristic::fits(v, f),
        indents_by_blanks(p),
    ensures
        shows(p, characteristic_pages_4(v, p), characteristic_from_4(v)),
        characteristic_pages_4(v, p).depth == p.depth,
        characteristic_pages_4(v, p).style == p.style,
        all_params(characteristic_from_4(v)),
{
    lemma_characteristic_part_4(v, p, f);
    let q = characteristic_page_4(v, p);
    lemma_characteristic_shown_5(v, q, f);
    lemma_shows_join(p, q, characteristic_pages_5(v, q), characteristic_part_4(v), characteristic_from_5(v));
    lemma_all_params_join(characteristic_part_4(v), characteristic_from_5(v));
}

proof fn lemma_characteristic_shown_3(v: CharacteristicView, p: Page, f: Setting)
    requires
        Characteristic::fits(v, f),
        indents_by_blanks(p),
    ensures
        shows(p, characteristic_pages_3(v, p), characteristic_from_3(v)),
        characteristic_pages_3(v, p).depth == p.depth,
        characteristic_pages_3(v, p).style == p.style,
        all_params(characteristic_from_3(v)),
{
    lemma_characteristic_part_3(v, p, f);
    let q = characteristic_page_3(v, p);
    lemma_characteristic_shown_4(v, q, f);
    lemma_shows_join(p, q, characteristic_pages_4(v, q), characteristic_part_3(v), characteristic_from_4(v));
    lemma_all_params_join(characteristic_part_3(v), characteristic_from_4(v));
}

proof fn lemma_characteristic_shown_2(v: CharacteristicView, p: Page, f: Setting)
    requires
        Characteristic::fits(v, f),
        indents_by_blanks(p),
    ensures
        shows(p, characteristic_pages_2(v, p), characteristic_from_2(v)),
        characteristic_pages_2(v, p).depth == p.depth,
        characteristic_pages_2(v, p).style == p.style,
        all_params(characteristic_from_2(v)),
{
    lemma_characteristic_part_2(v, p, f);
    let q = characteristic_page_2(v, p);
    lemma_characteristic_shown_3(v, q, f);
    lemma_shows_join(p, q, characteristic_pages_3(v, q), characteristic_part_2(v), characteristic_from_3(v));
    lemma_all_params_join(characteristic_part_2(v), characteristic_from_3(v));
}

proof fn lemma_characteristic_shown_1(v: CharacteristicView, p: Page, f: Setting)
    requires
        Characteristic::fits(v, f),
        indents_by_blanks(p),
    ensures
        shows(p, characteristic_pages_1(v, p), characteristic_from_1(v)),
        characteristic_pages_1(v, p).depth == p.depth,
        characteristic_pages_1(v, p).style == p.style,
        all_params(characteristic_from_1(v)),
{
    lemma_characteristic_part_1(v, p, f);
    let q = characteristic_page_1(v, p);
    lemma_characteristic_shown_2(v, q, f);
    lemma_shows_join(p, q, characteristic_pages_2(v, q), characteristic_part_1(v), characteristic_from_2(v));
    lemma_all_params_join(characteristic_part_1(v), characteristic_from_2(v));
}

proof fn lemma_characteristic_shown_0(v: CharacteristicView, p: Page, f: Setting)
    requires
        Characteristic::fits(v, f),
        indents_by_blanks(p),
    ensures
        shows(p, characteristic_pages_0(v, p), characteristic_from_0(v)),
        characteristic_pages_0(v, p).depth == p.depth,
        characteristic_pages_0(v, p).style == p.style,
        all_params(characteristic_from_0(v)),
{
    lemma_characteristic_part_0(v, p, f);
    let q = characteristic_page_0(v, p);
    lemma_characteristic_shown_1(v, q, f);
    lemma_shows_join(p, q, characteristic_pages_1(v, q), characteristic_part_0(v), characteristic_from_1(v));
    lemma_all_params_join(characteristic_part_0(v), characteristic_from_1(v));
}

/// What is written for the parameters at the start.
#[verifier::opaque]
pub open spec fn characteristic_opening(v: CharacteristicView, p0: Page) -> Page {
    let p1 = match v.named.description { Some(x) => p0.quote_line(x), None => p0.quote_line(""@) };
    let p2 = match v.char_type.word() { Some(kw) => p1.line(kw), None => p1 };
    let p3 = p2.line(hex_form(match v.addr.address { Some(x) => x as nat, None => u32::MAX as nat }));
    let p4 = p3.line(v.rec.record_layout);
    let p5 = p4.line(v.rec.max_diff.text);
    let p6 = p5.line(v.conv.conversion);
    let p7 = p6.line(v.conv.lower_limit.text + " "@ + v.conv.upper_limit.text);
    p7
}

proof fn lemma_characteristic_opening(v: CharacteristicView, p0: Page, f: Setting)
    requires
        Characteristic::fits(v, f),
        indents_by_blanks(p0),
    ensures
        shows(
            p0,
            characteristic_opening(v, p0),
            seq![
                string(escaped(v.named.description->Some_0)),
                plain(v.char_type.word()->Some_0),
                plain(hex_form(v.addr.address->Some_0 as nat)),
                plain(v.rec.record_layout),
                plain(v.rec.max_diff.text),
                plain(v.conv.conversion),
                plain(v.conv.lower_limit.text),
                plain(v.conv.upper_limit.text)
            ]
        ),
        characteristic_opening(v, p0).depth == p0.depth,
        characteristic_opening(v, p0).style == p0.style,
        all_params(characteristic_head(v)),
{
    reveal(characteristic_opening);
    lemma_shows_nothing(p0);
    let x0 = Seq::<Tok>::empty();
    let p1 = match v.named.description { Some(x) => p0.quote_line(x), None => p0.quote_line(""@) };
    assert(
        shows(
            p0,
            p1,
            seq![string(escaped(v.named.description->Some_0))]
        ) && p1.depth == p0.depth && p1.style == p0.style
    ) by {
        let p = p0;
        lemma_shows_quote_line(p, v.named.description->Some_0);
    }
    lemma_shows_join(p0, p0, p1, x0, seq![string(escaped(v.named.description->Some_0))]);
    let x1 = x0 + seq![string(escaped(v.named.description->Some_0))];
    let p2 = match v.char_type.word() { Some(kw) => p1.line(kw), None => p1 };
    assert(
        shows(
            p1,
            p2,
            seq![plain(v.char_type.word()->Some_0)]
        ) && p2.depth == p1.depth && p2.style == p1.style
    ) by {
        let p = p1;
        v.char_type.lemma_word();
        lemma_shows_word_line(p, v.char_type.word()->Some_0);
    }
    lemma_shows_join(p0, p1, p2, x1, seq![plain(v.char_type.word()->Some_0)]);
    let x2 = x1 + seq![plain(v.char_type.word()->Some_0)];
    let p3 = p2.line(hex_form(match v.addr.address { Some(x) => x as nat, None => u32::MAX as nat }));
    assert(
        shows(
            p2,
            p3,
            seq![plain(hex_form(v.addr.address->Some_0 as nat))]
        ) && p3.depth == p2.depth && p3.style == p2.style
    ) by {
        let p = p2;
        lemma_hex_param(v.addr.address->Some_0 as nat);
        lemma_shows_word_line(p, hex_form(v.addr.address->Some_0 as nat));
    }
    lemma_shows_join(p0, p2, p3, x2, seq![plain(hex_form(v.addr.address->Some_0 as nat))]);
    let x3 = x2 + seq![plain(hex_form(v.addr.address->Some_0 as nat))];
    let p4 = p3.line(v.rec.record_layout);
    assert(shows(p3, p4, seq![plain(v.rec.record_layout)]) && p4.depth == p3.depth && p4.style == p3.style) by {
        let p = p3;
        lemma_shows_word_line(p, v.rec.record_layout);
    }
    lemma_shows_join(p0, p3, p4, x3, seq![plain(v.rec.record_layout)]);
    let x4 = x3 + seq![plain(v.rec.record_layout)];
    let p5 = p4.line(v.rec.max_diff.text);
    assert(shows(p4, p5, seq![plain(v.rec.max_diff.text)]) && p5.depth == p4.depth && p5.style == p4.style) by {
        let p = p4;
        lemma_shows_word_line(p, v.rec.max_diff.text);
    }
    lemma_shows_join(p0, p4, p5, x4, seq![plain(v.rec.max_diff.text)]);
    let x5 = x4 + seq![plain(v.rec.max_diff.text)];
    let p6 = p5.line(v.conv.conversion);
    assert(shows(p5, p6, seq![plain(v.conv.conversion)]) && p6.depth == p5.depth && p6.style == p5.style) by {
        let p = p5;
        lemma_shows_word_line(p, v.conv.conversion);
    }
    lemma_shows_join(p0, p5, p6, x5, seq![plain(v.conv.conversion)]);
    let x6 = x5 + seq![plain(v.conv.conversion)];
    let p7 = p6.line(v.conv.lower_limit.text + " "@ + v.conv.upper_limit.text);
    assert(
        shows(
            p6,
            p7,
            seq![plain(v.conv.lower_limit.text), plain(v.conv.upper_limit.text)]
        ) && p7.depth == p6.depth && p7.style == p6.style
    ) by {
        let p = p6;
        lemma_spells_pair(v.conv.lower_limit.text, v.conv.upper_limit.text);
        lemma_shows_line(
            p,
            v.conv.lower_limit.text + " "@ + v.conv.upper_limit.text,
            seq![plain(v.conv.lower_limit.text), plain(v.conv.upper_limit.text)]
        );
    }
    lemma_shows_join(p0, p6, p7, x6, seq![plain(v.conv.lower_limit.text), plain(v.conv.upper_limit.text)]);
    let x7 = x6 + seq![plain(v.conv.lower_limit.text), plain(v.conv.upper_limit.text)];
    assert(
        x7 =~= seq![
            string(escaped(v.named.description->Some_0)),
            plain(v.char_type.word()->Some_0),
            plain(hex_form(v.addr.address->Some_0 as nat)),
            plain(v.rec.record_layout),
            plain(v.rec.max_diff.text),
            plain(v.conv.conversion),
            plain(v.conv.lower_limit.text),
            plain(v.conv.upper_limit.text)
        ]
    );
    lemma_string_param(v.named.description->Some_0);
    v.char_type.lemma_word();
    lemma_hex_param(v.addr.address->Some_0 as nat);
}

proof fn lemma_characteristic_addr(v: CharacteristicView, q: Page, f: Setting)
    requires
        Characteristic::fits(v, f),
    ensures
        AddressFields::written(v.addr, q) == characteristic_page_5(
            v,
            characteristic_page_4(
                v,
                characteristic_page_3(
                    v,
                    characteristic_page_2(v, characteristic_page_1(v, characteristic_page_0(v, q)))
                )
            )
        ),
{
    reveal(characteristic_page_0);
    reveal(characteristic_page_1);
    reveal(characteristic_page_2);
    reveal(characteristic_page_3);
    reveal(characteristic_page_4);
    reveal(characteristic_page_5);
}

proof fn lemma_characteristic_conv(v: CharacteristicView, q: Page, f: Setting)
    requires
        Characteristic::fits(v, f),
    ensures
        ConversionRefFields::written(v.conv, q) == characteristic_page_9(
            v,
            characteristic_page_8(v, characteristic_page_7(v, characteristic_page_6(v, q)))
        ),
{
    reveal(characteristic_page_6);
    reveal(characteristic_page_7);
    reveal(characteristic_page_8);
    reveal(characteristic_page_9);
}

proof fn lemma_characteristic_rec(v: CharacteristicView, q: Page, f: Setting)
    requires
        Characteristic::fits(v, f),
    ensures
        RecordLayoutRefFields::written(v.rec, q) == characteristic_page_13(
            v,
            characteristic_page_12(v, characteristic_page_11(v, characteristic_page_10(v, q)))
        ),
{
    reveal(characteristic_page_10);
    reveal(characteristic_page_11);
    reveal(characteristic_page_12);
    reveal(characteristic_page_13);
}

proof fn lemma_characteristic_body(v: CharacteristicView, p: Page, f: Setting)
    requires
        Characteristic::fits(v, f),
    ensures
        Characteristic::body(v, p) == children_written::<CharacteristicChild>(
            v.children,
            0,
            false,
            characteristic_pages_0(v, characteristic_opening(v, p))
        ),
{
    reveal(characteristic_opening);
    let q0 = characteristic_opening(v, p);
    lemma_characteristic_addr(v, q0, f);
    let q1 = characteristic_page_0(v, q0);
    let q2 = characteristic_page_1(v, q1);
    let q3 = characteristic_page_2(v, q2);
    let q4 = characteristic_page_3(v, q3);
    let q5 = characteristic_page_4(v, q4);
    let q6 = characteristic_page_5(v, q5);
    lemma_characteristic_conv(v, q6, f);
    let q7 = characteristic_page_6(v, q6);
    let q8 = characteristic_page_7(v, q7);
    let q9 = characteristic_page_8(v, q8);
    let q10 = characteristic_page_9(v, q9);
    lemma_characteristic_rec(v, q10, f);
    let q11 = characteristic_page_10(v, q10);
    let q12 = characteristic_page_11(v, q11);
    let q13 = characteristic_page_12(v, q12);
    let q14 = characteristic_page_13(v, q13);
    let q15 = match v.bitmask { Some(x) => q14.word("BIT_MASK"@, hex_form(x as nat)), None => q14 };
    assert(q15 == characteristic_page_14(v, q14)) by {
        reveal(characteristic_page_14);
    }
    let q16 = if v.number != 0 { q15.word("NUMBER"@, dec_int(v.number as int)) } else { q15 };
    assert(q16 == characteristic_page_15(v, q15)) by {
        reveal(characteristic_page_15);
    }
    let q17 = match v.matrix_dim { Some(x) => q16.word("MATRIX_DIM"@, listed(x)), None => q16 };
    assert(q17 == characteristic_page_16(v, q16)) by {
        reveal(characteristic_page_16);
    }
    let q18 = if v.discrete { q17.line("DISCRETE"@) } else { q17 };
    assert(q18 == characteristic_page_17(v, q17)) by {
        reveal(characteristic_page_17);
    }
    let q19 = if v.encoding != EncodingType::ASCII {
        match v.encoding.word() { Some(kw) => q18.word("ENCODING"@, kw), None => q18 }
    } else { q18 };
    assert(q19 == characteristic_page_18(v, q18)) by {
        reveal(characteristic_page_18);
    }
}

proof fn lemma_characteristic_head(v: CharacteristicView, c: Cur, f: Setting)
    requires
        Characteristic::fits(v, f),
        tokens_at(c.toks, c.pos, characteristic_head(v)),
        toks_numbered(c.toks, f),
    ensures
        Characteristic::head(c) == Ok::<(CharacteristicView, Cur), Failure>(
            (
                CharacteristicView {
                    addr: AddressFieldsView {
                        address_extension: None,
                        display_name: None,
                        calib_access: CalibrationAccess::NotSet,
                        max_refresh_unit: None,
                        max_refresh_rate: 0,
                        symbol_link: None,
                        symbol_offset: 0,
                        model_link: None,
                        ..v.addr
                    },
                    conv: ConversionRefFieldsView {
                        format: None,
                        phys_unit: None,
                        byte_order: ByteOrder::NotSet,
                        memory_segment_ref: None,
                        ..v.conv
                    },
                    rec: RecordLayoutRefFieldsView {
                        read_only: false,
                        extended_limits: None,
                        step_size: None,
                        guard_rails: false,
                        ..v.rec
                    },
                    bitmask: None,
                    number: 0,
                    matrix_dim: None,
                    discrete: false,
                    encoding: EncodingType::ASCII,
                    children: Seq::empty(),
                    ..v
                },
                Cur { pos: c.pos + 9, ..c }
            ),
        ),
{
    law_unescaped_of_escaped(v.named.description->Some_0);
    v.char_type.law_named_of_word();
    law_integer_of_hex(v.addr.address->Some_0 as nat);
    assert(bare(c.toks[c.pos + 0]) == characteristic_head(v)[0]);
    assert(bare(c.toks[c.pos + 1]) == characteristic_head(v)[1]);
    assert(bare(c.toks[c.pos + 2]) == characteristic_head(v)[2]);
    assert(bare(c.toks[c.pos + 3]) == characteristic_head(v)[3]);
    assert(bare(c.toks[c.pos + 4]) == characteristic_head(v)[4]);
    assert(bare(c.toks[c.pos + 5]) == characteristic_head(v)[5]);
    assert(bare(c.toks[c.pos + 6]) == characteristic_head(v)[6]);
    assert(bare(c.toks[c.pos + 7]) == characteristic_head(v)[7]);
    assert(bare(c.toks[c.pos + 8]) == characteristic_head(v)[8]);
}

proof fn lemma_characteristic_step_0(w: CharacteristicView, v: CharacteristicView, c: Cur, f: Setting)
    requires
        Characteristic::fits(v, f),
        v.addr.address_extension is Some,
        tokens_at(
            c.toks,
            c.pos,
            seq![
                plain("ECU_ADDRESS_EXTENSION"@),
                plain(dec_int(v.addr.address_extension->Some_0 as int))
            ]
        ),
        toks_numbered(c.toks, f),
    ensures
        Characteristic::option(w, c) == Ok::<(CharacteristicView, Cur), Failure>(
            (
                CharacteristicView {
                    addr: AddressFieldsView {
                        address_extension: v.addr.address_extension,
                        ..w.addr
                    },
                    ..w
                },
                Cur { pos: c.pos + 2, ..c }
            ),
        ),
{
    reveal_strlit("ECU_ADDRESS_EXTENSION");
    lemma_same("ECU_ADDRESS_EXTENSION"@);
    assert(
        bare(c.toks[c.pos + 0]) == (
            seq![
                plain("ECU_ADDRESS_EXTENSION"@),
                plain(dec_int(v.addr.address_extension->Some_0 as int))
            ]
        )[0]
    );
    assert(
        bare(c.toks[c.pos + 1]) == (
            seq![
                plain("ECU_ADDRESS_EXTENSION"@),
                plain(dec_int(v.addr.address_extension->Some_0 as int))
            ]
        )[1]
    );
    law_integer_of_dec(v.addr.address_extension->Some_0 as int);
}

proof fn lemma_characteristic_step_1(w: CharacteristicView, v: CharacteristicView, c: Cur, f: Setting)
    requires
        Characteristic::fits(v, f),
        v.addr.display_name is Some,
        tokens_at(c.toks, c.pos, seq![plain("DISPLAY_IDENTIFIER"@), plain(v.addr.display_name->Some_0)]),
        toks_numbered(c.toks, f),
    ensures
        Characteristic::option(w, c) == Ok::<(CharacteristicView, Cur), Failure>(
            (
                CharacteristicView {
                    addr: AddressFieldsView { display_name: v.addr.display_name, ..w.addr },
                    ..w
                },
                Cur { pos: c.pos + 2, ..c }
            ),
        ),
{
    reveal_strlit("DISPLAY_IDENTIFIER");
    reveal_strlit("ECU_ADDRESS_EXTENSION");
    lemma_differ("DISPLAY_IDENTIFIER"@, "ECU_ADDRESS_EXTENSION"@, 0);
    lemma_same("DISPLAY_IDENTIFIER"@);
    assert(bare(c.toks[c.pos + 0]) == (seq![plain("DISPLAY_IDENTIFIER"@), plain(v.addr.display_name->Some_0)])[0]);
    assert(bare(c.toks[c.pos + 1]) == (seq![plain("DISPLAY_IDENTIFIER"@), plain(v.addr.display_name->Some_0)])[1]);
    
}

proof fn lemma_characteristic_step_2(w: CharacteristicView, v: CharacteristicView, c: Cur, f: Setting)
    requires
        Characteristic::fits(v, f),
        v.addr.calib_access.word() is Some,
        tokens_at(c.toks, c.pos, seq![plain("CALIBRATION_ACCESS"@), plain(v.addr.calib_access.word()->Some_0)]),
        toks_numbered(c.toks, f),
    ensures
        Characteristic::option(w, c) == Ok::<(CharacteristicView, Cur), Failure>(
            (
                CharacteristicView {
                    addr: AddressFieldsView { calib_access: v.addr.calib_access, ..w.addr },
                    ..w
                },
                Cur { pos: c.pos + 2, ..c }
            ),
        ),
{
    reveal_strlit("CALIBRATION_ACCESS");
    reveal_strlit("ECU_ADDRESS_EXTENSION");
    lemma_differ("CALIBRATION_ACCESS"@, "ECU_ADDRESS_EXTENSION"@, 0);
    reveal_strlit("DISPLAY_IDENTIFIER");
    lemma_differ("CALIBRATION_ACCESS"@, "DISPLAY_IDENTIFIER"@, 0);
    lemma_same("CALIBRATION_ACCESS"@);
    assert(
        bare(c.toks[c.pos + 0]) == (
            seq![plain("CALIBRATION_ACCESS"@), plain(v.addr.calib_access.word()->Some_0)]
        )[0]
    );
    assert(
        bare(c.toks[c.pos + 1]) == (
            seq![plain("CALIBRATION_ACCESS"@), plain(v.addr.calib_access.word()->Some_0)]
        )[1]
    );
    v.addr.calib_access.law_named_of_word();
    v.addr.calib_access.lemma_word();
}

proof fn lemma_characteristic_step_3(w: CharacteristicView, v: CharacteristicView, c: Cur, f: Setting)
    requires
        Characteristic::fits(v, f),
        v.addr.max_refresh_unit is Some,
        tokens_at(
            c.toks,
            c.pos,
            seq![
                plain("MAX_REFRESH"@),
                plain(dec(v.addr.max_refresh_unit->Some_0.number() as nat)),
                plain(dec_int(v.addr.max_refresh_rate as int))
            ]
        ),
        toks_numbered(c.toks, f),
    ensures
        Characteristic::option(w, c) == Ok::<(CharacteristicView, Cur), Failure>(
            (
                CharacteristicView {
                    addr: AddressFieldsView {
                        max_refresh_unit: v.addr.max_refresh_unit,
                        max_refresh_rate: v.addr.max_refresh_rate,
                        ..w.addr
                    },
                    ..w
                },
                Cur { pos: c.pos + 3, ..c }
            ),
        ),
{
    reveal_strlit("MAX_REFRESH");
    reveal_strlit("ECU_ADDRESS_EXTENSION");
    lemma_differ("MAX_REFRESH"@, "ECU_ADDRESS_EXTENSION"@, 0);
    reveal_strlit("DISPLAY_IDENTIFIER");
    lemma_differ("MAX_REFRESH"@, "DISPLAY_IDENTIFIER"@, 0);
    reveal_strlit("CALIBRATION_ACCESS");
    lemma_differ("MAX_REFRESH"@, "CALIBRATION_ACCESS"@, 0);
    lemma_same("MAX_REFRESH"@);
    assert(
        bare(c.toks[c.pos + 0]) == (
            seq![
                plain("MAX_REFRESH"@),
                plain(dec(v.addr.max_refresh_unit->Some_0.number() as nat)),
                plain(dec_int(v.addr.max_refresh_rate as int))
            ]
        )[0]
    );
    assert(
        bare(c.toks[c.pos + 1]) == (
            seq![
                plain("MAX_REFRESH"@),
                plain(dec(v.addr.max_refresh_unit->Some_0.number() as nat)),
                plain(dec_int(v.addr.max_refresh_rate as int))
            ]
        )[1]
    );
    assert(
        bare(c.toks[c.pos + 2]) == (
            seq![
                plain("MAX_REFRESH"@),
                plain(dec(v.addr.max_refresh_unit->Some_0.number() as nat)),
                plain(dec_int(v.addr.max_refresh_rate as int))
            ]
        )[2]
    );
    law_integer_of_dec(v.addr.max_refresh_unit->Some_0.number() as int);
    law_integer_of_dec(v.addr.max_refresh_rate as int);
    lemma_refresh_found(v.addr.max_refresh_unit->Some_0);
}

proof fn lemma_characteristic_step_4(w: CharacteristicView, v: CharacteristicView, c: Cur, f: Setting)
    requires
        Characteristic::fits(v, f),
        v.addr.symbol_link is Some,
        tokens_at(
            c.toks,
            c.pos,
            seq![
                plain("SYMBOL_LINK"@),
                string(v.addr.symbol_link->Some_0),
                plain(dec_int(v.addr.symbol_offset as int))
            ]
        ),
        toks_numbered(c.toks, f),
    ensures
        Characteristic::option(w, c) == Ok::<(CharacteristicView, Cur), Failure>(
            (
                CharacteristicView {
                    addr: AddressFieldsView {
                        symbol_link: v.addr.symbol_link,
                        symbol_offset: v.addr.symbol_offset,
                        ..w.addr
                    },
                    ..w
                },
                Cur { pos: c.pos + 3, ..c }
            ),
        ),
{
    reveal_strlit("SYMBOL_LINK");
    reveal_strlit("ECU_ADDRESS_EXTENSION");
    lemma_differ("SYMBOL_LINK"@, "ECU_ADDRESS_EXTENSION"@, 0);
    reveal_strlit("DISPLAY_IDENTIFIER");
    lemma_differ("SYMBOL_LINK"@, "DISPLAY_IDENTIFIER"@, 0);
    reveal_strlit("CALIBRATION_ACCESS");
    lemma_differ("SYMBOL_LINK"@, "CALIBRATION_ACCESS"@, 0);
    reveal_strlit("MAX_REFRESH");
    lemma_differ("SYMBOL_LINK"@, "MAX_REFRESH"@, 0);
    lemma_same("SYMBOL_LINK"@);
    assert(
        bare(c.toks[c.pos + 0]) == (
            seq![
                plain("SYMBOL_LINK"@),
                string(v.addr.symbol_link->Some_0),
                plain(dec_int(v.addr.symbol_offset as int))
            ]
        )[0]
    );
    assert(
        bare(c.toks[c.pos + 1]) == (
            seq![
                plain("SYMBOL_LINK"@),
                string(v.addr.symbol_link->Some_0),
                plain(dec_int(v.addr.symbol_offset as int))
            ]
        )[1]
    );
    assert(
        bare(c.toks[c.pos + 2]) == (
            seq![
                plain("SYMBOL_LINK"@),
                string(v.addr.symbol_link->Some_0),
                plain(dec_int(v.addr.symbol_offset as int))
            ]
        )[2]
    );
    law_integer_of_dec(v.addr.symbol_offset as int);
}

proof fn lemma_characteristic_step_5(w: CharacteristicView, v: CharacteristicView, c: Cur, f: Setting)
    requires
        Characteristic::fits(v, f),
        v.addr.model_link is Some,
        tokens_at(c.toks, c.pos, seq![plain("MODEL_LINK"@), string(escaped(v.addr.model_link->Some_0))]),
        toks_numbered(c.toks, f),
    ensures
        Characteristic::option(w, c) == Ok::<(CharacteristicView, Cur), Failure>(
            (
                CharacteristicView {
                    addr: AddressFieldsView { model_link: v.addr.model_link, ..w.addr },
                    ..w
                },
                Cur { pos: c.pos + 2, ..c }
            ),
        ),
{
    reveal_strlit("MODEL_LINK");
    reveal_strlit("ECU_ADDRESS_EXTENSION");
    lemma_differ("MODEL_LINK"@, "ECU_ADDRESS_EXTENSION"@, 0);
    reveal_strlit("DISPLAY_IDENTIFIER");
    lemma_differ("MODEL_LINK"@, "DISPLAY_IDENTIFIER"@, 0);
    reveal_strlit("CALIBRATION_ACCESS");
    lemma_differ("MODEL_LINK"@, "CALIBRATION_ACCESS"@, 0);
    reveal_strlit("MAX_REFRESH");
    lemma_differ("MODEL_LINK"@, "MAX_REFRESH"@, 0);
    reveal_strlit("SYMBOL_LINK");
    lemma_differ("MODEL_LINK"@, "SYMBOL_LINK"@, 0);
    lemma_same("MODEL_LINK"@);
    assert(bare(c.toks[c.pos + 0]) == (seq![plain("MODEL_LINK"@), string(escaped(v.addr.model_link->Some_0))])[0]);
    assert(bare(c.toks[c.pos + 1]) == (seq![plain("MODEL_LINK"@), string(escaped(v.addr.model_link->Some_0))])[1]);
    law_unescaped_of_escaped(v.addr.model_link->Some_0);
}

proof fn lemma_characteristic_step_6(w: CharacteristicView, v: CharacteristicView, c: Cur, f: Setting)
    requires
        Characteristic::fits(v, f),
        v.conv.format is Some,
        tokens_at(c.toks, c.pos, seq![plain("FORMAT"@), string(escaped(v.conv.format->Some_0))]),
        toks_numbered(c.toks, f),
    ensures
        Characteristic::option(w, c) == Ok::<(CharacteristicView, Cur), Failure>(
            (
                CharacteristicView {
                    conv: ConversionRefFieldsView { format: v.conv.format, ..w.conv },
                    ..w
                },
                Cur { pos: c.pos + 2, ..c }
            ),
        ),
{
    reveal_strlit("FORMAT");
    reveal_strlit("ECU_ADDRESS_EXTENSION");
    lemma_differ("FORMAT"@, "ECU_ADDRESS_EXTENSION"@, 0);
    reveal_strlit("DISPLAY_IDENTIFIER");
    lemma_differ("FORMAT"@, "DISPLAY_IDENTIFIER"@, 0);
    reveal_strlit("CALIBRATION_ACCESS");
    lemma_differ("FORMAT"@, "CALIBRATION_ACCESS"@, 0);
    reveal_strlit("MAX_REFRESH");
    lemma_differ("FORMAT"@, "MAX_REFRESH"@, 0);
    reveal_strlit("SYMBOL_LINK");
    lemma_differ("FORMAT"@, "SYMBOL_LINK"@, 0);
    reveal_strlit("MODEL_LINK");
    lemma_differ("FORMAT"@, "MODEL_LINK"@, 0);
    lemma_same("FORMAT"@);
    assert(bare(c.toks[c.pos + 0]) == (seq![plain("FORMAT"@), string(escaped(v.conv.format->Some_0))])[0]);
    assert(bare(c.toks[c.pos + 1]) == (seq![plain("FORMAT"@), string(escaped(v.conv.format->Some_0))])[1]);
    law_unescaped_of_escaped(v.conv.format->Some_0);
}

proof fn lemma_characteristic_step_7(w: CharacteristicView, v: CharacteristicView, c: Cur, f: Setting)
    requires
        Characteristic::fits(v, f),
        v.conv.phys_unit is Some,
        tokens_at(c.toks, c.pos, seq![plain("PHYS_UNIT"@), string(escaped(v.conv.phys_unit->Some_0))]),
        toks_numbered(c.toks, f),
    ensures
        Characteristic::option(w, c) == Ok::<(CharacteristicView, Cur), Failure>(
            (
                CharacteristicView {
                    conv: ConversionRefFieldsView { phys_unit: v.conv.phys_unit, ..w.conv },
                    ..w
                },
                Cur { pos: c.pos + 2, ..c }
            ),
        ),
{
    reveal_strlit("PHYS_UNIT");
    reveal_strlit("ECU_ADDRESS_EXTENSION");
    lemma_differ("PHYS_UNIT"@, "ECU_ADDRESS_EXTENSION"@, 0);
    reveal_strlit("DISPLAY_IDENTIFIER");
    lemma_differ("PHYS_UNIT"@, "DISPLAY_IDENTIFIER"@, 0);
    reveal_strlit("CALIBRATION_ACCESS");
    lemma_differ("PHYS_UNIT"@, "CALIBRATION_ACCESS"@, 0);
    reveal_strlit("MAX_REFRESH");
    lemma_differ("PHYS_UNIT"@, "MAX_REFRESH"@, 0);
    reveal_strlit("SYMBOL_LINK");
    lemma_differ("PHYS_UNIT"@, "SYMBOL_LINK"@, 0);
    reveal_strlit("MODEL_LINK");
    lemma_differ("PHYS_UNIT"@, "MODEL_LINK"@, 0);
    reveal_strlit("FORMAT");
    lemma_differ("PHYS_UNIT"@, "FORMAT"@, 0);
    lemma_same("PHYS_UNIT"@);
    assert(bare(c.toks[c.pos + 0]) == (seq![plain("PHYS_UNIT"@), string(escaped(v.conv.phys_unit->Some_0))])[0]);
    assert(bare(c.toks[c.pos + 1]) == (seq![plain("PHYS_UNIT"@), string(escaped(v.conv.phys_unit->Some_0))])[1]);
    law_unescaped_of_escaped(v.conv.phys_unit->Some_0);
}

proof fn lemma_characteristic_step_8(w: CharacteristicView, v: CharacteristicView, c: Cur, f: Setting)
    requires
        Characteristic::fits(v, f),
        v.conv.byte_order.word() is Some,
        tokens_at(c.toks, c.pos, seq![plain("BYTE_ORDER"@), plain(v.conv.byte_order.word()->Some_0)]),
        toks_numbered(c.toks, f),
    ensures
        Characteristic::option(w, c) == Ok::<(CharacteristicView, Cur), Failure>(
            (
                CharacteristicView {
                    conv: ConversionRefFieldsView { byte_order: v.conv.byte_order, ..w.conv },
                    ..w
                },
                Cur { pos: c.pos + 2, ..c }
            ),
        ),
{
    reveal_strlit("BYTE_ORDER");
    reveal_strlit("ECU_ADDRESS_EXTENSION");
    lemma_differ("BYTE_ORDER"@, "ECU_ADDRESS_EXTENSION"@, 0);
    reveal_strlit("DISPLAY_IDENTIFIER");
    lemma_differ("BYTE_ORDER"@, "DISPLAY_IDENTIFIER"@, 0);
    reveal_strlit("CALIBRATION_ACCESS");
    lemma_differ("BYTE_ORDER"@, "CALIBRATION_ACCESS"@, 0);
    reveal_strlit("MAX_REFRESH");
    lemma_differ("BYTE_ORDER"@, "MAX_REFRESH"@, 0);
    reveal_strlit("SYMBOL_LINK");
    lemma_differ("BYTE_ORDER"@, "SYMBOL_LINK"@, 0);
    reveal_strlit("MODEL_LINK");
    lemma_differ("BYTE_ORDER"@, "MODEL_LINK"@, 0);
    reveal_strlit("FORMAT");
    lemma_differ("BYTE_ORDER"@, "FORMAT"@, 0);
    reveal_strlit("PHYS_UNIT");
    lemma_differ("BYTE_ORDER"@, "PHYS_UNIT"@, 0);
    lemma_same("BYTE_ORDER"@);
    assert(bare(c.toks[c.pos + 0]) == (seq![plain("BYTE_ORDER"@), plain(v.conv.byte_order.word()->Some_0)])[0]);
    assert(bare(c.toks[c.pos + 1]) == (seq![plain("BYTE_ORDER"@), plain(v.conv.byte_order.word()->Some_0)])[1]);
    v.conv.byte_order.law_named_of_word();
    v.conv.byte_order.lemma_word();
}

proof fn lemma_characteristic_step_9(w: CharacteristicView, v: CharacteristicView, c: Cur, f: Setting)
    requires
        Characteristic::fits(v, f),
        v.conv.memory_segment_ref is Some,
        tokens_at(c.toks, c.pos, seq![plain("REF_MEMORY_SEGMENT"@), plain(v.conv.memory_segment_ref->Some_0)]),
        toks_numbered(c.toks, f),
    ensures
        Characteristic::option(w, c) == Ok::<(CharacteristicView, Cur), Failure>(
            (
                CharacteristicView {
                    conv: ConversionRefFieldsView {
                        memory_segment_ref: v.conv.memory_segment_ref,
                        ..w.conv
                    },
                    ..w
                },
                Cur { pos: c.pos + 2, ..c }
            ),
        ),
{
    reveal_strlit("REF_MEMORY_SEGMENT");
    reveal_strlit("ECU_ADDRESS_EXTENSION");
    lemma_differ("REF_MEMORY_SEGMENT"@, "ECU_ADDRESS_EXTENSION"@, 0);
    reveal_strlit("DISPLAY_IDENTIFIER");
    lemma_differ("REF_MEMORY_SEGMENT"@, "DISPLAY_IDENTIFIER"@, 0);
    reveal_strlit("CALIBRATION_ACCESS");
    lemma_differ("REF_MEMORY_SEGMENT"@, "CALIBRATION_ACCESS"@, 0);
    reveal_strlit("MAX_REFRESH");
    lemma_differ("REF_MEMORY_SEGMENT"@, "MAX_REFRESH"@, 0);
    reveal_strlit("SYMBOL_LINK");
    lemma_differ("REF_MEMORY_SEGMENT"@, "SYMBOL_LINK"@, 0);
    reveal_strlit("MODEL_LINK");
    lemma_differ("REF_MEMORY_SEGMENT"@, "MODEL_LINK"@, 0);
    reveal_strlit("FORMAT");
    lemma_differ("REF_MEMORY_SEGMENT"@, "FORMAT"@, 0);
    reveal_strlit("PHYS_UNIT");
    lemma_differ("REF_MEMORY_SEGMENT"@, "PHYS_UNIT"@, 0);
    reveal_strlit("BYTE_ORDER");
    lemma_differ("REF_MEMORY_SEGMENT"@, "BYTE_ORDER"@, 0);
    lemma_same("REF_MEMORY_SEGMENT"@);
    assert(
        bare(c.toks[c.pos + 0]) == (
            seq![plain("REF_MEMORY_SEGMENT"@), plain(v.conv.memory_segment_ref->Some_0)]
        )[0]
    );
    assert(
        bare(c.toks[c.pos + 1]) == (
            seq![plain("REF_MEMORY_SEGMENT"@), plain(v.conv.memory_segment_ref->Some_0)]
        )[1]
    );
    
}

proof fn lemma_characteristic_step_10(w: CharacteristicView, v: CharacteristicView, c: Cur, f: Setting)
    requires
        Characteristic::fits(v, f),
        v.rec.read_only,
        tokens_at(c.toks, c.pos, seq![plain("READ_ONLY"@)]),
        toks_numbered(c.toks, f),
    ensures
        Characteristic::option(w, c) == Ok::<(CharacteristicView, Cur), Failure>(
            (
                CharacteristicView {
                    rec: RecordLayoutRefFieldsView { read_only: v.rec.read_only, ..w.rec },
                    ..w
                },
                Cur { pos: c.pos + 1, ..c }
            ),
        ),
{
    reveal_strlit("READ_ONLY");
    reveal_strlit("ECU_ADDRESS_EXTENSION");
    lemma_differ("READ_ONLY"@, "ECU_ADDRESS_EXTENSION"@, 0);
    reveal_strlit("DISPLAY_IDENTIFIER");
    lemma_differ("READ_ONLY"@, "DISPLAY_IDENTIFIER"@, 0);
    reveal_strlit("CALIBRATION_ACCESS");
    lemma_differ("READ_ONLY"@, "CALIBRATION_ACCESS"@, 0);
    reveal_strlit("MAX_REFRESH");
    lemma_differ("READ_ONLY"@, "MAX_REFRESH"@, 0);
    reveal_strlit("SYMBOL_LINK");
    lemma_differ("READ_ONLY"@, "SYMBOL_LINK"@, 0);
    reveal_strlit("MODEL_LINK");
    lemma_differ("READ_ONLY"@, "MODEL_LINK"@, 0);
    reveal_strlit("FORMAT");
    lemma_differ("READ_ONLY"@, "FORMAT"@, 0);
    reveal_strlit("PHYS_UNIT");
    lemma_differ("READ_ONLY"@, "PHYS_UNIT"@, 0);
    reveal_strlit("BYTE_ORDER");
    lemma_differ("READ_ONLY"@, "BYTE_ORDER"@, 0);
    reveal_strlit("REF_MEMORY_SEGMENT");
    lemma_differ("READ_ONLY"@, "REF_MEMORY_SEGMENT"@, 0);
    lemma_same("READ_ONLY"@);
    assert(bare(c.toks[c.pos + 0]) == (seq![plain("READ_ONLY"@)])[0]);
    
}

proof fn lemma_characteristic_step_11(w: CharacteristicView, v: CharacteristicView, c: Cur, f: Setting)
    requires
        Characteristic::fits(v, f),
        v.rec.extended_limits is Some,
        tokens_at(
            c.toks,
            c.pos,
            seq![
                plain("EXTENDED_LIMITS"@),
                plain(v.rec.extended_limits->Some_0.0.text),
                plain(v.rec.extended_limits->Some_0.1.text)
            ]
        ),
        toks_numbered(c.toks, f),
    ensures
        Characteristic::option(w, c) == Ok::<(CharacteristicView, Cur), Failure>(
            (
                CharacteristicView {
                    rec: RecordLayoutRefFieldsView {
                        extended_limits: v.rec.extended_limits,
                        ..w.rec
                    },
                    ..w
                },
                Cur { pos: c.pos + 3, ..c }
            ),
        ),
{
    reveal_strlit("EXTENDED_LIMITS");
    reveal_strlit("ECU_ADDRESS_EXTENSION");
    lemma_differ("EXTENDED_LIMITS"@, "ECU_ADDRESS_EXTENSION"@, 0);
    reveal_strlit("DISPLAY_IDENTIFIER");
    lemma_differ("EXTENDED_LIMITS"@, "DISPLAY_IDENTIFIER"@, 0);
    reveal_strlit("CALIBRATION_ACCESS");
    lemma_differ("EXTENDED_LIMITS"@, "CALIBRATION_ACCESS"@, 0);
    reveal_strlit("MAX_REFRESH");
    lemma_differ("EXTENDED_LIMITS"@, "MAX_REFRESH"@, 0);
    reveal_strlit("SYMBOL_LINK");
    lemma_differ("EXTENDED_LIMITS"@, "SYMBOL_LINK"@, 0);
    reveal_strlit("MODEL_LINK");
    lemma_differ("EXTENDED_LIMITS"@, "MODEL_LINK"@, 0);
    reveal_strlit("FORMAT");
    lemma_differ("EXTENDED_LIMITS"@, "FORMAT"@, 0);
    reveal_strlit("PHYS_UNIT");
    lemma_differ("EXTENDED_LIMITS"@, "PHYS_UNIT"@, 0);
    reveal_strlit("BYTE_ORDER");
    lemma_differ("EXTENDED_LIMITS"@, "BYTE_ORDER"@, 0);
    reveal_strlit("REF_MEMORY_SEGMENT");
    lemma_differ("EXTENDED_LIMITS"@, "REF_MEMORY_SEGMENT"@, 0);
    reveal_strlit("READ_ONLY");
    lemma_differ("EXTENDED_LIMITS"@, "READ_ONLY"@, 0);
    lemma_same("EXTENDED_LIMITS"@);
    assert(
        bare(c.toks[c.pos + 0]) == (
            seq![
                plain("EXTENDED_LIMITS"@),
                plain(v.rec.extended_limits->Some_0.0.text),
                plain(v.rec.extended_limits->Some_0.1.text)
            ]
        )[0]
    );
    assert(
        bare(c.toks[c.pos + 1]) == (
            seq![
                plain("EXTENDED_LIMITS"@),
                plain(v.rec.extended_limits->Some_0.0.text),
                plain(v.rec.extended_limits->Some_0.1.text)
            ]
        )[1]
    );
    assert(
        bare(c.toks[c.pos + 2]) == (
            seq![
                plain("EXTENDED_LIMITS"@),
                plain(v.rec.extended_limits->Some_0.0.text),
                plain(v.rec.extended_limits->Some_0.1.text)
            ]
        )[2]
    );
    
}

proof fn lemma_characteristic_step_12(w: CharacteristicView, v: CharacteristicView, c: Cur, f: Setting)
    requires
        Characteristic::fits(v, f),
        v.rec.step_size is Some,
        tokens_at(c.toks, c.pos, seq![plain("STEP_SIZE"@), plain(v.rec.step_size->Some_0.text)]),
        toks_numbered(c.toks, f),
    ensures
        Characteristic::option(w, c) == Ok::<(CharacteristicView, Cur), Failure>(
            (
                CharacteristicView {
                    rec: RecordLayoutRefFieldsView { step_size: v.rec.step_size, ..w.rec },
                    ..w
                },
                Cur { pos: c.pos + 2, ..c }
            ),
        ),
{
    reveal_strlit("STEP_SIZE");
    reveal_strlit("ECU_ADDRESS_EXTENSION");
    lemma_differ("STEP_SIZE"@, "ECU_ADDRESS_EXTENSION"@, 0);
    reveal_strlit("DISPLAY_IDENTIFIER");
    lemma_differ("STEP_SIZE"@, "DISPLAY_IDENTIFIER"@, 0);
    reveal_strlit("CALIBRATION_ACCESS");
    lemma_differ("STEP_SIZE"@, "CALIBRATION_ACCESS"@, 0);
    reveal_strlit("MAX_REFRESH");
    lemma_differ("STEP_SIZE"@, "MAX_REFRESH"@, 0);
    reveal_strlit("SYMBOL_LINK");
    lemma_differ("STEP_SIZE"@, "SYMBOL_LINK"@, 0);
    reveal_strlit("MODEL_LINK");
    lemma_differ("STEP_SIZE"@, "MODEL_LINK"@, 0);
    reveal_strlit("FORMAT");
    lemma_differ("STEP_SIZE"@, "FORMAT"@, 0);
    reveal_strlit("PHYS_UNIT");
    lemma_differ("STEP_SIZE"@, "PHYS_UNIT"@, 0);
    reveal_strlit("BYTE_ORDER");
    lemma_differ("STEP_SIZE"@, "BYTE_ORDER"@, 0);
    reveal_strlit("REF_MEMORY_SEGMENT");
    lemma_differ("STEP_SIZE"@, "REF_MEMORY_SEGMENT"@, 0);
    reveal_strlit("READ_ONLY");
    lemma_differ("STEP_SIZE"@, "READ_ONLY"@, 0);
    reveal_strlit("EXTENDED_LIMITS");
    lemma_differ("STEP_SIZE"@, "EXTENDED_LIMITS"@, 0);
    lemma_same("STEP_SIZE"@);
    assert(bare(c.toks[c.pos + 0]) == (seq![plain("STEP_SIZE"@), plain(v.rec.step_size->Some_0.text)])[0]);
    assert(bare(c.toks[c.pos + 1]) == (seq![plain("STEP_SIZE"@), plain(v.rec.step_size->Some_0.text)])[1]);
    
}

proof fn lemma_characteristic_step_13(w: CharacteristicView, v: CharacteristicView, c: Cur, f: Setting)
    requires
        Characteristic::fits(v, f),
        v.rec.guard_rails,
        tokens_at(c.toks, c.pos, seq![plain("GUARD_RAILS"@)]),
        toks_numbered(c.toks, f),
    ensures
        Characteristic::option(w, c) == Ok::<(CharacteristicView, Cur), Failure>(
            (
                CharacteristicView {
                    rec: RecordLayoutRefFieldsView { guard_rails: v.rec.guard_rails, ..w.rec },
                    ..w
                },
                Cur { pos: c.pos + 1, ..c }
            ),
        ),
{
    reveal_strlit("GUARD_RAILS");
    reveal_strlit("ECU_ADDRESS_EXTENSION");
    lemma_differ("GUARD_RAILS"@, "ECU_ADDRESS_EXTENSION"@, 0);
    reveal_strlit("DISPLAY_IDENTIFIER");
    lemma_differ("GUARD_RAILS"@, "DISPLAY_IDENTIFIER"@, 0);
    reveal_strlit("CALIBRATION_ACCESS");
    lemma_differ("GUARD_RAILS"@, "CALIBRATION_ACCESS"@, 0);
    reveal_strlit("MAX_REFRESH");
    lemma_differ("GUARD_RAILS"@, "MAX_REFRESH"@, 0);
    reveal_strlit("SYMBOL_LINK");
    lemma_differ("GUARD_RAILS"@, "SYMBOL_LINK"@, 0);
    reveal_strlit("MODEL_LINK");
    lemma_differ("GUARD_RAILS"@, "MODEL_LINK"@, 0);
    reveal_strlit("FORMAT");
    lemma_differ("GUARD_RAILS"@, "FORMAT"@, 0);
    reveal_strlit("PHYS_UNIT");
    lemma_differ("GUARD_RAILS"@, "PHYS_UNIT"@, 0);
    reveal_strlit("BYTE_ORDER");
    lemma_differ("GUARD_RAILS"@, "BYTE_ORDER"@, 0);
    reveal_strlit("REF_MEMORY_SEGMENT");
    lemma_differ("GUARD_RAILS"@, "REF_MEMORY_SEGMENT"@, 0);
    reveal_strlit("READ_ONLY");
    lemma_differ("GUARD_RAILS"@, "READ_ONLY"@, 0);
    reveal_strlit("EXTENDED_LIMITS");
    lemma_differ("GUARD_RAILS"@, "EXTENDED_LIMITS"@, 0);
    reveal_strlit("STEP_SIZE");
    lemma_differ("GUARD_RAILS"@, "STEP_SIZE"@, 0);
    lemma_same("GUARD_RAILS"@);
    assert(bare(c.toks[c.pos + 0]) == (seq![plain("GUARD_RAILS"@)])[0]);
    
}

proof fn lemma_characteristic_step_14(w: CharacteristicView, v: CharacteristicView, c: Cur, f: Setting)
    requires
        Characteristic::fits(v, f),
        v.bitmask is Some,
        tokens_at(c.toks, c.pos, seq![plain("BIT_MASK"@), plain(hex_form(v.bitmask->Some_0 as nat))]),
        toks_numbered(c.toks, f),
    ensures
        Characteristic::option(w, c) == Ok::<(CharacteristicView, Cur), Failure>(
            (CharacteristicView { bitmask: v.bitmask, ..w }, Cur { pos: c.pos + 2, ..c }),
        ),
{
    reveal_strlit("BIT_MASK");
    reveal_strlit("ECU_ADDRESS_EXTENSION");
    lemma_differ("BIT_MASK"@, "ECU_ADDRESS_EXTENSION"@, 0);
    reveal_strlit("DISPLAY_IDENTIFIER");
    lemma_differ("BIT_MASK"@, "DISPLAY_IDENTIFIER"@, 0);
    reveal_strlit("CALIBRATION_ACCESS");
    lemma_differ("BIT_MASK"@, "CALIBRATION_ACCESS"@, 0);
    reveal_strlit("MAX_REFRESH");
    lemma_differ("BIT_MASK"@, "MAX_REFRESH"@, 0);
    reveal_strlit("SYMBOL_LINK");
    lemma_differ("BIT_MASK"@, "SYMBOL_LINK"@, 0);
    reveal_strlit("MODEL_LINK");
    lemma_differ("BIT_MASK"@, "MODEL_LINK"@, 0);
    reveal_strlit("FORMAT");
    lemma_differ("BIT_MASK"@, "FORMAT"@, 0);
    reveal_strlit("PHYS_UNIT");
    lemma_differ("BIT_MASK"@, "PHYS_UNIT"@, 0);
    reveal_strlit("BYTE_ORDER");
    lemma_differ("BIT_MASK"@, "BYTE_ORDER"@, 0);
    reveal_strlit("REF_MEMORY_SEGMENT");
    lemma_differ("BIT_MASK"@, "REF_MEMORY_SEGMENT"@, 0);
    reveal_strlit("READ_ONLY");
    lemma_differ("BIT_MASK"@, "READ_ONLY"@, 0);
    reveal_strlit("EXTENDED_LIMITS");
    lemma_differ("BIT_MASK"@, "EXTENDED_LIMITS"@, 0);
    reveal_strlit("STEP_SIZE");
    lemma_differ("BIT_MASK"@, "STEP_SIZE"@, 0);
    reveal_strlit("GUARD_RAILS");
    lemma_differ("BIT_MASK"@, "GUARD_RAILS"@, 0);
    lemma_same("BIT_MASK"@);
    assert(bare(c.toks[c.pos + 0]) == (seq![plain("BIT_MASK"@), plain(hex_form(v.bitmask->Some_0 as nat))])[0]);
    assert(bare(c.toks[c.pos + 1]) == (seq![plain("BIT_MASK"@), plain(hex_form(v.bitmask->Some_0 as nat))])[1]);
    law_integer_of_hex(v.bitmask->Some_0 as nat);
}

proof fn lemma_characteristic_step_15(w: CharacteristicView, v: CharacteristicView, c: Cur, f: Setting)
    requires
        Characteristic::fits(v, f),
        v.number != 0,
        tokens_at(c.toks, c.pos, seq![plain("NUMBER"@), plain(dec_int(v.number as int))]),
        toks_numbered(c.toks, f),
    ensures
        Characteristic::option(w, c) == Ok::<(CharacteristicView, Cur), Failure>(
            (CharacteristicView { number: v.number, ..w }, Cur { pos: c.pos + 2, ..c }),
        ),
{
    reveal_strlit("NUMBER");
    reveal_strlit("ECU_ADDRESS_EXTENSION");
    lemma_differ("NUMBER"@, "ECU_ADDRESS_EXTENSION"@, 0);
    reveal_strlit("DISPLAY_IDENTIFIER");
    lemma_differ("NUMBER"@, "DISPLAY_IDENTIFIER"@, 0);
    reveal_strlit("CALIBRATION_ACCESS");
    lemma_differ("NUMBER"@, "CALIBRATION_ACCESS"@, 0);
    reveal_strlit("MAX_REFRESH");
    lemma_differ("NUMBER"@, "MAX_REFRESH"@, 0);
    reveal_strlit("SYMBOL_LINK");
    lemma_differ("NUMBER"@, "SYMBOL_LINK"@, 0);
    reveal_strlit("MODEL_LINK");
    lemma_differ("NUMBER"@, "MODEL_LINK"@, 0);
    reveal_strlit("FORMAT");
    lemma_differ("NUMBER"@, "FORMAT"@, 0);
    reveal_strlit("PHYS_UNIT");
    lemma_differ("NUMBER"@, "PHYS_UNIT"@, 0);
    reveal_strlit("BYTE_ORDER");
    lemma_differ("NUMBER"@, "BYTE_ORDER"@, 0);
    reveal_strlit("REF_MEMORY_SEGMENT");
    lemma_differ("NUMBER"@, "REF_MEMORY_SEGMENT"@, 0);
    reveal_strlit("READ_ONLY");
    lemma_differ("NUMBER"@, "READ_ONLY"@, 0);
    reveal_strlit("EXTENDED_LIMITS");
    lemma_differ("NUMBER"@, "EXTENDED_LIMITS"@, 0);
    reveal_strlit("STEP_SIZE");
    lemma_differ("NUMBER"@, "STEP_SIZE"@, 0);
    reveal_strlit("GUARD_RAILS");
    lemma_differ("NUMBER"@, "GUARD_RAILS"@, 0);
    reveal_strlit("BIT_MASK");
    lemma_differ("NUMBER"@, "BIT_MASK"@, 0);
    lemma_same("NUMBER"@);
    assert(bare(c.toks[c.pos + 0]) == (seq![plain("NUMBER"@), plain(dec_int(v.number as int))])[0]);
    assert(bare(c.toks[c.pos + 1]) == (seq![plain("NUMBER"@), plain(dec_int(v.number as int))])[1]);
    law_integer_of_dec(v.number as int);
}

proof fn lemma_characteristic_step_16(w: CharacteristicView, v: CharacteristicView, c: Cur, f: Setting)
    requires
        Characteristic::fits(v, f),
        v.matrix_dim is Some,
        tokens_at(c.toks, c.pos, seq![plain("MATRIX_DIM"@)] + int_tokens(v.matrix_dim->Some_0)),
        toks_numbered(c.toks, f),
        no_int_at(c.toks, c.pos + 1 + int_tokens(v.matrix_dim->Some_0).len()) || v.matrix_dim->Some_0.len() == 5,
    ensures
        Characteristic::option(w, c) == Ok::<(CharacteristicView, Cur), Failure>(
            (
                CharacteristicView { matrix_dim: v.matrix_dim, ..w },
                Cur { pos: c.pos + 1 + int_tokens(v.matrix_dim->Some_0).len(), ..c }
            ),
        ),
{
    reveal_strlit("MATRIX_DIM");
    reveal_strlit("ECU_ADDRESS_EXTENSION");
    lemma_differ("MATRIX_DIM"@, "ECU_ADDRESS_EXTENSION"@, 0);
    reveal_strlit("DISPLAY_IDENTIFIER");
    lemma_differ("MATRIX_DIM"@, "DISPLAY_IDENTIFIER"@, 0);
    reveal_strlit("CALIBRATION_ACCESS");
    lemma_differ("MATRIX_DIM"@, "CALIBRATION_ACCESS"@, 0);
    reveal_strlit("MAX_REFRESH");
    lemma_differ("MATRIX_DIM"@, "MAX_REFRESH"@, 0);
    reveal_strlit("SYMBOL_LINK");
    lemma_differ("MATRIX_DIM"@, "SYMBOL_LINK"@, 0);
    reveal_strlit("MODEL_LINK");
    lemma_differ("MATRIX_DIM"@, "MODEL_LINK"@, 1);
    reveal_strlit("FORMAT");
    lemma_differ("MATRIX_DIM"@, "FORMAT"@, 0);
    reveal_strlit("PHYS_UNIT");
    lemma_differ("MATRIX_DIM"@, "PHYS_UNIT"@, 0);
    reveal_strlit("BYTE_ORDER");
    lemma_differ("MATRIX_DIM"@, "BYTE_ORDER"@, 0);
    reveal_strlit("REF_MEMORY_SEGMENT");
    lemma_differ("MATRIX_DIM"@, "REF_MEMORY_SEGMENT"@, 0);
    reveal_strlit("READ_ONLY");
    lemma_differ("MATRIX_DIM"@, "READ_ONLY"@, 0);
    reveal_strlit("EXTENDED_LIMITS");
    lemma_differ("MATRIX_DIM"@, "EXTENDED_LIMITS"@, 0);
    reveal_strlit("STEP_SIZE");
    lemma_differ("MATRIX_DIM"@, "STEP_SIZE"@, 0);
    reveal_strlit("GUARD_RAILS");
    lemma_differ("MATRIX_DIM"@, "GUARD_RAILS"@, 0);
    reveal_strlit("BIT_MASK");
    lemma_differ("MATRIX_DIM"@, "BIT_MASK"@, 0);
    reveal_strlit("NUMBER");
    lemma_differ("MATRIX_DIM"@, "NUMBER"@, 0);
    lemma_same("MATRIX_DIM"@);
    assert(bare(c.toks[c.pos + 0]) == (seq![plain("MATRIX_DIM"@)] + int_tokens(v.matrix_dim->Some_0))[0]);
    lemma_tokens_at_split(c.toks, c.pos, seq![plain("MATRIX_DIM"@)], int_tokens(v.matrix_dim->Some_0));
    lemma_dims_read(c.step(), v.matrix_dim->Some_0);
}

proof fn lemma_characteristic_step_17(w: CharacteristicView, v: CharacteristicView, c: Cur, f: Setting)
    requires
        Characteristic::fits(v, f),
        v.discrete,
        tokens_at(c.toks, c.pos, seq![plain("DISCRETE"@)]),
        toks_numbered(c.toks, f),
    ensures
        Characteristic::option(w, c) == Ok::<(CharacteristicView, Cur), Failure>(
            (CharacteristicView { discrete: v.discrete, ..w }, Cur { pos: c.pos + 1, ..c }),
        ),
{
    reveal_strlit("DISCRETE");
    reveal_strlit("ECU_ADDRESS_EXTENSION");
    lemma_differ("DISCRETE"@, "ECU_ADDRESS_EXTENSION"@, 0);
    reveal_strlit("DISPLAY_IDENTIFIER");
    lemma_differ("DISCRETE"@, "DISPLAY_IDENTIFIER"@, 0);
    reveal_strlit("CALIBRATION_ACCESS");
    lemma_differ("DISCRETE"@, "CALIBRATION_ACCESS"@, 0);
    reveal_strlit("MAX_REFRESH");
    lemma_differ("DISCRETE"@, "MAX_REFRESH"@, 0);
    reveal_strlit("SYMBOL_LINK");
    lemma_differ("DISCRETE"@, "SYMBOL_LINK"@, 0);
    reveal_strlit("MODEL_LINK");
    lemma_differ("DISCRETE"@, "MODEL_LINK"@, 0);
    reveal_strlit("FORMAT");
    lemma_differ("DISCRETE"@, "FORMAT"@, 0);
    reveal_strlit("PHYS_UNIT");
    lemma_differ("DISCRETE"@, "PHYS_UNIT"@, 0);
    reveal_strlit("BYTE_ORDER");
    lemma_differ("DISCRETE"@, "BYTE_ORDER"@, 0);
    reveal_strlit("REF_MEMORY_SEGMENT");
    lemma_differ("DISCRETE"@, "REF_MEMORY_SEGMENT"@, 0);
    reveal_strlit("READ_ONLY");
    lemma_differ("DISCRETE"@, "READ_ONLY"@, 0);
    reveal_strlit("EXTENDED_LIMITS");
    lemma_differ("DISCRETE"@, "EXTENDED_LIMITS"@, 0);
    reveal_strlit("STEP_SIZE");
    lemma_differ("DISCRETE"@, "STEP_SIZE"@, 0);
    reveal_strlit("GUARD_RAILS");
    lemma_differ("DISCRETE"@, "GUARD_RAILS"@, 0);
    reveal_strlit("BIT_MASK");
    lemma_differ("DISCRETE"@, "BIT_MASK"@, 0);
    reveal_strlit("NUMBER");
    lemma_differ("DISCRETE"@, "NUMBER"@, 0);
    reveal_strlit("MATRIX_DIM");
    lemma_differ("DISCRETE"@, "MATRIX_DIM"@, 0);
    reveal_strlit("COMPARISON_QUANTITY");
    lemma_differ("DISCRETE"@, "COMPARISON_QUANTITY"@, 0);
    lemma_same("DISCRETE"@);
    assert(bare(c.toks[c.pos + 0]) == (seq![plain("DISCRETE"@)])[0]);
    
}

proof fn lemma_characteristic_step_18(w: CharacteristicView, v: CharacteristicView, c: Cur, f: Setting)
    requires
        Characteristic::fits(v, f),
        v.encoding != EncodingType::ASCII,
        tokens_at(c.toks, c.pos, seq![plain("ENCODING"@), plain(v.encoding.word()->Some_0)]),
        toks_numbered(c.toks, f),
    ensures
        Characteristic::option(w, c) == Ok::<(CharacteristicView, Cur), Failure>(
            (CharacteristicView { encoding: v.encoding, ..w }, Cur { pos: c.pos + 2, ..c }),
        ),
{
    reveal_strlit("ENCODING");
    reveal_strlit("ECU_ADDRESS_EXTENSION");
    lemma_differ("ENCODING"@, "ECU_ADDRESS_EXTENSION"@, 0);
    reveal_strlit("DISPLAY_IDENTIFIER");
    lemma_differ("ENCODING"@, "DISPLAY_IDENTIFIER"@, 0);
    reveal_strlit("CALIBRATION_ACCESS");
    lemma_differ("ENCODING"@, "CALIBRATION_ACCESS"@, 0);
    reveal_strlit("MAX_REFRESH");
    lemma_differ("ENCODING"@, "MAX_REFRESH"@, 0);
    reveal_strlit("SYMBOL_LINK");
    lemma_differ("ENCODING"@, "SYMBOL_LINK"@, 0);
    reveal_strlit("MODEL_LINK");
    lemma_differ("ENCODING"@, "MODEL_LINK"@, 0);
    reveal_strlit("FORMAT");
    lemma_differ("ENCODING"@, "FORMAT"@, 0);
    reveal_strlit("PHYS_UNIT");
    lemma_differ("ENCODING"@, "PHYS_UNIT"@, 0);
    reveal_strlit("BYTE_ORDER");
    lemma_differ("ENCODING"@, "BYTE_ORDER"@, 0);
    reveal_strlit("REF_MEMORY_SEGMENT");
    lemma_differ("ENCODING"@, "REF_MEMORY_SEGMENT"@, 0);
    reveal_strlit("READ_ONLY");
    lemma_differ("ENCODING"@, "READ_ONLY"@, 0);
    reveal_strlit("EXTENDED_LIMITS");
    lemma_differ("ENCODING"@, "EXTENDED_LIMITS"@, 0);
    reveal_strlit("STEP_SIZE");
    lemma_differ("ENCODING"@, "STEP_SIZE"@, 0);
    reveal_strlit("GUARD_RAILS");
    lemma_differ("ENCODING"@, "GUARD_RAILS"@, 0);
    reveal_strlit("BIT_MASK");
    lemma_differ("ENCODING"@, "BIT_MASK"@, 0);
    reveal_strlit("NUMBER");
    lemma_differ("ENCODING"@, "NUMBER"@, 0);
    reveal_strlit("MATRIX_DIM");
    lemma_differ("ENCODING"@, "MATRIX_DIM"@, 0);
    reveal_strlit("COMPARISON_QUANTITY");
    lemma_differ("ENCODING"@, "COMPARISON_QUANTITY"@, 0);
    reveal_strlit("DISCRETE");
    lemma_differ("ENCODING"@, "DISCRETE"@, 0);
    lemma_same("ENCODING"@);
    assert(bare(c.toks[c.pos + 0]) == (seq![plain("ENCODING"@), plain(v.encoding.word()->Some_0)])[0]);
    assert(bare(c.toks[c.pos + 1]) == (seq![plain("ENCODING"@), plain(v.encoding.word()->Some_0)])[1]);
    v.encoding.law_named_of_word();
    v.encoding.lemma_word();
}

proof fn lemma_characteristic_read_19(v: CharacteristicView, c: Cur, f: Setting)
    requires
        Characteristic::fits(v, f),
        tokens_at(c.toks, c.pos, characteristic_from_19(v)),
        c.pos + characteristic_from_19(v).len() == c.toks.len(),
        toks_numbered(c.toks, f),
    ensures
        Characteristic::options(
            CharacteristicView { children: Seq::empty(), ..v },
            c
        ) matches Ok((w, _)) && w == (CharacteristicView { children: Seq::empty(), ..v }),
{
}

proof fn lemma_characteristic_next_19(v: CharacteristicView, c: Cur)
    requires
        tokens_at(c.toks, c.pos, characteristic_from_19(v)),
        c.pos + characteristic_from_19(v).len() == c.toks.len(),
    ensures
        no_int_at(c.toks, c.pos),
{
}

proof fn lemma_characteristic_read_18(v: CharacteristicView, c: Cur, f: Setting)
    requires
        Characteristic::fits(v, f),
        tokens_at(c.toks, c.pos, characteristic_from_18(v)),
        c.pos + characteristic_from_18(v).len() == c.toks.len(),
        toks_numbered(c.toks, f),
    ensures
        Characteristic::options(
            CharacteristicView { encoding: EncodingType::ASCII, children: Seq::empty(), ..v },
            c
        ) matches Ok((w, _)) && w == (CharacteristicView { children: Seq::empty(), ..v }),
{
    reveal(characteristic_part_18);
    let t = characteristic_part_18(v);
    if v.encoding != EncodingType::ASCII {
        lemma_tokens_at_split(c.toks, c.pos, t, characteristic_from_19(v));
        let c2 = Cur { pos: c.pos + 2, ..c };
        lemma_characteristic_step_18(
            CharacteristicView { encoding: EncodingType::ASCII, children: Seq::empty(), ..v },
            v,
            c,
            f
        );
        lemma_characteristic_read_19(v, c2, f);
    } else {
        assert(t + characteristic_from_19(v) =~= characteristic_from_19(v));
        lemma_characteristic_read_19(v, c, f);
    }
}

proof fn lemma_characteristic_next_18(v: CharacteristicView, c: Cur)
    requires
        tokens_at(c.toks, c.pos, characteristic_from_18(v)),
        c.pos + characteristic_from_18(v).len() == c.toks.len(),
    ensures
        no_int_at(c.toks, c.pos),
{
    reveal(characteristic_part_18);
    if v.encoding != EncodingType::ASCII {
        assert(bare(c.toks[c.pos + 0]) == characteristic_from_18(v)[0]);
        reveal_strlit("ENCODING");
        lemma_no_int("ENCODING"@);
    } else {
        assert(characteristic_from_18(v) =~= characteristic_from_19(v));
        lemma_characteristic_next_19(v, c);
    }
}

proof fn lemma_characteristic_read_17(v: CharacteristicView, c: Cur, f: Setting)
    requires
        Characteristic::fits(v, f),
        tokens_at(c.toks, c.pos, characteristic_from_17(v)),
        c.pos + characteristic_from_17(v).len() == c.toks.len(),
        toks_numbered(c.toks, f),
    ensures
        Characteristic::options(
            CharacteristicView {
                discrete: false,
                encoding: EncodingType::ASCII,
                children: Seq::empty(),
                ..v
            },
            c
        ) matches Ok((w, _)) && w == (CharacteristicView { children: Seq::empty(), ..v }),
{
    reveal(characteristic_part_17);
    let t = characteristic_part_17(v);
    if v.discrete {
        lemma_tokens_at_split(c.toks, c.pos, t, characteristic_from_18(v));
        let c2 = Cur { pos: c.pos + 1, ..c };
        lemma_characteristic_step_17(
            CharacteristicView {
                discrete: false,
                encoding: EncodingType::ASCII,
                children: Seq::empty(),
                ..v
            },
            v,
            c,
            f
        );
        lemma_characteristic_read_18(v, c2, f);
    } else {
        assert(t + characteristic_from_18(v) =~= characteristic_from_18(v));
        lemma_characteristic_read_18(v, c, f);
    }
}

proof fn lemma_characteristic_next_17(v: CharacteristicView, c: Cur)
    requires
        tokens_at(c.toks, c.pos, characteristic_from_17(v)),
        c.pos + characteristic_from_17(v).len() == c.toks.len(),
    ensures
        no_int_at(c.toks, c.pos),
{
    reveal(characteristic_part_17);
    if v.discrete {
        assert(bare(c.toks[c.pos + 0]) == characteristic_from_17(v)[0]);
        reveal_strlit("DISCRETE");
        lemma_no_int("DISCRETE"@);
    } else {
        assert(characteristic_from_17(v) =~= characteristic_from_18(v));
        lemma_characteristic_next_18(v, c);
    }
}

proof fn lemma_characteristic_read_16(v: CharacteristicView, c: Cur, f: Setting)
    requires
        Characteristic::fits(v, f),
        tokens_at(c.toks, c.pos, characteristic_from_16(v)),
        c.pos + characteristic_from_16(v).len() == c.toks.len(),
        toks_numbered(c.toks, f),
    ensures
        Characteristic::options(
            CharacteristicView {
                matrix_dim: None,
                discrete: false,
                encoding: EncodingType::ASCII,
                children: Seq::empty(),
                ..v
            },
            c
        ) matches Ok((w, _)) && w == (CharacteristicView { children: Seq::empty(), ..v }),
{
    reveal(characteristic_part_16);
    let t = characteristic_part_16(v);
    if v.matrix_dim is Some {
        lemma_tokens_at_split(c.toks, c.pos, t, characteristic_from_17(v));
        let c2 = Cur { pos: c.pos + 1 + int_tokens(v.matrix_dim->Some_0).len(), ..c };
        lemma_characteristic_next_17(v, c2);
        lemma_characteristic_step_16(
            CharacteristicView {
                matrix_dim: None,
                discrete: false,
                encoding: EncodingType::ASCII,
                children: Seq::empty(),
                ..v
            },
            v,
            c,
            f
        );
        lemma_characteristic_read_17(v, c2, f);
    } else {
        assert(t + characteristic_from_17(v) =~= characteristic_from_17(v));
        lemma_characteristic_read_17(v, c, f);
    }
}

proof fn lemma_characteristic_read_15(v: CharacteristicView, c: Cur, f: Setting)
    requires
        Characteristic::fits(v, f),
        tokens_at(c.toks, c.pos, characteristic_from_15(v)),
        c.pos + characteristic_from_15(v).len() == c.toks.len(),
        toks_numbered(c.toks, f),
    ensures
        Characteristic::options(
            CharacteristicView {
                number: 0,
                matrix_dim: None,
                discrete: false,
                encoding: EncodingType::ASCII,
                children: Seq::empty(),
                ..v
            },
            c
        ) matches Ok((w, _)) && w == (CharacteristicView { children: Seq::empty(), ..v }),
{
    reveal(characteristic_part_15);
    let t = characteristic_part_15(v);
    if v.number != 0 {
        lemma_tokens_at_split(c.toks, c.pos, t, characteristic_from_16(v));
        let c2 = Cur { pos: c.pos + 2, ..c };
        lemma_characteristic_step_15(
            CharacteristicView {
                number: 0,
                matrix_dim: None,
                discrete: false,
                encoding: EncodingType::ASCII,
                children: Seq::empty(),
                ..v
            },
            v,
            c,
            f
        );
        lemma_characteristic_read_16(v, c2, f);
    } else {
        assert(t + characteristic_from_16(v) =~= characteristic_from_16(v));
        lemma_characteristic_read_16(v, c, f);
    }
}

proof fn lemma_characteristic_read_14(v: CharacteristicView, c: Cur, f: Setting)
    requires
        Characteristic::fits(v, f),
        tokens_at(c.toks, c.pos, characteristic_from_14(v)),
        c.pos + characteristic_from_14(v).len() == c.toks.len(),
        toks_numbered(c.toks, f),
    ensures
        Characteristic::options(
            CharacteristicView {
                bitmask: None,
                number: 0,
                matrix_dim: None,
                discrete: false,
                encoding: EncodingType::ASCII,
                children: Seq::empty(),
                ..v
            },
            c
        ) matches Ok((w, _)) && w == (CharacteristicView { children: Seq::empty(), ..v }),
{
    reveal(characteristic_part_14);
    let t = characteristic_part_14(v);
    if v.bitmask is Some {
        lemma_tokens_at_split(c.toks, c.pos, t, characteristic_from_15(v));
        let c2 = Cur { pos: c.pos + 2, ..c };
        lemma_characteristic_step_14(
            CharacteristicView {
                bitmask: None,
                number: 0,
                matrix_dim: None,
                discrete: false,
                encoding: EncodingType::ASCII,
                children: Seq::empty(),
                ..v
            },
            v,
            c,
            f
        );
        lemma_characteristic_read_15(v, c2, f);
    } else {
        assert(t + characteristic_from_15(v) =~= characteristic_from_15(v));
        lemma_characteristic_read_15(v, c, f);
    }
}

proof fn lemma_characteristic_read_13(v: CharacteristicView, c: Cur, f: Setting)
    requires
        Characteristic::fits(v, f),
        tokens_at(c.toks, c.pos, characteristic_from_13(v)),
        c.pos + characteristic_from_13(v).len() == c.toks.len(),
        toks_numbered(c.toks, f),
    ensures
        Characteristic::options(
            CharacteristicView {
                rec: RecordLayoutRefFieldsView { guard_rails: false, ..v.rec },
                bitmask: None,
                number: 0,
                matrix_dim: None,
                discrete: false,
                encoding: EncodingType::ASCII,
                children: Seq::empty(),
                ..v
            },
            c
        ) matches Ok((w, _)) && w == (CharacteristicView { children: Seq::empty(), ..v }),
{
    reveal(characteristic_part_13);
    let t = characteristic_part_13(v);
    if v.rec.guard_rails {
        lemma_tokens_at_split(c.toks, c.pos, t, characteristic_from_14(v));
        let c2 = Cur { pos: c.pos + 1, ..c };
        lemma_characteristic_step_13(
            CharacteristicView {
                rec: RecordLayoutRefFieldsView { guard_rails: false, ..v.rec },
                bitmask: None,
                number: 0,
                matrix_dim: None,
                discrete: false,
                encoding: EncodingType::ASCII,
                children: Seq::empty(),
                ..v
            },
            v,
            c,
            f
        );
        lemma_characteristic_read_14(v, c2, f);
    } else {
        assert(t + characteristic_from_14(v) =~= characteristic_from_14(v));
        lemma_characteristic_read_14(v, c, f);
    }
}

proof fn lemma_characteristic_read_12(v: CharacteristicView, c: Cur, f: Setting)
    requires
        Characteristic::fits(v, f),
        tokens_at(c.toks, c.pos, characteristic_from_12(v)),
        c.pos + characteristic_from_12(v).len() == c.toks.len(),
        toks_numbered(c.toks, f),
    ensures
        Characteristic::options(
            CharacteristicView {
                rec: RecordLayoutRefFieldsView { step_size: None, guard_rails: false, ..v.rec },
                bitmask: None,
                number: 0,
                matrix_dim: None,
                discrete: false,
                encoding: EncodingType::ASCII,
                children: Seq::empty(),
                ..v
            },
            c
        ) matches Ok((w, _)) && w == (CharacteristicView { children: Seq::empty(), ..v }),
{
    reveal(characteristic_part_12);
    let t = characteristic_part_12(v);
    if v.rec.step_size is Some {
        lemma_tokens_at_split(c.toks, c.pos, t, characteristic_from_13(v));
        let c2 = Cur { pos: c.pos + 2, ..c };
        lemma_characteristic_step_12(
            CharacteristicView {
                rec: RecordLayoutRefFieldsView { step_size: None, guard_rails: false, ..v.rec },
                bitmask: None,
                number: 0,
                matrix_dim: None,
                discrete: false,
                encoding: EncodingType::ASCII,
                children: Seq::empty(),
                ..v
            },
            v,
            c,
            f
        );
        lemma_characteristic_read_13(v, c2, f);
    } else {
        assert(t + characteristic_from_13(v) =~= characteristic_from_13(v));
        lemma_characteristic_read_13(v, c, f);
    }
}

proof fn lemma_characteristic_read_11(v: CharacteristicView, c: Cur, f: Setting)
    requires
        Characteristic::fits(v, f),
        tokens_at(c.toks, c.pos, characteristic_from_11(v)),
        c.pos + characteristic_from_11(v).len() == c.toks.len(),
        toks_numbered(c.toks, f),
    ensures
        Characteristic::options(
            CharacteristicView {
                rec: RecordLayoutRefFieldsView {
                    extended_limits: None,
                    step_size: None,
                    guard_rails: false,
                    ..v.rec
                },
                bitmask: None,
                number: 0,
                matrix_dim: None,
                discrete: false,
                encoding: EncodingType::ASCII,
                children: Seq::empty(),
                ..v
            },
            c
        ) matches Ok((w, _)) && w == (CharacteristicView { children: Seq::empty(), ..v }),
{
    reveal(characteristic_part_11);
    let t = characteristic_part_11(v);
    if v.rec.extended_limits is Some {
        lemma_tokens_at_split(c.toks, c.pos, t, characteristic_from_12(v));
        let c2 = Cur { pos: c.pos + 3, ..c };
        lemma_characteristic_step_11(
            CharacteristicView {
                rec: RecordLayoutRefFieldsView {
                    extended_limits: None,
                    step_size: None,
                    guard_rails: false,
                    ..v.rec
                },
                bitmask: None,
                number: 0,
                matrix_dim: None,
                discrete: false,
                encoding: EncodingType::ASCII,
                children: Seq::empty(),
                ..v
            },
            v,
            c,
            f
        );
        lemma_characteristic_read_12(v, c2, f);
    } else {
        assert(t + characteristic_from_12(v) =~= characteristic_from_12(v));
        lemma_characteristic_read_12(v, c, f);
    }
}

proof fn lemma_characteristic_read_10(v: CharacteristicView, c: Cur, f: Setting)
    requires
        Characteristic::fits(v, f),
        tokens_at(c.toks, c.pos, characteristic_from_10(v)),
        c.pos + characteristic_from_10(v).len() == c.toks.len(),
        toks_numbered(c.toks, f),
    ensures
        Characteristic::options(
            CharacteristicView {
                rec: RecordLayoutRefFieldsView {
                    read_only: false,
                    extended_limits: None,
                    step_size: None,
                    guard_rails: false,
                    ..v.rec
                },
                bitmask: None,
                number: 0,
                matrix_dim: None,
                discrete: false,
                encoding: EncodingType::ASCII,
                children: Seq::empty(),
                ..v
            },
            c
        ) matches Ok((w, _)) && w == (CharacteristicView { children: Seq::empty(), ..v }),
{
    reveal(characteristic_part_10);
    let t = characteristic_part_10(v);
    if v.rec.read_only {
        lemma_tokens_at_split(c.toks, c.pos, t, characteristic_from_11(v));
        let c2 = Cur { pos: c.pos + 1, ..c };
        lemma_characteristic_step_10(
            CharacteristicView {
                rec: RecordLayoutRefFieldsView {
                    read_only: false,
                    extended_limits: None,
                    step_size: None,
                    guard_rails: false,
                    ..v.rec
                },
                bitmask: None,
                number: 0,
                matrix_dim: None,
                discrete: false,
                encoding: EncodingType::ASCII,
                children: Seq::empty(),
                ..v
            },
            v,
            c,
            f
        );
        lemma_characteristic_read_11(v, c2, f);
    } else {
        assert(t + characteristic_from_11(v) =~= characteristic_from_11(v));
        lemma_characteristic_read_11(v, c, f);
    }
}

proof fn lemma_characteristic_read_9(v: CharacteristicView, c: Cur, f: Setting)
    requires
        Characteristic::fits(v, f),
        tokens_at(c.toks, c.pos, characteristic_from_9(v)),
        c.pos + characteristic_from_9(v).len() == c.toks.len(),
        toks_numbered(c.toks, f),
    ensures
        Characteristic::options(
            CharacteristicView {
                conv: ConversionRefFieldsView { memory_segment_ref: None, ..v.conv },
                rec: RecordLayoutRefFieldsView {
                    read_only: false,
                    extended_limits: None,
                    step_size: None,
                    guard_rails: false,
                    ..v.rec
                },
                bitmask: None,
                number: 0,
                matrix_dim: None,
                discrete: false,
                encoding: EncodingType::ASCII,
                children: Seq::empty(),
                ..v
            },
            c
        ) matches Ok((w, _)) && w == (CharacteristicView { children: Seq::empty(), ..v }),
{
    reveal(characteristic_part_9);
    let t = characteristic_part_9(v);
    if v.conv.memory_segment_ref is Some {
        lemma_tokens_at_split(c.toks, c.pos, t, characteristic_from_10(v));
        let c2 = Cur { pos: c.pos + 2, ..c };
        lemma_characteristic_step_9(
            CharacteristicView {
                conv: ConversionRefFieldsView { memory_segment_ref: None, ..v.conv },
                rec: RecordLayoutRefFieldsView {
                    read_only: false,
                    extended_limits: None,
                    step_size: None,
                    guard_rails: false,
                    ..v.rec
                },
                bitmask: None,
                number: 0,
                matrix_dim: None,
                discrete: false,
                encoding: EncodingType::ASCII,
                children: Seq::empty(),
                ..v
            },
            v,
            c,
            f
        );
        lemma_characteristic_read_10(v, c2, f);
    } else {
        assert(t + characteristic_from_10(v) =~= characteristic_from_10(v));
        lemma_characteristic_read_10(v, c, f);
    }
}

proof fn lemma_characteristic_read_8(v: CharacteristicView, c: Cur, f: Setting)
    requires
        Characteristic::fits(v, f),
        tokens_at(c.toks, c.pos, characteristic_from_8(v)),
        c.pos + characteristic_from_8(v).len() == c.toks.len(),
        toks_numbered(c.toks, f),
    ensures
        Characteristic::options(
            CharacteristicView {
                conv: ConversionRefFieldsView {
                    byte_order: ByteOrder::NotSet,
                    memory_segment_ref: None,
                    ..v.conv
                },
                rec: RecordLayoutRefFieldsView {
                    read_only: false,
                    extended_limits: None,
                    step_size: None,
                    guard_rails: false,
                    ..v.rec
                },
                bitmask: None,
                number: 0,
                matrix_dim: None,
                discrete: false,
                encoding: EncodingType::ASCII,
                children: Seq::empty(),
                ..v
            },
            c
        ) matches Ok((w, _)) && w == (CharacteristicView { children: Seq::empty(), ..v }),
{
    reveal(characteristic_part_8);
    let t = characteristic_part_8(v);
    if v.conv.byte_order.word() is Some {
        lemma_tokens_at_split(c.toks, c.pos, t, characteristic_from_9(v));
        let c2 = Cur { pos: c.pos + 2, ..c };
        lemma_characteristic_step_8(
            CharacteristicView {
                conv: ConversionRefFieldsView {
                    byte_order: ByteOrder::NotSet,
                    memory_segment_ref: None,
                    ..v.conv
                },
                rec: RecordLayoutRefFieldsView {
                    read_only: false,
                    extended_limits: None,
                    step_size: None,
                    guard_rails: false,
                    ..v.rec
                },
                bitmask: None,
                number: 0,
                matrix_dim: None,
                discrete: false,
                encoding: EncodingType::ASCII,
                children: Seq::empty(),
                ..v
            },
            v,
            c,
            f
        );
        lemma_characteristic_read_9(v, c2, f);
    } else {
        assert(t + characteristic_from_9(v) =~= characteristic_from_9(v));
        lemma_characteristic_read_9(v, c, f);
    }
}

proof fn lemma_characteristic_read_7(v: CharacteristicView, c: Cur, f: Setting)
    requires
        Characteristic::fits(v, f),
        tokens_at(c.toks, c.pos, characteristic_from_7(v)),
        c.pos + characteristic_from_7(v).len() == c.toks.len(),
        toks_numbered(c.toks, f),
    ensures
        Characteristic::options(
            CharacteristicView {
                conv: ConversionRefFieldsView {
                    phys_unit: None,
                    byte_order: ByteOrder::NotSet,
                    memory_segment_ref: None,
                    ..v.conv
                },
                rec: RecordLayoutRefFieldsView {
                    read_only: false,
                    extended_limits: None,
                    step_size: None,
                    guard_rails: false,
                    ..v.rec
                },
                bitmask: None,
                number: 0,
                matrix_dim: None,
                discrete: false,
                encoding: EncodingType::ASCII,
                children: Seq::empty(),
                ..v
            },
            c
        ) matches Ok((w, _)) && w == (CharacteristicView { children: Seq::empty(), ..v }),
{
    reveal(characteristic_part_7);
    let t = characteristic_part_7(v);
    if v.conv.phys_unit is Some {
        lemma_tokens_at_split(c.toks, c.pos, t, characteristic_from_8(v));
        let c2 = Cur { pos: c.pos + 2, ..c };
        lemma_characteristic_step_7(
            CharacteristicView {
                conv: ConversionRefFieldsView {
                    phys_unit: None,
                    byte_order: ByteOrder::NotSet,
                    memory_segment_ref: None,
                    ..v.conv
                },
                rec: RecordLayoutRefFieldsView {
                    read_only: false,
                    extended_limits: None,
                    step_size: None,
                    guard_rails: false,
                    ..v.rec
                },
                bitmask: None,
                number: 0,
                matrix_dim: None,
                discrete: false,
                encoding: EncodingType::ASCII,
                children: Seq::empty(),
                ..v
            },
            v,
            c,
            f
        );
        lemma_characteristic_read_8(v, c2, f);
    } else {
        assert(t + characteristic_from_8(v) =~= characteristic_from_8(v));
        lemma_characteristic_read_8(v, c, f);
    }
}

proof fn lemma_characteristic_read_6(v: CharacteristicView, c: Cur, f: Setting)
    requires
        Characteristic::fits(v, f),
        tokens_at(c.toks, c.pos, characteristic_from_6(v)),
        c.pos + characteristic_from_6(v).len() == c.toks.len(),
        toks_numbered(c.toks, f),
    ensures
        Characteristic::options(
            CharacteristicView {
                conv: ConversionRefFieldsView {
                    format: None,
                    phys_unit: None,
                    byte_order: ByteOrder::NotSet,
                    memory_segment_ref: None,
                    ..v.conv
                },
                rec: RecordLayoutRefFieldsView {
                    read_only: false,
                    extended_limits: None,
                    step_size: None,
                    guard_rails: false,
                    ..v.rec
                },
                bitmask: None,
                number: 0,
                matrix_dim: None,
                discrete: false,
                encoding: EncodingType::ASCII,
                children: Seq::empty(),
                ..v
            },
            c
        ) matches Ok((w, _)) && w == (CharacteristicView { children: Seq::empty(), ..v }),
{
    reveal(characteristic_part_6);
    let t = characteristic_part_6(v);
    if v.conv.format is Some {
        lemma_tokens_at_split(c.toks, c.pos, t, characteristic_from_7(v));
        let c2 = Cur { pos: c.pos + 2, ..c };
        lemma_characteristic_step_6(
            CharacteristicView {
                conv: ConversionRefFieldsView {
                    format: None,
                    phys_unit: None,
                    byte_order: ByteOrder::NotSet,
                    memory_segment_ref: None,
                    ..v.conv
                },
                rec: RecordLayoutRefFieldsView {
                    read_only: false,
                    extended_limits: None,
                    step_size: None,
                    guard_rails: false,
                    ..v.rec
                },
                bitmask: None,
                number: 0,
                matrix_dim: None,
                discrete: false,
                encoding: EncodingType::ASCII,
                children: Seq::empty(),
                ..v
            },
            v,
            c,
            f
        );
        lemma_characteristic_read_7(v, c2, f);
    } else {
        assert(t + characteristic_from_7(v) =~= characteristic_from_7(v));
        lemma_characteristic_read_7(v, c, f);
    }
}

proof fn lemma_characteristic_read_5(v: CharacteristicView, c: Cur, f: Setting)
    requires
        Characteristic::fits(v, f),
        tokens_at(c.toks, c.pos, characteristic_from_5(v)),
        c.pos + characteristic_from_5(v).len() == c.toks.len(),
        toks_numbered(c.toks, f),
    ensures
        Characteristic::options(
            CharacteristicView {
                addr: AddressFieldsView { model_link: None, ..v.addr },
                conv: ConversionRefFieldsView {
                    format: None,
                    phys_unit: None,
                    byte_order: ByteOrder::NotSet,
                    memory_segment_ref: None,
                    ..v.conv
                },
                rec: RecordLayoutRefFieldsView {
                    read_only: false,
                    extended_limits: None,
                    step_size: None,
                    guard_rails: false,
                    ..v.rec
                },
                bitmask: None,
                number: 0,
                matrix_dim: None,
                discrete: false,
                encoding: EncodingType::ASCII,
                children: Seq::empty(),
                ..v
            },
            c
        ) matches Ok((w, _)) && w == (CharacteristicView { children: Seq::empty(), ..v }),
{
    reveal(characteristic_part_5);
    let t = characteristic_part_5(v);
    if v.addr.model_link is Some {
        lemma_tokens_at_split(c.toks, c.pos, t, characteristic_from_6(v));
        let c2 = Cur { pos: c.pos + 2, ..c };
        lemma_characteristic_step_5(
            CharacteristicView {
                addr: AddressFieldsView { model_link: None, ..v.addr },
                conv: ConversionRefFieldsView {
                    format: None,
                    phys_unit: None,
                    byte_order: ByteOrder::NotSet,
                    memory_segment_ref: None,
                    ..v.conv
                },
                rec: RecordLayoutRefFieldsView {
                    read_only: false,
                    extended_limits: None,
                    step_size: None,
                    guard_rails: false,
                    ..v.rec
                },
                bitmask: None,
                number: 0,
                matrix_dim: None,
                discrete: false,
                encoding: EncodingType::ASCII,
                children: Seq::empty(),
                ..v
            },
            v,
            c,
            f
        );
        lemma_characteristic_read_6(v, c2, f);
    } else {
        assert(t + characteristic_from_6(v) =~= characteristic_from_6(v));
        lemma_characteristic_read_6(v, c, f);
    }
}

proof fn lemma_characteristic_read_4(v: CharacteristicView, c: Cur, f: Setting)
    requires
        Characteristic::fits(v, f),
        tokens_at(c.toks, c.pos, characteristic_from_4(v)),
        c.pos + characteristic_from_4(v).len() == c.toks.len(),
        toks_numbered(c.toks, f),
    ensures
        Characteristic::options(
            CharacteristicView {
                addr: AddressFieldsView {
                    symbol_link: None,
                    symbol_offset: 0,
                    model_link: None,
                    ..v.addr
                },
                conv: ConversionRefFieldsView {
                    format: None,
                    phys_unit: None,
                    byte_order: ByteOrder::NotSet,
                    memory_segment_ref: None,
                    ..v.conv
                },
                rec: RecordLayoutRefFieldsView {
                    read_only: false,
                    extended_limits: None,
                    step_size: None,
                    guard_rails: false,
                    ..v.rec
                },
                bitmask: None,
                number: 0,
                matrix_dim: None,
                discrete: false,
                encoding: EncodingType::ASCII,
                children: Seq::empty(),
                ..v
            },
            c
        ) matches Ok((w, _)) && w == (CharacteristicView { children: Seq::empty(), ..v }),
{
    reveal(characteristic_part_4);
    let t = characteristic_part_4(v);
    if v.addr.symbol_link is Some {
        lemma_tokens_at_split(c.toks, c.pos, t, characteristic_from_5(v));
        let c2 = Cur { pos: c.pos + 3, ..c };
        lemma_characteristic_step_4(
            CharacteristicView {
                addr: AddressFieldsView {
                    symbol_link: None,
                    symbol_offset: 0,
                    model_link: None,
                    ..v.addr
                },
                conv: ConversionRefFieldsView {
                    format: None,
                    phys_unit: None,
                    byte_order: ByteOrder::NotSet,
                    memory_segment_ref: None,
                    ..v.conv
                },
                rec: RecordLayoutRefFieldsView {
                    read_only: false,
                    extended_limits: None,
                    step_size: None,
                    guard_rails: false,
                    ..v.rec
                },
                bitmask: None,
                number: 0,
                matrix_dim: None,
                discrete: false,
                encoding: EncodingType::ASCII,
                children: Seq::empty(),
                ..v
            },
            v,
            c,
            f
        );
        lemma_characteristic_read_5(v, c2, f);
    } else {
        assert(t + characteristic_from_5(v) =~= characteristic_from_5(v));
        lemma_characteristic_read_5(v, c, f);
    }
}

proof fn lemma_characteristic_read_3(v: CharacteristicView, c: Cur, f: Setting)
    requires
        Characteristic::fits(v, f),
        tokens_at(c.toks, c.pos, characteristic_from_3(v)),
        c.pos + characteristic_from_3(v).len() == c.toks.len(),
        toks_numbered(c.toks, f),
    ensures
        Characteristic::options(
            CharacteristicView {
                addr: AddressFieldsView {
                    max_refresh_unit: None,
                    max_refresh_rate: 0,
                    symbol_link: None,
                    symbol_offset: 0,
                    model_link: None,
                    ..v.addr
                },
                conv: ConversionRefFieldsView {
                    format: None,
                    phys_unit: None,
                    byte_order: ByteOrder::NotSet,
                    memory_segment_ref: None,
                    ..v.conv
                },
                rec: RecordLayoutRefFieldsView {
                    read_only: false,
                    extended_limits: None,
                    step_size: None,
                    guard_rails: false,
                    ..v.rec
                },
                bitmask: None,
                number: 0,
                matrix_dim: None,
                discrete: false,
                encoding: EncodingType::ASCII,
                children: Seq::empty(),
                ..v
            },
            c
        ) matches Ok((w, _)) && w == (CharacteristicView { children: Seq::empty(), ..v }),
{
    reveal(characteristic_part_3);
    let t = characteristic_part_3(v);
    if v.addr.max_refresh_unit is Some {
        lemma_tokens_at_split(c.toks, c.pos, t, characteristic_from_4(v));
        let c2 = Cur { pos: c.pos + 3, ..c };
        lemma_characteristic_step_3(
            CharacteristicView {
                addr: AddressFieldsView {
                    max_refresh_unit: None,
                    max_refresh_rate: 0,
                    symbol_link: None,
                    symbol_offset: 0,
                    model_link: None,
                    ..v.addr
                },
                conv: ConversionRefFieldsView {
                    format: None,
                    phys_unit: None,
                    byte_order: ByteOrder::NotSet,
                    memory_segment_ref: None,
                    ..v.conv
                },
                rec: RecordLayoutRefFieldsView {
                    read_only: false,
                    extended_limits: None,
                    step_size: None,
                    guard_rails: false,
                    ..v.rec
                },
                bitmask: None,
                number: 0,
                matrix_dim: None,
                discrete: false,
                encoding: EncodingType::ASCII,
                children: Seq::empty(),
                ..v
            },
            v,
            c,
            f
        );
        lemma_characteristic_read_4(v, c2, f);
    } else {
        assert(t + characteristic_from_4(v) =~= characteristic_from_4(v));
        lemma_characteristic_read_4(v, c, f);
    }
}

proof fn lemma_characteristic_read_2(v: CharacteristicView, c: Cur, f: Setting)
    requires
        Characteristic::fits(v, f),
        tokens_at(c.toks, c.pos, characteristic_from_2(v)),
        c.pos + characteristic_from_2(v).len() == c.toks.len(),
        toks_numbered(c.toks, f),
    ensures
        Characteristic::options(
            CharacteristicView {
                addr: AddressFieldsView {
                    calib_access: CalibrationAccess::NotSet,
                    max_refresh_unit: None,
                    max_refresh_rate: 0,
                    symbol_link: None,
                    symbol_offset: 0,
                    model_link: None,
                    ..v.addr
                },
                conv: ConversionRefFieldsView {
                    format: None,
                    phys_unit: None,
                    byte_order: ByteOrder::NotSet,
                    memory_segment_ref: None,
                    ..v.conv
                },
                rec: RecordLayoutRefFieldsView {
                    read_only: false,
                    extended_limits: None,
                    step_size: None,
                    guard_rails: false,
                    ..v.rec
                },
                bitmask: None,
                number: 0,
                matrix_dim: None,
                discrete: false,
                encoding: EncodingType::ASCII,
                children: Seq::empty(),
                ..v
            },
            c
        ) matches Ok((w, _)) && w == (CharacteristicView { children: Seq::empty(), ..v }),
{
    reveal(characteristic_part_2);
    let t = characteristic_part_2(v);
    if v.addr.calib_access.word() is Some {
        lemma_tokens_at_split(c.toks, c.pos, t, characteristic_from_3(v));
        let c2 = Cur { pos: c.pos + 2, ..c };
        lemma_characteristic_step_2(
            CharacteristicView {
                addr: AddressFieldsView {
                    calib_access: CalibrationAccess::NotSet,
                    max_refresh_unit: None,
                    max_refresh_rate: 0,
                    symbol_link: None,
                    symbol_offset: 0,
                    model_link: None,
                    ..v.addr
                },
                conv: ConversionRefFieldsView {
                    format: None,
                    phys_unit: None,
                    byte_order: ByteOrder::NotSet,
                    memory_segment_ref: None,
                    ..v.conv
                },
                rec: RecordLayoutRefFieldsView {
                    read_only: false,
                    extended_limits: None,
                    step_size: None,
                    guard_rails: false,
                    ..v.rec
                },
                bitmask: None,
                number: 0,
                matrix_dim: None,
                discrete: false,
                encoding: EncodingType::ASCII,
                children: Seq::empty(),
                ..v
            },
            v,
            c,
            f
        );
        lemma_characteristic_read_3(v, c2, f);
    } else {
        assert(t + characteristic_from_3(v) =~= characteristic_from_3(v));
        lemma_characteristic_read_3(v, c, f);
    }
}

proof fn lemma_characteristic_read_1(v: CharacteristicView, c: Cur, f: Setting)
    requires
        Characteristic::fits(v, f),
        tokens_at(c.toks, c.pos, characteristic_from_1(v)),
        c.pos + characteristic_from_1(v).len() == c.toks.len(),
        toks_numbered(c.toks, f),
    ensures
        Characteristic::options(
            CharacteristicView {
                addr: AddressFieldsView {
                    display_name: None,
                    calib_access: CalibrationAccess::NotSet,
                    max_refresh_unit: None,
                    max_refresh_rate: 0,
                    symbol_link: None,
                    symbol_offset: 0,
                    model_link: None,
                    ..v.addr
                },
                conv: ConversionRefFieldsView {
                    format: None,
                    phys_unit: None,
                    byte_order: ByteOrder::NotSet,
                    memory_segment_ref: None,
                    ..v.conv
                },
                rec: RecordLayoutRefFieldsView {
                    read_only: false,
                    extended_limits: None,
                    step_size: None,
                    guard_rails: false,
                    ..v.rec
                },
                bitmask: None,
                number: 0,
                matrix_dim: None,
                discrete: false,
                encoding: EncodingType::ASCII,
                children: Seq::empty(),
                ..v
            },
            c
        ) matches Ok((w, _)) && w == (CharacteristicView { children: Seq::empty(), ..v }),
{
    reveal(characteristic_part_1);
    let t = characteristic_part_1(v);
    if v.addr.display_name is Some {
        lemma_tokens_at_split(c.toks, c.pos, t, characteristic_from_2(v));
        let c2 = Cur { pos: c.pos + 2, ..c };
        lemma_characteristic_step_1(
            CharacteristicView {
                addr: AddressFieldsView {
                    display_name: None,
                    calib_access: CalibrationAccess::NotSet,
                    max_refresh_unit: None,
                    max_refresh_rate: 0,
                    symbol_link: None,
                    symbol_offset: 0,
                    model_link: None,
                    ..v.addr
                },
                conv: ConversionRefFieldsView {
                    format: None,
                    phys_unit: None,
                    byte_order: ByteOrder::NotSet,
                    memory_segment_ref: None,
                    ..v.conv
                },
                rec: RecordLayoutRefFieldsView {
                    read_only: false,
                    extended_limits: None,
                    step_size: None,
                    guard_rails: false,
                    ..v.rec
                },
                bitmask: None,
                number: 0,
                matrix_dim: None,
                discrete: false,
                encoding: EncodingType::ASCII,
                children: Seq::empty(),
                ..v
            },
            v,
            c,
            f
        );
        lemma_characteristic_read_2(v, c2, f);
    } else {
        assert(t + characteristic_from_2(v) =~= characteristic_from_2(v));
        lemma_characteristic_read_2(v, c, f);
    }
}

proof fn lemma_characteristic_read_0(v: CharacteristicView, c: Cur, f: Setting)
    requires
        Characteristic::fits(v, f),
        tokens_at(c.toks, c.pos, characteristic_from_0(v)),
        c.pos + characteristic_from_0(v).len() == c.toks.len(),
        toks_numbered(c.toks, f),
    ensures
        Characteristic::options(
            CharacteristicView {
                addr: AddressFieldsView {
                    address_extension: None,
                    display_name: None,
                    calib_access: CalibrationAccess::NotSet,
                    max_refresh_unit: None,
                    max_refresh_rate: 0,
                    symbol_link: None,
                    symbol_offset: 0,
                    model_link: None,
                    ..v.addr
                },
                conv: ConversionRefFieldsView {
                    format: None,
                    phys_unit: None,
                    byte_order: ByteOrder::NotSet,
                    memory_segment_ref: None,
                    ..v.conv
                },
                rec: RecordLayoutRefFieldsView {
                    read_only: false,
                    extended_limits: None,
                    step_size: None,
                    guard_rails: false,
                    ..v.rec
                },
                bitmask: None,
                number: 0,
                matrix_dim: None,
                discrete: false,
                encoding: EncodingType::ASCII,
                children: Seq::empty(),
                ..v
            },
            c
        ) matches Ok((w, _)) && w == (CharacteristicView { children: Seq::empty(), ..v }),
{
    reveal(characteristic_part_0);
    let t = characteristic_part_0(v);
    if v.addr.address_extension is Some {
        lemma_tokens_at_split(c.toks, c.pos, t, characteristic_from_1(v));
        let c2 = Cur { pos: c.pos + 2, ..c };
        lemma_characteristic_step_0(
            CharacteristicView {
                addr: AddressFieldsView {
                    address_extension: None,
                    display_name: None,
                    calib_access: CalibrationAccess::NotSet,
                    max_refresh_unit: None,
                    max_refresh_rate: 0,
                    symbol_link: None,
                    symbol_offset: 0,
                    model_link: None,
                    ..v.addr
                },
                conv: ConversionRefFieldsView {
                    format: None,
                    phys_unit: None,
                    byte_order: ByteOrder::NotSet,
                    memory_segment_ref: None,
                    ..v.conv
                },
                rec: RecordLayoutRefFieldsView {
                    read_only: false,
                    extended_limits: None,
                    step_size: None,
                    guard_rails: false,
                    ..v.rec
                },
                bitmask: None,
                number: 0,
                matrix_dim: None,
                discrete: false,
                encoding: EncodingType::ASCII,
                children: Seq::empty(),
                ..v
            },
            v,
            c,
            f
        );
        lemma_characteristic_read_1(v, c2, f);
    } else {
        assert(t + characteristic_from_1(v) =~= characteristic_from_1(v));
        lemma_characteristic_read_1(v, c, f);
    }
}

impl Faithful for Characteristic {
    open spec fn fits(v: CharacteristicView, f: Setting) -> bool {
        &&& is_param(plain(v.named.name))
        &&& v.named.description is Some
        &&& v.char_type.word() is Some
        &&& v.addr.address is Some
        &&& is_param(plain(v.rec.record_layout))
        &&& num_fits(v.rec.max_diff, f)
        &&& is_param(plain(v.conv.conversion))
        &&& num_fits(v.conv.lower_limit, f) && num_fits(v.conv.upper_limit, f)
        &&& (v.addr.display_name matches Some(x) ==> is_param(plain(x)))
        &&& (v.addr.max_refresh_unit is None ==> v.addr.max_refresh_rate == 0)
        &&& (
            match v.addr.symbol_link {
                Some(x) => x.len() > 0 && is_content(x),
                None => v.addr.symbol_offset == 0
            }
        )
        &&& (v.addr.model_link matches Some(x) ==> x.len() > 0)
        &&& (v.conv.format matches Some(x) ==> x.len() > 0)
        &&& (v.conv.phys_unit matches Some(x) ==> x.len() > 0)
        &&& (v.conv.memory_segment_ref matches Some(x) ==> is_param(plain(x)))
        &&& (v.rec.extended_limits matches Some(x) ==> num_fits(x.0, f) && num_fits(x.1, f))
        &&& (v.rec.step_size matches Some(x) ==> num_fits(x, f))
        &&& (v.matrix_dim matches Some(x) ==> 0 < x.len() <= 5)
        &&& v.comparison_quantity is None
        &&& all_fit::<CharacteristicChild>(v.children, f)
    }

    open spec fn shape(v: CharacteristicView) -> Tree {
        shape_of(
            "CHARACTERISTIC"@,
            characteristic_head(v) + characteristic_from_0(v),
            shapes::<CharacteristicChild>(v.children)
        )
    }

    proof fn law_shown(v: CharacteristicView, p: Page, f: Setting) {
        reveal_strlit("CHARACTERISTIC");
        lemma_keyword_word("CHARACTERISTIC"@);
        reveal_strlit("CHARACTERISTIC ");
        reveal_strlit(" ");
        assert("CHARACTERISTIC "@ + v.named.name =~= "CHARACTERISTIC"@ + " "@ + v.named.name);
        lemma_spells_word("CHARACTERISTIC"@);
        lemma_spells_word(v.named.name);
        lemma_spells_join(
            "CHARACTERISTIC"@,
            seq![plain("CHARACTERISTIC"@)],
            v.named.name,
            seq![plain(v.named.name)]
        );
        let h = seq![plain(v.named.name)];
        crate::a2l::tree_laws::lemma_shows_begin(
            p,
            "CHARACTERISTIC "@ + v.named.name,
            seq![plain("CHARACTERISTIC"@)] + h
        );
        let p0 = p.begin("CHARACTERISTIC "@ + v.named.name);
        lemma_characteristic_body(v, p0, f);
        lemma_characteristic_opening(v, p0, f);
        let p1 = characteristic_opening(v, p0);
        lemma_characteristic_shown_0(v, p1, f);
        let p2 = characteristic_pages_0(v, p1);
        let hx = seq![
            string(escaped(v.named.description->Some_0)),
            plain(v.char_type.word()->Some_0),
            plain(hex_form(v.addr.address->Some_0 as nat)),
            plain(v.rec.record_layout),
            plain(v.rec.max_diff.text),
            plain(v.conv.conversion),
            plain(v.conv.lower_limit.text),
            plain(v.conv.upper_limit.text)
        ];
        let from = characteristic_from_0(v);
        lemma_shows_join(p0, p1, p2, hx, from);
        lemma_children_shown::<CharacteristicChild>(v.children, false, p2, f);
        lemma_shapes_sound::<CharacteristicChild>(v.children, p, f);
        let q = children_written::<CharacteristicChild>(v.children, 0, false, p2)->Ok_0;
        let kids = shapes::<CharacteristicChild>(v.children);
        let y = blocks_tokens(kids, 0);
        lemma_shows_join(p0, p2, q, hx + from, y);
        let x = characteristic_head(v) + from;
        lemma_shape_tokens(x, kids);
        lemma_all_params_join(characteristic_head(v), from);
        lemma_sound_shape("CHARACTERISTIC"@, x, kids);
        assert(characteristic_head(v) =~= h + hx);
        assert(h + (hx + from + y) =~= x + y);
        lemma_shows_block(
            p,
            "CHARACTERISTIC "@ + v.named.name,
            h,
            "CHARACTERISTIC"@,
            q,
            hx + from + y,
            Self::shape(v)
        );
    }

    proof fn law_parsed(v: CharacteristicView, tree: Tree, f: Setting) {
        let x = characteristic_head(v) + characteristic_from_0(v);
        let kids = shapes::<CharacteristicChild>(v.children);
        lemma_shape_found(tree, "CHARACTERISTIC"@, x, kids, f);
        let c = Cur::start(tree);
        lemma_tokens_at_split(c.toks, 0, characteristic_head(v), characteristic_from_0(v));
        lemma_characteristic_head(v, c, f);
        let c1 = Cur { pos: 9, ..c };
        lemma_characteristic_read_0(v, c1, f);
        lemma_children_read::<CharacteristicChild>(v.children, children_of(tree.items), f);
    }
}

impl FaithfulChild for AxisPtsChild {
    open spec fn fits(v: AxisPtsChildView, f: Setting) -> bool {
        match v {
            AxisPtsChildView::Annotation(n) => <Annotation as Faithful>::fits(n, f),
            AxisPtsChildView::Unsupported(n) => <UnsupportedNode as FaithfulChild>::fits(n, f) && !same_ignore_case(n.keyword, "ANNOTATION"@),
        }
    }

    open spec fn shape(v: AxisPtsChildView) -> Tree {
        match v {
            AxisPtsChildView::Annotation(n) => <Annotation as Faithful>::shape(n),
            AxisPtsChildView::Unsupported(n) => <UnsupportedNode as FaithfulChild>::shape(n),
        }
    }

    proof fn law_shown(v: AxisPtsChildView, p: Page, f: Setting) {
        match v {
            AxisPtsChildView::Annotation(n) => {
                lemma_node_shown::<Annotation>(n, p, f);
            },
            AxisPtsChildView::Unsupported(n) => {
                <UnsupportedNode as FaithfulChild>::law_shown(n, p, f);
            },
        }
    }

    proof fn law_parsed(v: AxisPtsChildView, tree: Tree, f: Setting) {
        match v {
            AxisPtsChildView::Annotation(n) => {
                reveal_strlit("ANNOTATION");
                lemma_same("ANNOTATION"@);
                assert(bare_tree(tree).keyword == "ANNOTATION"@);
                lemma_node_read::<Annotation>(n, tree, f);
            },
            AxisPtsChildView::Unsupported(n) => {
                <UnsupportedNode as FaithfulChild>::law_parsed(n, tree, f);
            },
        }
    }
}

/// The parameters at the start of the block.
pub open spec fn axis_pts_head(v: AxisPtsView) -> Seq<Tok> {
    seq![
        plain(v.named.name),
        string(escaped(v.named.description->Some_0)),
        plain(hex_form(v.addr.address->Some_0 as nat)),
        plain(v.input_quantity->Some_0),
        plain(v.rec.record_layout),
        plain(v.rec.max_diff.text),
        plain(v.conv.conversion),
        plain(dec_int(v.max_axis_points as int)),
        plain(v.conv.lower_limit.text),
        plain(v.conv.upper_limit.text)
    ]
}

/// The parameters of `ECU_ADDRESS_EXTENSION`.
#[verifier::opaque]
pub open spec fn axis_pts_part_0(v: AxisPtsView) -> Seq<Tok> {
    if v.addr.address_extension is Some {
        seq![
            plain("ECU_ADDRESS_EXTENSION"@),
            plain(dec_int(v.addr.address_extension->Some_0 as int))
        ]
    } else { Seq::<Tok>::empty() }
}

/// The parameters from `ECU_ADDRESS_EXTENSION` on.
pub open spec fn axis_pts_from_0(v: AxisPtsView) -> Seq<Tok> {
    axis_pts_part_0(v) + axis_pts_from_1(v)
}

/// What is written for `ECU_ADDRESS_EXTENSION`.
#[verifier::opaque]
pub open spec fn axis_pts_page_0(v: AxisPtsView, p: Page) -> Page {
    match v.addr.address_extension { Some(x) => p.word("ECU_ADDRESS_EXTENSION"@, dec_int(x as int)), None => p }
}

/// What is written from `ECU_ADDRESS_EXTENSION` on.
pub open spec fn axis_pts_pages_0(v: AxisPtsView, p: Page) -> Page {
    axis_pts_pages_1(v, axis_pts_page_0(v, p))
}

/// The parameters of `DISPLAY_IDENTIFIER`.
#[verifier::opaque]
pub open spec fn axis_pts_part_1(v: AxisPtsView) -> Seq<Tok> {
    if v.addr.display_name is Some {
        seq![plain("DISPLAY_IDENTIFIER"@), plain(v.addr.display_name->Some_0)]
    } else { Seq::<Tok>::empty() }
}

/// The parameters from `DISPLAY_IDENTIFIER` on.
pub open spec fn axis_pts_from_1(v: AxisPtsView) -> Seq<Tok> {
    axis_pts_part_1(v) + axis_pts_from_2(v)
}

/// What is written for `DISPLAY_IDENTIFIER`.
#[verifier::opaque]
pub open spec fn axis_pts_page_1(v: AxisPtsView, p: Page) -> Page {
    match v.addr.display_name { Some(x) if x.len() > 0 => p.word("DISPLAY_IDENTIFIER"@, x), _ => p }
}

/// What is written from `DISPLAY_IDENTIFIER` on.
pub open spec fn axis_pts_pages_1(v: AxisPtsView, p: Page) -> Page {
    axis_pts_pages_2(v, axis_pts_page_1(v, p))
}

/// The parameters of `CALIBRATION_ACCESS`.
#[verifier::opaque]
pub open spec fn axis_pts_part_2(v: AxisPtsView) -> Seq<Tok> {
    if v.addr.calib_access.word() is Some {
        seq![plain("CALIBRATION_ACCESS"@), plain(v.addr.calib_access.word()->Some_0)]
    } else { Seq::<Tok>::empty() }
}

/// The parameters from `CALIBRATION_ACCESS` on.
pub open spec fn axis_pts_from_2(v: AxisPtsView) -> Seq<Tok> {
    axis_pts_part_2(v) + axis_pts_from_3(v)
}

/// What is written for `CALIBRATION_ACCESS`.
#[verifier::opaque]
pub open spec fn axis_pts_page_2(v: AxisPtsView, p: Page) -> Page {
    match v.addr.calib_access.word() { Some(kw) => p.word("CALIBRATION_ACCESS"@, kw), None => p }
}

/// What is written from `CALIBRATION_ACCESS` on.
pub open spec fn axis_pts_pages_2(v: AxisPtsView, p: Page) -> Page {
    axis_pts_pages_3(v, axis_pts_page_2(v, p))
}

/// The parameters of `MAX_REFRESH`.
#[verifier::opaque]
pub open spec fn axis_pts_part_3(v: AxisPtsView) -> Seq<Tok> {
    if v.addr.max_refresh_unit is Some {
        seq![
            plain("MAX_REFRESH"@),
            plain(dec(v.addr.max_refresh_unit->Some_0.number() as nat)),
            plain(dec_int(v.addr.max_refresh_rate as int))
        ]
    } else { Seq::<Tok>::empty() }
}

/// The parameters from `MAX_REFRESH` on.
pub open spec fn axis_pts_from_3(v: AxisPtsView) -> Seq<Tok> {
    axis_pts_part_3(v) + axis_pts_from_4(v)
}

/// What is written for `MAX_REFRESH`.
#[verifier::opaque]
pub open spec fn axis_pts_page_3(v: AxisPtsView, p: Page) -> Page {
    match v.addr.max_refresh_unit {
        Some(x) => p.word(
            "MAX_REFRESH"@,
            dec(x.number() as nat) + " "@ + dec_int(v.addr.max_refresh_rate as int)
        ),
        None => p
    }
}

/// What is written from `MAX_REFRESH` on.
pub open spec fn axis_pts_pages_3(v: AxisPtsView, p: Page) -> Page {
    axis_pts_pages_4(v, axis_pts_page_3(v, p))
}

/// The parameters of `SYMBOL_LINK`.
#[verifier::opaque]
pub open spec fn axis_pts_part_4(v: AxisPtsView) -> Seq<Tok> {
    if v.addr.symbol_link is Some {
        seq![
            plain("SYMBOL_LINK"@),
            string(v.addr.symbol_link->Some_0),
            plain(dec_int(v.addr.symbol_offset as int))
        ]
    } else { Seq::<Tok>::empty() }
}

/// The parameters from `SYMBOL_LINK` on.
pub open spec fn axis_pts_from_4(v: AxisPtsView) -> Seq<Tok> {
    axis_pts_part_4(v) + axis_pts_from_5(v)
}

/// What is written for `SYMBOL_LINK`.
#[verifier::opaque]
pub open spec fn axis_pts_page_4(v: AxisPtsView, p: Page) -> Page {
    match v.addr.symbol_link {
        Some(x) if x.len() > 0 => p.word(
            "SYMBOL_LINK"@,
            "\""@ + x + "\" "@ + dec_int(v.addr.symbol_offset as int)
        ),
        _ => p
    }
}

/// What is written from `SYMBOL_LINK` on.
pub open spec fn axis_pts_pages_4(v: AxisPtsView, p: Page) -> Page {
    axis_pts_pages_5(v, axis_pts_page_4(v, p))
}

/// The parameters of `MODEL_LINK`.
#[verifier::opaque]
pub open spec fn axis_pts_part_5(v: AxisPtsView) -> Seq<Tok> {
    if v.addr.model_link is Some {
        seq![plain("MODEL_LINK"@), string(escaped(v.addr.model_link->Some_0))]
    } else { Seq::<Tok>::empty() }
}

/// The parameters from `MODEL_LINK` on.
pub open spec fn axis_pts_from_5(v: AxisPtsView) -> Seq<Tok> {
    axis_pts_part_5(v) + axis_pts_from_6(v)
}

/// What is written for `MODEL_LINK`.
#[verifier::opaque]
pub open spec fn axis_pts_page_5(v: AxisPtsView, p: Page) -> Page {
    match v.addr.model_link { Some(x) if x.len() > 0 => p.quote("MODEL_LINK"@, x), _ => p }
}

/// What is written from `MODEL_LINK` on.
pub open spec fn axis_pts_pages_5(v: AxisPtsView, p: Page) -> Page {
    axis_pts_pages_6(v, axis_pts_page_5(v, p))
}

/// The parameters of `FORMAT`.
#[verifier::opaque]
pub open spec fn axis_pts_part_6(v: AxisPtsView) -> Seq<Tok> {
    if v.conv.format is Some {
        seq![plain("FORMAT"@), string(escaped(v.conv.format->Some_0))]
    } else { Seq::<Tok>::empty() }
}

/// The parameters from `FORMAT` on.
pub open spec fn axis_pts_from_6(v: AxisPtsView) -> Seq<Tok> {
    axis_pts_part_6(v) + axis_pts_from_7(v)
}

/// What is written for `FORMAT`.
#[verifier::opaque]
pub open spec fn axis_pts_page_6(v: AxisPtsView, p: Page) -> Page {
    match v.conv.format { Some(x) if x.len() > 0 => p.quote("FORMAT"@, x), _ => p }
}

/// What is written from `FORMAT` on.
pub open spec fn axis_pts_pages_6(v: AxisPtsView, p: Page) -> Page {
    axis_pts_pages_7(v, axis_pts_page_6(v, p))
}

/// The parameters of `PHYS_UNIT`.
#[verifier::opaque]
pub open spec fn axis_pts_part_7(v: AxisPtsView) -> Seq<Tok> {
    if v.conv.phys_unit is Some {
        seq![plain("PHYS_UNIT"@), string(escaped(v.conv.phys_unit->Some_0))]
    } else { Seq::<Tok>::empty() }
}

/// The parameters from `PHYS_UNIT` on.
pub open spec fn axis_pts_from_7(v: AxisPtsView) -> Seq<Tok> {
    axis_pts_part_7(v) + axis_pts_from_8(v)
}

/// What is written for `PHYS_UNIT`.
#[verifier::opaque]
pub open spec fn axis_pts_page_7(v: AxisPtsView, p: Page) -> Page {
    match v.conv.phys_unit { Some(x) if x.len() > 0 => p.quote("PHYS_UNIT"@, x), _ => p }
}

/// What is written from `PHYS_UNIT` on.
pub open spec fn axis_pts_pages_7(v: AxisPtsView, p: Page) -> Page {
    axis_pts_pages_8(v, axis_pts_page_7(v, p))
}

/// The parameters of `BYTE_ORDER`.
#[verifier::opaque]
pub open spec fn axis_pts_part_8(v: AxisPtsView) -> Seq<Tok> {
    if v.conv.byte_order.word() is Some {
        seq![plain("BYTE_ORDER"@), plain(v.conv.byte_order.word()->Some_0)]
    } else { Seq::<Tok>::empty() }
}

/// The parameters from `BYTE_ORDER` on.
pub open spec fn axis_pts_from_8(v: AxisPtsView) -> Seq<Tok> {
    axis_pts_part_8(v) + axis_pts_from_9(v)
}

/// What is written for `BYTE_ORDER`.
#[verifier::opaque]
pub open spec fn axis_pts_page_8(v: AxisPtsView, p: Page) -> Page {
    match v.conv.byte_order.word() { Some(kw) => p.word("BYTE_ORDER"@, kw), None => p }
}

/// What is written from `BYTE_ORDER` on.
pub open spec fn axis_pts_pages_8(v: AxisPtsView, p: Page) -> Page {
    axis_pts_pages_9(v, axis_pts_page_8(v, p))
}

/// The parameters of `REF_MEMORY_SEGMENT`.
#[verifier::opaque]
pub open spec fn axis_pts_part_9(v: AxisPtsView) -> Seq<Tok> {
    if v.conv.memory_segment_ref is Some {
        seq![plain("REF_MEMORY_SEGMENT"@), plain(v.conv.memory_segment_ref->Some_0)]
    } else { Seq::<Tok>::empty() }
}

/// The parameters from `REF_MEMORY_SEGMENT` on.
pub open spec fn axis_pts_from_9(v: AxisPtsView) -> Seq<Tok> {
    axis_pts_part_9(v) + axis_pts_from_10(v)
}

/// What is written for `REF_MEMORY_SEGMENT`.
#[verifier::opaque]
pub open spec fn axis_pts_page_9(v: AxisPtsView, p: Page) -> Page {
    match v.conv.memory_segment_ref { Some(x) if x.len() > 0 => p.word("REF_MEMORY_SEGMENT"@, x), _ => p }
}

/// What is written from `REF_MEMORY_SEGMENT` on.
pub open spec fn axis_pts_pages_9(v: AxisPtsView, p: Page) -> Page {
    axis_pts_pages_10(v, axis_pts_page_9(v, p))
}

/// The parameters of `READ_ONLY`.
#[verifier::opaque]
pub open spec fn axis_pts_part_10(v: AxisPtsView) -> Seq<Tok> {
    if v.rec.read_only { seq![plain("READ_ONLY"@)] } else { Seq::<Tok>::empty() }
}

/// The parameters from `READ_ONLY` on.
pub open spec fn axis_pts_from_10(v: AxisPtsView) -> Seq<Tok> {
    axis_pts_part_10(v) + axis_pts_from_11(v)
}

/// What is written for `READ_ONLY`.
#[verifier::opaque]
pub open spec fn axis_pts_page_10(v: AxisPtsView, p: Page) -> Page {
    if v.rec.read_only { p.line("READ_ONLY"@) } else { p }
}

/// What is written from `READ_ONLY` on.
pub open spec fn axis_pts_pages_10(v: AxisPtsView, p: Page) -> Page {
    axis_pts_pages_11(v, axis_pts_page_10(v, p))
}

/// The parameters of `EXTENDED_LIMITS`.
#[verifier::opaque]
pub open spec fn axis_pts_part_11(v: AxisPtsView) -> Seq<Tok> {
    if v.rec.extended_limits is Some {
        seq![
            plain("EXTENDED_LIMITS"@),
            plain(v.rec.extended_limits->Some_0.0.text),
            plain(v.rec.extended_limits->Some_0.1.text)
        ]
    } else { Seq::<Tok>::empty() }
}

/// The parameters from `EXTENDED_LIMITS` on.
pub open spec fn axis_pts_from_11(v: AxisPtsView) -> Seq<Tok> {
    axis_pts_part_11(v) + axis_pts_from_12(v)
}

/// What is written for `EXTENDED_LIMITS`.
#[verifier::opaque]
pub open spec fn axis_pts_page_11(v: AxisPtsView, p: Page) -> Page {
    match v.rec.extended_limits {
        Some((lo, hi)) => p.line("EXTENDED_LIMITS "@ + lo.text + " "@ + hi.text),
        None => p
    }
}

/// What is written from `EXTENDED_LIMITS` on.
pub open spec fn axis_pts_pages_11(v: AxisPtsView, p: Page) -> Page {
    axis_pts_pages_12(v, axis_pts_page_11(v, p))
}

/// The parameters of `STEP_SIZE`.
#[verifier::opaque]
pub open spec fn axis_pts_part_12(v: AxisPtsView) -> Seq<Tok> {
    if v.rec.step_size is Some {
        seq![plain("STEP_SIZE"@), plain(v.rec.step_size->Some_0.text)]
    } else { Seq::<Tok>::empty() }
}

/// The parameters from `STEP_SIZE` on.
pub open spec fn axis_pts_from_12(v: AxisPtsView) -> Seq<Tok> {
    axis_pts_part_12(v) + axis_pts_from_13(v)
}

/// What is written for `STEP_SIZE`.
#[verifier::opaque]
pub open spec fn axis_pts_page_12(v: AxisPtsView, p: Page) -> Page {
    match v.rec.step_size { Some(x) => p.word("STEP_SIZE"@, x.text), None => p }
}

/// What is written from `STEP_SIZE` on.
pub open spec fn axis_pts_pages_12(v: AxisPtsView, p: Page) -> Page {
    axis_pts_pages_13(v, axis_pts_page_12(v, p))
}

/// The parameters of `GUARD_RAILS`.
#[verifier::opaque]
pub open spec fn axis_pts_part_13(v: AxisPtsView) -> Seq<Tok> {
    if v.rec.guard_rails { seq![plain("GUARD_RAILS"@)] } else { Seq::<Tok>::empty() }
}

/// The parameters from `GUARD_RAILS` on.
pub open spec fn axis_pts_from_13(v: AxisPtsView) -> Seq<Tok> {
    axis_pts_part_13(v) + axis_pts_from_14(v)
}

/// What is written for `GUARD_RAILS`.
#[verifier::opaque]
pub open spec fn axis_pts_page_13(v: AxisPtsView, p: Page) -> Page {
    if v.rec.guard_rails { p.line("GUARD_RAILS"@) } else { p }
}

/// What is written from `GUARD_RAILS` on.
pub open spec fn axis_pts_pages_13(v: AxisPtsView, p: Page) -> Page {
    axis_pts_pages_14(v, axis_pts_page_13(v, p))
}

/// The parameters of `MONOTONY`.
#[verifier::opaque]
pub open spec fn axis_pts_part_14(v: AxisPtsView) -> Seq<Tok> {
    if v.monotony.word() is Some {
        seq![plain("MONOTONY"@), plain(v.monotony.word()->Some_0)]
    } else { Seq::<Tok>::empty() }
}

/// The parameters from `MONOTONY` on.
pub open spec fn axis_pts_from_14(v: AxisPtsView) -> Seq<Tok> {
    axis_pts_part_14(v) + axis_pts_from_15(v)
}

/// What is written for `MONOTONY`.
#[verifier::opaque]
pub open spec fn axis_pts_page_14(v: AxisPtsView, p: Page) -> Page {
    match v.monotony.word() { Some(kw) => p.word("MONOTONY"@, kw), None => p }
}

/// What is written from `MONOTONY` on.
pub open spec fn axis_pts_pages_14(v: AxisPtsView, p: Page) -> Page {
    axis_pts_pages_15(v, axis_pts_page_14(v, p))
}

/// The parameters of `DEPOSIT`.
#[verifier::opaque]
pub open spec fn axis_pts_part_15(v: AxisPtsView) -> Seq<Tok> {
    if v.deposit.word() is Some {
        seq![plain("DEPOSIT"@), plain(v.deposit.word()->Some_0)]
    } else { Seq::<Tok>::empty() }
}

/// The parameters from `DEPOSIT` on.
pub open spec fn axis_pts_from_15(v: AxisPtsView) -> Seq<Tok> {
    axis_pts_part_15(v) + axis_pts_from_16(v)
}

/// What is written for `DEPOSIT`.
#[verifier::opaque]
pub open spec fn axis_pts_page_15(v: AxisPtsView, p: Page) -> Page {
    match v.deposit.word() { Some(kw) => p.word("DEPOSIT"@, kw), None => p }
}

/// What is written from `DEPOSIT` on.
pub open spec fn axis_pts_pages_15(v: AxisPtsView, p: Page) -> Page {
    axis_pts_pages_16(v, axis_pts_page_15(v, p))
}

/// The parameters behind the last keyword.
pub open spec fn axis_pts_from_16(v: AxisPtsView) -> Seq<Tok> {
    Seq::empty()
}

/// What is written behind the last keyword.
pub open spec fn axis_pts_pages_16(v: AxisPtsView, p: Page) -> Page {
    p
}

proof fn lemma_axis_pts_part_15(v: AxisPtsView, p: Page, f: Setting)
    requires
        AxisPts::fits(v, f),
        indents_by_blanks(p),
    ensures
        shows(p, axis_pts_page_15(v, p), axis_pts_part_15(v)),
        axis_pts_page_15(v, p).depth == p.depth,
        axis_pts_page_15(v, p).style == p.style,
        all_params(axis_pts_part_15(v)),
{
    reveal(axis_pts_page_15);
    reveal(axis_pts_part_15);
    if v.deposit.word() is Some {
        reveal_strlit("DEPOSIT");
        assert(is_keyword("DEPOSIT"@));
        lemma_keyword_param("DEPOSIT"@);
        v.deposit.lemma_word();
        lemma_shows_word(p, "DEPOSIT"@, v.deposit.word()->Some_0);
        reveal_strlit("DEPOSIT");
        assert(is_keyword("DEPOSIT"@));
        lemma_keyword_param("DEPOSIT"@);
        v.deposit.lemma_word();
        assert(all_params(seq![plain("DEPOSIT"@), plain(v.deposit.word()->Some_0)]));
        
    } else {
        lemma_shows_nothing(p);
    }
}

proof fn lemma_axis_pts_part_14(v: AxisPtsView, p: Page, f: Setting)
    requires
        AxisPts::fits(v, f),
        indents_by_blanks(p),
    ensures
        shows(p, axis_pts_page_14(v, p), axis_pts_part_14(v)),
        axis_pts_page_14(v, p).depth == p.depth,
        axis_pts_page_14(v, p).style == p.style,
        all_params(axis_pts_part_14(v)),
{
    reveal(axis_pts_page_14);
    reveal(axis_pts_part_14);
    if v.monotony.word() is Some {
        reveal_strlit("MONOTONY");
        assert(is_keyword("MONOTONY"@));
        lemma_keyword_param("MONOTONY"@);
        v.monotony.lemma_word();
        lemma_shows_word(p, "MONOTONY"@, v.monotony.word()->Some_0);
        reveal_strlit("MONOTONY");
        assert(is_keyword("MONOTONY"@));
        lemma_keyword_param("MONOTONY"@);
        v.monotony.lemma_word();
        assert(all_params(seq![plain("MONOTONY"@), plain(v.monotony.word()->Some_0)]));
        
    } else {
        lemma_shows_nothing(p);
    }
}

proof fn lemma_axis_pts_part_13(v: AxisPtsView, p: Page, f: Setting)
    requires
        AxisPts::fits(v, f),
        indents_by_blanks(p),
    ensures
        shows(p, axis_pts_page_13(v, p), axis_pts_part_13(v)),
        axis_pts_page_13(v, p).depth == p.depth,
        axis_pts_page_13(v, p).style == p.style,
        all_params(axis_pts_part_13(v)),
{
    reveal(axis_pts_page_13);
    reveal(axis_pts_part_13);
    if v.rec.guard_rails {
        reveal_strlit("GUARD_RAILS");
        assert(is_keyword("GUARD_RAILS"@));
        lemma_keyword_param("GUARD_RAILS"@);
        lemma_shows_word_line(p, "GUARD_RAILS"@);
        reveal_strlit("GUARD_RAILS");
        assert(is_keyword("GUARD_RAILS"@));
        lemma_keyword_param("GUARD_RAILS"@);
        assert(all_params(seq![plain("GUARD_RAILS"@)]));
        
    } else {
        lemma_shows_nothing(p);
    }
}

proof fn lemma_axis_pts_part_12(v: AxisPtsView, p: Page, f: Setting)
    requires
        AxisPts::fits(v, f),
        indents_by_blanks(p),
    ensures
        shows(p, axis_pts_page_12(v, p), axis_pts_part_12(v)),
        axis_pts_page_12(v, p).depth == p.depth,
        axis_pts_page_12(v, p).style == p.style,
        all_params(axis_pts_part_12(v)),
{
    reveal(axis_pts_page_12);
    reveal(axis_pts_part_12);
    if v.rec.step_size is Some {
        reveal_strlit("STEP_SIZE");
        assert(is_keyword("STEP_SIZE"@));
        lemma_keyword_param("STEP_SIZE"@);
        lemma_shows_word(p, "STEP_SIZE"@, v.rec.step_size->Some_0.text);
        reveal_strlit("STEP_SIZE");
        assert(is_keyword("STEP_SIZE"@));
        lemma_keyword_param("STEP_SIZE"@);
        assert(all_params(seq![plain("STEP_SIZE"@), plain(v.rec.step_size->Some_0.text)]));
        
    } else {
        lemma_shows_nothing(p);
    }
}

proof fn lemma_axis_pts_part_11(v: AxisPtsView, p: Page, f: Setting)
    requires
        AxisPts::fits(v, f),
        indents_by_blanks(p),
    ensures
        shows(p, axis_pts_page_11(v, p), axis_pts_part_11(v)),
        axis_pts_page_11(v, p).depth == p.depth,
        axis_pts_page_11(v, p).style == p.style,
        all_params(axis_pts_part_11(v)),
{
    reveal(axis_pts_page_11);
    reveal(axis_pts_part_11);
    if v.rec.extended_limits is Some {
        reveal_strlit("EXTENDED_LIMITS");
        assert(is_keyword("EXTENDED_LIMITS"@));
        lemma_keyword_param("EXTENDED_LIMITS"@);
        let (lo, hi) = v.rec.extended_limits->Some_0;
        reveal_strlit("EXTENDED_LIMITS ");
        reveal_strlit("EXTENDED_LIMITS");
        reveal_strlit(" ");
        assert(
            "EXTENDED_LIMITS "@ + lo.text + " "@ + hi.text =~= "EXTENDED_LIMITS"@ + " "@ + (lo.text + " "@ + hi.text)
        );
        lemma_spells_pair(lo.text, hi.text);
        lemma_shows_tagged(p, "EXTENDED_LIMITS"@, lo.text + " "@ + hi.text, seq![plain(lo.text), plain(hi.text)]);
        assert(
            seq![plain("EXTENDED_LIMITS"@)] + seq![plain(lo.text), plain(hi.text)] =~= seq![
                plain("EXTENDED_LIMITS"@),
                plain(lo.text),
                plain(hi.text)
            ]
        );
        reveal_strlit("EXTENDED_LIMITS");
        assert(is_keyword("EXTENDED_LIMITS"@));
        lemma_keyword_param("EXTENDED_LIMITS"@);
        assert(
            all_params(
                seq![
                    plain("EXTENDED_LIMITS"@),
                    plain(v.rec.extended_limits->Some_0.0.text),
                    plain(v.rec.extended_limits->Some_0.1.text)
                ]
            )
        );
        
    } else {
        lemma_shows_nothing(p);
    }
}

proof fn lemma_axis_pts_part_10(v: AxisPtsView, p: Page, f: Setting)
    requires
        AxisPts::fits(v, f),
        indents_by_blanks(p),
    ensures
        shows(p, axis_pts_page_10(v, p), axis_pts_part_10(v)),
        axis_pts_page_10(v, p).depth == p.depth,
        axis_pts_page_10(v, p).style == p.style,
        all_params(axis_pts_part_10(v)),
{
    reveal(axis_pts_page_10);
    reveal(axis_pts_part_10);
    if v.rec.read_only {
        reveal_strlit("READ_ONLY");
        assert(is_keyword("READ_ONLY"@));
        lemma_keyword_param("READ_ONLY"@);
        lemma_shows_word_line(p, "READ_ONLY"@);
        reveal_strlit("READ_ONLY");
        assert(is_keyword("READ_ONLY"@));
        lemma_keyword_param("READ_ONLY"@);
        assert(all_params(seq![plain("READ_ONLY"@)]));
        
    } else {
        lemma_shows_nothing(p);
    }
}

proof fn lemma_axis_pts_part_9(v: AxisPtsView, p: Page, f: Setting)
    requires
        AxisPts::fits(v, f),
        indents_by_blanks(p),
    ensures
        shows(p, axis_pts_page_9(v, p), axis_pts_part_9(v)),
        axis_pts_page_9(v, p).depth == p.depth,
        axis_pts_page_9(v, p).style == p.style,
        all_params(axis_pts_part_9(v)),
{
    reveal(axis_pts_page_9);
    reveal(axis_pts_part_9);
    if v.conv.memory_segment_ref is Some {
        reveal_strlit("REF_MEMORY_SEGMENT");
        assert(is_keyword("REF_MEMORY_SEGMENT"@));
        lemma_keyword_param("REF_MEMORY_SEGMENT"@);
        lemma_shows_word(p, "REF_MEMORY_SEGMENT"@, v.conv.memory_segment_ref->Some_0);
        reveal_strlit("REF_MEMORY_SEGMENT");
        assert(is_keyword("REF_MEMORY_SEGMENT"@));
        lemma_keyword_param("REF_MEMORY_SEGMENT"@);
        assert(all_params(seq![plain("REF_MEMORY_SEGMENT"@), plain(v.conv.memory_segment_ref->Some_0)]));
        
    } else {
        lemma_shows_nothing(p);
    }
}

proof fn lemma_axis_pts_part_8(v: AxisPtsView, p: Page, f: Setting)
    requires
        AxisPts::fits(v, f),
        indents_by_blanks(p),
    ensures
        shows(p, axis_pts_page_8(v, p), axis_pts_part_8(v)),
        axis_pts_page_8(v, p).depth == p.depth,
        axis_pts_page_8(v, p).style == p.style,
        all_params(axis_pts_part_8(v)),
{
    reveal(axis_pts_page_8);
    reveal(axis_pts_part_8);
    if v.conv.byte_order.word() is Some {
        reveal_strlit("BYTE_ORDER");
        assert(is_keyword("BYTE_ORDER"@));
        lemma_keyword_param("BYTE_ORDER"@);
        v.conv.byte_order.lemma_word();
        lemma_shows_word(p, "BYTE_ORDER"@, v.conv.byte_order.word()->Some_0);
        reveal_strlit("BYTE_ORDER");
        assert(is_keyword("BYTE_ORDER"@));
        lemma_keyword_param("BYTE_ORDER"@);
        v.conv.byte_order.lemma_word();
        assert(all_params(seq![plain("BYTE_ORDER"@), plain(v.conv.byte_order.word()->Some_0)]));
        
    } else {
        lemma_shows_nothing(p);
    }
}

proof fn lemma_axis_pts_part_7(v: AxisPtsView, p: Page, f: Setting)
    requires
        AxisPts::fits(v, f),
        indents_by_blanks(p),
    ensures
        shows(p, axis_pts_page_7(v, p), axis_pts_part_7(v)),
        axis_pts_page_7(v, p).depth == p.depth,
        axis_pts_page_7(v, p).style == p.style,
        all_params(axis_pts_part_7(v)),
{
    reveal(axis_pts_page_7);
    reveal(axis_pts_part_7);
    if v.conv.phys_unit is Some {
        reveal_strlit("PHYS_UNIT");
        assert(is_keyword("PHYS_UNIT"@));
        lemma_keyword_param("PHYS_UNIT"@);
        lemma_shows_quote(p, "PHYS_UNIT"@, v.conv.phys_unit->Some_0);
        reveal_strlit("PHYS_UNIT");
        assert(is_keyword("PHYS_UNIT"@));
        lemma_keyword_param("PHYS_UNIT"@);
        lemma_string_param(v.conv.phys_unit->Some_0);
        assert(all_params(seq![plain("PHYS_UNIT"@), string(escaped(v.conv.phys_unit->Some_0))]));
        
    } else {
        lemma_shows_nothing(p);
    }
}

proof fn lemma_axis_pts_part_6(v: AxisPtsView, p: Page, f: Setting)
    requires
        AxisPts::fits(v, f),
        indents_by_blanks(p),
    ensures
        shows(p, axis_pts_page_6(v, p), axis_pts_part_6(v)),
        axis_pts_page_6(v, p).depth == p.depth,
        axis_pts_page_6(v, p).style == p.style,
        all_params(axis_pts_part_6(v)),
{
    reveal(axis_pts_page_6);
    reveal(axis_pts_part_6);
    if v.conv.format is Some {
        reveal_strlit("FORMAT");
        assert(is_keyword("FORMAT"@));
        lemma_keyword_param("FORMAT"@);
        lemma_shows_quote(p, "FORMAT"@, v.conv.format->Some_0);
        reveal_strlit("FORMAT");
        assert(is_keyword("FORMAT"@));
        lemma_keyword_param("FORMAT"@);
        lemma_string_param(v.conv.format->Some_0);
        assert(all_params(seq![plain("FORMAT"@), string(escaped(v.conv.format->Some_0))]));
        
    } else {
        lemma_shows_nothing(p);
    }
}

proof fn lemma_axis_pts_part_5(v: AxisPtsView, p: Page, f: Setting)
    requires
        AxisPts::fits(v, f),
        indents_by_blanks(p),
    ensures
        shows(p, axis_pts_page_5(v, p), axis_pts_part_5(v)),
        axis_pts_page_5(v, p).depth == p.depth,
        axis_pts_page_5(v, p).style == p.style,
        all_params(axis_pts_part_5(v)),
{
    reveal(axis_pts_page_5);
    reveal(axis_pts_part_5);
    if v.addr.model_link is Some {
        reveal_strlit("MODEL_LINK");
        assert(is_keyword("MODEL_LINK"@));
        lemma_keyword_param("MODEL_LINK"@);
        lemma_shows_quote(p, "MODEL_LINK"@, v.addr.model_link->Some_0);
        reveal_strlit("MODEL_LINK");
        assert(is_keyword("MODEL_LINK"@));
        lemma_keyword_param("MODEL_LINK"@);
        lemma_string_param(v.addr.model_link->Some_0);
        assert(all_params(seq![plain("MODEL_LINK"@), string(escaped(v.addr.model_link->Some_0))]));
        
    } else {
        lemma_shows_nothing(p);
    }
}

proof fn lemma_axis_pts_part_4(v: AxisPtsView, p: Page, f: Setting)
    requires
        AxisPts::fits(v, f),
        indents_by_blanks(p),
    ensures
        shows(p, axis_pts_page_4(v, p), axis_pts_part_4(v)),
        axis_pts_page_4(v, p).depth == p.depth,
        axis_pts_page_4(v, p).style == p.style,
        all_params(axis_pts_part_4(v)),
{
    reveal(axis_pts_page_4);
    reveal(axis_pts_part_4);
    if v.addr.symbol_link is Some {
        reveal_strlit("SYMBOL_LINK");
        assert(is_keyword("SYMBOL_LINK"@));
        lemma_keyword_param("SYMBOL_LINK"@);
        let link = v.addr.symbol_link->Some_0;
        let offset = dec_int(v.addr.symbol_offset as int);
        reveal_strlit("\"");
        reveal_strlit("\" ");
        reveal_strlit(" ");
        lemma_dec_param(v.addr.symbol_offset as int);
        assert("\""@ + link + "\" "@ + offset =~= ("\""@ + link + "\""@) + " "@ + offset);
        lemma_spells_content(link);
        lemma_spells_word(offset);
        lemma_spells_join("\""@ + link + "\""@, seq![string(link)], offset, seq![plain(offset)]);
        lemma_shows_tagged(
            p,
            "SYMBOL_LINK"@,
            "\""@ + link + "\" "@ + offset,
            seq![string(link)] + seq![plain(offset)]
        );
        assert(
            seq![plain("SYMBOL_LINK"@)] + (seq![string(link)] + seq![plain(offset)]) =~= seq![
                plain("SYMBOL_LINK"@),
                string(link),
                plain(offset)
            ]
        );
        reveal_strlit("SYMBOL_LINK");
        assert(is_keyword("SYMBOL_LINK"@));
        lemma_keyword_param("SYMBOL_LINK"@);
        lemma_dec_param(v.addr.symbol_offset as int);
        assert(
            all_params(
                seq![
                    plain("SYMBOL_LINK"@),
                    string(v.addr.symbol_link->Some_0),
                    plain(dec_int(v.addr.symbol_offset as int))
                ]
            )
        );
        
    } else {
        lemma_shows_nothing(p);
    }
}

proof fn lemma_axis_pts_part_3(v: AxisPtsView, p: Page, f: Setting)
    requires
        AxisPts::fits(v, f),
        indents_by_blanks(p),
    ensures
        shows(p, axis_pts_page_3(v, p), axis_pts_part_3(v)),
        axis_pts_page_3(v, p).depth == p.depth,
        axis_pts_page_3(v, p).style == p.style,
        all_params(axis_pts_part_3(v)),
{
    reveal(axis_pts_page_3);
    reveal(axis_pts_part_3);
    if v.addr.max_refresh_unit is Some {
        reveal_strlit("MAX_REFRESH");
        assert(is_keyword("MAX_REFRESH"@));
        lemma_keyword_param("MAX_REFRESH"@);
        let unit = dec(v.addr.max_refresh_unit->Some_0.number() as nat);
        let rate = dec_int(v.addr.max_refresh_rate as int);
        lemma_dec_param(v.addr.max_refresh_unit->Some_0.number() as int);
        lemma_dec_param(v.addr.max_refresh_rate as int);
        lemma_spells_pair(unit, rate);
        lemma_shows_tagged(p, "MAX_REFRESH"@, unit + " "@ + rate, seq![plain(unit), plain(rate)]);
        assert(
            seq![plain("MAX_REFRESH"@)] + seq![plain(unit), plain(rate)] =~= seq![
                plain("MAX_REFRESH"@),
                plain(unit),
                plain(rate)
            ]
        );
        reveal_strlit("MAX_REFRESH");
        assert(is_keyword("MAX_REFRESH"@));
        lemma_keyword_param("MAX_REFRESH"@);
        lemma_dec_param(v.addr.max_refresh_unit->Some_0.number() as int);
        lemma_dec_param(v.addr.max_refresh_rate as int);
        assert(
            all_params(
                seq![
                    plain("MAX_REFRESH"@),
                    plain(dec(v.addr.max_refresh_unit->Some_0.number() as nat)),
                    plain(dec_int(v.addr.max_refresh_rate as int))
                ]
            )
        );
        
    } else {
        lemma_shows_nothing(p);
    }
}

proof fn lemma_axis_pts_part_2(v: AxisPtsView, p: Page, f: Setting)
    requires
        AxisPts::fits(v, f),
        indents_by_blanks(p),
    ensures
        shows(p, axis_pts_page_2(v, p), axis_pts_part_2(v)),
        axis_pts_page_2(v, p).depth == p.depth,
        axis_pts_page_2(v, p).style == p.style,
        all_params(axis_pts_part_2(v)),
{
    reveal(axis_pts_page_2);
    reveal(axis_pts_part_2);
    if v.addr.calib_access.word() is Some {
        reveal_strlit("CALIBRATION_ACCESS");
        assert(is_keyword("CALIBRATION_ACCESS"@));
        lemma_keyword_param("CALIBRATION_ACCESS"@);
        v.addr.calib_access.lemma_word();
        lemma_shows_word(p, "CALIBRATION_ACCESS"@, v.addr.calib_access.word()->Some_0);
        reveal_strlit("CALIBRATION_ACCESS");
        assert(is_keyword("CALIBRATION_ACCESS"@));
        lemma_keyword_param("CALIBRATION_ACCESS"@);
        v.addr.calib_access.lemma_word();
        assert(all_params(seq![plain("CALIBRATION_ACCESS"@), plain(v.addr.calib_access.word()->Some_0)]));
        
    } else {
        lemma_shows_nothing(p);
    }
}

proof fn lemma_axis_pts_part_1(v: AxisPtsView, p: Page, f: Setting)
    requires
        AxisPts::fits(v, f),
        indents_by_blanks(p),
    ensures
        shows(p, axis_pts_page_1(v, p), axis_pts_part_1(v)),
        axis_pts_page_1(v, p).depth == p.depth,
        axis_pts_page_1(v, p).style == p.style,
        all_params(axis_pts_part_1(v)),
{
    reveal(axis_pts_page_1);
    reveal(axis_pts_part_1);
    if v.addr.display_name is Some {
        reveal_strlit("DISPLAY_IDENTIFIER");
        assert(is_keyword("DISPLAY_IDENTIFIER"@));
        lemma_keyword_param("DISPLAY_IDENTIFIER"@);
        lemma_shows_word(p, "DISPLAY_IDENTIFIER"@, v.addr.display_name->Some_0);
        reveal_strlit("DISPLAY_IDENTIFIER");
        assert(is_keyword("DISPLAY_IDENTIFIER"@));
        lemma_keyword_param("DISPLAY_IDENTIFIER"@);
        assert(all_params(seq![plain("DISPLAY_IDENTIFIER"@), plain(v.addr.display_name->Some_0)]));
        
    } else {
        lemma_shows_nothing(p);
    }
}

proof fn lemma_axis_pts_part_0(v: AxisPtsView, p: Page, f: Setting)
    requires
        AxisPts::fits(v, f),
        indents_by_blanks(p),
    ensures
        shows(p, axis_pts_page_0(v, p), axis_pts_part_0(v)),
        axis_pts_page_0(v, p).depth == p.depth,
        axis_pts_page_0(v, p).style == p.style,
        all_params(axis_pts_part_0(v)),
{
    reveal(axis_pts_page_0);
    reveal(axis_pts_part_0);
    if v.addr.address_extension is Some {
        reveal_strlit("ECU_ADDRESS_EXTENSION");
        assert(is_keyword("ECU_ADDRESS_EXTENSION"@));
        lemma_keyword_param("ECU_ADDRESS_EXTENSION"@);
        lemma_dec_param(v.addr.address_extension->Some_0 as int);
        lemma_shows_word(p, "ECU_ADDRESS_EXTENSION"@, dec_int(v.addr.address_extension->Some_0 as int));
        reveal_strlit("ECU_ADDRESS_EXTENSION");
        assert(is_keyword("ECU_ADDRESS_EXTENSION"@));
        lemma_keyword_param("ECU_ADDRESS_EXTENSION"@);
        lemma_dec_param(v.addr.address_extension->Some_0 as int);
        assert(
            all_params(
                seq![
                    plain("ECU_ADDRESS_EXTENSION"@),
                    plain(dec_int(v.addr.address_extension->Some_0 as int))
                ]
            )
        );
        
    } else {
        lemma_shows_nothing(p);
    }
}

proof fn lemma_axis_pts_shown_16(v: AxisPtsView, p: Page, f: Setting)
    requires
        AxisPts::fits(v, f),
        indents_by_blanks(p),
    ensures
        shows(p, axis_pts_pages_16(v, p), axis_pts_from_16(v)),
        axis_pts_pages_16(v, p).depth == p.depth,
        axis_pts_pages_16(v, p).style == p.style,
        all_params(axis_pts_from_16(v)),
{
    lemma_shows_nothing(p);
}

proof fn lemma_axis_pts_shown_15(v: AxisPtsView, p: Page, f: Setting)
    requires
        AxisPts::fits(v, f),
        indents_by_blanks(p),
    ensures
        shows(p, axis_pts_pages_15(v, p), axis_pts_from_15(v)),
        axis_pts_pages_15(v, p).depth == p.depth,
        axis_pts_pages_15(v, p).style == p.style,
        all_params(axis_pts_from_15(v)),
{
    lemma_axis_pts_part_15(v, p, f);
    let q = axis_pts_page_15(v, p);
    lemma_axis_pts_shown_16(v, q, f);
    lemma_shows_join(p, q, axis_pts_pages_16(v, q), axis_pts_part_15(v), axis_pts_from_16(v));
    lemma_all_params_join(axis_pts_part_15(v), axis_pts_from_16(v));
}

proof fn lemma_axis_pts_shown_14(v: AxisPtsView, p: Page, f: Setting)
    requires
        AxisPts::fits(v, f),
        indents_by_blanks(p),
    ensures
        shows(p, axis_pts_pages_14(v, p), axis_pts_from_14(v)),
        axis_pts_pages_14(v, p).depth == p.depth,
        axis_pts_pages_14(v, p).style == p.style,
        all_params(axis_pts_from_14(v)),
{
    lemma_axis_pts_part_14(v, p, f);
    let q = axis_pts_page_14(v, p);
    lemma_axis_pts_shown_15(v, q, f);
    lemma_shows_join(p, q, axis_pts_pages_15(v, q), axis_pts_part_14(v), axis_pts_from_15(v));
    lemma_all_params_join(axis_pts_part_14(v), axis_pts_from_15(v));
}

proof fn lemma_axis_pts_shown_13(v: AxisPtsView, p: Page, f: Setting)
    requires
        AxisPts::fits(v, f),
        indents_by_blanks(p),
    ensures
        shows(p, axis_pts_pages_13(v, p), axis_pts_from_13(v)),
        axis_pts_pages_13(v, p).depth == p.depth,
        axis_pts_pages_13(v, p).style == p.style,
        all_params(axis_pts_from_13(v)),
{
    lemma_axis_pts_part_13(v, p, f);
    let q = axis_pts_page_13(v, p);
    lemma_axis_pts_shown_14(v, q, f);
    lemma_shows_join(p, q, axis_pts_pages_14(v, q), axis_pts_part_13(v), axis_pts_from_14(v));
    lemma_all_params_join(axis_pts_part_13(v), axis_pts_from_14(v));
}

proof fn lemma_axis_pts_shown_12(v: AxisPtsView, p: Page, f: Setting)
    requires
        AxisPts::fits(v, f),
        indents_by_blanks(p),
    ensures
        shows(p, axis_pts_pages_12(v, p), axis_pts_from_12(v)),
        axis_pts_pages_12(v, p).depth == p.depth,
        axis_pts_pages_12(v, p).style == p.style,
        all_params(axis_pts_from_12(v)),
{
    lemma_axis_pts_part_12(v, p, f);
    let q = axis_pts_page_12(v, p);
    lemma_axis_pts_shown_13(v, q, f);
    lemma_shows_join(p, q, axis_pts_pages_13(v, q), axis_pts_part_12(v), axis_pts_from_13(v));
    lemma_all_params_join(axis_pts_part_12(v), axis_pts_from_13(v));
}

proof fn lemma_axis_pts_shown_11(v: AxisPtsView, p: Page, f: Setting)
    requires
        AxisPts::fits(v, f),
        indents_by_blanks(p),
    ensures
        shows(p, axis_pts_pages_11(v, p), axis_pts_from_11(v)),
        axis_pts_pages_11(v, p).depth == p.depth,
        axis_pts_pages_11(v, p).style == p.style,
        all_params(axis_pts_from_11(v)),
{
    lemma_axis_pts_part_11(v, p, f);
    let q = axis_pts_page_11(v, p);
    lemma_axis_pts_shown_12(v, q, f);
    lemma_shows_join(p, q, axis_pts_pages_12(v, q), axis_pts_part_11(v), axis_pts_from_12(v));
    lemma_all_params_join(axis_pts_part_11(v), axis_pts_from_12(v));
}

proof fn lemma_axis_pts_shown_10(v: AxisPtsView, p: Page, f: Setting)
    requires
        AxisPts::fits(v, f),
        indents_by_blanks(p),
    ensures
        shows(p, axis_pts_pages_10(v, p), axis_pts_from_10(v)),
        axis_pts_pages_10(v, p).depth == p.depth,
        axis_pts_pages_10(v, p).style == p.style,
        all_params(axis_pts_from_10(v)),
{
    lemma_axis_pts_part_10(v, p, f);
    let q = axis_pts_page_10(v, p);
    lemma_axis_pts_shown_11(v, q, f);
    lemma_shows_join(p, q, axis_pts_pages_11(v, q), axis_pts_part_10(v), axis_pts_from_11(v));
    lemma_all_params_join(axis_pts_part_10(v), axis_pts_from_11(v));
}

proof fn lemma_axis_pts_shown_9(v: AxisPtsView, p: Page, f: Setting)
    requires
        AxisPts::fits(v, f),
        indents_by_blanks(p),
    ensures
        shows(p, axis_pts_pages_9(v, p), axis_pts_from_9(v)),
        axis_pts_pages_9(v, p).depth == p.depth,
        axis_pts_pages_9(v, p).style == p.style,
        all_params(axis_pts_from_9(v)),
{
    lemma_axis_pts_part_9(v, p, f);
    let q = axis_pts_page_9(v, p);
    lemma_axis_pts_shown_10(v, q, f);
    lemma_shows_join(p, q, axis_pts_pages_10(v, q), axis_pts_part_9(v), axis_pts_from_10(v));
    lemma_all_params_join(axis_pts_part_9(v), axis_pts_from_10(v));
}

proof fn lemma_axis_pts_shown_8(v: AxisPtsView, p: Page, f: Setting)
    requires
        AxisPts::fits(v, f),
        indents_by_blanks(p),
    ensures
        shows(p, axis_pts_pages_8(v, p), axis_pts_from_8(v)),
        axis_pts_pages_8(v, p).depth == p.depth,
        axis_pts_pages_8(v, p).style == p.style,
        all_params(axis_pts_from_8(v)),
{
    lemma_axis_pts_part_8(v, p, f);
    let q = axis_pts_page_8(v, p);
    lemma_axis_pts_shown_9(v, q, f);
    lemma_shows_join(p, q, axis_pts_pages_9(v, q), axis_pts_part_8(v), axis_pts_from_9(v));
    lemma_all_params_join(axis_pts_part_8(v), axis_pts_from_9(v));
}

proof fn lemma_axis_pts_shown_7(v: AxisPtsView, p: Page, f: Setting)
    requires
        AxisPts::fits(v, f),
        indents_by_blanks(p),
    ensures
        shows(p, axis_pts_pages_7(v, p), axis_pts_from_7(v)),
        axis_pts_pages_7(v, p).depth == p.depth,
        axis_pts_pages_7(v, p).style == p.style,
        all_params(axis_pts_from_7(v)),
{
    lemma_axis_pts_part_7(v, p, f);
    let q = axis_pts_page_7(v, p);
    lemma_axis_pts_shown_8(v, q, f);
    lemma_shows_join(p, q, axis_pts_pages_8(v, q), axis_pts_part_7(v), axis_pts_from_8(v));
    lemma_all_params_join(axis_pts_part_7(v), axis_pts_from_8(v));
}

proof fn lemma_axis_pts_shown_6(v: AxisPtsView, p: Page, f: Setting)
    requires
        AxisPts::fits(v, f),
        indents_by_blanks(p),
    ensures
        shows(p, axis_pts_pages_6(v, p), axis_pts_from_6(v)),
        axis_pts_pages_6(v, p).depth == p.depth,
        axis_pts_pages_6(v, p).style == p.style,
        all_params(axis_pts_from_6(v)),
{
    lemma_axis_pts_part_6(v, p, f);
    let q = axis_pts_page_6(v, p);
    lemma_axis_pts_shown_7(v, q, f);
    lemma_shows_join(p, q, axis_pts_pages_7(v, q), axis_pts_part_6(v), axis_pts_from_7(v));
    lemma_all_params_join(axis_pts_part_6(v), axis_pts_from_7(v));
}

proof fn lemma_axis_pts_shown_5(v: AxisPtsView, p: Page, f: Setting)
    requires
        AxisPts::fits(v, f),
        indents_by_blanks(p),
    ensures
        shows(p, axis_pts_pages_5(v, p), axis_pts_from_5(v)),
        axis_pts_pages_5(v, p).depth == p.depth,
        axis_pts_pages_5(v, p).style == p.style,
        all_params(axis_pts_from_5(v)),
{
    lemma_axis_pts_part_5(v, p, f);
    let q = axis_pts_page_5(v, p);
    lemma_axis_pts_shown_6(v, q, f);
    lemma_shows_join(p, q, axis_pts_pages_6(v, q), axis_pts_part_5(v), axis_pts_from_6(v));
    lemma_all_params_join(axis_pts_part_5(v), axis_pts_from_6(v));
}

proof fn lemma_axis_pts_shown_4(v: AxisPtsView, p: Page, f: Setting)
    requires
        AxisPts::fits(v, f),
        indents_by_blanks(p),
    ensures
        shows(p, axis_pts_pages_4(v, p), axis_pts_from_4(v)),
        axis_pts_pages_4(v, p).depth == p.depth,
        axis_pts_pages_4(v, p).style == p.style,
        all_params(axis_pts_from_4(v)),
{
    lemma_axis_pts_part_4(v, p, f);
    let q = axis_pts_page_4(v, p);
    lemma_axis_pts_shown_5(v, q, f);
    lemma_shows_join(p, q, axis_pts_pages_5(v, q), axis_pts_part_4(v), axis_pts_from_5(v));
    lemma_all_params_join(axis_pts_part_4(v), axis_pts_from_5(v));
}

proof fn lemma_axis_pts_shown_3(v: AxisPtsView, p: Page, f: Setting)
    requires
        AxisPts::fits(v, f),
        indents_by_blanks(p),
    ensures
        shows(p, axis_pts_pages_3(v, p), axis_pts_from_3(v)),
        axis_pts_pages_3(v, p).depth == p.depth,
        axis_pts_pages_3(v, p).style == p.style,
        all_params(axis_pts_from_3(v)),
{
    lemma_axis_pts_part_3(v, p, f);
    let q = axis_pts_page_3(v, p);
    lemma_axis_pts_shown_4(v, q, f);
    lemma_shows_join(p, q, axis_pts_pages_4(v, q), axis_pts_part_3(v), axis_pts_from_4(v));
    lemma_all_params_join(axis_pts_part_3(v), axis_pts_from_4(v));
}

proof fn lemma_axis_pts_shown_2(v: AxisPtsView, p: Page, f: Setting)
    requires
        AxisPts::fits(v, f),
        indents_by_blanks(p),
    ensures
        shows(p, axis_pts_pages_2(v, p), axis_pts_from_2(v)),
        axis_pts_pages_2(v, p).depth == p.depth,
        axis_pts_pages_2(v, p).style == p.style,
        all_params(axis_pts_from_2(v)),
{
    lemma_axis_pts_part_2(v, p, f);
    let q = axis_pts_page_2(v, p);
    lemma_axis_pts_shown_3(v, q, f);
    lemma_shows_join(p, q, axis_pts_pages_3(v, q), axis_pts_part_2(v), axis_pts_from_3(v));
    lemma_all_params_join(axis_pts_part_2(v), axis_pts_from_3(v));
}

proof fn lemma_axis_pts_shown_1(v: AxisPtsView, p: Page, f: Setting)
    requires
        AxisPts::fits(v, f),
        indents_by_blanks(p),
    ensures
        shows(p, axis_pts_pages_1(v, p), axis_pts_from_1(v)),
        axis_pts_pages_1(v, p).depth == p.depth,
        axis_pts_pages_1(v, p).style == p.style,
        all_params(axis_pts_from_1(v)),
{
    lemma_axis_pts_part_1(v, p, f);
    let q = axis_pts_page_1(v, p);
    lemma_axis_pts_shown_2(v, q, f);
    lemma_shows_join(p, q, axis_pts_pages_2(v, q), axis_pts_part_1(v), axis_pts_from_2(v));
    lemma_all_params_join(axis_pts_part_1(v), axis_pts_from_2(v));
}

proof fn lemma_axis_pts_shown_0(v: AxisPtsView, p: Page, f: Setting)
    requires
        AxisPts::fits(v, f),
        indents_by_blanks(p),
    ensures
        shows(p, axis_pts_pages_0(v, p), axis_pts_from_0(v)),
        axis_pts_pages_0(v, p).depth == p.depth,
        axis_pts_pages_0(v, p).style == p.style,
        all_params(axis_pts_from_0(v)),
{
    lemma_axis_pts_part_0(v, p, f);
    let q = axis_pts_page_0(v, p);
    lemma_axis_pts_shown_1(v, q, f);
    lemma_shows_join(p, q, axis_pts_pages_1(v, q), axis_pts_part_0(v), axis_pts_from_1(v));
    lemma_all_params_join(axis_pts_part_0(v), axis_pts_from_1(v));
}

/// What is written for the parameters at the start.
#[verifier::opaque]
pub open spec fn axis_pts_opening(v: AxisPtsView, p0: Page) -> Page {
    let p1 = match v.named.description { Some(x) => p0.quote_line(x), None => p0.quote_line(""@) };
    let p2 = p1.line(hex_form(match v.addr.address { Some(x) => x as nat, None => u32::MAX as nat }));
    let p3 = match v.input_quantity { Some(x) => p2.line(x), None => p2 };
    let p4 = p3.line(v.rec.record_layout);
    let p5 = p4.line(v.rec.max_diff.text);
    let p6 = p5.line(v.conv.conversion);
    let p7 = p6.line(dec_int(v.max_axis_points as int));
    let p8 = p7.line(v.conv.lower_limit.text + " "@ + v.conv.upper_limit.text);
    p8
}

proof fn lemma_axis_pts_opening(v: AxisPtsView, p0: Page, f: Setting)
    requires
        AxisPts::fits(v, f),
        indents_by_blanks(p0),
    ensures
        shows(
            p0,
            axis_pts_opening(v, p0),
            seq![
                string(escaped(v.named.description->Some_0)),
                plain(hex_form(v.addr.address->Some_0 as nat)),
                plain(v.input_quantity->Some_0),
                plain(v.rec.record_layout),
                plain(v.rec.max_diff.text),
                plain(v.conv.conversion),
                plain(dec_int(v.max_axis_points as int)),
                plain(v.conv.lower_limit.text),
                plain(v.conv.upper_limit.text)
            ]
        ),
        axis_pts_opening(v, p0).depth == p0.depth,
        axis_pts_opening(v, p0).style == p0.style,
        all_params(axis_pts_head(v)),
{
    reveal(axis_pts_opening);
    lemma_shows_nothing(p0);
    let x0 = Seq::<Tok>::empty();
    let p1 = match v.named.description { Some(x) => p0.quote_line(x), None => p0.quote_line(""@) };
    assert(
        shows(
            p0,
            p1,
            seq![string(escaped(v.named.description->Some_0))]
        ) && p1.depth == p0.depth && p1.style == p0.style
    ) by {
        let p = p0;
        lemma_shows_quote_line(p, v.named.description->Some_0);
    }
    lemma_shows_join(p0, p0, p1, x0, seq![string(escaped(v.named.description->Some_0))]);
    let x1 = x0 + seq![string(escaped(v.named.description->Some_0))];
    let p2 = p1.line(hex_form(match v.addr.address { Some(x) => x as nat, None => u32::MAX as nat }));
    assert(
        shows(
            p1,
            p2,
            seq![plain(hex_form(v.addr.address->Some_0 as nat))]
        ) && p2.depth == p1.depth && p2.style == p1.style
    ) by {
        let p = p1;
        lemma_hex_param(v.addr.address->Some_0 as nat);
        lemma_shows_word_line(p, hex_form(v.addr.address->Some_0 as nat));
    }
    lemma_shows_join(p0, p1, p2, x1, seq![plain(hex_form(v.addr.address->Some_0 as nat))]);
    let x2 = x1 + seq![plain(hex_form(v.addr.address->Some_0 as nat))];
    let p3 = match v.input_quantity { Some(x) => p2.line(x), None => p2 };
    assert(
        shows(
            p2,
            p3,
            seq![plain(v.input_quantity->Some_0)]
        ) && p3.depth == p2.depth && p3.style == p2.style
    ) by {
        let p = p2;
        lemma_shows_word_line(p, v.input_quantity->Some_0);
    }
    lemma_shows_join(p0, p2, p3, x2, seq![plain(v.input_quantity->Some_0)]);
    let x3 = x2 + seq![plain(v.input_quantity->Some_0)];
    let p4 = p3.line(v.rec.record_layout);
    assert(shows(p3, p4, seq![plain(v.rec.record_layout)]) && p4.depth == p3.depth && p4.style == p3.style) by {
        let p = p3;
        lemma_shows_word_line(p, v.rec.record_layout);
    }
    lemma_shows_join(p0, p3, p4, x3, seq![plain(v.rec.record_layout)]);
    let x4 = x3 + seq![plain(v.rec.record_layout)];
    let p5 = p4.line(v.rec.max_diff.text);
    assert(shows(p4, p5, seq![plain(v.rec.max_diff.text)]) && p5.depth == p4.depth && p5.style == p4.style) by {
        let p = p4;
        lemma_shows_word_line(p, v.rec.max_diff.text);
    }
    lemma_shows_join(p0, p4, p5, x4, seq![plain(v.rec.max_diff.text)]);
    let x5 = x4 + seq![plain(v.rec.max_diff.text)];
    let p6 = p5.line(v.conv.conversion);
    assert(shows(p5, p6, seq![plain(v.conv.conversion)]) && p6.depth == p5.depth && p6.style == p5.style) by {
        let p = p5;
        lemma_shows_word_line(p, v.conv.conversion);
    }
    lemma_shows_join(p0, p5, p6, x5, seq![plain(v.conv.conversion)]);
    let x6 = x5 + seq![plain(v.conv.conversion)];
    let p7 = p6.line(dec_int(v.max_axis_points as int));
    assert(
        shows(
            p6,
            p7,
            seq![plain(dec_int(v.max_axis_points as int))]
        ) && p7.depth == p6.depth && p7.style == p6.style
    ) by {
        let p = p6;
        lemma_dec_param(v.max_axis_points as int);
        lemma_shows_word_line(p, dec_int(v.max_axis_points as int));
    }
    lemma_shows_join(p0, p6, p7, x6, seq![plain(dec_int(v.max_axis_points as int))]);
    let x7 = x6 + seq![plain(dec_int(v.max_axis_points as int))];
    let p8 = p7.line(v.conv.lower_limit.text + " "@ + v.conv.upper_limit.text);
    assert(
        shows(
            p7,
            p8,
            seq![plain(v.conv.lower_limit.text), plain(v.conv.upper_limit.text)]
        ) && p8.depth == p7.depth && p8.style == p7.style
    ) by {
        let p = p7;
        lemma_spells_pair(v.conv.lower_limit.text, v.conv.upper_limit.text);
        lemma_shows_line(
            p,
            v.conv.lower_limit.text + " "@ + v.conv.upper_limit.text,
            seq![plain(v.conv.lower_limit.text), plain(v.conv.upper_limit.text)]
        );
    }
    lemma_shows_join(p0, p7, p8, x7, seq![plain(v.conv.lower_limit.text), plain(v.conv.upper_limit.text)]);
    let x8 = x7 + seq![plain(v.conv.lower_limit.text), plain(v.conv.upper_limit.text)];
    assert(
        x8 =~= seq![
            string(escaped(v.named.description->Some_0)),
            plain(hex_form(v.addr.address->Some_0 as nat)),
            plain(v.input_quantity->Some_0),
            plain(v.rec.record_layout),
            plain(v.rec.max_diff.text),
            plain(v.conv.conversion),
            plain(dec_int(v.max_axis_points as int)),
            plain(v.conv.lower_limit.text),
            plain(v.conv.upper_limit.text)
        ]
    );
    lemma_string_param(v.named.description->Some_0);
    lemma_hex_param(v.addr.address->Some_0 as nat);
    lemma_dec_param(v.max_axis_points as int);
}

proof fn lemma_axis_pts_addr(v: AxisPtsView, q: Page, f: Setting)
    requires
        AxisPts::fits(v, f),
    ensures
        AddressFields::written(v.addr, q) == axis_pts_page_5(
            v,
            axis_pts_page_4(
                v,
                axis_pts_page_3(v, axis_pts_page_2(v, axis_pts_page_1(v, axis_pts_page_0(v, q))))
            )
        ),
{
    reveal(axis_pts_page_0);
    reveal(axis_pts_page_1);
    reveal(axis_pts_page_2);
    reveal(axis_pts_page_3);
    reveal(axis_pts_page_4);
    reveal(axis_pts_page_5);
}

proof fn lemma_axis_pts_conv(v: AxisPtsView, q: Page, f: Setting)
    requires
        AxisPts::fits(v, f),
    ensures
        ConversionRefFields::written(v.conv, q) == axis_pts_page_9(
            v,
            axis_pts_page_8(v, axis_pts_page_7(v, axis_pts_page_6(v, q)))
        ),
{
    reveal(axis_pts_page_6);
    reveal(axis_pts_page_7);
    reveal(axis_pts_page_8);
    reveal(axis_pts_page_9);
}

proof fn lemma_axis_pts_rec(v: AxisPtsView, q: Page, f: Setting)
    requires
        AxisPts::fits(v, f),
    ensures
        RecordLayoutRefFields::written(v.rec, q) == axis_pts_page_13(
            v,
            axis_pts_page_12(v, axis_pts_page_11(v, axis_pts_page_10(v, q)))
        ),
{
    reveal(axis_pts_page_10);
    reveal(axis_pts_page_11);
    reveal(axis_pts_page_12);
    reveal(axis_pts_page_13);
}

proof fn lemma_axis_pts_body(v: AxisPtsView, p: Page, f: Setting)
    requires
        AxisPts::fits(v, f),
    ensures
        AxisPts::body(v, p) == children_written::<AxisPtsChild>(
            v.children,
            0,
            false,
            axis_pts_pages_0(v, axis_pts_opening(v, p))
        ),
{
    reveal(axis_pts_opening);
    let q0 = axis_pts_opening(v, p);
    lemma_axis_pts_addr(v, q0, f);
    let q1 = axis_pts_page_0(v, q0);
    let q2 = axis_pts_page_1(v, q1);
    let q3 = axis_pts_page_2(v, q2);
    let q4 = axis_pts_page_3(v, q3);
    let q5 = axis_pts_page_4(v, q4);
    let q6 = axis_pts_page_5(v, q5);
    lemma_axis_pts_conv(v, q6, f);
    let q7 = axis_pts_page_6(v, q6);
    let q8 = axis_pts_page_7(v, q7);
    let q9 = axis_pts_page_8(v, q8);
    let q10 = axis_pts_page_9(v, q9);
    lemma_axis_pts_rec(v, q10, f);
    let q11 = axis_pts_page_10(v, q10);
    let q12 = axis_pts_page_11(v, q11);
    let q13 = axis_pts_page_12(v, q12);
    let q14 = axis_pts_page_13(v, q13);
    let q15 = match v.monotony.word() { Some(kw) => q14.word("MONOTONY"@, kw), None => q14 };
    assert(q15 == axis_pts_page_14(v, q14)) by {
        reveal(axis_pts_page_14);
    }
    let q16 = match v.deposit.word() { Some(kw) => q15.word("DEPOSIT"@, kw), None => q15 };
    assert(q16 == axis_pts_page_15(v, q15)) by {
        reveal(axis_pts_page_15);
    }
}

proof fn lemma_axis_pts_head(v: AxisPtsView, c: Cur, f: Setting)
    requires
        AxisPts::fits(v, f),
        tokens_at(c.toks, c.pos, axis_pts_head(v)),
        toks_numbered(c.toks, f),
    ensures
        AxisPts::head(c) == Ok::<(AxisPtsView, Cur), Failure>(
            (
                AxisPtsView {
                    addr: AddressFieldsView {
                        address_extension: None,
                        display_name: None,
                        calib_access: CalibrationAccess::NotSet,
                        max_refresh_unit: None,
                        max_refresh_rate: 0,
                        symbol_link: None,
                        symbol_offset: 0,
                        model_link: None,
                        ..v.addr
                    },
                    conv: ConversionRefFieldsView {
                        format: None,
                        phys_unit: None,
                        byte_order: ByteOrder::NotSet,
                        memory_segment_ref: None,
                        ..v.conv
                    },
                    rec: RecordLayoutRefFieldsView {
                        read_only: false,
                        extended_limits: None,
                        step_size: None,
                        guard_rails: false,
                        ..v.rec
                    },
                    monotony: MonotonyType::NotSet,
                    deposit: DepositType::NotSet,
                    children: Seq::empty(),
                    ..v
                },
                Cur { pos: c.pos + 10, ..c }
            ),
        ),
{
    law_unescaped_of_escaped(v.named.description->Some_0);
    law_integer_of_hex(v.addr.address->Some_0 as nat);
    law_integer_of_dec(v.max_axis_points as int);
    assert(bare(c.toks[c.pos + 0]) == axis_pts_head(v)[0]);
    assert(bare(c.toks[c.pos + 1]) == axis_pts_head(v)[1]);
    assert(bare(c.toks[c.pos + 2]) == axis_pts_head(v)[2]);
    assert(bare(c.toks[c.pos + 3]) == axis_pts_head(v)[3]);
    assert(bare(c.toks[c.pos + 4]) == axis_pts_head(v)[4]);
    assert(bare(c.toks[c.pos + 5]) == axis_pts_head(v)[5]);
    assert(bare(c.toks[c.pos + 6]) == axis_pts_head(v)[6]);
    assert(bare(c.toks[c.pos + 7]) == axis_pts_head(v)[7]);
    assert(bare(c.toks[c.pos + 8]) == axis_pts_head(v)[8]);
    assert(bare(c.toks[c.pos + 9]) == axis_pts_head(v)[9]);
}

proof fn lemma_axis_pts_step_0(w: AxisPtsView, v: AxisPtsView, c: Cur, f: Setting)
    requires
        AxisPts::fits(v, f),
        v.addr.address_extension is Some,
        tokens_at(
            c.toks,
            c.pos,
            seq![
                plain("ECU_ADDRESS_EXTENSION"@),
                plain(dec_int(v.addr.address_extension->Some_0 as int))
            ]
        ),
        toks_numbered(c.toks, f),
    ensures
        AxisPts::option(w, c) == Ok::<(AxisPtsView, Cur), Failure>(
            (
                AxisPtsView {
                    addr: AddressFieldsView {
                        address_extension: v.addr.address_extension,
                        ..w.addr
                    },
                    ..w
                },
                Cur { pos: c.pos + 2, ..c }
            ),
        ),
{
    reveal_strlit("ECU_ADDRESS_EXTENSION");
    lemma_same("ECU_ADDRESS_EXTENSION"@);
    assert(
        bare(c.toks[c.pos + 0]) == (
            seq![
                plain("ECU_ADDRESS_EXTENSION"@),
                plain(dec_int(v.addr.address_extension->Some_0 as int))
            ]
        )[0]
    );
    assert(
        bare(c.toks[c.pos + 1]) == (
            seq![
                plain("ECU_ADDRESS_EXTENSION"@),
                plain(dec_int(v.addr.address_extension->Some_0 as int))
            ]
        )[1]
    );
    law_integer_of_dec(v.addr.address_extension->Some_0 as int);
}

proof fn lemma_axis_pts_step_1(w: AxisPtsView, v: AxisPtsView, c: Cur, f: Setting)
    requires
        AxisPts::fits(v, f),
        v.addr.display_name is Some,
        tokens_at(c.toks, c.pos, seq![plain("DISPLAY_IDENTIFIER"@), plain(v.addr.display_name->Some_0)]),
        toks_numbered(c.toks, f),
    ensures
        AxisPts::option(w, c) == Ok::<(AxisPtsView, Cur), Failure>(
            (
                AxisPtsView {
                    addr: AddressFieldsView { display_name: v.addr.display_name, ..w.addr },
                    ..w
                },
                Cur { pos: c.pos + 2, ..c }
            ),
        ),
{
    reveal_strlit("DISPLAY_IDENTIFIER");
    reveal_strlit("ECU_ADDRESS_EXTENSION");
    lemma_differ("DISPLAY_IDENTIFIER"@, "ECU_ADDRESS_EXTENSION"@, 0);
    lemma_same("DISPLAY_IDENTIFIER"@);
    assert(bare(c.toks[c.pos + 0]) == (seq![plain("DISPLAY_IDENTIFIER"@), plain(v.addr.display_name->Some_0)])[0]);
    assert(bare(c.toks[c.pos + 1]) == (seq![plain("DISPLAY_IDENTIFIER"@), plain(v.addr.display_name->Some_0)])[1]);
    
}

proof fn lemma_axis_pts_step_2(w: AxisPtsView, v: AxisPtsView, c: Cur, f: Setting)
    requires
        AxisPts::fits(v, f),
        v.addr.calib_access.word() is Some,
        tokens_at(c.toks, c.pos, seq![plain("CALIBRATION_ACCESS"@), plain(v.addr.calib_access.word()->Some_0)]),
        toks_numbered(c.toks, f),
    ensures
        AxisPts::option(w, c) == Ok::<(AxisPtsView, Cur), Failure>(
            (
                AxisPtsView {
                    addr: AddressFieldsView { calib_access: v.addr.calib_access, ..w.addr },
                    ..w
                },
                Cur { pos: c.pos + 2, ..c }
            ),
        ),
{
    reveal_strlit("CALIBRATION_ACCESS");
    reveal_strlit("ECU_ADDRESS_EXTENSION");
    lemma_differ("CALIBRATION_ACCESS"@, "ECU_ADDRESS_EXTENSION"@, 0);
    reveal_strlit("DISPLAY_IDENTIFIER");
    lemma_differ("CALIBRATION_ACCESS"@, "DISPLAY_IDENTIFIER"@, 0);
    lemma_same("CALIBRATION_ACCESS"@);
    assert(
        bare(c.toks[c.pos + 0]) == (
            seq![plain("CALIBRATION_ACCESS"@), plain(v.addr.calib_access.word()->Some_0)]
        )[0]
    );
    assert(
        bare(c.toks[c.pos + 1]) == (
            seq![plain("CALIBRATION_ACCESS"@), plain(v.addr.calib_access.word()->Some_0)]
        )[1]
    );
    v.addr.calib_access.law_named_of_word();
    v.addr.calib_access.lemma_word();
}

proof fn lemma_axis_pts_step_3(w: AxisPtsView, v: AxisPtsView, c: Cur, f: Setting)
    requires
        AxisPts::fits(v, f),
        v.addr.max_refresh_unit is Some,
        tokens_at(
            c.toks,
            c.pos,
            seq![
                plain("MAX_REFRESH"@),
                plain(dec(v.addr.max_refresh_unit->Some_0.number() as nat)),
                plain(dec_int(v.addr.max_refresh_rate as int))
            ]
        ),
        toks_numbered(c.toks, f),
    ensures
        AxisPts::option(w, c) == Ok::<(AxisPtsView, Cur), Failure>(
            (
                AxisPtsView {
                    addr: AddressFieldsView {
                        max_refresh_unit: v.addr.max_refresh_unit,
                        max_refresh_rate: v.addr.max_refresh_rate,
                        ..w.addr
                    },
                    ..w
                },
                Cur { pos: c.pos + 3, ..c }
            ),
        ),
{
    reveal_strlit("MAX_REFRESH");
    reveal_strlit("ECU_ADDRESS_EXTENSION");
    lemma_differ("MAX_REFRESH"@, "ECU_ADDRESS_EXTENSION"@, 0);
    reveal_strlit("DISPLAY_IDENTIFIER");
    lemma_differ("MAX_REFRESH"@, "DISPLAY_IDENTIFIER"@, 0);
    reveal_strlit("CALIBRATION_ACCESS");
    lemma_differ("MAX_REFRESH"@, "CALIBRATION_ACCESS"@, 0);
    lemma_same("MAX_REFRESH"@);
    assert(
        bare(c.toks[c.pos + 0]) == (
            seq![
                plain("MAX_REFRESH"@),
                plain(dec(v.addr.max_refresh_unit->Some_0.number() as nat)),
                plain(dec_int(v.addr.max_refresh_rate as int))
            ]
        )[0]
    );
    assert(
        bare(c.toks[c.pos + 1]) == (
            seq![
                plain("MAX_REFRESH"@),
                plain(dec(v.addr.max_refresh_unit->Some_0.number() as nat)),
                plain(dec_int(v.addr.max_refresh_rate as int))
            ]
        )[1]
    );
    assert(
        bare(c.toks[c.pos + 2]) == (
            seq![
                plain("MAX_REFRESH"@),
                plain(dec(v.addr.max_refresh_unit->Some_0.number() as nat)),
                plain(dec_int(v.addr.max_refresh_rate as int))
            ]
        )[2]
    );
    law_integer_of_dec(v.addr.max_refresh_unit->Some_0.number() as int);
    law_integer_of_dec(v.addr.max_refresh_rate as int);
    lemma_refresh_found(v.addr.max_refresh_unit->Some_0);
}

proof fn lemma_axis_pts_step_4(w: AxisPtsView, v: AxisPtsView, c: Cur, f: Setting)
    requires
        AxisPts::fits(v, f),
        v.addr.symbol_link is Some,
        tokens_at(
            c.toks,
            c.pos,
            seq![
                plain("SYMBOL_LINK"@),
                string(v.addr.symbol_link->Some_0),
                plain(dec_int(v.addr.symbol_offset as int))
            ]
        ),
        toks_numbered(c.toks, f),
    ensures
        AxisPts::option(w, c) == Ok::<(AxisPtsView, Cur), Failure>(
            (
                AxisPtsView {
                    addr: AddressFieldsView {
                        symbol_link: v.addr.symbol_link,
                        symbol_offset: v.addr.symbol_offset,
                        ..w.addr
                    },
                    ..w
                },
                Cur { pos: c.pos + 3, ..c }
            ),
        ),
{
    reveal_strlit("SYMBOL_LINK");
    reveal_strlit("ECU_ADDRESS_EXTENSION");
    lemma_differ("SYMBOL_LINK"@, "ECU_ADDRESS_EXTENSION"@, 0);
    reveal_strlit("DISPLAY_IDENTIFIER");
    lemma_differ("SYMBOL_LINK"@, "DISPLAY_IDENTIFIER"@, 0);
    reveal_strlit("CALIBRATION_ACCESS");
    lemma_differ("SYMBOL_LINK"@, "CALIBRATION_ACCESS"@, 0);
    reveal_strlit("MAX_REFRESH");
    lemma_differ("SYMBOL_LINK"@, "MAX_REFRESH"@, 0);
    lemma_same("SYMBOL_LINK"@);
    assert(
        bare(c.toks[c.pos + 0]) == (
            seq![
                plain("SYMBOL_LINK"@),
                string(v.addr.symbol_link->Some_0),
                plain(dec_int(v.addr.symbol_offset as int))
            ]
        )[0]
    );
    assert(
        bare(c.toks[c.pos + 1]) == (
            seq![
                plain("SYMBOL_LINK"@),
                string(v.addr.symbol_link->Some_0),
                plain(dec_int(v.addr.symbol_offset as int))
            ]
        )[1]
    );
    assert(
        bare(c.toks[c.pos + 2]) == (
            seq![
                plain("SYMBOL_LINK"@),
                string(v.addr.symbol_link->Some_0),
                plain(dec_int(v.addr.symbol_offset as int))
            ]
        )[2]
    );
    law_integer_of_dec(v.addr.symbol_offset as int);
}

proof fn lemma_axis_pts_step_5(w: AxisPtsView, v: AxisPtsView, c: Cur, f: Setting)
    requires
        AxisPts::fits(v, f),
        v.addr.model_link is Some,
        tokens_at(c.toks, c.pos, seq![plain("MODEL_LINK"@), string(escaped(v.addr.model_link->Some_0))]),
        toks_numbered(c.toks, f),
    ensures
        AxisPts::option(w, c) == Ok::<(AxisPtsView, Cur), Failure>(
            (
                AxisPtsView {
                    addr: AddressFieldsView { model_link: v.addr.model_link, ..w.addr },
                    ..w
                },
                Cur { pos: c.pos + 2, ..c }
            ),
        ),
{
    reveal_strlit("MODEL_LINK");
    reveal_strlit("ECU_ADDRESS_EXTENSION");
    lemma_differ("MODEL_LINK"@, "ECU_ADDRESS_EXTENSION"@, 0);
    reveal_strlit("DISPLAY_IDENTIFIER");
    lemma_differ("MODEL_LINK"@, "DISPLAY_IDENTIFIER"@, 0);
    reveal_strlit("CALIBRATION_ACCESS");
    lemma_differ("MODEL_LINK"@, "CALIBRATION_ACCESS"@, 0);
    reveal_strlit("MAX_REFRESH");
    lemma_differ("MODEL_LINK"@, "MAX_REFRESH"@, 0);
    reveal_strlit("SYMBOL_LINK");
    lemma_differ("MODEL_LINK"@, "SYMBOL_LINK"@, 0);
    lemma_same("MODEL_LINK"@);
    assert(bare(c.toks[c.pos + 0]) == (seq![plain("MODEL_LINK"@), string(escaped(v.addr.model_link->Some_0))])[0]);
    assert(bare(c.toks[c.pos + 1]) == (seq![plain("MODEL_LINK"@), string(escaped(v.addr.model_link->Some_0))])[1]);
    law_unescaped_of_escaped(v.addr.model_link->Some_0);
}

proof fn lemma_axis_pts_step_6(w: AxisPtsView, v: AxisPtsView, c: Cur, f: Setting)
    requires
        AxisPts::fits(v, f),
        v.conv.format is Some,
        tokens_at(c.toks, c.pos, seq![plain("FORMAT"@), string(escaped(v.conv.format->Some_0))]),
        toks_numbered(c.toks, f),
    ensures
        AxisPts::option(w, c) == Ok::<(AxisPtsView, Cur), Failure>(
            (
                AxisPtsView {
                    conv: ConversionRefFieldsView { format: v.conv.format, ..w.conv },
                    ..w
                },
                Cur { pos: c.pos + 2, ..c }
            ),
        ),
{
    reveal_strlit("FORMAT");
    reveal_strlit("ECU_ADDRESS_EXTENSION");
    lemma_differ("FORMAT"@, "ECU_ADDRESS_EXTENSION"@, 0);
    reveal_strlit("DISPLAY_IDENTIFIER");
    lemma_differ("FORMAT"@, "DISPLAY_IDENTIFIER"@, 0);
    reveal_strlit("CALIBRATION_ACCESS");
    lemma_differ("FORMAT"@, "CALIBRATION_ACCESS"@, 0);
    reveal_strlit("MAX_REFRESH");
    lemma_differ("FORMAT"@, "MAX_REFRESH"@, 0);
    reveal_strlit("SYMBOL_LINK");
    lemma_differ("FORMAT"@, "SYMBOL_LINK"@, 0);
    reveal_strlit("MODEL_LINK");
    lemma_differ("FORMAT"@, "MODEL_LINK"@, 0);
    lemma_same("FORMAT"@);
    assert(bare(c.toks[c.pos + 0]) == (seq![plain("FORMAT"@), string(escaped(v.conv.format->Some_0))])[0]);
    assert(bare(c.toks[c.pos + 1]) == (seq![plain("FORMAT"@), string(escaped(v.conv.format->Some_0))])[1]);
    law_unescaped_of_escaped(v.conv.format->Some_0);
}

proof fn lemma_axis_pts_step_7(w: AxisPtsView, v: AxisPtsView, c: Cur, f: Setting)
    requires
        AxisPts::fits(v, f),
        v.conv.phys_unit is Some,
        tokens_at(c.toks, c.pos, seq![plain("PHYS_UNIT"@), string(escaped(v.conv.phys_unit->Some_0))]),
        toks_numbered(c.toks, f),
    ensures
        AxisPts::option(w, c) == Ok::<(AxisPtsView, Cur), Failure>(
            (
                AxisPtsView {
                    conv: ConversionRefFieldsView { phys_unit: v.conv.phys_unit, ..w.conv },
                    ..w
                },
                Cur { pos: c.pos + 2, ..c }
            ),
        ),
{
    reveal_strlit("PHYS_UNIT");
    reveal_strlit("ECU_ADDRESS_EXTENSION");
    lemma_differ("PHYS_UNIT"@, "ECU_ADDRESS_EXTENSION"@, 0);
    reveal_strlit("DISPLAY_IDENTIFIER");
    lemma_differ("PHYS_UNIT"@, "DISPLAY_IDENTIFIER"@, 0);
    reveal_strlit("CALIBRATION_ACCESS");
    lemma_differ("PHYS_UNIT"@, "CALIBRATION_ACCESS"@, 0);
    reveal_strlit("MAX_REFRESH");
    lemma_differ("PHYS_UNIT"@, "MAX_REFRESH"@, 0);
    reveal_strlit("SYMBOL_LINK");
    lemma_differ("PHYS_UNIT"@, "SYMBOL_LINK"@, 0);
    reveal_strlit("MODEL_LINK");
    lemma_differ("PHYS_UNIT"@, "MODEL_LINK"@, 0);
    reveal_strlit("FORMAT");
    lemma_differ("PHYS_UNIT"@, "FORMAT"@, 0);
    lemma_same("PHYS_UNIT"@);
    assert(bare(c.toks[c.pos + 0]) == (seq![plain("PHYS_UNIT"@), string(escaped(v.conv.phys_unit->Some_0))])[0]);
    assert(bare(c.toks[c.pos + 1]) == (seq![plain("PHYS_UNIT"@), string(escaped(v.conv.phys_unit->Some_0))])[1]);
    law_unescaped_of_escaped(v.conv.phys_unit->Some_0);
}

proof fn lemma_axis_pts_step_8(w: AxisPtsView, v: AxisPtsView, c: Cur, f: Setting)
    requires
        AxisPts::fits(v, f),
        v.conv.byte_order.word() is Some,
        tokens_at(c.toks, c.pos, seq![plain("BYTE_ORDER"@), plain(v.conv.byte_order.word()->Some_0)]),
        toks_numbered(c.toks, f),
    ensures
        AxisPts::option(w, c) == Ok::<(AxisPtsView, Cur), Failure>(
            (
                AxisPtsView {
                    conv: ConversionRefFieldsView { byte_order: v.conv.byte_order, ..w.conv },
                    ..w
                },
                Cur { pos: c.pos + 2, ..c }
            ),
        ),
{
    reveal_strlit("BYTE_ORDER");
    reveal_strlit("ECU_ADDRESS_EXTENSION");
    lemma_differ("BYTE_ORDER"@, "ECU_ADDRESS_EXTENSION"@, 0);
    reveal_strlit("DISPLAY_IDENTIFIER");
    lemma_differ("BYTE_ORDER"@, "DISPLAY_IDENTIFIER"@, 0);
    reveal_strlit("CALIBRATION_ACCESS");
    lemma_differ("BYTE_ORDER"@, "CALIBRATION_ACCESS"@, 0);
    reveal_strlit("MAX_REFRESH");
    lemma_differ("BYTE_ORDER"@, "MAX_REFRESH"@, 0);
    reveal_strlit("SYMBOL_LINK");
    lemma_differ("BYTE_ORDER"@, "SYMBOL_LINK"@, 0);
    reveal_strlit("MODEL_LINK");
    lemma_differ("BYTE_ORDER"@, "MODEL_LINK"@, 0);
    reveal_strlit("FORMAT");
    lemma_differ("BYTE_ORDER"@, "FORMAT"@, 0);
    reveal_strlit("PHYS_UNIT");
    lemma_differ("BYTE_ORDER"@, "PHYS_UNIT"@, 0);
    lemma_same("BYTE_ORDER"@);
    assert(bare(c.toks[c.pos + 0]) == (seq![plain("BYTE_ORDER"@), plain(v.conv.byte_order.word()->Some_0)])[0]);
    assert(bare(c.toks[c.pos + 1]) == (seq![plain("BYTE_ORDER"@), plain(v.conv.byte_order.word()->Some_0)])[1]);
    v.conv.byte_order.law_named_of_word();
    v.conv.byte_order.lemma_word();
}

proof fn lemma_axis_pts_step_9(w: AxisPtsView, v: AxisPtsView, c: Cur, f: Setting)
    requires
        AxisPts::fits(v, f),
        v.conv.memory_segment_ref is Some,
        tokens_at(c.toks, c.pos, seq![plain("REF_MEMORY_SEGMENT"@), plain(v.conv.memory_segment_ref->Some_0)]),
        toks_numbered(c.toks, f),
    ensures
        AxisPts::option(w, c) == Ok::<(AxisPtsView, Cur), Failure>(
            (
                AxisPtsView {
                    conv: ConversionRefFieldsView {
                        memory_segment_ref: v.conv.memory_segment_ref,
                        ..w.conv
                    },
                    ..w
                },
                Cur { pos: c.pos + 2, ..c }
            ),
        ),
{
    reveal_strlit("REF_MEMORY_SEGMENT");
    reveal_strlit("ECU_ADDRESS_EXTENSION");
    lemma_differ("REF_MEMORY_SEGMENT"@, "ECU_ADDRESS_EXTENSION"@, 0);
    reveal_strlit("DISPLAY_IDENTIFIER");
    lemma_differ("REF_MEMORY_SEGMENT"@, "DISPLAY_IDENTIFIER"@, 0);
    reveal_strlit("CALIBRATION_ACCESS");
    lemma_differ("REF_MEMORY_SEGMENT"@, "CALIBRATION_ACCESS"@, 0);
    reveal_strlit("MAX_REFRESH");
    lemma_differ("REF_MEMORY_SEGMENT"@, "MAX_REFRESH"@, 0);
    reveal_strlit("SYMBOL_LINK");
    lemma_differ("REF_MEMORY_SEGMENT"@, "SYMBOL_LINK"@, 0);
    reveal_strlit("MODEL_LINK");
    lemma_differ("REF_MEMORY_SEGMENT"@, "MODEL_LINK"@, 0);
    reveal_strlit("FORMAT");
    lemma_differ("REF_MEMORY_SEGMENT"@, "FORMAT"@, 0);
    reveal_strlit("PHYS_UNIT");
    lemma_differ("REF_MEMORY_SEGMENT"@, "PHYS_UNIT"@, 0);
    reveal_strlit("BYTE_ORDER");
    lemma_differ("REF_MEMORY_SEGMENT"@, "BYTE_ORDER"@, 0);
    lemma_same("REF_MEMORY_SEGMENT"@);
    assert(
        bare(c.toks[c.pos + 0]) == (
            seq![plain("REF_MEMORY_SEGMENT"@), plain(v.conv.memory_segment_ref->Some_0)]
        )[0]
    );
    assert(
        bare(c.toks[c.pos + 1]) == (
            seq![plain("REF_MEMORY_SEGMENT"@), plain(v.conv.memory_segment_ref->Some_0)]
        )[1]
    );
    
}

proof fn lemma_axis_pts_step_10(w: AxisPtsView, v: AxisPtsView, c: Cur, f: Setting)
    requires
        AxisPts::fits(v, f),
        v.rec.read_only,
        tokens_at(c.toks, c.pos, seq![plain("READ_ONLY"@)]),
        toks_numbered(c.toks, f),
    ensures
        AxisPts::option(w, c) == Ok::<(AxisPtsView, Cur), Failure>(
            (
                AxisPtsView {
                    rec: RecordLayoutRefFieldsView { read_only: v.rec.read_only, ..w.rec },
                    ..w
                },
                Cur { pos: c.pos + 1, ..c }
            ),
        ),
{
    reveal_strlit("READ_ONLY");
    reveal_strlit("ECU_ADDRESS_EXTENSION");
    lemma_differ("READ_ONLY"@, "ECU_ADDRESS_EXTENSION"@, 0);
    reveal_strlit("DISPLAY_IDENTIFIER");
    lemma_differ("READ_ONLY"@, "DISPLAY_IDENTIFIER"@, 0);
    reveal_strlit("CALIBRATION_ACCESS");
    lemma_differ("READ_ONLY"@, "CALIBRATION_ACCESS"@, 0);
    reveal_strlit("MAX_REFRESH");
    lemma_differ("READ_ONLY"@, "MAX_REFRESH"@, 0);
    reveal_strlit("SYMBOL_LINK");
    lemma_differ("READ_ONLY"@, "SYMBOL_LINK"@, 0);
    reveal_strlit("MODEL_LINK");
    lemma_differ("READ_ONLY"@, "MODEL_LINK"@, 0);
    reveal_strlit("FORMAT");
    lemma_differ("READ_ONLY"@, "FORMAT"@, 0);
    reveal_strlit("PHYS_UNIT");
    lemma_differ("READ_ONLY"@, "PHYS_UNIT"@, 0);
    reveal_strlit("BYTE_ORDER");
    lemma_differ("READ_ONLY"@, "BYTE_ORDER"@, 0);
    reveal_strlit("REF_MEMORY_SEGMENT");
    lemma_differ("READ_ONLY"@, "REF_MEMORY_SEGMENT"@, 0);
    lemma_same("READ_ONLY"@);
    assert(bare(c.toks[c.pos + 0]) == (seq![plain("READ_ONLY"@)])[0]);
    
}

proof fn lemma_axis_pts_step_11(w: AxisPtsView, v: AxisPtsView, c: Cur, f: Setting)
    requires
        AxisPts::fits(v, f),
        v.rec.extended_limits is Some,
        tokens_at(
            c.toks,
            c.pos,
            seq![
                plain("EXTENDED_LIMITS"@),
                plain(v.rec.extended_limits->Some_0.0.text),
                plain(v.rec.extended_limits->Some_0.1.text)
            ]
        ),
        toks_numbered(c.toks, f),
    ensures
        AxisPts::option(w, c) == Ok::<(AxisPtsView, Cur), Failure>(
            (
                AxisPtsView {
                    rec: RecordLayoutRefFieldsView {
                        extended_limits: v.rec.extended_limits,
                        ..w.rec
                    },
                    ..w
                },
                Cur { pos: c.pos + 3, ..c }
            ),
        ),
{
    reveal_strlit("EXTENDED_LIMITS");
    reveal_strlit("ECU_ADDRESS_EXTENSION");
    lemma_differ("EXTENDED_LIMITS"@, "ECU_ADDRESS_EXTENSION"@, 0);
    reveal_strlit("DISPLAY_IDENTIFIER");
    lemma_differ("EXTENDED_LIMITS"@, "DISPLAY_IDENTIFIER"@, 0);
    reveal_strlit("CALIBRATION_ACCESS");
    lemma_differ("EXTENDED_LIMITS"@, "CALIBRATION_ACCESS"@, 0);
    reveal_strlit("MAX_REFRESH");
    lemma_differ("EXTENDED_LIMITS"@, "MAX_REFRESH"@, 0);
    reveal_strlit("SYMBOL_LINK");
    lemma_differ("EXTENDED_LIMITS"@, "SYMBOL_LINK"@, 0);
    reveal_strlit("MODEL_LINK");
    lemma_differ("EXTENDED_LIMITS"@, "MODEL_LINK"@, 0);
    reveal_strlit("FORMAT");
    lemma_differ("EXTENDED_LIMITS"@, "FORMAT"@, 0);
    reveal_strlit("PHYS_UNIT");
    lemma_differ("EXTENDED_LIMITS"@, "PHYS_UNIT"@, 0);
    reveal_strlit("BYTE_ORDER");
    lemma_differ("EXTENDED_LIMITS"@, "BYTE_ORDER"@, 0);
    reveal_strlit("REF_MEMORY_SEGMENT");
    lemma_differ("EXTENDED_LIMITS"@, "REF_MEMORY_SEGMENT"@, 0);
    reveal_strlit("READ_ONLY");
    lemma_differ("EXTENDED_LIMITS"@, "READ_ONLY"@, 0);
    lemma_same("EXTENDED_LIMITS"@);
    assert(
        bare(c.toks[c.pos + 0]) == (
            seq![
                plain("EXTENDED_LIMITS"@),
                plain(v.rec.extended_limits->Some_0.0.text),
                plain(v.rec.extended_limits->Some_0.1.text)
            ]
        )[0]
    );
    assert(
        bare(c.toks[c.pos + 1]) == (
            seq![
                plain("EXTENDED_LIMITS"@),
                plain(v.rec.extended_limits->Some_0.0.text),
                plain(v.rec.extended_limits->Some_0.1.text)
            ]
        )[1]
    );
    assert(
        bare(c.toks[c.pos + 2]) == (
            seq![
                plain("EXTENDED_LIMITS"@),
                plain(v.rec.extended_limits->Some_0.0.text),
                plain(v.rec.extended_limits->Some_0.1.text)
            ]
        )[2]
    );
    
}

proof fn lemma_axis_pts_step_12(w: AxisPtsView, v: AxisPtsView, c: Cur, f: Setting)
    requires
        AxisPts::fits(v, f),
        v.rec.step_size is Some,
        tokens_at(c.toks, c.pos, seq![plain("STEP_SIZE"@), plain(v.rec.step_size->Some_0.text)]),
        toks_numbered(c.toks, f),
    ensures
        AxisPts::option(w, c) == Ok::<(AxisPtsView, Cur), Failure>(
            (
                AxisPtsView {
                    rec: RecordLayoutRefFieldsView { step_size: v.rec.step_size, ..w.rec },
                    ..w
                },
                Cur { pos: c.pos + 2, ..c }
            ),
        ),
{
    reveal_strlit("STEP_SIZE");
    reveal_strlit("ECU_ADDRESS_EXTENSION");
    lemma_differ("STEP_SIZE"@, "ECU_ADDRESS_EXTENSION"@, 0);
    reveal_strlit("DISPLAY_IDENTIFIER");
    lemma_differ("STEP_SIZE"@, "DISPLAY_IDENTIFIER"@, 0);
    reveal_strlit("CALIBRATION_ACCESS");
    lemma_differ("STEP_SIZE"@, "CALIBRATION_ACCESS"@, 0);
    reveal_strlit("MAX_REFRESH");
    lemma_differ("STEP_SIZE"@, "MAX_REFRESH"@, 0);
    reveal_strlit("SYMBOL_LINK");
    lemma_differ("STEP_SIZE"@, "SYMBOL_LINK"@, 0);
    reveal_strlit("MODEL_LINK");
    lemma_differ("STEP_SIZE"@, "MODEL_LINK"@, 0);
    reveal_strlit("FORMAT");
    lemma_differ("STEP_SIZE"@, "FORMAT"@, 0);
    reveal_strlit("PHYS_UNIT");
    lemma_differ("STEP_SIZE"@, "PHYS_UNIT"@, 0);
    reveal_strlit("BYTE_ORDER");
    lemma_differ("STEP_SIZE"@, "BYTE_ORDER"@, 0);
    reveal_strlit("REF_MEMORY_SEGMENT");
    lemma_differ("STEP_SIZE"@, "REF_MEMORY_SEGMENT"@, 0);
    reveal_strlit("READ_ONLY");
    lemma_differ("STEP_SIZE"@, "READ_ONLY"@, 0);
    reveal_strlit("EXTENDED_LIMITS");
    lemma_differ("STEP_SIZE"@, "EXTENDED_LIMITS"@, 0);
    lemma_same("STEP_SIZE"@);
    assert(bare(c.toks[c.pos + 0]) == (seq![plain("STEP_SIZE"@), plain(v.rec.step_size->Some_0.text)])[0]);
    assert(bare(c.toks[c.pos + 1]) == (seq![plain("STEP_SIZE"@), plain(v.rec.step_size->Some_0.text)])[1]);
    
}

proof fn lemma_axis_pts_step_13(w: AxisPtsView, v: AxisPtsView, c: Cur, f: Setting)
    requires
        AxisPts::fits(v, f),
        v.rec.guard_rails,
        tokens_at(c.toks, c.pos, seq![plain("GUARD_RAILS"@)]),
        toks_numbered(c.toks, f),
    ensures
        AxisPts::option(w, c) == Ok::<(AxisPtsView, Cur), Failure>(
            (
                AxisPtsView {
                    rec: RecordLayoutRefFieldsView { guard_rails: v.rec.guard_rails, ..w.rec },
                    ..w
                },
                Cur { pos: c.pos + 1, ..c }
            ),
        ),
{
    reveal_strlit("GUARD_RAILS");
    reveal_strlit("ECU_ADDRESS_EXTENSION");
    lemma_differ("GUARD_RAILS"@, "ECU_ADDRESS_EXTENSION"@, 0);
    reveal_strlit("DISPLAY_IDENTIFIER");
    lemma_differ("GUARD_RAILS"@, "DISPLAY_IDENTIFIER"@, 0);
    reveal_strlit("CALIBRATION_ACCESS");
    lemma_differ("GUARD_RAILS"@, "CALIBRATION_ACCESS"@, 0);
    reveal_strlit("MAX_REFRESH");
    lemma_differ("GUARD_RAILS"@, "MAX_REFRESH"@, 0);
    reveal_strlit("SYMBOL_LINK");
    lemma_differ("GUARD_RAILS"@, "SYMBOL_LINK"@, 0);
    reveal_strlit("MODEL_LINK");
    lemma_differ("GUARD_RAILS"@, "MODEL_LINK"@, 0);
    reveal_strlit("FORMAT");
    lemma_differ("GUARD_RAILS"@, "FORMAT"@, 0);
    reveal_strlit("PHYS_UNIT");
    lemma_differ("GUARD_RAILS"@, "PHYS_UNIT"@, 0);
    reveal_strlit("BYTE_ORDER");
    lemma_differ("GUARD_RAILS"@, "BYTE_ORDER"@, 0);
    reveal_strlit("REF_MEMORY_SEGMENT");
    lemma_differ("GUARD_RAILS"@, "REF_MEMORY_SEGMENT"@, 0);
    reveal_strlit("READ_ONLY");
    lemma_differ("GUARD_RAILS"@, "READ_ONLY"@, 0);
    reveal_strlit("EXTENDED_LIMITS");
    lemma_differ("GUARD_RAILS"@, "EXTENDED_LIMITS"@, 0);
    reveal_strlit("STEP_SIZE");
    lemma_differ("GUARD_RAILS"@, "STEP_SIZE"@, 0);
    lemma_same("GUARD_RAILS"@);
    assert(bare(c.toks[c.pos + 0]) == (seq![plain("GUARD_RAILS"@)])[0]);
    
}

proof fn lemma_axis_pts_step_14(w: AxisPtsView, v: AxisPtsView, c: Cur, f: Setting)
    requires
        AxisPts::fits(v, f),
        v.monotony.word() is Some,
        tokens_at(c.toks, c.pos, seq![plain("MONOTONY"@), plain(v.monotony.word()->Some_0)]),
        toks_numbered(c.toks, f),
    ensures
        AxisPts::option(w, c) == Ok::<(AxisPtsView, Cur), Failure>(
            (AxisPtsView { monotony: v.monotony, ..w }, Cur { pos: c.pos + 2, ..c }),
        ),
{
    reveal_strlit("MONOTONY");
    reveal_strlit("ECU_ADDRESS_EXTENSION");
    lemma_differ("MONOTONY"@, "ECU_ADDRESS_EXTENSION"@, 0);
    reveal_strlit("DISPLAY_IDENTIFIER");
    lemma_differ("MONOTONY"@, "DISPLAY_IDENTIFIER"@, 0);
    reveal_strlit("CALIBRATION_ACCESS");
    lemma_differ("MONOTONY"@, "CALIBRATION_ACCESS"@, 0);
    reveal_strlit("MAX_REFRESH");
    lemma_differ("MONOTONY"@, "MAX_REFRESH"@, 0);
    reveal_strlit("SYMBOL_LINK");
    lemma_differ("MONOTONY"@, "SYMBOL_LINK"@, 0);
    reveal_strlit("MODEL_LINK");
    lemma_differ("MONOTONY"@, "MODEL_LINK"@, 0);
    reveal_strlit("FORMAT");
    lemma_differ("MONOTONY"@, "FORMAT"@, 0);
    reveal_strlit("PHYS_UNIT");
    lemma_differ("MONOTONY"@, "PHYS_UNIT"@, 0);
    reveal_strlit("BYTE_ORDER");
    lemma_differ("MONOTONY"@, "BYTE_ORDER"@, 0);
    reveal_strlit("REF_MEMORY_SEGMENT");
    lemma_differ("MONOTONY"@, "REF_MEMORY_SEGMENT"@, 0);
    reveal_strlit("READ_ONLY");
    lemma_differ("MONOTONY"@, "READ_ONLY"@, 0);
    reveal_strlit("EXTENDED_LIMITS");
    lemma_differ("MONOTONY"@, "EXTENDED_LIMITS"@, 0);
    reveal_strlit("STEP_SIZE");
    lemma_differ("MONOTONY"@, "STEP_SIZE"@, 0);
    reveal_strlit("GUARD_RAILS");
    lemma_differ("MONOTONY"@, "GUARD_RAILS"@, 0);
    lemma_same("MONOTONY"@);
    assert(bare(c.toks[c.pos + 0]) == (seq![plain("MONOTONY"@), plain(v.monotony.word()->Some_0)])[0]);
    assert(bare(c.toks[c.pos + 1]) == (seq![plain("MONOTONY"@), plain(v.monotony.word()->Some_0)])[1]);
    v.monotony.law_named_of_word();
    v.monotony.lemma_word();
}

proof fn lemma_axis_pts_step_15(w: AxisPtsView, v: AxisPtsView, c: Cur, f: Setting)
    requires
        AxisPts::fits(v, f),
        v.deposit.word() is Some,
        tokens_at(c.toks, c.pos, seq![plain("DEPOSIT"@), plain(v.deposit.word()->Some_0)]),
        toks_numbered(c.toks, f),
    ensures
        AxisPts::option(w, c) == Ok::<(AxisPtsView, Cur), Failure>(
            (AxisPtsView { deposit: v.deposit, ..w }, Cur { pos: c.pos + 2, ..c }),
        ),
{
    reveal_strlit("DEPOSIT");
    reveal_strlit("ECU_ADDRESS_EXTENSION");
    lemma_differ("DEPOSIT"@, "ECU_ADDRESS_EXTENSION"@, 0);
    reveal_strlit("DISPLAY_IDENTIFIER");
    lemma_differ("DEPOSIT"@, "DISPLAY_IDENTIFIER"@, 0);
    reveal_strlit("CALIBRATION_ACCESS");
    lemma_differ("DEPOSIT"@, "CALIBRATION_ACCESS"@, 0);
    reveal_strlit("MAX_REFRESH");
    lemma_differ("DEPOSIT"@, "MAX_REFRESH"@, 0);
    reveal_strlit("SYMBOL_LINK");
    lemma_differ("DEPOSIT"@, "SYMBOL_LINK"@, 0);
    reveal_strlit("MODEL_LINK");
    lemma_differ("DEPOSIT"@, "MODEL_LINK"@, 0);
    reveal_strlit("FORMAT");
    lemma_differ("DEPOSIT"@, "FORMAT"@, 0);
    reveal_strlit("PHYS_UNIT");
    lemma_differ("DEPOSIT"@, "PHYS_UNIT"@, 0);
    reveal_strlit("BYTE_ORDER");
    lemma_differ("DEPOSIT"@, "BYTE_ORDER"@, 0);
    reveal_strlit("REF_MEMORY_SEGMENT");
    lemma_differ("DEPOSIT"@, "REF_MEMORY_SEGMENT"@, 0);
    reveal_strlit("READ_ONLY");
    lemma_differ("DEPOSIT"@, "READ_ONLY"@, 0);
    reveal_strlit("EXTENDED_LIMITS");
    lemma_differ("DEPOSIT"@, "EXTENDED_LIMITS"@, 0);
    reveal_strlit("STEP_SIZE");
    lemma_differ("DEPOSIT"@, "STEP_SIZE"@, 0);
    reveal_strlit("GUARD_RAILS");
    lemma_differ("DEPOSIT"@, "GUARD_RAILS"@, 0);
    reveal_strlit("MONOTONY");
    lemma_differ("DEPOSIT"@, "MONOTONY"@, 0);
    lemma_same("DEPOSIT"@);
    assert(bare(c.toks[c.pos + 0]) == (seq![plain("DEPOSIT"@), plain(v.deposit.word()->Some_0)])[0]);
    assert(bare(c.toks[c.pos + 1]) == (seq![plain("DEPOSIT"@), plain(v.deposit.word()->Some_0)])[1]);
    v.deposit.law_named_of_word();
    v.deposit.lemma_word();
}

proof fn lemma_axis_pts_read_16(v: AxisPtsView, c: Cur, f: Setting)
    requires
        AxisPts::fits(v, f),
        tokens_at(c.toks, c.pos, axis_pts_from_16(v)),
        c.pos + axis_pts_from_16(v).len() == c.toks.len(),
        toks_numbered(c.toks, f),
    ensures
        AxisPts::options(
            AxisPtsView { children: Seq::empty(), ..v },
            c
        ) matches Ok((w, _)) && w == (AxisPtsView { children: Seq::empty(), ..v }),
{
}

proof fn lemma_axis_pts_read_15(v: AxisPtsView, c: Cur, f: Setting)
    requires
        AxisPts::fits(v, f),
        tokens_at(c.toks, c.pos, axis_pts_from_15(v)),
        c.pos + axis_pts_from_15(v).len() == c.toks.len(),
        toks_numbered(c.toks, f),
    ensures
        AxisPts::options(
            AxisPtsView { deposit: DepositType::NotSet, children: Seq::empty(), ..v },
            c
        ) matches Ok((w, _)) && w == (AxisPtsView { children: Seq::empty(), ..v }),
{
    reveal(axis_pts_part_15);
    let t = axis_pts_part_15(v);
    if v.deposit.word() is Some {
        lemma_tokens_at_split(c.toks, c.pos, t, axis_pts_from_16(v));
        let c2 = Cur { pos: c.pos + 2, ..c };
        lemma_axis_pts_step_15(AxisPtsView { deposit: DepositType::NotSet, children: Seq::empty(), ..v }, v, c, f);
        lemma_axis_pts_read_16(v, c2, f);
    } else {
        assert(t + axis_pts_from_16(v) =~= axis_pts_from_16(v));
        lemma_axis_pts_read_16(v, c, f);
    }
}

proof fn lemma_axis_pts_read_14(v: AxisPtsView, c: Cur, f: Setting)
    requires
        AxisPts::fits(v, f),
        tokens_at(c.toks, c.pos, axis_pts_from_14(v)),
        c.pos + axis_pts_from_14(v).len() == c.toks.len(),
        toks_numbered(c.toks, f),
    ensures
        AxisPts::options(
            AxisPtsView {
                monotony: MonotonyType::NotSet,
                deposit: DepositType::NotSet,
                children: Seq::empty(),
                ..v
            },
            c
        ) matches Ok((w, _)) && w == (AxisPtsView { children: Seq::empty(), ..v }),
{
    reveal(axis_pts_part_14);
    let t = axis_pts_part_14(v);
    if v.monotony.word() is Some {
        lemma_tokens_at_split(c.toks, c.pos, t, axis_pts_from_15(v));
        let c2 = Cur { pos: c.pos + 2, ..c };
        lemma_axis_pts_step_14(
            AxisPtsView {
                monotony: MonotonyType::NotSet,
                deposit: DepositType::NotSet,
                children: Seq::empty(),
                ..v
            },
            v,
            c,
            f
        );
        lemma_axis_pts_read_15(v, c2, f);
    } else {
        assert(t + axis_pts_from_15(v) =~= axis_pts_from_15(v));
        lemma_axis_pts_read_15(v, c, f);
    }
}

proof fn lemma_axis_pts_read_13(v: AxisPtsView, c: Cur, f: Setting)
    requires
        AxisPts::fits(v, f),
        tokens_at(c.toks, c.pos, axis_pts_from_13(v)),
        c.pos + axis_pts_from_13(v).len() == c.toks.len(),
        toks_numbered(c.toks, f),
    ensures
        AxisPts::options(
            AxisPtsView {
                rec: RecordLayoutRefFieldsView { guard_rails: false, ..v.rec },
                monotony: MonotonyType::NotSet,
                deposit: DepositType::NotSet,
                children: Seq::empty(),
                ..v
            },
            c
        ) matches Ok((w, _)) && w == (AxisPtsView { children: Seq::empty(), ..v }),
{
    reveal(axis_pts_part_13);
    let t = axis_pts_part_13(v);
    if v.rec.guard_rails {
        lemma_tokens_at_split(c.toks, c.pos, t, axis_pts_from_14(v));
        let c2 = Cur { pos: c.pos + 1, ..c };
        lemma_axis_pts_step_13(
            AxisPtsView {
                rec: RecordLayoutRefFieldsView { guard_rails: false, ..v.rec },
                monotony: MonotonyType::NotSet,
                deposit: DepositType::NotSet,
                children: Seq::empty(),
                ..v
            },
            v,
            c,
            f
        );
        lemma_axis_pts_read_14(v, c2, f);
    } else {
        assert(t + axis_pts_from_14(v) =~= axis_pts_from_14(v));
        lemma_axis_pts_read_14(v, c, f);
    }
}

proof fn lemma_axis_pts_read_12(v: AxisPtsView, c: Cur, f: Setting)
    requires
        AxisPts::fits(v, f),
        tokens_at(c.toks, c.pos, axis_pts_from_12(v)),
        c.pos + axis_pts_from_12(v).len() == c.toks.len(),
        toks_numbered(c.toks, f),
    ensures
        AxisPts::options(
            AxisPtsView {
                rec: RecordLayoutRefFieldsView { step_size: None, guard_rails: false, ..v.rec },
                monotony: MonotonyType::NotSet,
                deposit: DepositType::NotSet,
                children: Seq::empty(),
                ..v
            },
            c
        ) matches Ok((w, _)) && w == (AxisPtsView { children: Seq::empty(), ..v }),
{
    reveal(axis_pts_part_12);
    let t = axis_pts_part_12(v);
    if v.rec.step_size is Some {
        lemma_tokens_at_split(c.toks, c.pos, t, axis_pts_from_13(v));
        let c2 = Cur { pos: c.pos + 2, ..c };
        lemma_axis_pts_step_12(
            AxisPtsView {
                rec: RecordLayoutRefFieldsView { step_size: None, guard_rails: false, ..v.rec },
                monotony: MonotonyType::NotSet,
                deposit: DepositType::NotSet,
                children: Seq::empty(),
                ..v
            },
            v,
            c,
            f
        );
        lemma_axis_pts_read_13(v, c2, f);
    } else {
        assert(t + axis_pts_from_13(v) =~= axis_pts_from_13(v));
        lemma_axis_pts_read_13(v, c, f);
    }
}

proof fn lemma_axis_pts_read_11(v: AxisPtsView, c: Cur, f: Setting)
    requires
        AxisPts::fits(v, f),
        tokens_at(c.toks, c.pos, axis_pts_from_11(v)),
        c.pos + axis_pts_from_11(v).len() == c.toks.len(),
        toks_numbered(c.toks, f),
    ensures
        AxisPts::options(
            AxisPtsView {
                rec: RecordLayoutRefFieldsView {
                    extended_limits: None,
                    step_size: None,
                    guard_rails: false,
                    ..v.rec
                },
                monotony: MonotonyType::NotSet,
                deposit: DepositType::NotSet,
                children: Seq::empty(),
                ..v
            },
            c
        ) matches Ok((w, _)) && w == (AxisPtsView { children: Seq::empty(), ..v }),
{
    reveal(axis_pts_part_11);
    let t = axis_pts_part_11(v);
    if v.rec.extended_limits is Some {
        lemma_tokens_at_split(c.toks, c.pos, t, axis_pts_from_12(v));
        let c2 = Cur { pos: c.pos + 3, ..c };
        lemma_axis_pts_step_11(
            AxisPtsView {
                rec: RecordLayoutRefFieldsView {
                    extended_limits: None,
                    step_size: None,
                    guard_rails: false,
                    ..v.rec
                },
                monotony: MonotonyType::NotSet,
                deposit: DepositType::NotSet,
                children: Seq::empty(),
                ..v
            },
            v,
            c,
            f
        );
        lemma_axis_pts_read_12(v, c2, f);
    } else {
        assert(t + axis_pts_from_12(v) =~= axis_pts_from_12(v));
        lemma_axis_pts_read_12(v, c, f);
    }
}

proof fn lemma_axis_pts_read_10(v: AxisPtsView, c: Cur, f: Setting)
    requires
        AxisPts::fits(v, f),
        tokens_at(c.toks, c.pos, axis_pts_from_10(v)),
        c.pos + axis_pts_from_10(v).len() == c.toks.len(),
        toks_numbered(c.toks, f),
    ensures
        AxisPts::options(
            AxisPtsView {
                rec: RecordLayoutRefFieldsView {
                    read_only: false,
                    extended_limits: None,
                    step_size: None,
                    guard_rails: false,
                    ..v.rec
                },
                monotony: MonotonyType::NotSet,
                deposit: DepositType::NotSet,
                children: Seq::empty(),
                ..v
            },
            c
        ) matches Ok((w, _)) && w == (AxisPtsView { children: Seq::empty(), ..v }),
{
    reveal(axis_pts_part_10);
    let t = axis_pts_part_10(v);
    if v.rec.read_only {
        lemma_tokens_at_split(c.toks, c.pos, t, axis_pts_from_11(v));
        let c2 = Cur { pos: c.pos + 1, ..c };
        lemma_axis_pts_step_10(
            AxisPtsView {
                rec: RecordLayoutRefFieldsView {
                    read_only: false,
                    extended_limits: None,
                    step_size: None,
                    guard_rails: false,
                    ..v.rec
                },
                monotony: MonotonyType::NotSet,
                deposit: DepositType::NotSet,
                children: Seq::empty(),
                ..v
            },
            v,
            c,
            f
        );
        lemma_axis_pts_read_11(v, c2, f);
    } else {
        assert(t + axis_pts_from_11(v) =~= axis_pts_from_11(v));
        lemma_axis_pts_read_11(v, c, f);
    }
}

proof fn lemma_axis_pts_read_9(v: AxisPtsView, c: Cur, f: Setting)
    requires
        AxisPts::fits(v, f),
        tokens_at(c.toks, c.pos, axis_pts_from_9(v)),
        c.pos + axis_pts_from_9(v).len() == c.toks.len(),
        toks_numbered(c.toks, f),
    ensures
        AxisPts::options(
            AxisPtsView {
                conv: ConversionRefFieldsView { memory_segment_ref: None, ..v.conv },
                rec: RecordLayoutRefFieldsView {
                    read_only: false,
                    extended_limits: None,
                    step_size: None,
                    guard_rails: false,
                    ..v.rec
                },
                monotony: MonotonyType::NotSet,
                deposit: DepositType::NotSet,
                children: Seq::empty(),
                ..v
            },
            c
        ) matches Ok((w, _)) && w == (AxisPtsView { children: Seq::empty(), ..v }),
{
    reveal(axis_pts_part_9);
    let t = axis_pts_part_9(v);
    if v.conv.memory_segment_ref is Some {
        lemma_tokens_at_split(c.toks, c.pos, t, axis_pts_from_10(v));
        let c2 = Cur { pos: c.pos + 2, ..c };
        lemma_axis_pts_step_9(
            AxisPtsView {
                conv: ConversionRefFieldsView { memory_segment_ref: None, ..v.conv },
                rec: RecordLayoutRefFieldsView {
                    read_only: false,
                    extended_limits: None,
                    step_size: None,
                    guard_rails: false,
                    ..v.rec
                },
                monotony: MonotonyType::NotSet,
                deposit: DepositType::NotSet,
                children: Seq::empty(),
                ..v
            },
            v,
            c,
            f
        );
        lemma_axis_pts_read_10(v, c2, f);
    } else {
        assert(t + axis_pts_from_10(v) =~= axis_pts_from_10(v));
        lemma_axis_pts_read_10(v, c, f);
    }
}

proof fn lemma_axis_pts_read_8(v: AxisPtsView, c: Cur, f: Setting)
    requires
        AxisPts::fits(v, f),
        tokens_at(c.toks, c.pos, axis_pts_from_8(v)),
        c.pos + axis_pts_from_8(v).len() == c.toks.len(),
        toks_numbered(c.toks, f),
    ensures
        AxisPts::options(
            AxisPtsView {
                conv: ConversionRefFieldsView {
                    byte_order: ByteOrder::NotSet,
                    memory_segment_ref: None,
                    ..v.conv
                },
                rec: RecordLayoutRefFieldsView {
                    read_only: false,
                    extended_limits: None,
                    step_size: None,
                    guard_rails: false,
                    ..v.rec
                },
                monotony: MonotonyType::NotSet,
                deposit: DepositType::NotSet,
                children: Seq::empty(),
                ..v
            },
            c
        ) matches Ok((w, _)) && w == (AxisPtsView { children: Seq::empty(), ..v }),
{
    reveal(axis_pts_part_8);
    let t = axis_pts_part_8(v);
    if v.conv.byte_order.word() is Some {
        lemma_tokens_at_split(c.toks, c.pos, t, axis_pts_from_9(v));
        let c2 = Cur { pos: c.pos + 2, ..c };
        lemma_axis_pts_step_8(
            AxisPtsView {
                conv: ConversionRefFieldsView {
                    byte_order: ByteOrder::NotSet,
                    memory_segment_ref: None,
                    ..v.conv
                },
                rec: RecordLayoutRefFieldsView {
                    read_only: false,
                    extended_limits: None,
                    step_size: None,
                    guard_rails: false,
                    ..v.rec
                },
                monotony: MonotonyType::NotSet,
                deposit: DepositType::NotSet,
                children: Seq::empty(),
                ..v
            },
            v,
            c,
            f
        );
        lemma_axis_pts_read_9(v, c2, f);
    } else {
        assert(t + axis_pts_from_9(v) =~= axis_pts_from_9(v));
        lemma_axis_pts_read_9(v, c, f);
    }
}

proof fn lemma_axis_pts_read_7(v: AxisPtsView, c: Cur, f: Setting)
    requires
        AxisPts::fits(v, f),
        tokens_at(c.toks, c.pos, axis_pts_from_7(v)),
        c.pos + axis_pts_from_7(v).len() == c.toks.len(),
        toks_numbered(c.toks, f),
    ensures
        AxisPts::options(
            AxisPtsView {
                conv: ConversionRefFieldsView {
                    phys_unit: None,
                    byte_order: ByteOrder::NotSet,
                    memory_segment_ref: None,
                    ..v.conv
                },
                rec: RecordLayoutRefFieldsView {
                    read_only: false,
                    extended_limits: None,
                    step_size: None,
                    guard_rails: false,
                    ..v.rec
                },
                monotony: MonotonyType::NotSet,
                deposit: DepositType::NotSet,
                children: Seq::empty(),
                ..v
            },
            c
        ) matches Ok((w, _)) && w == (AxisPtsView { children: Seq::empty(), ..v }),
{
    reveal(axis_pts_part_7);
    let t = axis_pts_part_7(v);
    if v.conv.phys_unit is Some {
        lemma_tokens_at_split(c.toks, c.pos, t, axis_pts_from_8(v));
        let c2 = Cur { pos: c.pos + 2, ..c };
        lemma_axis_pts_step_7(
            AxisPtsView {
                conv: ConversionRefFieldsView {
                    phys_unit: None,
                    byte_order: ByteOrder::NotSet,
                    memory_segment_ref: None,
                    ..v.conv
                },
                rec: RecordLayoutRefFieldsView {
                    read_only: false,
                    extended_limits: None,
                    step_size: None,
                    guard_rails: false,
                    ..v.rec
                },
                monotony: MonotonyType::NotSet,
                deposit: DepositType::NotSet,
                children: Seq::empty(),
                ..v
            },
            v,
            c,
            f
        );
        lemma_axis_pts_read_8(v, c2, f);
    } else {
        assert(t + axis_pts_from_8(v) =~= axis_pts_from_8(v));
        lemma_axis_pts_read_8(v, c, f);
    }
}

proof fn lemma_axis_pts_read_6(v: AxisPtsView, c: Cur, f: Setting)
    requires
        AxisPts::fits(v, f),
        tokens_at(c.toks, c.pos, axis_pts_from_6(v)),
        c.pos + axis_pts_from_6(v).len() == c.toks.len(),
        toks_numbered(c.toks, f),
    ensures
        AxisPts::options(
            AxisPtsView {
                conv: ConversionRefFieldsView {
                    format: None,
                    phys_unit: None,
                    byte_order: ByteOrder::NotSet,
                    memory_segment_ref: None,
                    ..v.conv
                },
                rec: RecordLayoutRefFieldsView {
                    read_only: false,
                    extended_limits: None,
                    step_size: None,
                    guard_rails: false,
                    ..v.rec
                },
                monotony: MonotonyType::NotSet,
                deposit: DepositType::NotSet,
                children: Seq::empty(),
                ..v
            },
            c
        ) matches Ok((w, _)) && w == (AxisPtsView { children: Seq::empty(), ..v }),
{
    reveal(axis_pts_part_6);
    let t = axis_pts_part_6(v);
    if v.conv.format is Some {
        lemma_tokens_at_split(c.toks, c.pos, t, axis_pts_from_7(v));
        let c2 = Cur { pos: c.pos + 2, ..c };
        lemma_axis_pts_step_6(
            AxisPtsView {
                conv: ConversionRefFieldsView {
                    format: None,
                    phys_unit: None,
                    byte_order: ByteOrder::NotSet,
                    memory_segment_ref: None,
                    ..v.conv
                },
                rec: RecordLayoutRefFieldsView {
                    read_only: false,
                    extended_limits: None,
                    step_size: None,
                    guard_rails: false,
                    ..v.rec
                },
                monotony: MonotonyType::NotSet,
                deposit: DepositType::NotSet,
                children: Seq::empty(),
                ..v
            },
            v,
            c,
            f
        );
        lemma_axis_pts_read_7(v, c2, f);
    } else {
        assert(t + axis_pts_from_7(v) =~= axis_pts_from_7(v));
        lemma_axis_pts_read_7(v, c, f);
    }
}

proof fn lemma_axis_pts_read_5(v: AxisPtsView, c: Cur, f: Setting)
    requires
        AxisPts::fits(v, f),
        tokens_at(c.toks, c.pos, axis_pts_from_5(v)),
        c.pos + axis_pts_from_5(v).len() == c.toks.len(),
        toks_numbered(c.toks, f),
    ensures
        AxisPts::options(
            AxisPtsView {
                addr: AddressFieldsView { model_link: None, ..v.addr },
                conv: ConversionRefFieldsView {
                    format: None,
                    phys_unit: None,
                    byte_order: ByteOrder::NotSet,
                    memory_segment_ref: None,
                    ..v.conv
                },
                rec: RecordLayoutRefFieldsView {
                    read_only: false,
                    extended_limits: None,
                    step_size: None,
                    guard_rails: false,
                    ..v.rec
                },
                monotony: MonotonyType::NotSet,
                deposit: DepositType::NotSet,
                children: Seq::empty(),
                ..v
            },
            c
        ) matches Ok((w, _)) && w == (AxisPtsView { children: Seq::empty(), ..v }),
{
    reveal(axis_pts_part_5);
    let t = axis_pts_part_5(v);
    if v.addr.model_link is Some {
        lemma_tokens_at_split(c.toks, c.pos, t, axis_pts_from_6(v));
        let c2 = Cur { pos: c.pos + 2, ..c };
        lemma_axis_pts_step_5(
            AxisPtsView {
                addr: AddressFieldsView { model_link: None, ..v.addr },
                conv: ConversionRefFieldsView {
                    format: None,
                    phys_unit: None,
                    byte_order: ByteOrder::NotSet,
                    memory_segment_ref: None,
                    ..v.conv
                },
                rec: RecordLayoutRefFieldsView {
                    read_only: false,
                    extended_limits: None,
                    step_size: None,
                    guard_rails: false,
                    ..v.rec
                },
                monotony: MonotonyType::NotSet,
                deposit: DepositType::NotSet,
                children: Seq::empty(),
                ..v
            },
            v,
            c,
            f
        );
        lemma_axis_pts_read_6(v, c2, f);
    } else {
        assert(t + axis_pts_from_6(v) =~= axis_pts_from_6(v));
        lemma_axis_pts_read_6(v, c, f);
    }
}

proof fn lemma_axis_pts_read_4(v: AxisPtsView, c: Cur, f: Setting)
    requires
        AxisPts::fits(v, f),
        tokens_at(c.toks, c.pos, axis_pts_from_4(v)),
        c.pos + axis_pts_from_4(v).len() == c.toks.len(),
        toks_numbered(c.toks, f),
    ensures
        AxisPts::options(
            AxisPtsView {
                addr: AddressFieldsView {
                    symbol_link: None,
                    symbol_offset: 0,
                    model_link: None,
                    ..v.addr
                },
                conv: ConversionRefFieldsView {
                    format: None,
                    phys_unit: None,
                    byte_order: ByteOrder::NotSet,
                    memory_segment_ref: None,
                    ..v.conv
                },
                rec: RecordLayoutRefFieldsView {
                    read_only: false,
                    extended_limits: None,
                    step_size: None,
                    guard_rails: false,
                    ..v.rec
                },
                monotony: MonotonyType::NotSet,
                deposit: DepositType::NotSet,
                children: Seq::empty(),
                ..v
            },
            c
        ) matches Ok((w, _)) && w == (AxisPtsView { children: Seq::empty(), ..v }),
{
    reveal(axis_pts_part_4);
    let t = axis_pts_part_4(v);
    if v.addr.symbol_link is Some {
        lemma_tokens_at_split(c.toks, c.pos, t, axis_pts_from_5(v));
        let c2 = Cur { pos: c.pos + 3, ..c };
        lemma_axis_pts_step_4(
            AxisPtsView {
                addr: AddressFieldsView {
                    symbol_link: None,
                    symbol_offset: 0,
                    model_link: None,
                    ..v.addr
                },
                conv: ConversionRefFieldsView {
                    format: None,
                    phys_unit: None,
                    byte_order: ByteOrder::NotSet,
                    memory_segment_ref: None,
                    ..v.conv
                },
                rec: RecordLayoutRefFieldsView {
                    read_only: false,
                    extended_limits: None,
                    step_size: None,
                    guard_rails: false,
                    ..v.rec
                },
                monotony: MonotonyType::NotSet,
                deposit: DepositType::NotSet,
                children: Seq::empty(),
                ..v
            },
            v,
            c,
            f
        );
        lemma_axis_pts_read_5(v, c2, f);
    } else {
        assert(t + axis_pts_from_5(v) =~= axis_pts_from_5(v));
        lemma_axis_pts_read_5(v, c, f);
    }
}

proof fn lemma_axis_pts_read_3(v: AxisPtsView, c: Cur, f: Setting)
    requires
        AxisPts::fits(v, f),
        tokens_at(c.toks, c.pos, axis_pts_from_3(v)),
        c.pos + axis_pts_from_3(v).len() == c.toks.len(),
        toks_numbered(c.toks, f),
    ensures
        AxisPts::options(
            AxisPtsView {
                addr: AddressFieldsView {
                    max_refresh_unit: None,
                    max_refresh_rate: 0,
                    symbol_link: None,
                    symbol_offset: 0,
                    model_link: None,
                    ..v.addr
                },
                conv: ConversionRefFieldsView {
                    format: None,
                    phys_unit: None,
                    byte_order: ByteOrder::NotSet,
                    memory_segment_ref: None,
                    ..v.conv
                },
                rec: RecordLayoutRefFieldsView {
                    read_only: false,
                    extended_limits: None,
                    step_size: None,
                    guard_rails: false,
                    ..v.rec
                },
                monotony: MonotonyType::NotSet,
                deposit: DepositType::NotSet,
                children: Seq::empty(),
                ..v
            },
            c
        ) matches Ok((w, _)) && w == (AxisPtsView { children: Seq::empty(), ..v }),
{
    reveal(axis_pts_part_3);
    let t = axis_pts_part_3(v);
    if v.addr.max_refresh_unit is Some {
        lemma_tokens_at_split(c.toks, c.pos, t, axis_pts_from_4(v));
        let c2 = Cur { pos: c.pos + 3, ..c };
        lemma_axis_pts_step_3(
            AxisPtsView {
                addr: AddressFieldsView {
                    max_refresh_unit: None,
                    max_refresh_rate: 0,
                    symbol_link: None,
                    symbol_offset: 0,
                    model_link: None,
                    ..v.addr
                },
                conv: ConversionRefFieldsView {
                    format: None,
                    phys_unit: None,
                    byte_order: ByteOrder::NotSet,
                    memory_segment_ref: None,
                    ..v.conv
                },
                rec: RecordLayoutRefFieldsView {
                    read_only: false,
                    extended_limits: None,
                    step_size: None,
                    guard_rails: false,
                    ..v.rec
                },
                monotony: MonotonyType::NotSet,
                deposit: DepositType::NotSet,
                children: Seq::empty(),
                ..v
            },
            v,
            c,
            f
        );
        lemma_axis_pts_read_4(v, c2, f);
    } else {
        assert(t + axis_pts_from_4(v) =~= axis_pts_from_4(v));
        lemma_axis_pts_read_4(v, c, f);
    }
}

proof fn lemma_axis_pts_read_2(v: AxisPtsView, c: Cur, f: Setting)
    requires
        AxisPts::fits(v, f),
        tokens_at(c.toks, c.pos, axis_pts_from_2(v)),
        c.pos + axis_pts_from_2(v).len() == c.toks.len(),
        toks_numbered(c.toks, f),
    ensures
        AxisPts::options(
            AxisPtsView {
                addr: AddressFieldsView {
                    calib_access: CalibrationAccess::NotSet,
                    max_refresh_unit: None,
                    max_refresh_rate: 0,
                    symbol_link: None,
                    symbol_offset: 0,
                    model_link: None,
                    ..v.addr
                },
                conv: ConversionRefFieldsView {
                    format: None,
                    phys_unit: None,
                    byte_order: ByteOrder::NotSet,
                    memory_segment_ref: None,
                    ..v.conv
                },
                rec: RecordLayoutRefFieldsView {
                    read_only: false,
                    extended_limits: None,
                    step_size: None,
                    guard_rails: false,
                    ..v.rec
                },
                monotony: MonotonyType::NotSet,
                deposit: DepositType::NotSet,
                children: Seq::empty(),
                ..v
            },
            c
        ) matches Ok((w, _)) && w == (AxisPtsView { children: Seq::empty(), ..v }),
{
    reveal(axis_pts_part_2);
    let t = axis_pts_part_2(v);
    if v.addr.calib_access.word() is Some {
        lemma_tokens_at_split(c.toks, c.pos, t, axis_pts_from_3(v));
        let c2 = Cur { pos: c.pos + 2, ..c };
        lemma_axis_pts_step_2(
            AxisPtsView {
                addr: AddressFieldsView {
                    calib_access: CalibrationAccess::NotSet,
                    max_refresh_unit: None,
                    max_refresh_rate: 0,
                    symbol_link: None,
                    symbol_offset: 0,
                    model_link: None,
                    ..v.addr
                },
                conv: ConversionRefFieldsView {
                    format: None,
                    phys_unit: None,
                    byte_order: ByteOrder::NotSet,
                    memory_segment_ref: None,
                    ..v.conv
                },
                rec: RecordLayoutRefFieldsView {
                    read_only: false,
                    extended_limits: None,
                    step_size: None,
                    guard_rails: false,
                    ..v.rec
                },
                monotony: MonotonyType::NotSet,
                deposit: DepositType::NotSet,
                children: Seq::empty(),
                ..v
            },
            v,
            c,
            f
        );
        lemma_axis_pts_read_3(v, c2, f);
    } else {
        assert(t + axis_pts_from_3(v) =~= axis_pts_from_3(v));
        lemma_axis_pts_read_3(v, c, f);
    }
}

proof fn lemma_axis_pts_read_1(v: AxisPtsView, c: Cur, f: Setting)
    requires
        AxisPts::fits(v, f),
        tokens_at(c.toks, c.pos, axis_pts_from_1(v)),
        c.pos + axis_pts_from_1(v).len() == c.toks.len(),
        toks_numbered(c.toks, f),
    ensures
        AxisPts::options(
            AxisPtsView {
                addr: AddressFieldsView {
                    display_name: None,
                    calib_access: CalibrationAccess::NotSet,
                    max_refresh_unit: None,
                    max_refresh_rate: 0,
                    symbol_link: None,
                    symbol_offset: 0,
                    model_link: None,
                    ..v.addr
                },
                conv: ConversionRefFieldsView {
                    format: None,
                    phys_unit: None,
                    byte_order: ByteOrder::NotSet,
                    memory_segment_ref: None,
                    ..v.conv
                },
                rec: RecordLayoutRefFieldsView {
                    read_only: false,
                    extended_limits: None,
                    step_size: None,
                    guard_rails: false,
                    ..v.rec
                },
                monotony: MonotonyType::NotSet,
                deposit: DepositType::NotSet,
                children: Seq::empty(),
                ..v
            },
            c
        ) matches Ok((w, _)) && w == (AxisPtsView { children: Seq::empty(), ..v }),
{
    reveal(axis_pts_part_1);
    let t = axis_pts_part_1(v);
    if v.addr.display_name is Some {
        lemma_tokens_at_split(c.toks, c.pos, t, axis_pts_from_2(v));
        let c2 = Cur { pos: c.pos + 2, ..c };
        lemma_axis_pts_step_1(
            AxisPtsView {
                addr: AddressFieldsView {
                    display_name: None,
                    calib_access: CalibrationAccess::NotSet,
                    max_refresh_unit: None,
                    max_refresh_rate: 0,
                    symbol_link: None,
                    symbol_offset: 0,
                    model_link: None,
                    ..v.addr
                },
                conv: ConversionRefFieldsView {
                    format: None,
                    phys_unit: None,
                    byte_order: ByteOrder::NotSet,
                    memory_segment_ref: None,
                    ..v.conv
                },
                rec: RecordLayoutRefFieldsView {
                    read_only: false,
                    extended_limits: None,
                    step_size: None,
                    guard_rails: false,
                    ..v.rec
                },
                monotony: MonotonyType::NotSet,
                deposit: DepositType::NotSet,
                children: Seq::empty(),
                ..v
            },
            v,
            c,
            f
        );
        lemma_axis_pts_read_2(v, c2, f);
    } else {
        assert(t + axis_pts_from_2(v) =~= axis_pts_from_2(v));
        lemma_axis_pts_read_2(v, c, f);
    }
}

proof fn lemma_axis_pts_read_0(v: AxisPtsView, c: Cur, f: Setting)
    requires
        AxisPts::fits(v, f),
        tokens_at(c.toks, c.pos, axis_pts_from_0(v)),
        c.pos + axis_pts_from_0(v).len() == c.toks.len(),
        toks_numbered(c.toks, f),
    ensures
        AxisPts::options(
            AxisPtsView {
                addr: AddressFieldsView {
                    address_extension: None,
                    display_name: None,
                    calib_access: CalibrationAccess::NotSet,
                    max_refresh_unit: None,
                    max_refresh_rate: 0,
                    symbol_link: None,
                    symbol_offset: 0,
                    model_link: None,
                    ..v.addr
                },
                conv: ConversionRefFieldsView {
                    format: None,
                    phys_unit: None,
                    byte_order: ByteOrder::NotSet,
                    memory_segment_ref: None,
                    ..v.conv
                },
                rec: RecordLayoutRefFieldsView {
                    read_only: false,
                    extended_limits: None,
                    step_size: None,
                    guard_rails: false,
                    ..v.rec
                },
                monotony: MonotonyType::NotSet,
                deposit: DepositType::NotSet,
                children: Seq::empty(),
                ..v
            },
            c
        ) matches Ok((w, _)) && w == (AxisPtsView { children: Seq::empty(), ..v }),
{
    reveal(axis_pts_part_0);
    let t = axis_pts_part_0(v);
    if v.addr.address_extension is Some {
        lemma_tokens_at_split(c.toks, c.pos, t, axis_pts_from_1(v));
        let c2 = Cur { pos: c.pos + 2, ..c };
        lemma_axis_pts_step_0(
            AxisPtsView {
                addr: AddressFieldsView {
                    address_extension: None,
                    display_name: None,
                    calib_access: CalibrationAccess::NotSet,
                    max_refresh_unit: None,
                    max_refresh_rate: 0,
                    symbol_link: None,
                    symbol_offset: 0,
                    model_link: None,
                    ..v.addr
                },
                conv: ConversionRefFieldsView {
                    format: None,
                    phys_unit: None,
                    byte_order: ByteOrder::NotSet,
                    memory_segment_ref: None,
                    ..v.conv
                },
                rec: RecordLayoutRefFieldsView {
                    read_only: false,
                    extended_limits: None,
                    step_size: None,
                    guard_rails: false,
                    ..v.rec
                },
                monotony: MonotonyType::NotSet,
                deposit: DepositType::NotSet,
                children: Seq::empty(),
                ..v
            },
            v,
            c,
            f
        );
        lemma_axis_pts_read_1(v, c2, f);
    } else {
        assert(t + axis_pts_from_1(v) =~= axis_pts_from_1(v));
        lemma_axis_pts_read_1(v, c, f);
    }
}

impl Faithful for AxisPts {
    open spec fn fits(v: AxisPtsView, f: Setting) -> bool {
        &&& is_param(plain(v.named.name))
        &&& v.named.description is Some
        &&& v.addr.address is Some
        &&& v.input_quantity is Some && is_param(plain(v.input_quantity->Some_0))
        &&& is_param(plain(v.rec.record_layout))
        &&& num_fits(v.rec.max_diff, f)
        &&& is_param(plain(v.conv.conversion))
        &&& num_fits(v.conv.lower_limit, f) && num_fits(v.conv.upper_limit, f)
        &&& (v.addr.display_name matches Some(x) ==> is_param(plain(x)))
        &&& (v.addr.max_refresh_unit is None ==> v.addr.max_refresh_rate == 0)
        &&& (
            match v.addr.symbol_link {
                Some(x) => x.len() > 0 && is_content(x),
                None => v.addr.symbol_offset == 0
            }
        )
        &&& (v.addr.model_link matches Some(x) ==> x.len() > 0)
        &&& (v.conv.format matches Some(x) ==> x.len() > 0)
        &&& (v.conv.phys_unit matches Some(x) ==> x.len() > 0)
        &&& (v.conv.memory_segment_ref matches Some(x) ==> is_param(plain(x)))
        &&& (v.rec.extended_limits matches Some(x) ==> num_fits(x.0, f) && num_fits(x.1, f))
        &&& (v.rec.step_size matches Some(x) ==> num_fits(x, f))
        &&& all_fit::<AxisPtsChild>(v.children, f)
    }

    open spec fn shape(v: AxisPtsView) -> Tree {
        shape_of("AXIS_PTS"@, axis_pts_head(v) + axis_pts_from_0(v), shapes::<AxisPtsChild>(v.children))
    }

    proof fn law_shown(v: AxisPtsView, p: Page, f: Setting) {
        reveal_strlit("AXIS_PTS");
        lemma_keyword_word("AXIS_PTS"@);
        reveal_strlit("AXIS_PTS ");
        reveal_strlit(" ");
        assert("AXIS_PTS "@ + v.named.name =~= "AXIS_PTS"@ + " "@ + v.named.name);
        lemma_spells_word("AXIS_PTS"@);
        lemma_spells_word(v.named.name);
        lemma_spells_join("AXIS_PTS"@, seq![plain("AXIS_PTS"@)], v.named.name, seq![plain(v.named.name)]);
        let h = seq![plain(v.named.name)];
        crate::a2l::tree_laws::lemma_shows_begin(p, "AXIS_PTS "@ + v.named.name, seq![plain("AXIS_PTS"@)] + h);
        let p0 = p.begin("AXIS_PTS "@ + v.named.name);
        lemma_axis_pts_body(v, p0, f);
        lemma_axis_pts_opening(v, p0, f);
        let p1 = axis_pts_opening(v, p0);
        lemma_axis_pts_shown_0(v, p1, f);
        let p2 = axis_pts_pages_0(v, p1);
        let hx = seq![
            string(escaped(v.named.description->Some_0)),
            plain(hex_form(v.addr.address->Some_0 as nat)),
            plain(v.input_quantity->Some_0),
            plain(v.rec.record_layout),
            plain(v.rec.max_diff.text),
            plain(v.conv.conversion),
            plain(dec_int(v.max_axis_points as int)),
            plain(v.conv.lower_limit.text),
            plain(v.conv.upper_limit.text)
        ];
        let from = axis_pts_from_0(v);
        lemma_shows_join(p0, p1, p2, hx, from);
        lemma_children_shown::<AxisPtsChild>(v.children, false, p2, f);
        lemma_shapes_sound::<AxisPtsChild>(v.children, p, f);
        let q = children_written::<AxisPtsChild>(v.children, 0, false, p2)->Ok_0;
        let kids = shapes::<AxisPtsChild>(v.children);
        let y = blocks_tokens(kids, 0);
        lemma_shows_join(p0, p2, q, hx + from, y);
        let x = axis_pts_head(v) + from;
        lemma_shape_tokens(x, kids);
        lemma_all_params_join(axis_pts_head(v), from);
        lemma_sound_shape("AXIS_PTS"@, x, kids);
        assert(axis_pts_head(v) =~= h + hx);
        assert(h + (hx + from + y) =~= x + y);
        lemma_shows_block(p, "AXIS_PTS "@ + v.named.name, h, "AXIS_PTS"@, q, hx + from + y, Self::shape(v));
    }

    proof fn law_parsed(v: AxisPtsView, tree: Tree, f: Setting) {
        let x = axis_pts_head(v) + axis_pts_from_0(v);
        let kids = shapes::<AxisPtsChild>(v.children);
        lemma_shape_found(tree, "AXIS_PTS"@, x, kids, f);
        let c = Cur::start(tree);
        lemma_tokens_at_split(c.toks, 0, axis_pts_head(v), axis_pts_from_0(v));
        lemma_axis_pts_head(v, c, f);
        let c1 = Cur { pos: 10, ..c };
        lemma_axis_pts_read_0(v, c1, f);
        lemma_children_read::<AxisPtsChild>(v.children, children_of(tree.items), f);
    }
}

} // verus!
