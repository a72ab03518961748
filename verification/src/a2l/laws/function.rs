//! Functions and groups read back from what is written for them.

use crate::a2l::block::{Tree, bare_tree, children_of};
use crate::a2l::error::Failure;
use crate::a2l::faithful::{
    Faithful, FaithfulChild, Setting, all_fit, all_params, blocks_tokens, is_keyword,
    lemma_all_params_join, lemma_children_read, lemma_children_shown, lemma_keyword_param,
    lemma_keyword_word, lemma_node_read, lemma_node_shown, lemma_ref_params, lemma_refs_read,
    lemma_refs_shown, lemma_shape_found, lemma_shape_tokens, lemma_shapes_sound, lemma_shows_block,
    lemma_shows_quote_line, lemma_shows_tagged, lemma_shows_word_line, lemma_sound_shape,
    lemma_string_param, ref_tokens, refs_fit, shape_of, shapes, toks_numbered,
};
use crate::a2l::model::annotation::Annotation;
use crate::a2l::model::function::{
    DefCharacteristic, DefCharacteristicView, DependentCharacteristic, DependentCharacteristicView,
    Function, FunctionChild, FunctionChildView, FunctionList, FunctionListView, FunctionView,
    Group, GroupChild, GroupChildView, GroupView, InMeasurement, InMeasurementView, LocMeasurement,
    LocMeasurementView, OutMeasurement, OutMeasurementView, RefCharacteristic,
    RefCharacteristicView, RefGroup, RefGroupView, RefMeasurement, RefMeasurementView, SubFunction,
    SubFunctionView, SubGroup, SubGroupView, Virtual, VirtualCharacteristic,
    VirtualCharacteristicView, VirtualView,
};
use crate::a2l::model::parts::children_written;
use crate::a2l::model::unsupported::UnsupportedNode;
use crate::a2l::node::Node;
use crate::a2l::params::Cur;
use crate::a2l::spell::{
    indents_by_blanks, is_content, law_unescaped_of_escaped, lemma_shows_join, lemma_shows_line,
    lemma_shows_nothing, lemma_spells_content, lemma_spells_join, lemma_spells_word, plain, shows,
    string,
};
use crate::a2l::token::{Tok, bare};
use crate::a2l::tree_laws::{is_param, lemma_shows_begin, lemma_tokens_at_split, tokens_at};
use crate::a2l::writer::{Page, escaped, Stopped};
use crate::text::{lemma_differ, lemma_same, same_ignore_case};
use vstd::prelude::*;

verus! {

/// The parameters of the block.
pub open spec fn def_characteristic_params(v: DefCharacteristicView) -> Seq<Tok> {
    Seq::<Tok>::empty() + (ref_tokens(v.references.references))
}

impl Faithful for DefCharacteristic {
    open spec fn fits(v: DefCharacteristicView, f: Setting) -> bool {
        &&& refs_fit(v.references.references)
    }

    open spec fn shape(v: DefCharacteristicView) -> Tree {
        shape_of("DEF_CHARACTERISTIC"@, def_characteristic_params(v), Seq::empty())
    }

    proof fn law_shown(v: DefCharacteristicView, p: Page, f: Setting) {
        reveal_strlit("DEF_CHARACTERISTIC");
        lemma_keyword_word("DEF_CHARACTERISTIC"@);
        let h = Seq::<Tok>::empty();
        let x = ref_tokens(v.references.references);
        lemma_spells_word("DEF_CHARACTERISTIC"@);
        assert(seq![plain("DEF_CHARACTERISTIC"@)] + h =~= seq![plain("DEF_CHARACTERISTIC"@)]);
        crate::a2l::tree_laws::lemma_shows_begin(p, "DEF_CHARACTERISTIC"@, seq![plain("DEF_CHARACTERISTIC"@)] + h);
        let p0 = p.begin("DEF_CHARACTERISTIC"@);
        lemma_refs_shown(p0, v.references.references);
        let q0 = p0.references(v.references.references);
        assert(shows(p0, q0, x));
        let q = q0;
        let kids = Seq::<Tree>::empty();
        let y = Seq::<Tok>::empty();
        assert(blocks_tokens(kids, 0) =~= y);
        assert(x + y =~= x);
        lemma_ref_params(v.references.references);
        assert(all_params(h));
        lemma_all_params_join(h, x);
        lemma_shape_tokens(h + x, kids);
        lemma_sound_shape("DEF_CHARACTERISTIC"@, h + x, kids);
        assert(h + (x + y) =~= h + x + y);
        assert(Self::body(v, p0) == Ok::<Page, Stopped>(q));
        lemma_shows_block(p, "DEF_CHARACTERISTIC"@, h, "DEF_CHARACTERISTIC"@, q, x + y, Self::shape(v));
    }

    proof fn law_parsed(v: DefCharacteristicView, tree: Tree, f: Setting) {
        let h = Seq::<Tok>::empty();
        let x = ref_tokens(v.references.references);
        let kids = Seq::<Tree>::empty();
        lemma_shape_found(tree, "DEF_CHARACTERISTIC"@, h + x, kids, f);
        let c = Cur::start(tree);
        lemma_tokens_at_split(c.toks, 0, h, x);
        lemma_refs_read(c, v.references.references);
    }
}

/// The parameters of the block.
pub open spec fn function_list_params(v: FunctionListView) -> Seq<Tok> {
    Seq::<Tok>::empty() + (ref_tokens(v.references.references))
}

impl Faithful for FunctionList {
    open spec fn fits(v: FunctionListView, f: Setting) -> bool {
        &&& refs_fit(v.references.references)
    }

    open spec fn shape(v: FunctionListView) -> Tree {
        shape_of("FUNCTION_LIST"@, function_list_params(v), Seq::empty())
    }

    proof fn law_shown(v: FunctionListView, p: Page, f: Setting) {
        reveal_strlit("FUNCTION_LIST");
        lemma_keyword_word("FUNCTION_LIST"@);
        let h = Seq::<Tok>::empty();
        let x = ref_tokens(v.references.references);
        lemma_spells_word("FUNCTION_LIST"@);
        assert(seq![plain("FUNCTION_LIST"@)] + h =~= seq![plain("FUNCTION_LIST"@)]);
        crate::a2l::tree_laws::lemma_shows_begin(p, "FUNCTION_LIST"@, seq![plain("FUNCTION_LIST"@)] + h);
        let p0 = p.begin("FUNCTION_LIST"@);
        lemma_refs_shown(p0, v.references.references);
        let q0 = p0.references(v.references.references);
        assert(shows(p0, q0, x));
        let q = q0;
        let kids = Seq::<Tree>::empty();
        let y = Seq::<Tok>::empty();
        assert(blocks_tokens(kids, 0) =~= y);
        assert(x + y =~= x);
        lemma_ref_params(v.references.references);
        assert(all_params(h));
        lemma_all_params_join(h, x);
        lemma_shape_tokens(h + x, kids);
        lemma_sound_shape("FUNCTION_LIST"@, h + x, kids);
        assert(h + (x + y) =~= h + x + y);
        assert(Self::body(v, p0) == Ok::<Page, Stopped>(q));
        lemma_shows_block(p, "FUNCTION_LIST"@, h, "FUNCTION_LIST"@, q, x + y, Self::shape(v));
    }

    proof fn law_parsed(v: FunctionListView, tree: Tree, f: Setting) {
        let h = Seq::<Tok>::empty();
        let x = ref_tokens(v.references.references);
        let kids = Seq::<Tree>::empty();
        lemma_shape_found(tree, "FUNCTION_LIST"@, h + x, kids, f);
        let c = Cur::start(tree);
        lemma_tokens_at_split(c.toks, 0, h, x);
        lemma_refs_read(c, v.references.references);
    }
}

/// The parameters of the block.
pub open spec fn in_measurement_params(v: InMeasurementView) -> Seq<Tok> {
    Seq::<Tok>::empty() + (ref_tokens(v.references.references))
}

impl Faithful for InMeasurement {
    open spec fn fits(v: InMeasurementView, f: Setting) -> bool {
        &&& refs_fit(v.references.references)
    }

    open spec fn shape(v: InMeasurementView) -> Tree {
        shape_of("IN_MEASUREMENT"@, in_measurement_params(v), Seq::empty())
    }

    proof fn law_shown(v: InMeasurementView, p: Page, f: Setting) {
        reveal_strlit("IN_MEASUREMENT");
        lemma_keyword_word("IN_MEASUREMENT"@);
        let h = Seq::<Tok>::empty();
        let x = ref_tokens(v.references.references);
        lemma_spells_word("IN_MEASUREMENT"@);
        assert(seq![plain("IN_MEASUREMENT"@)] + h =~= seq![plain("IN_MEASUREMENT"@)]);
        crate::a2l::tree_laws::lemma_shows_begin(p, "IN_MEASUREMENT"@, seq![plain("IN_MEASUREMENT"@)] + h);
        let p0 = p.begin("IN_MEASUREMENT"@);
        lemma_refs_shown(p0, v.references.references);
        let q0 = p0.references(v.references.references);
        assert(shows(p0, q0, x));
        let q = q0;
        let kids = Seq::<Tree>::empty();
        let y = Seq::<Tok>::empty();
        assert(blocks_tokens(kids, 0) =~= y);
        assert(x + y =~= x);
        lemma_ref_params(v.references.references);
        assert(all_params(h));
        lemma_all_params_join(h, x);
        lemma_shape_tokens(h + x, kids);
        lemma_sound_shape("IN_MEASUREMENT"@, h + x, kids);
        assert(h + (x + y) =~= h + x + y);
        assert(Self::body(v, p0) == Ok::<Page, Stopped>(q));
        lemma_shows_block(p, "IN_MEASUREMENT"@, h, "IN_MEASUREMENT"@, q, x + y, Self::shape(v));
    }

    proof fn law_parsed(v: InMeasurementView, tree: Tree, f: Setting) {
        let h = Seq::<Tok>::empty();
        let x = ref_tokens(v.references.references);
        let kids = Seq::<Tree>::empty();
        lemma_shape_found(tree, "IN_MEASUREMENT"@, h + x, kids, f);
        let c = Cur::start(tree);
        lemma_tokens_at_split(c.toks, 0, h, x);
        lemma_refs_read(c, v.references.references);
    }
}

/// The parameters of the block.
pub open spec fn loc_measurement_params(v: LocMeasurementView) -> Seq<Tok> {
    Seq::<Tok>::empty() + (ref_tokens(v.references.references))
}

impl Faithful for LocMeasurement {
    open spec fn fits(v: LocMeasurementView, f: Setting) -> bool {
        &&& refs_fit(v.references.references)
    }

    open spec fn shape(v: LocMeasurementView) -> Tree {
        shape_of("LOC_MEASUREMENT"@, loc_measurement_params(v), Seq::empty())
    }

    proof fn law_shown(v: LocMeasurementView, p: Page, f: Setting) {
        reveal_strlit("LOC_MEASUREMENT");
        lemma_keyword_word("LOC_MEASUREMENT"@);
        let h = Seq::<Tok>::empty();
        let x = ref_tokens(v.references.references);
        lemma_spells_word("LOC_MEASUREMENT"@);
        assert(seq![plain("LOC_MEASUREMENT"@)] + h =~= seq![plain("LOC_MEASUREMENT"@)]);
        crate::a2l::tree_laws::lemma_shows_begin(p, "LOC_MEASUREMENT"@, seq![plain("LOC_MEASUREMENT"@)] + h);
        let p0 = p.begin("LOC_MEASUREMENT"@);
        lemma_refs_shown(p0, v.references.references);
        let q0 = p0.references(v.references.references);
        assert(shows(p0, q0, x));
        let q = q0;
        let kids = Seq::<Tree>::empty();
        let y = Seq::<Tok>::empty();
        assert(blocks_tokens(kids, 0) =~= y);
        assert(x + y =~= x);
        lemma_ref_params(v.references.references);
        assert(all_params(h));
        lemma_all_params_join(h, x);
        lemma_shape_tokens(h + x, kids);
        lemma_sound_shape("LOC_MEASUREMENT"@, h + x, kids);
        assert(h + (x + y) =~= h + x + y);
        assert(Self::body(v, p0) == Ok::<Page, Stopped>(q));
        lemma_shows_block(p, "LOC_MEASUREMENT"@, h, "LOC_MEASUREMENT"@, q, x + y, Self::shape(v));
    }

    proof fn law_parsed(v: LocMeasurementView, tree: Tree, f: Setting) {
        let h = Seq::<Tok>::empty();
        let x = ref_tokens(v.references.references);
        let kids = Seq::<Tree>::empty();
        lemma_shape_found(tree, "LOC_MEASUREMENT"@, h + x, kids, f);
        let c = Cur::start(tree);
        lemma_tokens_at_split(c.toks, 0, h, x);
        lemma_refs_read(c, v.references.references);
    }
}

/// The parameters of the block.
pub open spec fn out_measurement_params(v: OutMeasurementView) -> Seq<Tok> {
    Seq::<Tok>::empty() + (ref_tokens(v.references.references))
}

impl Faithful for OutMeasurement {
    open spec fn fits(v: OutMeasurementView, f: Setting) -> bool {
        &&& refs_fit(v.references.references)
    }

    open spec fn shape(v: OutMeasurementView) -> Tree {
        shape_of("OUT_MEASUREMENT"@, out_measurement_params(v), Seq::empty())
    }

    proof fn law_shown(v: OutMeasurementView, p: Page, f: Setting) {
        reveal_strlit("OUT_MEASUREMENT");
        lemma_keyword_word("OUT_MEASUREMENT"@);
        let h = Seq::<Tok>::empty();
        let x = ref_tokens(v.references.references);
        lemma_spells_word("OUT_MEASUREMENT"@);
        assert(seq![plain("OUT_MEASUREMENT"@)] + h =~= seq![plain("OUT_MEASUREMENT"@)]);
        crate::a2l::tree_laws::lemma_shows_begin(p, "OUT_MEASUREMENT"@, seq![plain("OUT_MEASUREMENT"@)] + h);
        let p0 = p.begin("OUT_MEASUREMENT"@);
        lemma_refs_shown(p0, v.references.references);
        let q0 = p0.references(v.references.references);
        assert(shows(p0, q0, x));
        let q = q0;
        let kids = Seq::<Tree>::empty();
        let y = Seq::<Tok>::empty();
        assert(blocks_tokens(kids, 0) =~= y);
        assert(x + y =~= x);
        lemma_ref_params(v.references.references);
        assert(all_params(h));
        lemma_all_params_join(h, x);
        lemma_shape_tokens(h + x, kids);
        lemma_sound_shape("OUT_MEASUREMENT"@, h + x, kids);
        assert(h + (x + y) =~= h + x + y);
        assert(Self::body(v, p0) == Ok::<Page, Stopped>(q));
        lemma_shows_block(p, "OUT_MEASUREMENT"@, h, "OUT_MEASUREMENT"@, q, x + y, Self::shape(v));
    }

    proof fn law_parsed(v: OutMeasurementView, tree: Tree, f: Setting) {
        let h = Seq::<Tok>::empty();
        let x = ref_tokens(v.references.references);
        let kids = Seq::<Tree>::empty();
        lemma_shape_found(tree, "OUT_MEASUREMENT"@, h + x, kids, f);
        let c = Cur::start(tree);
        lemma_tokens_at_split(c.toks, 0, h, x);
        lemma_refs_read(c, v.references.references);
    }
}

/// The parameters of the block.
pub open spec fn ref_characteristic_params(v: RefCharacteristicView) -> Seq<Tok> {
    Seq::<Tok>::empty() + (ref_tokens(v.references.references))
}

impl Faithful for RefCharacteristic {
    open spec fn fits(v: RefCharacteristicView, f: Setting) -> bool {
        &&& refs_fit(v.references.references)
    }

    open spec fn shape(v: RefCharacteristicView) -> Tree {
        shape_of("REF_CHARACTERISTIC"@, ref_characteristic_params(v), Seq::empty())
    }

    proof fn law_shown(v: RefCharacteristicView, p: Page, f: Setting) {
        reveal_strlit("REF_CHARACTERISTIC");
        lemma_keyword_word("REF_CHARACTERISTIC"@);
        let h = Seq::<Tok>::empty();
        let x = ref_tokens(v.references.references);
        lemma_spells_word("REF_CHARACTERISTIC"@);
        assert(seq![plain("REF_CHARACTERISTIC"@)] + h =~= seq![plain("REF_CHARACTERISTIC"@)]);
        crate::a2l::tree_laws::lemma_shows_begin(p, "REF_CHARACTERISTIC"@, seq![plain("REF_CHARACTERISTIC"@)] + h);
        let p0 = p.begin("REF_CHARACTERISTIC"@);
        lemma_refs_shown(p0, v.references.references);
        let q0 = p0.references(v.references.references);
        assert(shows(p0, q0, x));
        let q = q0;
        let kids = Seq::<Tree>::empty();
        let y = Seq::<Tok>::empty();
        assert(blocks_tokens(kids, 0) =~= y);
        assert(x + y =~= x);
        lemma_ref_params(v.references.references);
        assert(all_params(h));
        lemma_all_params_join(h, x);
        lemma_shape_tokens(h + x, kids);
        lemma_sound_shape("REF_CHARACTERISTIC"@, h + x, kids);
        assert(h + (x + y) =~= h + x + y);
        assert(Self::body(v, p0) == Ok::<Page, Stopped>(q));
        lemma_shows_block(p, "REF_CHARACTERISTIC"@, h, "REF_CHARACTERISTIC"@, q, x + y, Self::shape(v));
    }

    proof fn law_parsed(v: RefCharacteristicView, tree: Tree, f: Setting) {
        let h = Seq::<Tok>::empty();
        let x = ref_tokens(v.references.references);
        let kids = Seq::<Tree>::empty();
        lemma_shape_found(tree, "REF_CHARACTERISTIC"@, h + x, kids, f);
        let c = Cur::start(tree);
        lemma_tokens_at_split(c.toks, 0, h, x);
        lemma_refs_read(c, v.references.references);
    }
}

/// The parameters of the block.
pub open spec fn ref_group_params(v: RefGroupView) -> Seq<Tok> {
    Seq::<Tok>::empty() + (ref_tokens(v.references.references))
}

impl Faithful for RefGroup {
    open spec fn fits(v: RefGroupView, f: Setting) -> bool {
        &&& refs_fit(v.references.references)
    }

    open spec fn shape(v: RefGroupView) -> Tree {
        shape_of("REF_GROUP"@, ref_group_params(v), Seq::empty())
    }

    proof fn law_shown(v: RefGroupView, p: Page, f: Setting) {
        reveal_strlit("REF_GROUP");
        lemma_keyword_word("REF_GROUP"@);
        let h = Seq::<Tok>::empty();
        let x = ref_tokens(v.references.references);
        lemma_spells_word("REF_GROUP"@);
        assert(seq![plain("REF_GROUP"@)] + h =~= seq![plain("REF_GROUP"@)]);
        crate::a2l::tree_laws::lemma_shows_begin(p, "REF_GROUP"@, seq![plain("REF_GROUP"@)] + h);
        let p0 = p.begin("REF_GROUP"@);
        lemma_refs_shown(p0, v.references.references);
        let q0 = p0.references(v.references.references);
        assert(shows(p0, q0, x));
        let q = q0;
        let kids = Seq::<Tree>::empty();
        let y = Seq::<Tok>::empty();
        assert(blocks_tokens(kids, 0) =~= y);
        assert(x + y =~= x);
        lemma_ref_params(v.references.references);
        assert(all_params(h));
        lemma_all_params_join(h, x);
        lemma_shape_tokens(h + x, kids);
        lemma_sound_shape("REF_GROUP"@, h + x, kids);
        assert(h + (x + y) =~= h + x + y);
        assert(Self::body(v, p0) == Ok::<Page, Stopped>(q));
        lemma_shows_block(p, "REF_GROUP"@, h, "REF_GROUP"@, q, x + y, Self::shape(v));
    }

    proof fn law_parsed(v: RefGroupView, tree: Tree, f: Setting) {
        let h = Seq::<Tok>::empty();
        let x = ref_tokens(v.references.references);
        let kids = Seq::<Tree>::empty();
        lemma_shape_found(tree, "REF_GROUP"@, h + x, kids, f);
        let c = Cur::start(tree);
        lemma_tokens_at_split(c.toks, 0, h, x);
        lemma_refs_read(c, v.references.references);
    }
}

/// The parameters of the block.
pub open spec fn ref_measurement_params(v: RefMeasurementView) -> Seq<Tok> {
    Seq::<Tok>::empty() + (ref_tokens(v.references.references))
}

impl Faithful for RefMeasurement {
    open spec fn fits(v: RefMeasurementView, f: Setting) -> bool {
        &&& refs_fit(v.references.references)
    }

    open spec fn shape(v: RefMeasurementView) -> Tree {
        shape_of("REF_MEASUREMENT"@, ref_measurement_params(v), Seq::empty())
    }

    proof fn law_shown(v: RefMeasurementView, p: Page, f: Setting) {
        reveal_strlit("REF_MEASUREMENT");
        lemma_keyword_word("REF_MEASUREMENT"@);
        let h = Seq::<Tok>::empty();
        let x = ref_tokens(v.references.references);
        lemma_spells_word("REF_MEASUREMENT"@);
        assert(seq![plain("REF_MEASUREMENT"@)] + h =~= seq![plain("REF_MEASUREMENT"@)]);
        crate::a2l::tree_laws::lemma_shows_begin(p, "REF_MEASUREMENT"@, seq![plain("REF_MEASUREMENT"@)] + h);
        let p0 = p.begin("REF_MEASUREMENT"@);
        lemma_refs_shown(p0, v.references.references);
        let q0 = p0.references(v.references.references);
        assert(shows(p0, q0, x));
        let q = q0;
        let kids = Seq::<Tree>::empty();
        let y = Seq::<Tok>::empty();
        assert(blocks_tokens(kids, 0) =~= y);
        assert(x + y =~= x);
        lemma_ref_params(v.references.references);
        assert(all_params(h));
        lemma_all_params_join(h, x);
        lemma_shape_tokens(h + x, kids);
        lemma_sound_shape("REF_MEASUREMENT"@, h + x, kids);
        assert(h + (x + y) =~= h + x + y);
        assert(Self::body(v, p0) == Ok::<Page, Stopped>(q));
        lemma_shows_block(p, "REF_MEASUREMENT"@, h, "REF_MEASUREMENT"@, q, x + y, Self::shape(v));
    }

    proof fn law_parsed(v: RefMeasurementView, tree: Tree, f: Setting) {
        let h = Seq::<Tok>::empty();
        let x = ref_tokens(v.references.references);
        let kids = Seq::<Tree>::empty();
        lemma_shape_found(tree, "REF_MEASUREMENT"@, h + x, kids, f);
        let c = Cur::start(tree);
        lemma_tokens_at_split(c.toks, 0, h, x);
        lemma_refs_read(c, v.references.references);
    }
}

/// The parameters of the block.
pub open spec fn sub_function_params(v: SubFunctionView) -> Seq<Tok> {
    Seq::<Tok>::empty() + (ref_tokens(v.references.references))
}

impl Faithful for SubFunction {
    open spec fn fits(v: SubFunctionView, f: Setting) -> bool {
        &&& refs_fit(v.references.references)
    }

    open spec fn shape(v: SubFunctionView) -> Tree {
        shape_of("SUB_FUNCTION"@, sub_function_params(v), Seq::empty())
    }

    proof fn law_shown(v: SubFunctionView, p: Page, f: Setting) {
        reveal_strlit("SUB_FUNCTION");
        lemma_keyword_word("SUB_FUNCTION"@);
        let h = Seq::<Tok>::empty();
        let x = ref_tokens(v.references.references);
        lemma_spells_word("SUB_FUNCTION"@);
        assert(seq![plain("SUB_FUNCTION"@)] + h =~= seq![plain("SUB_FUNCTION"@)]);
        crate::a2l::tree_laws::lemma_shows_begin(p, "SUB_FUNCTION"@, seq![plain("SUB_FUNCTION"@)] + h);
        let p0 = p.begin("SUB_FUNCTION"@);
        lemma_refs_shown(p0, v.references.references);
        let q0 = p0.references(v.references.references);
        assert(shows(p0, q0, x));
        let q = q0;
        let kids = Seq::<Tree>::empty();
        let y = Seq::<Tok>::empty();
        assert(blocks_tokens(kids, 0) =~= y);
        assert(x + y =~= x);
        lemma_ref_params(v.references.references);
        assert(all_params(h));
        lemma_all_params_join(h, x);
        lemma_shape_tokens(h + x, kids);
        lemma_sound_shape("SUB_FUNCTION"@, h + x, kids);
        assert(h + (x + y) =~= h + x + y);
        assert(Self::body(v, p0) == Ok::<Page, Stopped>(q));
        lemma_shows_block(p, "SUB_FUNCTION"@, h, "SUB_FUNCTION"@, q, x + y, Self::shape(v));
    }

    proof fn law_parsed(v: SubFunctionView, tree: Tree, f: Setting) {
        let h = Seq::<Tok>::empty();
        let x = ref_tokens(v.references.references);
        let kids = Seq::<Tree>::empty();
        lemma_shape_found(tree, "SUB_FUNCTION"@, h + x, kids, f);
        let c = Cur::start(tree);
        lemma_tokens_at_split(c.toks, 0, h, x);
        lemma_refs_read(c, v.references.references);
    }
}

/// The parameters of the block.
pub open spec fn sub_group_params(v: SubGroupView) -> Seq<Tok> {
    Seq::<Tok>::empty() + (ref_tokens(v.references.references))
}

impl Faithful for SubGroup {
    open spec fn fits(v: SubGroupView, f: Setting) -> bool {
        &&& refs_fit(v.references.references)
    }

    open spec fn shape(v: SubGroupView) -> Tree {
        shape_of("SUB_GROUP"@, sub_group_params(v), Seq::empty())
    }

    proof fn law_shown(v: SubGroupView, p: Page, f: Setting) {
        reveal_strlit("SUB_GROUP");
        lemma_keyword_word("SUB_GROUP"@);
        let h = Seq::<Tok>::empty();
        let x = ref_tokens(v.references.references);
        lemma_spells_word("SUB_GROUP"@);
        assert(seq![plain("SUB_GROUP"@)] + h =~= seq![plain("SUB_GROUP"@)]);
        crate::a2l::tree_laws::lemma_shows_begin(p, "SUB_GROUP"@, seq![plain("SUB_GROUP"@)] + h);
        let p0 = p.begin("SUB_GROUP"@);
        lemma_refs_shown(p0, v.references.references);
        let q0 = p0.references(v.references.references);
        assert(shows(p0, q0, x));
        let q = q0;
        let kids = Seq::<Tree>::empty();
        let y = Seq::<Tok>::empty();
        assert(blocks_tokens(kids, 0) =~= y);
        assert(x + y =~= x);
        lemma_ref_params(v.references.references);
        assert(all_params(h));
        lemma_all_params_join(h, x);
        lemma_shape_tokens(h + x, kids);
        lemma_sound_shape("SUB_GROUP"@, h + x, kids);
        assert(h + (x + y) =~= h + x + y);
        assert(Self::body(v, p0) == Ok::<Page, Stopped>(q));
        lemma_shows_block(p, "SUB_GROUP"@, h, "SUB_GROUP"@, q, x + y, Self::shape(v));
    }

    proof fn law_parsed(v: SubGroupView, tree: Tree, f: Setting) {
        let h = Seq::<Tok>::empty();
        let x = ref_tokens(v.references.references);
        let kids = Seq::<Tree>::empty();
        lemma_shape_found(tree, "SUB_GROUP"@, h + x, kids, f);
        let c = Cur::start(tree);
        lemma_tokens_at_split(c.toks, 0, h, x);
        lemma_refs_read(c, v.references.references);
    }
}

/// The parameters of the block.
pub open spec fn virtual_params(v: VirtualView) -> Seq<Tok> {
    Seq::<Tok>::empty() + (ref_tokens(v.references.references))
}

impl Faithful for Virtual {
    open spec fn fits(v: VirtualView, f: Setting) -> bool {
        &&& refs_fit(v.references.references)
    }

    open spec fn shape(v: VirtualView) -> Tree {
        shape_of("VIRTUAL"@, virtual_params(v), Seq::empty())
    }

    proof fn law_shown(v: VirtualView, p: Page, f: Setting) {
        reveal_strlit("VIRTUAL");
        lemma_keyword_word("VIRTUAL"@);
        let h = Seq::<Tok>::empty();
        let x = ref_tokens(v.references.references);
        lemma_spells_word("VIRTUAL"@);
        assert(seq![plain("VIRTUAL"@)] + h =~= seq![plain("VIRTUAL"@)]);
        crate::a2l::tree_laws::lemma_shows_begin(p, "VIRTUAL"@, seq![plain("VIRTUAL"@)] + h);
        let p0 = p.begin("VIRTUAL"@);
        lemma_refs_shown(p0, v.references.references);
        let q0 = p0.references(v.references.references);
        assert(shows(p0, q0, x));
        let q = q0;
        let kids = Seq::<Tree>::empty();
        let y = Seq::<Tok>::empty();
        assert(blocks_tokens(kids, 0) =~= y);
        assert(x + y =~= x);
        lemma_ref_params(v.references.references);
        assert(all_params(h));
        lemma_all_params_join(h, x);
        lemma_shape_tokens(h + x, kids);
        lemma_sound_shape("VIRTUAL"@, h + x, kids);
        assert(h + (x + y) =~= h + x + y);
        assert(Self::body(v, p0) == Ok::<Page, Stopped>(q));
        lemma_shows_block(p, "VIRTUAL"@, h, "VIRTUAL"@, q, x + y, Self::shape(v));
    }

    proof fn law_parsed(v: VirtualView, tree: Tree, f: Setting) {
        let h = Seq::<Tok>::empty();
        let x = ref_tokens(v.references.references);
        let kids = Seq::<Tree>::empty();
        lemma_shape_found(tree, "VIRTUAL"@, h + x, kids, f);
        let c = Cur::start(tree);
        lemma_tokens_at_split(c.toks, 0, h, x);
        lemma_refs_read(c, v.references.references);
    }
}

/// The parameters of the block.
pub open spec fn dependent_characteristic_params(v: DependentCharacteristicView) -> Seq<Tok> {
    Seq::<Tok>::empty() + (seq![string(v.formula)] + ref_tokens(v.references.references))
}

impl Faithful for DependentCharacteristic {
    open spec fn fits(v: DependentCharacteristicView, f: Setting) -> bool {
        &&& is_content(v.formula)
        &&& refs_fit(v.references.references)
    }

    open spec fn shape(v: DependentCharacteristicView) -> Tree {
        shape_of("DEPENDENT_CHARACTERISTIC"@, dependent_characteristic_params(v), Seq::empty())
    }

    proof fn law_shown(v: DependentCharacteristicView, p: Page, f: Setting) {
        reveal_strlit("DEPENDENT_CHARACTERISTIC");
        lemma_keyword_word("DEPENDENT_CHARACTERISTIC"@);
        let h = Seq::<Tok>::empty();
        let x = seq![string(v.formula)] + ref_tokens(v.references.references);
        lemma_spells_word("DEPENDENT_CHARACTERISTIC"@);
        assert(seq![plain("DEPENDENT_CHARACTERISTIC"@)] + h =~= seq![plain("DEPENDENT_CHARACTERISTIC"@)]);
        crate::a2l::tree_laws::lemma_shows_begin(
            p,
            "DEPENDENT_CHARACTERISTIC"@,
            seq![plain("DEPENDENT_CHARACTERISTIC"@)] + h
        );
        let p0 = p.begin("DEPENDENT_CHARACTERISTIC"@);
        lemma_spells_content(v.formula);
        lemma_shows_line(p0, "\""@ + v.formula + "\""@, seq![string(v.formula)]);
        let p1 = p0.line("\""@ + v.formula + "\""@);
        lemma_refs_shown(p1, v.references.references);
        let q0 = p1.references(v.references.references);
        lemma_shows_join(p0, p1, q0, seq![string(v.formula)], ref_tokens(v.references.references));
        assert(shows(p0, q0, x));
        let q = q0;
        let kids = Seq::<Tree>::empty();
        let y = Seq::<Tok>::empty();
        assert(blocks_tokens(kids, 0) =~= y);
        assert(x + y =~= x);
        lemma_ref_params(v.references.references);
        assert(all_params(seq![string(v.formula)]));
        lemma_all_params_join(seq![string(v.formula)], ref_tokens(v.references.references));
        assert(all_params(h));
        lemma_all_params_join(h, x);
        lemma_shape_tokens(h + x, kids);
        lemma_sound_shape("DEPENDENT_CHARACTERISTIC"@, h + x, kids);
        assert(h + (x + y) =~= h + x + y);
        assert(Self::body(v, p0) == Ok::<Page, Stopped>(q));
        lemma_shows_block(
            p,
            "DEPENDENT_CHARACTERISTIC"@,
            h,
            "DEPENDENT_CHARACTERISTIC"@,
            q,
            x + y,
            Self::shape(v)
        );
    }

    proof fn law_parsed(v: DependentCharacteristicView, tree: Tree, f: Setting) {
        let h = Seq::<Tok>::empty();
        let x = seq![string(v.formula)] + ref_tokens(v.references.references);
        let kids = Seq::<Tree>::empty();
        lemma_shape_found(tree, "DEPENDENT_CHARACTERISTIC"@, h + x, kids, f);
        let c = Cur::start(tree);
        lemma_tokens_at_split(c.toks, 0, h, x);
        lemma_tokens_at_split(c.toks, 0, seq![string(v.formula)], ref_tokens(v.references.references));
        assert(bare(c.toks[0int + 0]) == seq![string(v.formula)][0]);
        lemma_refs_read(c.step(), v.references.references);
    }
}

/// The parameters of the block.
pub open spec fn virtual_characteristic_params(v: VirtualCharacteristicView) -> Seq<Tok> {
    Seq::<Tok>::empty() + (seq![string(v.formula)] + ref_tokens(v.references.references))
}

impl Faithful for VirtualCharacteristic {
    open spec fn fits(v: VirtualCharacteristicView, f: Setting) -> bool {
        &&& is_content(v.formula)
        &&& refs_fit(v.references.references)
    }

    open spec fn shape(v: VirtualCharacteristicView) -> Tree {
        shape_of("VIRTUAL_CHARACTERISTIC"@, virtual_characteristic_params(v), Seq::empty())
    }

    proof fn law_shown(v: VirtualCharacteristicView, p: Page, f: Setting) {
        reveal_strlit("VIRTUAL_CHARACTERISTIC");
        lemma_keyword_word("VIRTUAL_CHARACTERISTIC"@);
        let h = Seq::<Tok>::empty();
        let x = seq![string(v.formula)] + ref_tokens(v.references.references);
        lemma_spells_word("VIRTUAL_CHARACTERISTIC"@);
        assert(seq![plain("VIRTUAL_CHARACTERISTIC"@)] + h =~= seq![plain("VIRTUAL_CHARACTERISTIC"@)]);
        crate::a2l::tree_laws::lemma_shows_begin(
            p,
            "VIRTUAL_CHARACTERISTIC"@,
            seq![plain("VIRTUAL_CHARACTERISTIC"@)] + h
        );
        let p0 = p.begin("VIRTUAL_CHARACTERISTIC"@);
        lemma_spells_content(v.formula);
        lemma_shows_line(p0, "\""@ + v.formula + "\""@, seq![string(v.formula)]);
        let p1 = p0.line("\""@ + v.formula + "\""@);
        lemma_refs_shown(p1, v.references.references);
        let q0 = p1.references(v.references.references);
        lemma_shows_join(p0, p1, q0, seq![string(v.formula)], ref_tokens(v.references.references));
        assert(shows(p0, q0, x));
        let q = q0;
        let kids = Seq::<Tree>::empty();
        let y = Seq::<Tok>::empty();
        assert(blocks_tokens(kids, 0) =~= y);
        assert(x + y =~= x);
        lemma_ref_params(v.references.references);
        assert(all_params(seq![string(v.formula)]));
        lemma_all_params_join(seq![string(v.formula)], ref_tokens(v.references.references));
        assert(all_params(h));
        lemma_all_params_join(h, x);
        lemma_shape_tokens(h + x, kids);
        lemma_sound_shape("VIRTUAL_CHARACTERISTIC"@, h + x, kids);
        assert(h + (x + y) =~= h + x + y);
        assert(Self::body(v, p0) == Ok::<Page, Stopped>(q));
        lemma_shows_block(p, "VIRTUAL_CHARACTERISTIC"@, h, "VIRTUAL_CHARACTERISTIC"@, q, x + y, Self::shape(v));
    }

    proof fn law_parsed(v: VirtualCharacteristicView, tree: Tree, f: Setting) {
        let h = Seq::<Tok>::empty();
        let x = seq![string(v.formula)] + ref_tokens(v.references.references);
        let kids = Seq::<Tree>::empty();
        lemma_shape_found(tree, "VIRTUAL_CHARACTERISTIC"@, h + x, kids, f);
        let c = Cur::start(tree);
        lemma_tokens_at_split(c.toks, 0, h, x);
        lemma_tokens_at_split(c.toks, 0, seq![string(v.formula)], ref_tokens(v.references.references));
        assert(bare(c.toks[0int + 0]) == seq![string(v.formula)][0]);
        lemma_refs_read(c.step(), v.references.references);
    }
}

impl FaithfulChild for FunctionChild {
    open spec fn fits(v: FunctionChildView, f: Setting) -> bool {
        match v {
            FunctionChildView::Annotation(n) => <Annotation as Faithful>::fits(n, f),
            FunctionChildView::DefCharacteristic(n) => <DefCharacteristic as Faithful>::fits(n, f),
            FunctionChildView::RefCharacteristic(n) => <RefCharacteristic as Faithful>::fits(n, f),
            FunctionChildView::InMeasurement(n) => <InMeasurement as Faithful>::fits(n, f),
            FunctionChildView::LocMeasurement(n) => <LocMeasurement as Faithful>::fits(n, f),
            FunctionChildView::OutMeasurement(n) => <OutMeasurement as Faithful>::fits(n, f),
            FunctionChildView::VirtualCharacteristic(n) => <VirtualCharacteristic as Faithful>::fits(n, f),
            FunctionChildView::SubFunction(n) => <SubFunction as Faithful>::fits(n, f),
            FunctionChildView::Unsupported(n) => <UnsupportedNode as FaithfulChild>::fits(n, f) && !same_ignore_case(n.keyword, "ANNOTATION"@) && !same_ignore_case(
                n.keyword,
                "DEF_CHARACTERISTIC"@
            ) && !same_ignore_case(n.keyword, "REF_CHARACTERISTIC"@) && !same_ignore_case(n.keyword, "IN_MEASUREMENT"@) && !same_ignore_case(n.keyword, "LOC_MEASUREMENT"@) && !same_ignore_case(n.keyword, "OUT_MEASUREMENT"@) && !same_ignore_case(
                n.keyword,
                "VIRTUAL_CHARACTERISTIC"@
            ) && !same_ignore_case(n.keyword, "SUB_FUNCTION"@),
        }
    }

    open spec fn shape(v: FunctionChildView) -> Tree {
        match v {
            FunctionChildView::Annotation(n) => <Annotation as Faithful>::shape(n),
            FunctionChildView::DefCharacteristic(n) => <DefCharacteristic as Faithful>::shape(n),
            FunctionChildView::RefCharacteristic(n) => <RefCharacteristic as Faithful>::shape(n),
            FunctionChildView::InMeasurement(n) => <InMeasurement as Faithful>::shape(n),
            FunctionChildView::LocMeasurement(n) => <LocMeasurement as Faithful>::shape(n),
            FunctionChildView::OutMeasurement(n) => <OutMeasurement as Faithful>::shape(n),
            FunctionChildView::VirtualCharacteristic(n) => <VirtualCharacteristic as Faithful>::shape(n),
            FunctionChildView::SubFunction(n) => <SubFunction as Faithful>::shape(n),
            FunctionChildView::Unsupported(n) => <UnsupportedNode as FaithfulChild>::shape(n),
        }
    }

    proof fn law_shown(v: FunctionChildView, p: Page, f: Setting) {
        match v {
            FunctionChildView::Annotation(n) => {
                lemma_node_shown::<Annotation>(n, p, f);
            },
            FunctionChildView::DefCharacteristic(n) => {
                lemma_node_shown::<DefCharacteristic>(n, p, f);
            },
            FunctionChildView::RefCharacteristic(n) => {
                lemma_node_shown::<RefCharacteristic>(n, p, f);
            },
            FunctionChildView::InMeasurement(n) => {
                lemma_node_shown::<InMeasurement>(n, p, f);
            },
            FunctionChildView::LocMeasurement(n) => {
                lemma_node_shown::<LocMeasurement>(n, p, f);
            },
            FunctionChildView::OutMeasurement(n) => {
                lemma_node_shown::<OutMeasurement>(n, p, f);
            },
            FunctionChildView::VirtualCharacteristic(n) => {
                lemma_node_shown::<VirtualCharacteristic>(n, p, f);
            },
            FunctionChildView::SubFunction(n) => {
                lemma_node_shown::<SubFunction>(n, p, f);
            },
            FunctionChildView::Unsupported(n) => {
                <UnsupportedNode as FaithfulChild>::law_shown(n, p, f);
            },
        }
    }

    proof fn law_parsed(v: FunctionChildView, tree: Tree, f: Setting) {
        match v {
            FunctionChildView::Annotation(n) => {
                reveal_strlit("ANNOTATION");
                lemma_same("ANNOTATION"@);
                assert(bare_tree(tree).keyword == "ANNOTATION"@);
                lemma_node_read::<Annotation>(n, tree, f);
            },
            FunctionChildView::DefCharacteristic(n) => {
                reveal_strlit("DEF_CHARACTERISTIC");
                reveal_strlit("ANNOTATION");
                lemma_differ("DEF_CHARACTERISTIC"@, "ANNOTATION"@, 0);
                lemma_same("DEF_CHARACTERISTIC"@);
                assert(bare_tree(tree).keyword == "DEF_CHARACTERISTIC"@);
                lemma_node_read::<DefCharacteristic>(n, tree, f);
            },
            FunctionChildView::RefCharacteristic(n) => {
                reveal_strlit("REF_CHARACTERISTIC");
                reveal_strlit("ANNOTATION");
                lemma_differ("REF_CHARACTERISTIC"@, "ANNOTATION"@, 0);
                reveal_strlit("DEF_CHARACTERISTIC");
                lemma_differ("REF_CHARACTERISTIC"@, "DEF_CHARACTERISTIC"@, 0);
                lemma_same("REF_CHARACTERISTIC"@);
                assert(bare_tree(tree).keyword == "REF_CHARACTERISTIC"@);
                lemma_node_read::<RefCharacteristic>(n, tree, f);
            },
            FunctionChildView::InMeasurement(n) => {
                reveal_strlit("IN_MEASUREMENT");
                reveal_strlit("ANNOTATION");
                lemma_differ("IN_MEASUREMENT"@, "ANNOTATION"@, 0);
                reveal_strlit("DEF_CHARACTERISTIC");
                lemma_differ("IN_MEASUREMENT"@, "DEF_CHARACTERISTIC"@, 0);
                reveal_strlit("REF_CHARACTERISTIC");
                lemma_differ("IN_MEASUREMENT"@, "REF_CHARACTERISTIC"@, 0);
                lemma_same("IN_MEASUREMENT"@);
                assert(bare_tree(tree).keyword == "IN_MEASUREMENT"@);
                lemma_node_read::<InMeasurement>(n, tree, f);
            },
            FunctionChildView::LocMeasurement(n) => {
                reveal_strlit("LOC_MEASUREMENT");
                reveal_strlit("ANNOTATION");
                lemma_differ("LOC_MEASUREMENT"@, "ANNOTATION"@, 0);
                reveal_strlit("DEF_CHARACTERISTIC");
                lemma_differ("LOC_MEASUREMENT"@, "DEF_CHARACTERISTIC"@, 0);
                reveal_strlit("REF_CHARACTERISTIC");
                lemma_differ("LOC_MEASUREMENT"@, "REF_CHARACTERISTIC"@, 0);
                reveal_strlit("IN_MEASUREMENT");
                lemma_differ("LOC_MEASUREMENT"@, "IN_MEASUREMENT"@, 0);
                lemma_same("LOC_MEASUREMENT"@);
                assert(bare_tree(tree).keyword == "LOC_MEASUREMENT"@);
                lemma_node_read::<LocMeasurement>(n, tree, f);
            },
            FunctionChildView::OutMeasurement(n) => {
                reveal_strlit("OUT_MEASUREMENT");
                reveal_strlit("ANNOTATION");
                lemma_differ("OUT_MEASUREMENT"@, "ANNOTATION"@, 0);
                reveal_strlit("DEF_CHARACTERISTIC");
                lemma_differ("OUT_MEASUREMENT"@, "DEF_CHARACTERISTIC"@, 0);
                reveal_strlit("REF_CHARACTERISTIC");
                lemma_differ("OUT_MEASUREMENT"@, "REF_CHARACTERISTIC"@, 0);
                reveal_strlit("IN_MEASUREMENT");
                lemma_differ("OUT_MEASUREMENT"@, "IN_MEASUREMENT"@, 0);
                reveal_strlit("LOC_MEASUREMENT");
                lemma_differ("OUT_MEASUREMENT"@, "LOC_MEASUREMENT"@, 0);
                lemma_same("OUT_MEASUREMENT"@);
                assert(bare_tree(tree).keyword == "OUT_MEASUREMENT"@);
                lemma_node_read::<OutMeasurement>(n, tree, f);
            },
            FunctionChildView::VirtualCharacteristic(n) => {
                reveal_strlit("VIRTUAL_CHARACTERISTIC");
                reveal_strlit("ANNOTATION");
                lemma_differ("VIRTUAL_CHARACTERISTIC"@, "ANNOTATION"@, 0);
                reveal_strlit("DEF_CHARACTERISTIC");
                lemma_differ("VIRTUAL_CHARACTERISTIC"@, "DEF_CHARACTERISTIC"@, 0);
                reveal_strlit("REF_CHARACTERISTIC");
                lemma_differ("VIRTUAL_CHARACTERISTIC"@, "REF_CHARACTERISTIC"@, 0);
                reveal_strlit("IN_MEASUREMENT");
                lemma_differ("VIRTUAL_CHARACTERISTIC"@, "IN_MEASUREMENT"@, 0);
                reveal_strlit("LOC_MEASUREMENT");
                lemma_differ("VIRTUAL_CHARACTERISTIC"@, "LOC_MEASUREMENT"@, 0);
                reveal_strlit("OUT_MEASUREMENT");
                lemma_differ("VIRTUAL_CHARACTERISTIC"@, "OUT_MEASUREMENT"@, 0);
                lemma_same("VIRTUAL_CHARACTERISTIC"@);
                assert(bare_tree(tree).keyword == "VIRTUAL_CHARACTERISTIC"@);
                lemma_node_read::<VirtualCharacteristic>(n, tree, f);
            },
            FunctionChildView::SubFunction(n) => {
                reveal_strlit("SUB_FUNCTION");
                reveal_strlit("ANNOTATION");
                lemma_differ("SUB_FUNCTION"@, "ANNOTATION"@, 0);
                reveal_strlit("DEF_CHARACTERISTIC");
                lemma_differ("SUB_FUNCTION"@, "DEF_CHARACTERISTIC"@, 0);
                reveal_strlit("REF_CHARACTERISTIC");
                lemma_differ("SUB_FUNCTION"@, "REF_CHARACTERISTIC"@, 0);
                reveal_strlit("IN_MEASUREMENT");
                lemma_differ("SUB_FUNCTION"@, "IN_MEASUREMENT"@, 0);
                reveal_strlit("LOC_MEASUREMENT");
                lemma_differ("SUB_FUNCTION"@, "LOC_MEASUREMENT"@, 0);
                reveal_strlit("OUT_MEASUREMENT");
                lemma_differ("SUB_FUNCTION"@, "OUT_MEASUREMENT"@, 0);
                reveal_strlit("VIRTUAL_CHARACTERISTIC");
                lemma_differ("SUB_FUNCTION"@, "VIRTUAL_CHARACTERISTIC"@, 0);
                lemma_same("SUB_FUNCTION"@);
                assert(bare_tree(tree).keyword == "SUB_FUNCTION"@);
                lemma_node_read::<SubFunction>(n, tree, f);
            },
            FunctionChildView::Unsupported(n) => {
                <UnsupportedNode as FaithfulChild>::law_parsed(n, tree, f);
            },
        }
    }
}

/// The parameters at the start of the block.
pub open spec fn function_head(v: FunctionView) -> Seq<Tok> {
    seq![plain(v.named.name), string(escaped(v.named.description->Some_0))]
}

/// The parameters of `FUNCTION_VERSION`.
#[verifier::opaque]
pub open spec fn function_part_0(v: FunctionView) -> Seq<Tok> {
    if v.version is Some {
        seq![plain("FUNCTION_VERSION"@), string(v.version->Some_0)]
    } else { Seq::<Tok>::empty() }
}

/// The parameters from `FUNCTION_VERSION` on.
pub open spec fn function_from_0(v: FunctionView) -> Seq<Tok> {
    function_part_0(v) + function_from_1(v)
}

/// What is written for `FUNCTION_VERSION`.
#[verifier::opaque]
pub open spec fn function_page_0(v: FunctionView, p: Page) -> Page {
    match v.version { Some(x) if x.len() > 0 => p.line("FUNCTION_VERSION \""@ + x + "\""@), _ => p }
}

/// What is written from `FUNCTION_VERSION` on.
pub open spec fn function_pages_0(v: FunctionView, p: Page) -> Page {
    function_pages_1(v, function_page_0(v, p))
}

/// The parameters behind the last keyword.
pub open spec fn function_from_1(v: FunctionView) -> Seq<Tok> {
    Seq::empty()
}

/// What is written behind the last keyword.
pub open spec fn function_pages_1(v: FunctionView, p: Page) -> Page {
    p
}

proof fn lemma_function_part_0(v: FunctionView, p: Page, f: Setting)
    requires
        Function::fits(v, f),
        indents_by_blanks(p),
    ensures
        shows(p, function_page_0(v, p), function_part_0(v)),
        function_page_0(v, p).depth == p.depth,
        function_page_0(v, p).style == p.style,
        all_params(function_part_0(v)),
{
    reveal(function_page_0);
    reveal(function_part_0);
    if v.version is Some {
        reveal_strlit("FUNCTION_VERSION");
        assert(is_keyword("FUNCTION_VERSION"@));
        lemma_keyword_param("FUNCTION_VERSION"@);
        let x = v.version->Some_0;
        reveal_strlit("FUNCTION_VERSION \"");
        reveal_strlit("\"");
        reveal_strlit(" ");
        assert("FUNCTION_VERSION \""@ + x + "\""@ =~= "FUNCTION_VERSION"@ + " "@ + ("\""@ + x + "\""@));
        lemma_spells_content(x);
        lemma_shows_tagged(p, "FUNCTION_VERSION"@, "\""@ + x + "\""@, seq![string(x)]);
        assert(seq![plain("FUNCTION_VERSION"@)] + seq![string(x)] =~= seq![plain("FUNCTION_VERSION"@), string(x)]);
        reveal_strlit("FUNCTION_VERSION");
        assert(is_keyword("FUNCTION_VERSION"@));
        lemma_keyword_param("FUNCTION_VERSION"@);
        assert(all_params(seq![plain("FUNCTION_VERSION"@), string(v.version->Some_0)]));
        
    } else {
        lemma_shows_nothing(p);
    }
}

proof fn lemma_function_shown_1(v: FunctionView, p: Page, f: Setting)
    requires
        Function::fits(v, f),
        indents_by_blanks(p),
    ensures
        shows(p, function_pages_1(v, p), function_from_1(v)),
        function_pages_1(v, p).depth == p.depth,
        function_pages_1(v, p).style == p.style,
        all_params(function_from_1(v)),
{
    lemma_shows_nothing(p);
}

proof fn lemma_function_shown_0(v: FunctionView, p: Page, f: Setting)
    requires
        Function::fits(v, f),
        indents_by_blanks(p),
    ensures
        shows(p, function_pages_0(v, p), function_from_0(v)),
        function_pages_0(v, p).depth == p.depth,
        function_pages_0(v, p).style == p.style,
        all_params(function_from_0(v)),
{
    lemma_function_part_0(v, p, f);
    let q = function_page_0(v, p);
    lemma_function_shown_1(v, q, f);
    lemma_shows_join(p, q, function_pages_1(v, q), function_part_0(v), function_from_1(v));
    lemma_all_params_join(function_part_0(v), function_from_1(v));
}

/// What is written for the parameters at the start.
#[verifier::opaque]
pub open spec fn function_opening(v: FunctionView, p0: Page) -> Page {
    let p1 = match v.named.description { Some(x) => p0.quote_line(x), None => p0.quote_line(""@) };
    p1
}

proof fn lemma_function_opening(v: FunctionView, p0: Page, f: Setting)
    requires
        Function::fits(v, f),
        indents_by_blanks(p0),
    ensures
        shows(p0, function_opening(v, p0), seq![string(escaped(v.named.description->Some_0))]),
        function_opening(v, p0).depth == p0.depth,
        function_opening(v, p0).style == p0.style,
        all_params(function_head(v)),
{
    reveal(function_opening);
    lemma_shows_nothing(p0);
    let x0 = Seq::<Tok>::empty();
    let p1 = match v.named.description { Some(x) => p0.quote_line(x), None => p0.quote_line(""@) };
    assert(
        shows(
            p0,
            p1,
            seq![string(escaped(v.named.description->Some_0))]
        ) && p1.depth == p0.depth && p1.style == p0.style
    ) by {
        let p = p0;
        lemma_shows_quote_line(p, v.named.description->Some_0);
    }
    lemma_shows_join(p0, p0, p1, x0, seq![string(escaped(v.named.description->Some_0))]);
    let x1 = x0 + seq![string(escaped(v.named.description->Some_0))];
    assert(x1 =~= seq![string(escaped(v.named.description->Some_0))]);
    lemma_string_param(v.named.description->Some_0);
}

proof fn lemma_function_body(v: FunctionView, p: Page, f: Setting)
    requires
        Function::fits(v, f),
    ensures
        Function::body(v, p) == children_written::<FunctionChild>(
            v.children,
            0,
            false,
            function_pages_0(v, function_opening(v, p))
        ),
{
    reveal(function_opening);
    let q0 = function_opening(v, p);
    let q1 = match v.version { Some(x) if x.len() > 0 => q0.line("FUNCTION_VERSION \""@ + x + "\""@), _ => q0 };
    assert(q1 == function_page_0(v, q0)) by {
        reveal(function_page_0);
    }
}

proof fn lemma_function_head(v: FunctionView, c: Cur, f: Setting)
    requires
        Function::fits(v, f),
        tokens_at(c.toks, c.pos, function_head(v)),
        toks_numbered(c.toks, f),
    ensures
        Function::head(c) == Ok::<(FunctionView, Cur), Failure>(
            (FunctionView { version: None, children: Seq::empty(), ..v }, Cur { pos: c.pos + 2, ..c }),
        ),
{
    law_unescaped_of_escaped(v.named.description->Some_0);
    assert(bare(c.toks[c.pos + 0]) == function_head(v)[0]);
    assert(bare(c.toks[c.pos + 1]) == function_head(v)[1]);
}

proof fn lemma_function_step_0(w: FunctionView, v: FunctionView, c: Cur, f: Setting)
    requires
        Function::fits(v, f),
        v.version is Some,
        tokens_at(c.toks, c.pos, seq![plain("FUNCTION_VERSION"@), string(v.version->Some_0)]),
        toks_numbered(c.toks, f),
    ensures
        Function::option(w, c) == Ok::<(FunctionView, Cur), Failure>(
            (FunctionView { version: v.version, ..w }, Cur { pos: c.pos + 2, ..c }),
        ),
{
    reveal_strlit("FUNCTION_VERSION");
    lemma_same("FUNCTION_VERSION"@);
    assert(bare(c.toks[c.pos + 0]) == (seq![plain("FUNCTION_VERSION"@), string(v.version->Some_0)])[0]);
    assert(bare(c.toks[c.pos + 1]) == (seq![plain("FUNCTION_VERSION"@), string(v.version->Some_0)])[1]);
    
}

proof fn lemma_function_read_1(v: FunctionView, c: Cur, f: Setting)
    requires
        Function::fits(v, f),
        tokens_at(c.toks, c.pos, function_from_1(v)),
        c.pos + function_from_1(v).len() == c.toks.len(),
        toks_numbered(c.toks, f),
    ensures
        Function::options(
            FunctionView { children: Seq::empty(), ..v },
            c
        ) matches Ok((w, _)) && w == (FunctionView { children: Seq::empty(), ..v }),
{
}

proof fn lemma_function_read_0(v: FunctionView, c: Cur, f: Setting)
    requires
        Function::fits(v, f),
        tokens_at(c.toks, c.pos, function_from_0(v)),
        c.pos + function_from_0(v).len() == c.toks.len(),
        toks_numbered(c.toks, f),
    ensures
        Function::options(
            FunctionView { version: None, children: Seq::empty(), ..v },
            c
        ) matches Ok((w, _)) && w == (FunctionView { children: Seq::empty(), ..v }),
{
    reveal(function_part_0);
    let t = function_part_0(v);
    if v.version is Some {
        lemma_tokens_at_split(c.toks, c.pos, t, function_from_1(v));
        let c2 = Cur { pos: c.pos + 2, ..c };
        lemma_function_step_0(FunctionView { version: None, children: Seq::empty(), ..v }, v, c, f);
        lemma_function_read_1(v, c2, f);
    } else {
        assert(t + function_from_1(v) =~= function_from_1(v));
        lemma_function_read_1(v, c, f);
    }
}

impl Faithful for Function {
    open spec fn fits(v: FunctionView, f: Setting) -> bool {
        &&& is_param(plain(v.named.name))
        &&& v.named.description is Some
        &&& (v.version matches Some(x) ==> x.len() > 0 && is_content(x))
        &&& all_fit::<FunctionChild>(v.children, f)
    }

    open spec fn shape(v: FunctionView) -> Tree {
        shape_of("FUNCTION"@, function_head(v) + function_from_0(v), shapes::<FunctionChild>(v.children))
    }

    proof fn law_shown(v: FunctionView, p: Page, f: Setting) {
        reveal_strlit("FUNCTION");
        lemma_keyword_word("FUNCTION"@);
        reveal_strlit("FUNCTION ");
        reveal_strlit(" ");
        assert("FUNCTION "@ + v.named.name =~= "FUNCTION"@ + " "@ + v.named.name);
        lemma_spells_word("FUNCTION"@);
        lemma_spells_word(v.named.name);
        lemma_spells_join("FUNCTION"@, seq![plain("FUNCTION"@)], v.named.name, seq![plain(v.named.name)]);
        let h = seq![plain(v.named.name)];
        crate::a2l::tree_laws::lemma_shows_begin(p, "FUNCTION "@ + v.named.name, seq![plain("FUNCTION"@)] + h);
        let p0 = p.begin("FUNCTION "@ + v.named.name);
        lemma_function_body(v, p0, f);
        lemma_function_opening(v, p0, f);
        let p1 = function_opening(v, p0);
        lemma_function_shown_0(v, p1, f);
        let p2 = function_pages_0(v, p1);
        let hx = seq![string(escaped(v.named.description->Some_0))];
        let from = function_from_0(v);
        lemma_shows_join(p0, p1, p2, hx, from);
        lemma_children_shown::<FunctionChild>(v.children, false, p2, f);
        lemma_shapes_sound::<FunctionChild>(v.children, p, f);
        let q = children_written::<FunctionChild>(v.children, 0, false, p2)->Ok_0;
        let kids = shapes::<FunctionChild>(v.children);
        let y = blocks_tokens(kids, 0);
        lemma_shows_join(p0, p2, q, hx + from, y);
        let x = function_head(v) + from;
        lemma_shape_tokens(x, kids);
        lemma_all_params_join(function_head(v), from);
        lemma_sound_shape("FUNCTION"@, x, kids);
        assert(function_head(v) =~= h + hx);
        assert(h + (hx + from + y) =~= x + y);
        lemma_shows_block(p, "FUNCTION "@ + v.named.name, h, "FUNCTION"@, q, hx + from + y, Self::shape(v));
    }

    proof fn law_parsed(v: FunctionView, tree: Tree, f: Setting) {
        let x = function_head(v) + function_from_0(v);
        let kids = shapes::<FunctionChild>(v.children);
        lemma_shape_found(tree, "FUNCTION"@, x, kids, f);
        let c = Cur::start(tree);
        lemma_tokens_at_split(c.toks, 0, function_head(v), function_from_0(v));
        lemma_function_head(v, c, f);
        let c1 = Cur { pos: 2, ..c };
        lemma_function_read_0(v, c1, f);
        lemma_children_read::<FunctionChild>(v.children, children_of(tree.items), f);
    }
}

impl FaithfulChild for GroupChild {
    open spec fn fits(v: GroupChildView, f: Setting) -> bool {
        match v {
            GroupChildView::Annotation(n) => <Annotation as Faithful>::fits(n, f),
            GroupChildView::RefMeasurement(n) => <RefMeasurement as Faithful>::fits(n, f),
            GroupChildView::RefCharacteristic(n) => <RefCharacteristic as Faithful>::fits(n, f),
            GroupChildView::FunctionList(n) => <FunctionList as Faithful>::fits(n, f),
            GroupChildView::SubGroup(n) => <SubGroup as Faithful>::fits(n, f),
            GroupChildView::Unsupported(n) => <UnsupportedNode as FaithfulChild>::fits(n, f) && !same_ignore_case(n.keyword, "ANNOTATION"@) && !same_ignore_case(n.keyword, "REF_MEASUREMENT"@) && !same_ignore_case(
                n.keyword,
                "REF_CHARACTERISTIC"@
            ) && !same_ignore_case(n.keyword, "FUNCTION_LIST"@) && !same_ignore_case(n.keyword, "SUB_GROUP"@),
        }
    }

    open spec fn shape(v: GroupChildView) -> Tree {
        match v {
            GroupChildView::Annotation(n) => <Annotation as Faithful>::shape(n),
            GroupChildView::RefMeasurement(n) => <RefMeasurement as Faithful>::shape(n),
            GroupChildView::RefCharacteristic(n) => <RefCharacteristic as Faithful>::shape(n),
            GroupChildView::FunctionList(n) => <FunctionList as Faithful>::shape(n),
            GroupChildView::SubGroup(n) => <SubGroup as Faithful>::shape(n),
            GroupChildView::Unsupported(n) => <UnsupportedNode as FaithfulChild>::shape(n),
        }
    }

    proof fn law_shown(v: GroupChildView, p: Page, f: Setting) {
        match v {
            GroupChildView::Annotation(n) => {
                lemma_node_shown::<Annotation>(n, p, f);
            },
            GroupChildView::RefMeasurement(n) => {
                lemma_node_shown::<RefMeasurement>(n, p, f);
            },
            GroupChildView::RefCharacteristic(n) => {
                lemma_node_shown::<RefCharacteristic>(n, p, f);
            },
            GroupChildView::FunctionList(n) => {
                lemma_node_shown::<FunctionList>(n, p, f);
            },
            GroupChildView::SubGroup(n) => {
                lemma_node_shown::<SubGroup>(n, p, f);
            },
            GroupChildView::Unsupported(n) => {
                <UnsupportedNode as FaithfulChild>::law_shown(n, p, f);
            },
        }
    }

    proof fn law_parsed(v: GroupChildView, tree: Tree, f: Setting) {
        match v {
            GroupChildView::Annotation(n) => {
                reveal_strlit("ANNOTATION");
                lemma_same("ANNOTATION"@);
                assert(bare_tree(tree).keyword == "ANNOTATION"@);
                lemma_node_read::<Annotation>(n, tree, f);
            },
            GroupChildView::RefMeasurement(n) => {
                reveal_strlit("REF_MEASUREMENT");
                reveal_strlit("ANNOTATION");
                lemma_differ("REF_MEASUREMENT"@, "ANNOTATION"@, 0);
                lemma_same("REF_MEASUREMENT"@);
                assert(bare_tree(tree).keyword == "REF_MEASUREMENT"@);
                lemma_node_read::<RefMeasurement>(n, tree, f);
            },
            GroupChildView::RefCharacteristic(n) => {
                reveal_strlit("REF_CHARACTERISTIC");
                reveal_strlit("ANNOTATION");
                lemma_differ("REF_CHARACTERISTIC"@, "ANNOTATION"@, 0);
                reveal_strlit("REF_MEASUREMENT");
                lemma_differ("REF_CHARACTERISTIC"@, "REF_MEASUREMENT"@, 0);
                lemma_same("REF_CHARACTERISTIC"@);
                assert(bare_tree(tree).keyword == "REF_CHARACTERISTIC"@);
                lemma_node_read::<RefCharacteristic>(n, tree, f);
            },
            GroupChildView::FunctionList(n) => {
                reveal_strlit("FUNCTION_LIST");
                reveal_strlit("ANNOTATION");
                lemma_differ("FUNCTION_LIST"@, "ANNOTATION"@, 0);
                reveal_strlit("REF_MEASUREMENT");
                lemma_differ("FUNCTION_LIST"@, "REF_MEASUREMENT"@, 0);
                reveal_strlit("REF_CHARACTERISTIC");
                lemma_differ("FUNCTION_LIST"@, "REF_CHARACTERISTIC"@, 0);
                lemma_same("FUNCTION_LIST"@);
                assert(bare_tree(tree).keyword == "FUNCTION_LIST"@);
                lemma_node_read::<FunctionList>(n, tree, f);
            },
            GroupChildView::SubGroup(n) => {
                reveal_strlit("SUB_GROUP");
                reveal_strlit("ANNOTATION");
                lemma_differ("SUB_GROUP"@, "ANNOTATION"@, 0);
                reveal_strlit("REF_MEASUREMENT");
                lemma_differ("SUB_GROUP"@, "REF_MEASUREMENT"@, 0);
                reveal_strlit("REF_CHARACTERISTIC");
                lemma_differ("SUB_GROUP"@, "REF_CHARACTERISTIC"@, 0);
                reveal_strlit("FUNCTION_LIST");
                lemma_differ("SUB_GROUP"@, "FUNCTION_LIST"@, 0);
                lemma_same("SUB_GROUP"@);
                assert(bare_tree(tree).keyword == "SUB_GROUP"@);
                lemma_node_read::<SubGroup>(n, tree, f);
            },
            GroupChildView::Unsupported(n) => {
                <UnsupportedNode as FaithfulChild>::law_parsed(n, tree, f);
            },
        }
    }
}

/// The parameters at the start of the block.
pub open spec fn group_head(v: GroupView) -> Seq<Tok> {
    seq![plain(v.named.name), string(escaped(v.named.description->Some_0))]
}

/// The parameters of `ROOT`.
#[verifier::opaque]
pub open spec fn group_part_0(v: GroupView) -> Seq<Tok> {
    if v.root { seq![plain("ROOT"@)] } else { Seq::<Tok>::empty() }
}

/// The parameters from `ROOT` on.
pub open spec fn group_from_0(v: GroupView) -> Seq<Tok> {
    group_part_0(v) + group_from_1(v)
}

/// What is written for `ROOT`.
#[verifier::opaque]
pub open spec fn group_page_0(v: GroupView, p: Page) -> Page {
    if v.root { p.line("ROOT"@) } else { p }
}

/// What is written from `ROOT` on.
pub open spec fn group_pages_0(v: GroupView, p: Page) -> Page {
    group_pages_1(v, group_page_0(v, p))
}

/// The parameters behind the last keyword.
pub open spec fn group_from_1(v: GroupView) -> Seq<Tok> {
    Seq::empty()
}

/// What is written behind the last keyword.
pub open spec fn group_pages_1(v: GroupView, p: Page) -> Page {
    p
}

proof fn lemma_group_part_0(v: GroupView, p: Page, f: Setting)
    requires
        Group::fits(v, f),
        indents_by_blanks(p),
    ensures
        shows(p, group_page_0(v, p), group_part_0(v)),
        group_page_0(v, p).depth == p.depth,
        group_page_0(v, p).style == p.style,
        all_params(group_part_0(v)),
{
    reveal(group_page_0);
    reveal(group_part_0);
    if v.root {
        reveal_strlit("ROOT");
        assert(is_keyword("ROOT"@));
        lemma_keyword_param("ROOT"@);
        lemma_shows_word_line(p, "ROOT"@);
        reveal_strlit("ROOT");
        assert(is_keyword("ROOT"@));
        lemma_keyword_param("ROOT"@);
        assert(all_params(seq![plain("ROOT"@)]));
        
    } else {
        lemma_shows_nothing(p);
    }
}

proof fn lemma_group_shown_1(v: GroupView, p: Page, f: Setting)
    requires
        Group::fits(v, f),
        indents_by_blanks(p),
    ensures
        shows(p, group_pages_1(v, p), group_from_1(v)),
        group_pages_1(v, p).depth == p.depth,
        group_pages_1(v, p).style == p.style,
        all_params(group_from_1(v)),
{
    lemma_shows_nothing(p);
}

proof fn lemma_group_shown_0(v: GroupView, p: Page, f: Setting)
    requires
        Group::fits(v, f),
        indents_by_blanks(p),
    ensures
        shows(p, group_pages_0(v, p), group_from_0(v)),
        group_pages_0(v, p).depth == p.depth,
        group_pages_0(v, p).style == p.style,
        all_params(group_from_0(v)),
{
    lemma_group_part_0(v, p, f);
    let q = group_page_0(v, p);
    lemma_group_shown_1(v, q, f);
    lemma_shows_join(p, q, group_pages_1(v, q), group_part_0(v), group_from_1(v));
    lemma_all_params_join(group_part_0(v), group_from_1(v));
}

/// What is written for the parameters at the start.
#[verifier::opaque]
pub open spec fn group_opening(v: GroupView, p0: Page) -> Page {
    let p1 = match v.named.description { Some(x) => p0.quote_line(x), None => p0.quote_line(""@) };
    p1
}

proof fn lemma_group_opening(v: GroupView, p0: Page, f: Setting)
    requires
        Group::fits(v, f),
        indents_by_blanks(p0),
    ensures
        shows(p0, group_opening(v, p0), seq![string(escaped(v.named.description->Some_0))]),
        group_opening(v, p0).depth == p0.depth,
        group_opening(v, p0).style == p0.style,
        all_params(group_head(v)),
{
    reveal(group_opening);
    lemma_shows_nothing(p0);
    let x0 = Seq::<Tok>::empty();
    let p1 = match v.named.description { Some(x) => p0.quote_line(x), None => p0.quote_line(""@) };
    assert(
        shows(
            p0,
            p1,
            seq![string(escaped(v.named.description->Some_0))]
        ) && p1.depth == p0.depth && p1.style == p0.style
    ) by {
        let p = p0;
        lemma_shows_quote_line(p, v.named.description->Some_0);
    }
    lemma_shows_join(p0, p0, p1, x0, seq![string(escaped(v.named.description->Some_0))]);
    let x1 = x0 + seq![string(escaped(v.named.description->Some_0))];
    assert(x1 =~= seq![string(escaped(v.named.description->Some_0))]);
    lemma_string_param(v.named.description->Some_0);
}

proof fn lemma_group_body(v: GroupView, p: Page, f: Setting)
    requires
        Group::fits(v, f),
    ensures
        Group::body(v, p) == children_written::<GroupChild>(
            v.children,
            0,
            false,
            group_pages_0(v, group_opening(v, p))
        ),
{
    reveal(group_opening);
    let q0 = group_opening(v, p);
    let q1 = if v.root { q0.line("ROOT"@) } else { q0 };
    assert(q1 == group_page_0(v, q0)) by {
        reveal(group_page_0);
    }
}

proof fn lemma_group_head(v: GroupView, c: Cur, f: Setting)
    requires
        Group::fits(v, f),
        tokens_at(c.toks, c.pos, group_head(v)),
        toks_numbered(c.toks, f),
    ensures
        Group::head(c) == Ok::<(GroupView, Cur), Failure>(
            (GroupView { root: false, children: Seq::empty(), ..v }, Cur { pos: c.pos + 2, ..c }),
        ),
{
    law_unescaped_of_escaped(v.named.description->Some_0);
    assert(bare(c.toks[c.pos + 0]) == group_head(v)[0]);
    assert(bare(c.toks[c.pos + 1]) == group_head(v)[1]);
}

proof fn lemma_group_step_0(w: GroupView, v: GroupView, c: Cur, f: Setting)
    requires
        Group::fits(v, f),
        v.root,
        tokens_at(c.toks, c.pos, seq![plain("ROOT"@)]),
        toks_numbered(c.toks, f),
    ensures
        Group::option(w, c) == Ok::<(GroupView, Cur), Failure>(
            (GroupView { root: v.root, ..w }, Cur { pos: c.pos + 1, ..c }),
        ),
{
    reveal_strlit("ROOT");
    lemma_same("ROOT"@);
    assert(bare(c.toks[c.pos + 0]) == (seq![plain("ROOT"@)])[0]);
    
}

proof fn lemma_group_read_1(v: GroupView, c: Cur, f: Setting)
    requires
        Group::fits(v, f),
        tokens_at(c.toks, c.pos, group_from_1(v)),
        c.pos + group_from_1(v).len() == c.toks.len(),
        toks_numbered(c.toks, f),
    ensures
        Group::options(
            GroupView { children: Seq::empty(), ..v },
            c
        ) matches Ok((w, _)) && w == (GroupView { children: Seq::empty(), ..v }),
{
}

proof fn lemma_group_read_0(v: GroupView, c: Cur, f: Setting)
    requires
        Group::fits(v, f),
        tokens_at(c.toks, c.pos, group_from_0(v)),
        c.pos + group_from_0(v).len() == c.toks.len(),
        toks_numbered(c.toks, f),
    ensures
        Group::options(
            GroupView { root: false, children: Seq::empty(), ..v },
            c
        ) matches Ok((w, _)) && w == (GroupView { children: Seq::empty(), ..v }),
{
    reveal(group_part_0);
    let t = group_part_0(v);
    if v.root {
        lemma_tokens_at_split(c.toks, c.pos, t, group_from_1(v));
        let c2 = Cur { pos: c.pos + 1, ..c };
        lemma_group_step_0(GroupView { root: false, children: Seq::empty(), ..v }, v, c, f);
        lemma_group_read_1(v, c2, f);
    } else {
        assert(t + group_from_1(v) =~= group_from_1(v));
        lemma_group_read_1(v, c, f);
    }
}

impl Faithful for Group {
    open spec fn fits(v: GroupView, f: Setting) -> bool {
        &&& is_param(plain(v.named.name))
        &&& v.named.description is Some
        &&& all_fit::<GroupChild>(v.children, f)
    }

    open spec fn shape(v: GroupView) -> Tree {
        shape_of("GROUP"@, group_head(v) + group_from_0(v), shapes::<GroupChild>(v.children))
    }

    proof fn law_shown(v: GroupView, p: Page, f: Setting) {
        reveal_strlit("GROUP");
        lemma_keyword_word("GROUP"@);
        reveal_strlit("GROUP ");
        reveal_strlit(" ");
        assert("GROUP "@ + v.named.name =~= "GROUP"@ + " "@ + v.named.name);
        lemma_spells_word("GROUP"@);
        lemma_spells_word(v.named.name);
        lemma_spells_join("GROUP"@, seq![plain("GROUP"@)], v.named.name, seq![plain(v.named.name)]);
        let h = seq![plain(v.named.name)];
        crate::a2l::tree_laws::lemma_shows_begin(p, "GROUP "@ + v.named.name, seq![plain("GROUP"@)] + h);
        let p0 = p.begin("GROUP "@ + v.named.name);
        lemma_group_body(v, p0, f);
        lemma_group_opening(v, p0, f);
        let p1 = group_opening(v, p0);
        lemma_group_shown_0(v, p1, f);
        let p2 = group_pages_0(v, p1);
        let hx = seq![string(escaped(v.named.description->Some_0))];
        let from = group_from_0(v);
        lemma_shows_join(p0, p1, p2, hx, from);
        lemma_children_shown::<GroupChild>(v.children, false, p2, f);
        lemma_shapes_sound::<GroupChild>(v.children, p, f);
        let q = children_written::<GroupChild>(v.children, 0, false, p2)->Ok_0;
        let kids = shapes::<GroupChild>(v.children);
        let y = blocks_tokens(kids, 0);
        lemma_shows_join(p0, p2, q, hx + from, y);
        let x = group_head(v) + from;
        lemma_shape_tokens(x, kids);
        lemma_all_params_join(group_head(v), from);
        lemma_sound_shape("GROUP"@, x, kids);
        assert(group_head(v) =~= h + hx);
        assert(h + (hx + from + y) =~= x + y);
        lemma_shows_block(p, "GROUP "@ + v.named.name, h, "GROUP"@, q, hx + from + y, Self::shape(v));
    }

    proof fn law_parsed(v: GroupView, tree: Tree, f: Setting) {
        let x = group_head(v) + group_from_0(v);
        let kids = shapes::<GroupChild>(v.children);
        lemma_shape_found(tree, "GROUP"@, x, kids, f);
        let c = Cur::start(tree);
        lemma_tokens_at_split(c.toks, 0, group_head(v), group_from_0(v));
        lemma_group_head(v, c, f);
        let c1 = Cur { pos: 2, ..c };
        lemma_group_read_0(v, c1, f);
        lemma_children_read::<GroupChild>(v.children, children_of(tree.items), f);
    }
}

} // verus!
