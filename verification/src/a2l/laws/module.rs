//! Modules read back from what is written for them.

use crate::a2l::block::{Tree, bare_tree, children_of};
use crate::a2l::error::Failure;
use crate::a2l::faithful::{
    Faithful, FaithfulChild, Setting, all_fit, all_params, blocks_tokens, lemma_all_params_join,
    lemma_children_read, lemma_children_shown, lemma_keyword_word, lemma_node_read,
    lemma_node_shown, lemma_shape_found, lemma_shape_tokens, lemma_shapes_sound, lemma_shows_block,
    lemma_shows_quote_line, lemma_sound_shape, lemma_string_param, numbered, shape_of, shapes,
};
use crate::a2l::model::characteristic::{AxisPts, AxisPtsView, Characteristic, CharacteristicView};
use crate::a2l::model::compu::{
    CompuMethod, CompuMethodView, CompuTab, CompuTabView, CompuVtab, CompuVtabRange,
    CompuVtabRangeView, CompuVtabView, Formula, FormulaView,
};
use crate::a2l::model::function::{Frame, FrameView, Function, FunctionView, Group, GroupView};
use crate::a2l::model::measurement::{
    Blob, BlobView, Instance, InstanceView, Measurement, MeasurementView,
};
use crate::a2l::model::module::{
    ModCommon, ModCommonView, ModPar, ModParView, Module, ModuleChild, ModuleChildView, ModuleView,
    Unit, UnitView, UserRights, UserRightsView,
};
use crate::a2l::model::parts::{Child, children_written};
use crate::a2l::model::record_layout::{RecordLayout, RecordLayoutView};
use crate::a2l::model::typedef::{
    TypedefAxis, TypedefAxisView, TypedefBlob, TypedefBlobView, TypedefCharacteristic,
    TypedefCharacteristicView, TypedefMeasurement, TypedefMeasurementView, TypedefStructure,
    TypedefStructureView,
};
use crate::a2l::model::unsupported::UnsupportedNode;
use crate::a2l::model::variant::{VariantCoding, VariantCodingView};
use crate::a2l::node::Node;
use crate::a2l::params::Cur;
use crate::a2l::spell::{
    law_unescaped_of_escaped, lemma_shows_join, lemma_spells_join, lemma_spells_word, plain, shows,
    string,
};
use crate::a2l::token::{Tok, bare};
use crate::a2l::tree_laws::{is_param, lemma_shows_begin, lemma_tokens_at_split};
use crate::a2l::writer::{Page, escaped, Stopped};
use vstd::prelude::*;

verus! {

proof fn lemma_module_child_mod_par(n: ModParView, tree: Tree, f: Setting)
    requires
        <ModPar as Faithful>::fits(n, f),
        bare_tree(tree) == <ModPar as Faithful>::shape(n),
        numbered(tree.items, 0, f),
    ensures
        <ModuleChild as Child>::parsed(tree) == Ok::<ModuleChildView, Failure>(ModuleChildView::ModPar(n)),
{
    reveal_strlit("MOD_PAR");
    assert(bare_tree(tree).keyword == "MOD_PAR"@);
    lemma_node_read::<ModPar>(n, tree, f);
}

proof fn lemma_module_child_mod_common(n: ModCommonView, tree: Tree, f: Setting)
    requires
        <ModCommon as Faithful>::fits(n, f),
        bare_tree(tree) == <ModCommon as Faithful>::shape(n),
        numbered(tree.items, 0, f),
    ensures
        <ModuleChild as Child>::parsed(tree) == Ok::<ModuleChildView, Failure>(ModuleChildView::ModCommon(n)),
{
    reveal_strlit("MOD_COMMON");
    reveal_strlit("MOD_PAR");
    assert("MOD_COMMON"@.len() != "MOD_PAR"@.len());
    assert(bare_tree(tree).keyword == "MOD_COMMON"@);
    lemma_node_read::<ModCommon>(n, tree, f);
}

proof fn lemma_module_child_measurement(n: MeasurementView, tree: Tree, f: Setting)
    requires
        <Measurement as Faithful>::fits(n, f),
        bare_tree(tree) == <Measurement as Faithful>::shape(n),
        numbered(tree.items, 0, f),
    ensures
        <ModuleChild as Child>::parsed(tree) == Ok::<ModuleChildView, Failure>(ModuleChildView::Measurement(n)),
{
    reveal_strlit("MEASUREMENT");
    reveal_strlit("MOD_PAR");
    assert("MEASUREMENT"@.len() != "MOD_PAR"@.len());
    reveal_strlit("MOD_COMMON");
    assert("MEASUREMENT"@.len() != "MOD_COMMON"@.len());
    assert(bare_tree(tree).keyword == "MEASUREMENT"@);
    lemma_node_read::<Measurement>(n, tree, f);
}

proof fn lemma_module_child_characteristic(n: CharacteristicView, tree: Tree, f: Setting)
    requires
        <Characteristic as Faithful>::fits(n, f),
        bare_tree(tree) == <Characteristic as Faithful>::shape(n),
        numbered(tree.items, 0, f),
    ensures
        <ModuleChild as Child>::parsed(tree) == Ok::<ModuleChildView, Failure>(ModuleChildView::Characteristic(n)),
{
    reveal_strlit("CHARACTERISTIC");
    reveal_strlit("MOD_PAR");
    assert("CHARACTERISTIC"@.len() != "MOD_PAR"@.len());
    reveal_strlit("MOD_COMMON");
    assert("CHARACTERISTIC"@.len() != "MOD_COMMON"@.len());
    reveal_strlit("MEASUREMENT");
    assert("CHARACTERISTIC"@.len() != "MEASUREMENT"@.len());
    assert(bare_tree(tree).keyword == "CHARACTERISTIC"@);
    lemma_node_read::<Characteristic>(n, tree, f);
}

proof fn lemma_module_child_axis_pts(n: AxisPtsView, tree: Tree, f: Setting)
    requires
        <AxisPts as Faithful>::fits(n, f),
        bare_tree(tree) == <AxisPts as Faithful>::shape(n),
        numbered(tree.items, 0, f),
    ensures
        <ModuleChild as Child>::parsed(tree) == Ok::<ModuleChildView, Failure>(ModuleChildView::AxisPts(n)),
{
    reveal_strlit("AXIS_PTS");
    reveal_strlit("MOD_PAR");
    assert("AXIS_PTS"@.len() != "MOD_PAR"@.len());
    reveal_strlit("MOD_COMMON");
    assert("AXIS_PTS"@.len() != "MOD_COMMON"@.len());
    reveal_strlit("MEASUREMENT");
    assert("AXIS_PTS"@.len() != "MEASUREMENT"@.len());
    reveal_strlit("CHARACTERISTIC");
    assert("AXIS_PTS"@.len() != "CHARACTERISTIC"@.len());
    assert(bare_tree(tree).keyword == "AXIS_PTS"@);
    lemma_node_read::<AxisPts>(n, tree, f);
}

proof fn lemma_module_child_blob(n: BlobView, tree: Tree, f: Setting)
    requires
        <Blob as Faithful>::fits(n, f),
        bare_tree(tree) == <Blob as Faithful>::shape(n),
        numbered(tree.items, 0, f),
    ensures
        <ModuleChild as Child>::parsed(tree) == Ok::<ModuleChildView, Failure>(ModuleChildView::Blob(n)),
{
    reveal_strlit("BLOB");
    reveal_strlit("MOD_PAR");
    assert("BLOB"@.len() != "MOD_PAR"@.len());
    reveal_strlit("MOD_COMMON");
    assert("BLOB"@.len() != "MOD_COMMON"@.len());
    reveal_strlit("MEASUREMENT");
    assert("BLOB"@.len() != "MEASUREMENT"@.len());
    reveal_strlit("CHARACTERISTIC");
    assert("BLOB"@.len() != "CHARACTERISTIC"@.len());
    reveal_strlit("AXIS_PTS");
    assert("BLOB"@.len() != "AXIS_PTS"@.len());
    assert(bare_tree(tree).keyword == "BLOB"@);
    lemma_node_read::<Blob>(n, tree, f);
}

proof fn lemma_module_child_instance(n: InstanceView, tree: Tree, f: Setting)
    requires
        <Instance as Faithful>::fits(n, f),
        bare_tree(tree) == <Instance as Faithful>::shape(n),
        numbered(tree.items, 0, f),
    ensures
        <ModuleChild as Child>::parsed(tree) == Ok::<ModuleChildView, Failure>(ModuleChildView::Instance(n)),
{
    reveal_strlit("INSTANCE");
    reveal_strlit("MOD_PAR");
    assert("INSTANCE"@.len() != "MOD_PAR"@.len());
    reveal_strlit("MOD_COMMON");
    assert("INSTANCE"@.len() != "MOD_COMMON"@.len());
    reveal_strlit("MEASUREMENT");
    assert("INSTANCE"@.len() != "MEASUREMENT"@.len());
    reveal_strlit("CHARACTERISTIC");
    assert("INSTANCE"@.len() != "CHARACTERISTIC"@.len());
    reveal_strlit("AXIS_PTS");
    assert("INSTANCE"@[0] != "AXIS_PTS"@[0]);
    reveal_strlit("BLOB");
    assert("INSTANCE"@.len() != "BLOB"@.len());
    assert(bare_tree(tree).keyword == "INSTANCE"@);
    lemma_node_read::<Instance>(n, tree, f);
}

proof fn lemma_module_child_compu_method(n: CompuMethodView, tree: Tree, f: Setting)
    requires
        <CompuMethod as Faithful>::fits(n, f),
        bare_tree(tree) == <CompuMethod as Faithful>::shape(n),
        numbered(tree.items, 0, f),
    ensures
        <ModuleChild as Child>::parsed(tree) == Ok::<ModuleChildView, Failure>(ModuleChildView::CompuMethod(n)),
{
    reveal_strlit("COMPU_METHOD");
    reveal_strlit("MOD_PAR");
    assert("COMPU_METHOD"@.len() != "MOD_PAR"@.len());
    reveal_strlit("MOD_COMMON");
    assert("COMPU_METHOD"@.len() != "MOD_COMMON"@.len());
    reveal_strlit("MEASUREMENT");
    assert("COMPU_METHOD"@.len() != "MEASUREMENT"@.len());
    reveal_strlit("CHARACTERISTIC");
    assert("COMPU_METHOD"@.len() != "CHARACTERISTIC"@.len());
    reveal_strlit("AXIS_PTS");
    assert("COMPU_METHOD"@.len() != "AXIS_PTS"@.len());
    reveal_strlit("BLOB");
    assert("COMPU_METHOD"@.len() != "BLOB"@.len());
    reveal_strlit("INSTANCE");
    assert("COMPU_METHOD"@.len() != "INSTANCE"@.len());
    assert(bare_tree(tree).keyword == "COMPU_METHOD"@);
    lemma_node_read::<CompuMethod>(n, tree, f);
}

proof fn lemma_module_child_compu_tab(n: CompuTabView, tree: Tree, f: Setting)
    requires
        <CompuTab as Faithful>::fits(n, f),
        bare_tree(tree) == <CompuTab as Faithful>::shape(n),
        numbered(tree.items, 0, f),
    ensures
        <ModuleChild as Child>::parsed(tree) == Ok::<ModuleChildView, Failure>(ModuleChildView::CompuTab(n)),
{
    reveal_strlit("COMPU_TAB");
    reveal_strlit("MOD_PAR");
    assert("COMPU_TAB"@.len() != "MOD_PAR"@.len());
    reveal_strlit("MOD_COMMON");
    assert("COMPU_TAB"@.len() != "MOD_COMMON"@.len());
    reveal_strlit("MEASUREMENT");
    assert("COMPU_TAB"@.len() != "MEASUREMENT"@.len());
    reveal_strlit("CHARACTERISTIC");
    assert("COMPU_TAB"@.len() != "CHARACTERISTIC"@.len());
    reveal_strlit("AXIS_PTS");
    assert("COMPU_TAB"@.len() != "AXIS_PTS"@.len());
    reveal_strlit("BLOB");
    assert("COMPU_TAB"@.len() != "BLOB"@.len());
    reveal_strlit("INSTANCE");
    assert("COMPU_TAB"@.len() != "INSTANCE"@.len());
    reveal_strlit("COMPU_METHOD");
    assert("COMPU_TAB"@.len() != "COMPU_METHOD"@.len());
    assert(bare_tree(tree).keyword == "COMPU_TAB"@);
    lemma_node_read::<CompuTab>(n, tree, f);
}

proof fn lemma_module_child_compu_vtab(n: CompuVtabView, tree: Tree, f: Setting)
    requires
        <CompuVtab as Faithful>::fits(n, f),
        bare_tree(tree) == <CompuVtab as Faithful>::shape(n),
        numbered(tree.items, 0, f),
    ensures
        <ModuleChild as Child>::parsed(tree) == Ok::<ModuleChildView, Failure>(ModuleChildView::CompuVtab(n)),
{
    reveal_strlit("COMPU_VTAB");
    reveal_strlit("MOD_PAR");
    assert("COMPU_VTAB"@.len() != "MOD_PAR"@.len());
    reveal_strlit("MOD_COMMON");
    assert("COMPU_VTAB"@[0] != "MOD_COMMON"@[0]);
    reveal_strlit("MEASUREMENT");
    assert("COMPU_VTAB"@.len() != "MEASUREMENT"@.len());
    reveal_strlit("CHARACTERISTIC");
    assert("COMPU_VTAB"@.len() != "CHARACTERISTIC"@.len());
    reveal_strlit("AXIS_PTS");
    assert("COMPU_VTAB"@.len() != "AXIS_PTS"@.len());
    reveal_strlit("BLOB");
    assert("COMPU_VTAB"@.len() != "BLOB"@.len());
    reveal_strlit("INSTANCE");
    assert("COMPU_VTAB"@.len() != "INSTANCE"@.len());
    reveal_strlit("COMPU_METHOD");
    assert("COMPU_VTAB"@.len() != "COMPU_METHOD"@.len());
    reveal_strlit("COMPU_TAB");
    assert("COMPU_VTAB"@.len() != "COMPU_TAB"@.len());
    assert(bare_tree(tree).keyword == "COMPU_VTAB"@);
    lemma_node_read::<CompuVtab>(n, tree, f);
}

proof fn lemma_module_child_compu_vtab_range(n: CompuVtabRangeView, tree: Tree, f: Setting)
    requires
        <CompuVtabRange as Faithful>::fits(n, f),
        bare_tree(tree) == <CompuVtabRange as Faithful>::shape(n),
        numbered(tree.items, 0, f),
    ensures
        <ModuleChild as Child>::parsed(tree) == Ok::<ModuleChildView, Failure>(ModuleChildView::CompuVtabRange(n)),
{
    reveal_strlit("COMPU_VTAB_RANGE");
    reveal_strlit("MOD_PAR");
    assert("COMPU_VTAB_RANGE"@.len() != "MOD_PAR"@.len());
    reveal_strlit("MOD_COMMON");
    assert("COMPU_VTAB_RANGE"@.len() != "MOD_COMMON"@.len());
    reveal_strlit("MEASUREMENT");
    assert("COMPU_VTAB_RANGE"@.len() != "MEASUREMENT"@.len());
    reveal_strlit("CHARACTERISTIC");
    assert("COMPU_VTAB_RANGE"@.len() != "CHARACTERISTIC"@.len());
    reveal_strlit("AXIS_PTS");
    assert("COMPU_VTAB_RANGE"@.len() != "AXIS_PTS"@.len());
    reveal_strlit("BLOB");
    assert("COMPU_VTAB_RANGE"@.len() != "BLOB"@.len());
    reveal_strlit("INSTANCE");
    assert("COMPU_VTAB_RANGE"@.len() != "INSTANCE"@.len());
    reveal_strlit("COMPU_METHOD");
    assert("COMPU_VTAB_RANGE"@.len() != "COMPU_METHOD"@.len());
    reveal_strlit("COMPU_TAB");
    assert("COMPU_VTAB_RANGE"@.len() != "COMPU_TAB"@.len());
    reveal_strlit("COMPU_VTAB");
    assert("COMPU_VTAB_RANGE"@.len() != "COMPU_VTAB"@.len());
    assert(bare_tree(tree).keyword == "COMPU_VTAB_RANGE"@);
    lemma_node_read::<CompuVtabRange>(n, tree, f);
}

proof fn lemma_module_child_formula(n: FormulaView, tree: Tree, f: Setting)
    requires
        <Formula as Faithful>::fits(n, f),
        bare_tree(tree) == <Formula as Faithful>::shape(n),
        numbered(tree.items, 0, f),
    ensures
        <ModuleChild as Child>::parsed(tree) == Ok::<ModuleChildView, Failure>(ModuleChildView::Formula(n)),
{
    reveal_strlit("FORMULA");
    reveal_strlit("MOD_PAR");
    assert("FORMULA"@[0] != "MOD_PAR"@[0]);
    reveal_strlit("MOD_COMMON");
    assert("FORMULA"@.len() != "MOD_COMMON"@.len());
    reveal_strlit("MEASUREMENT");
    assert("FORMULA"@.len() != "MEASUREMENT"@.len());
    reveal_strlit("CHARACTERISTIC");
    assert("FORMULA"@.len() != "CHARACTERISTIC"@.len());
    reveal_strlit("AXIS_PTS");
    assert("FORMULA"@.len() != "AXIS_PTS"@.len());
    reveal_strlit("BLOB");
    assert("FORMULA"@.len() != "BLOB"@.len());
    reveal_strlit("INSTANCE");
    assert("FORMULA"@.len() != "INSTANCE"@.len());
    reveal_strlit("COMPU_METHOD");
    assert("FORMULA"@.len() != "COMPU_METHOD"@.len());
    reveal_strlit("COMPU_TAB");
    assert("FORMULA"@.len() != "COMPU_TAB"@.len());
    reveal_strlit("COMPU_VTAB");
    assert("FORMULA"@.len() != "COMPU_VTAB"@.len());
    reveal_strlit("COMPU_VTAB_RANGE");
    assert("FORMULA"@.len() != "COMPU_VTAB_RANGE"@.len());
    assert(bare_tree(tree).keyword == "FORMULA"@);
    lemma_node_read::<Formula>(n, tree, f);
}

proof fn lemma_module_child_record_layout(n: RecordLayoutView, tree: Tree, f: Setting)
    requires
        <RecordLayout as Faithful>::fits(n, f),
        bare_tree(tree) == <RecordLayout as Faithful>::shape(n),
        numbered(tree.items, 0, f),
    ensures
        <ModuleChild as Child>::parsed(tree) == Ok::<ModuleChildView, Failure>(ModuleChildView::RecordLayout(n)),
{
    reveal_strlit("RECORD_LAYOUT");
    reveal_strlit("MOD_PAR");
    assert("RECORD_LAYOUT"@.len() != "MOD_PAR"@.len());
    reveal_strlit("MOD_COMMON");
    assert("RECORD_LAYOUT"@.len() != "MOD_COMMON"@.len());
    reveal_strlit("MEASUREMENT");
    assert("RECORD_LAYOUT"@.len() != "MEASUREMENT"@.len());
    reveal_strlit("CHARACTERISTIC");
    assert("RECORD_LAYOUT"@.len() != "CHARACTERISTIC"@.len());
    reveal_strlit("AXIS_PTS");
    assert("RECORD_LAYOUT"@.len() != "AXIS_PTS"@.len());
    reveal_strlit("BLOB");
    assert("RECORD_LAYOUT"@.len() != "BLOB"@.len());
    reveal_strlit("INSTANCE");
    assert("RECORD_LAYOUT"@.len() != "INSTANCE"@.len());
    reveal_strlit("COMPU_METHOD");
    assert("RECORD_LAYOUT"@.len() != "COMPU_METHOD"@.len());
    reveal_strlit("COMPU_TAB");
    assert("RECORD_LAYOUT"@.len() != "COMPU_TAB"@.len());
    reveal_strlit("COMPU_VTAB");
    assert("RECORD_LAYOUT"@.len() != "COMPU_VTAB"@.len());
    reveal_strlit("COMPU_VTAB_RANGE");
    assert("RECORD_LAYOUT"@.len() != "COMPU_VTAB_RANGE"@.len());
    reveal_strlit("FORMULA");
    assert("RECORD_LAYOUT"@.len() != "FORMULA"@.len());
    assert(bare_tree(tree).keyword == "RECORD_LAYOUT"@);
    lemma_node_read::<RecordLayout>(n, tree, f);
}

proof fn lemma_module_child_function(n: FunctionView, tree: Tree, f: Setting)
    requires
        <Function as Faithful>::fits(n, f),
        bare_tree(tree) == <Function as Faithful>::shape(n),
        numbered(tree.items, 0, f),
    ensures
        <ModuleChild as Child>::parsed(tree) == Ok::<ModuleChildView, Failure>(ModuleChildView::Function(n)),
{
    reveal_strlit("FUNCTION");
    reveal_strlit("MOD_PAR");
    assert("FUNCTION"@.len() != "MOD_PAR"@.len());
    reveal_strlit("MOD_COMMON");
    assert("FUNCTION"@.len() != "MOD_COMMON"@.len());
    reveal_strlit("MEASUREMENT");
    assert("FUNCTION"@.len() != "MEASUREMENT"@.len());
    reveal_strlit("CHARACTERISTIC");
    assert("FUNCTION"@.len() != "CHARACTERISTIC"@.len());
    reveal_strlit("AXIS_PTS");
    assert("FUNCTION"@[0] != "AXIS_PTS"@[0]);
    reveal_strlit("BLOB");
    assert("FUNCTION"@.len() != "BLOB"@.len());
    reveal_strlit("INSTANCE");
    assert("FUNCTION"@[0] != "INSTANCE"@[0]);
    reveal_strlit("COMPU_METHOD");
    assert("FUNCTION"@.len() != "COMPU_METHOD"@.len());
    reveal_strlit("COMPU_TAB");
    assert("FUNCTION"@.len() != "COMPU_TAB"@.len());
    reveal_strlit("COMPU_VTAB");
    assert("FUNCTION"@.len() != "COMPU_VTAB"@.len());
    reveal_strlit("COMPU_VTAB_RANGE");
    assert("FUNCTION"@.len() != "COMPU_VTAB_RANGE"@.len());
    reveal_strlit("FORMULA");
    assert("FUNCTION"@.len() != "FORMULA"@.len());
    reveal_strlit("RECORD_LAYOUT");
    assert("FUNCTION"@.len() != "RECORD_LAYOUT"@.len());
    assert(bare_tree(tree).keyword == "FUNCTION"@);
    lemma_node_read::<Function>(n, tree, f);
}

proof fn lemma_module_child_group(n: GroupView, tree: Tree, f: Setting)
    requires
        <Group as Faithful>::fits(n, f),
        bare_tree(tree) == <Group as Faithful>::shape(n),
        numbered(tree.items, 0, f),
    ensures
        <ModuleChild as Child>::parsed(tree) == Ok::<ModuleChildView, Failure>(ModuleChildView::Group(n)),
{
    reveal_strlit("GROUP");
    reveal_strlit("MOD_PAR");
    assert("GROUP"@.len() != "MOD_PAR"@.len());
    reveal_strlit("MOD_COMMON");
    assert("GROUP"@.len() != "MOD_COMMON"@.len());
    reveal_strlit("MEASUREMENT");
    assert("GROUP"@.len() != "MEASUREMENT"@.len());
    reveal_strlit("CHARACTERISTIC");
    assert("GROUP"@.len() != "CHARACTERISTIC"@.len());
    reveal_strlit("AXIS_PTS");
    assert("GROUP"@.len() != "AXIS_PTS"@.len());
    reveal_strlit("BLOB");
    assert("GROUP"@.len() != "BLOB"@.len());
    reveal_strlit("INSTANCE");
    assert("GROUP"@.len() != "INSTANCE"@.len());
    reveal_strlit("COMPU_METHOD");
    assert("GROUP"@.len() != "COMPU_METHOD"@.len());
    reveal_strlit("COMPU_TAB");
    assert("GROUP"@.len() != "COMPU_TAB"@.len());
    reveal_strlit("COMPU_VTAB");
    assert("GROUP"@.len() != "COMPU_VTAB"@.len());
    reveal_strlit("COMPU_VTAB_RANGE");
    assert("GROUP"@.len() != "COMPU_VTAB_RANGE"@.len());
    reveal_strlit("FORMULA");
    assert("GROUP"@.len() != "FORMULA"@.len());
    reveal_strlit("RECORD_LAYOUT");
    assert("GROUP"@.len() != "RECORD_LAYOUT"@.len());
    reveal_strlit("FUNCTION");
    assert("GROUP"@.len() != "FUNCTION"@.len());
    assert(bare_tree(tree).keyword == "GROUP"@);
    lemma_node_read::<Group>(n, tree, f);
}

proof fn lemma_module_child_frame(n: FrameView, tree: Tree, f: Setting)
    requires
        <Frame as Faithful>::fits(n, f),
        bare_tree(tree) == <Frame as Faithful>::shape(n),
        numbered(tree.items, 0, f),
    ensures
        <ModuleChild as Child>::parsed(tree) == Ok::<ModuleChildView, Failure>(ModuleChildView::Frame(n)),
{
    reveal_strlit("FRAME");
    reveal_strlit("MOD_PAR");
    assert("FRAME"@.len() != "MOD_PAR"@.len());
    reveal_strlit("MOD_COMMON");
    assert("FRAME"@.len() != "MOD_COMMON"@.len());
    reveal_strlit("MEASUREMENT");
    assert("FRAME"@.len() != "MEASUREMENT"@.len());
    reveal_strlit("CHARACTERISTIC");
    assert("FRAME"@.len() != "CHARACTERISTIC"@.len());
    reveal_strlit("AXIS_PTS");
    assert("FRAME"@.len() != "AXIS_PTS"@.len());
    reveal_strlit("BLOB");
    assert("FRAME"@.len() != "BLOB"@.len());
    reveal_strlit("INSTANCE");
    assert("FRAME"@.len() != "INSTANCE"@.len());
    reveal_strlit("COMPU_METHOD");
    assert("FRAME"@.len() != "COMPU_METHOD"@.len());
    reveal_strlit("COMPU_TAB");
    assert("FRAME"@.len() != "COMPU_TAB"@.len());
    reveal_strlit("COMPU_VTAB");
    assert("FRAME"@.len() != "COMPU_VTAB"@.len());
    reveal_strlit("COMPU_VTAB_RANGE");
    assert("FRAME"@.len() != "COMPU_VTAB_RANGE"@.len());
    reveal_strlit("FORMULA");
    assert("FRAME"@.len() != "FORMULA"@.len());
    reveal_strlit("RECORD_LAYOUT");
    assert("FRAME"@.len() != "RECORD_LAYOUT"@.len());
    reveal_strlit("FUNCTION");
    assert("FRAME"@.len() != "FUNCTION"@.len());
    reveal_strlit("GROUP");
    assert("FRAME"@[0] != "GROUP"@[0]);
    assert(bare_tree(tree).keyword == "FRAME"@);
    lemma_node_read::<Frame>(n, tree, f);
}

proof fn lemma_module_child_unit(n: UnitView, tree: Tree, f: Setting)
    requires
        <Unit as Faithful>::fits(n, f),
        bare_tree(tree) == <Unit as Faithful>::shape(n),
        numbered(tree.items, 0, f),
    ensures
        <ModuleChild as Child>::parsed(tree) == Ok::<ModuleChildView, Failure>(ModuleChildView::Unit(n)),
{
    reveal_strlit("UNIT");
    reveal_strlit("MOD_PAR");
    assert("UNIT"@.len() != "MOD_PAR"@.len());
    reveal_strlit("MOD_COMMON");
    assert("UNIT"@.len() != "MOD_COMMON"@.len());
    reveal_strlit("MEASUREMENT");
    assert("UNIT"@.len() != "MEASUREMENT"@.len());
    reveal_strlit("CHARACTERISTIC");
    assert("UNIT"@.len() != "CHARACTERISTIC"@.len());
    reveal_strlit("AXIS_PTS");
    assert("UNIT"@.len() != "AXIS_PTS"@.len());
    reveal_strlit("BLOB");
    assert("UNIT"@[0] != "BLOB"@[0]);
    reveal_strlit("INSTANCE");
    assert("UNIT"@.len() != "INSTANCE"@.len());
    reveal_strlit("COMPU_METHOD");
    assert("UNIT"@.len() != "COMPU_METHOD"@.len());
    reveal_strlit("COMPU_TAB");
    assert("UNIT"@.len() != "COMPU_TAB"@.len());
    reveal_strlit("COMPU_VTAB");
    assert("UNIT"@.len() != "COMPU_VTAB"@.len());
    reveal_strlit("COMPU_VTAB_RANGE");
    assert("UNIT"@.len() != "COMPU_VTAB_RANGE"@.len());
    reveal_strlit("FORMULA");
    assert("UNIT"@.len() != "FORMULA"@.len());
    reveal_strlit("RECORD_LAYOUT");
    assert("UNIT"@.len() != "RECORD_LAYOUT"@.len());
    reveal_strlit("FUNCTION");
    assert("UNIT"@.len() != "FUNCTION"@.len());
    reveal_strlit("GROUP");
    assert("UNIT"@.len() != "GROUP"@.len());
    reveal_strlit("FRAME");
    assert("UNIT"@.len() != "FRAME"@.len());
    assert(bare_tree(tree).keyword == "UNIT"@);
    lemma_node_read::<Unit>(n, tree, f);
}

proof fn lemma_module_child_user_rights(n: UserRightsView, tree: Tree, f: Setting)
    requires
        <UserRights as Faithful>::fits(n, f),
        bare_tree(tree) == <UserRights as Faithful>::shape(n),
        numbered(tree.items, 0, f),
    ensures
        <ModuleChild as Child>::parsed(tree) == Ok::<ModuleChildView, Failure>(ModuleChildView::UserRights(n)),
{
    reveal_strlit("USER_RIGHTS");
    reveal_strlit("MOD_PAR");
    assert("USER_RIGHTS"@.len() != "MOD_PAR"@.len());
    reveal_strlit("MOD_COMMON");
    assert("USER_RIGHTS"@.len() != "MOD_COMMON"@.len());
    reveal_strlit("MEASUREMENT");
    assert("USER_RIGHTS"@[0] != "MEASUREMENT"@[0]);
    reveal_strlit("CHARACTERISTIC");
    assert("USER_RIGHTS"@.len() != "CHARACTERISTIC"@.len());
    reveal_strlit("AXIS_PTS");
    assert("USER_RIGHTS"@.len() != "AXIS_PTS"@.len());
    reveal_strlit("BLOB");
    assert("USER_RIGHTS"@.len() != "BLOB"@.len());
    reveal_strlit("INSTANCE");
    assert("USER_RIGHTS"@.len() != "INSTANCE"@.len());
    reveal_strlit("COMPU_METHOD");
    assert("USER_RIGHTS"@.len() != "COMPU_METHOD"@.len());
    reveal_strlit("COMPU_TAB");
    assert("USER_RIGHTS"@.len() != "COMPU_TAB"@.len());
    reveal_strlit("COMPU_VTAB");
    assert("USER_RIGHTS"@.len() != "COMPU_VTAB"@.len());
    reveal_strlit("COMPU_VTAB_RANGE");
    assert("USER_RIGHTS"@.len() != "COMPU_VTAB_RANGE"@.len());
    reveal_strlit("FORMULA");
    assert("USER_RIGHTS"@.len() != "FORMULA"@.len());
    reveal_strlit("RECORD_LAYOUT");
    assert("USER_RIGHTS"@.len() != "RECORD_LAYOUT"@.len());
    reveal_strlit("FUNCTION");
    assert("USER_RIGHTS"@.len() != "FUNCTION"@.len());
    reveal_strlit("GROUP");
    assert("USER_RIGHTS"@.len() != "GROUP"@.len());
    reveal_strlit("FRAME");
    assert("USER_RIGHTS"@.len() != "FRAME"@.len());
    reveal_strlit("UNIT");
    assert("USER_RIGHTS"@.len() != "UNIT"@.len());
    assert(bare_tree(tree).keyword == "USER_RIGHTS"@);
    lemma_node_read::<UserRights>(n, tree, f);
}

proof fn lemma_module_child_variant_coding(n: VariantCodingView, tree: Tree, f: Setting)
    requires
        <VariantCoding as Faithful>::fits(n, f),
        bare_tree(tree) == <VariantCoding as Faithful>::shape(n),
        numbered(tree.items, 0, f),
    ensures
        <ModuleChild as Child>::parsed(tree) == Ok::<ModuleChildView, Failure>(ModuleChildView::VariantCoding(n)),
{
    reveal_strlit("VARIANT_CODING");
    reveal_strlit("MOD_PAR");
    assert("VARIANT_CODING"@.len() != "MOD_PAR"@.len());
    reveal_strlit("MOD_COMMON");
    assert("VARIANT_CODING"@.len() != "MOD_COMMON"@.len());
    reveal_strlit("MEASUREMENT");
    assert("VARIANT_CODING"@.len() != "MEASUREMENT"@.len());
    reveal_strlit("CHARACTERISTIC");
    assert("VARIANT_CODING"@[0] != "CHARACTERISTIC"@[0]);
    reveal_strlit("AXIS_PTS");
    assert("VARIANT_CODING"@.len() != "AXIS_PTS"@.len());
    reveal_strlit("BLOB");
    assert("VARIANT_CODING"@.len() != "BLOB"@.len());
    reveal_strlit("INSTANCE");
    assert("VARIANT_CODING"@.len() != "INSTANCE"@.len());
    reveal_strlit("COMPU_METHOD");
    assert("VARIANT_CODING"@.len() != "COMPU_METHOD"@.len());
    reveal_strlit("COMPU_TAB");
    assert("VARIANT_CODING"@.len() != "COMPU_TAB"@.len());
    reveal_strlit("COMPU_VTAB");
    assert("VARIANT_CODING"@.len() != "COMPU_VTAB"@.len());
    reveal_strlit("COMPU_VTAB_RANGE");
    assert("VARIANT_CODING"@.len() != "COMPU_VTAB_RANGE"@.len());
    reveal_strlit("FORMULA");
    assert("VARIANT_CODING"@.len() != "FORMULA"@.len());
    reveal_strlit("RECORD_LAYOUT");
    assert("VARIANT_CODING"@.len() != "RECORD_LAYOUT"@.len());
    reveal_strlit("FUNCTION");
    assert("VARIANT_CODING"@.len() != "FUNCTION"@.len());
    reveal_strlit("GROUP");
    assert("VARIANT_CODING"@.len() != "GROUP"@.len());
    reveal_strlit("FRAME");
    assert("VARIANT_CODING"@.len() != "FRAME"@.len());
    reveal_strlit("UNIT");
    assert("VARIANT_CODING"@.len() != "UNIT"@.len());
    reveal_strlit("USER_RIGHTS");
    assert("VARIANT_CODING"@.len() != "USER_RIGHTS"@.len());
    assert(bare_tree(tree).keyword == "VARIANT_CODING"@);
    lemma_node_read::<VariantCoding>(n, tree, f);
}

proof fn lemma_module_child_typedef_axis(n: TypedefAxisView, tree: Tree, f: Setting)
    requires
        <TypedefAxis as Faithful>::fits(n, f),
        bare_tree(tree) == <TypedefAxis as Faithful>::shape(n),
        numbered(tree.items, 0, f),
    ensures
        <ModuleChild as Child>::parsed(tree) == Ok::<ModuleChildView, Failure>(ModuleChildView::TypedefAxis(n)),
{
    reveal_strlit("TYPEDEF_AXIS");
    reveal_strlit("MOD_PAR");
    assert("TYPEDEF_AXIS"@.len() != "MOD_PAR"@.len());
    reveal_strlit("MOD_COMMON");
    assert("TYPEDEF_AXIS"@.len() != "MOD_COMMON"@.len());
    reveal_strlit("MEASUREMENT");
    assert("TYPEDEF_AXIS"@.len() != "MEASUREMENT"@.len());
    reveal_strlit("CHARACTERISTIC");
    assert("TYPEDEF_AXIS"@.len() != "CHARACTERISTIC"@.len());
    reveal_strlit("AXIS_PTS");
    assert("TYPEDEF_AXIS"@.len() != "AXIS_PTS"@.len());
    reveal_strlit("BLOB");
    assert("TYPEDEF_AXIS"@.len() != "BLOB"@.len());
    reveal_strlit("INSTANCE");
    assert("TYPEDEF_AXIS"@.len() != "INSTANCE"@.len());
    reveal_strlit("COMPU_METHOD");
    assert("TYPEDEF_AXIS"@[0] != "COMPU_METHOD"@[0]);
    reveal_strlit("COMPU_TAB");
    assert("TYPEDEF_AXIS"@.len() != "COMPU_TAB"@.len());
    reveal_strlit("COMPU_VTAB");
    assert("TYPEDEF_AXIS"@.len() != "COMPU_VTAB"@.len());
    reveal_strlit("COMPU_VTAB_RANGE");
    assert("TYPEDEF_AXIS"@.len() != "COMPU_VTAB_RANGE"@.len());
    reveal_strlit("FORMULA");
    assert("TYPEDEF_AXIS"@.len() != "FORMULA"@.len());
    reveal_strlit("RECORD_LAYOUT");
    assert("TYPEDEF_AXIS"@.len() != "RECORD_LAYOUT"@.len());
    reveal_strlit("FUNCTION");
    assert("TYPEDEF_AXIS"@.len() != "FUNCTION"@.len());
    reveal_strlit("GROUP");
    assert("TYPEDEF_AXIS"@.len() != "GROUP"@.len());
    reveal_strlit("FRAME");
    assert("TYPEDEF_AXIS"@.len() != "FRAME"@.len());
    reveal_strlit("UNIT");
    assert("TYPEDEF_AXIS"@.len() != "UNIT"@.len());
    reveal_strlit("USER_RIGHTS");
    assert("TYPEDEF_AXIS"@.len() != "USER_RIGHTS"@.len());
    reveal_strlit("VARIANT_CODING");
    assert("TYPEDEF_AXIS"@.len() != "VARIANT_CODING"@.len());
    assert(bare_tree(tree).keyword == "TYPEDEF_AXIS"@);
    lemma_node_read::<TypedefAxis>(n, tree, f);
}

proof fn lemma_module_child_typedef_blob(n: TypedefBlobView, tree: Tree, f: Setting)
    requires
        <TypedefBlob as Faithful>::fits(n, f),
        bare_tree(tree) == <TypedefBlob as Faithful>::shape(n),
        numbered(tree.items, 0, f),
    ensures
        <ModuleChild as Child>::parsed(tree) == Ok::<ModuleChildView, Failure>(ModuleChildView::TypedefBlob(n)),
{
    reveal_strlit("TYPEDEF_BLOB");
    reveal_strlit("MOD_PAR");
    assert("TYPEDEF_BLOB"@.len() != "MOD_PAR"@.len());
    reveal_strlit("MOD_COMMON");
    assert("TYPEDEF_BLOB"@.len() != "MOD_COMMON"@.len());
    reveal_strlit("MEASUREMENT");
    assert("TYPEDEF_BLOB"@.len() != "MEASUREMENT"@.len());
    reveal_strlit("CHARACTERISTIC");
    assert("TYPEDEF_BLOB"@.len() != "CHARACTERISTIC"@.len());
    reveal_strlit("AXIS_PTS");
    assert("TYPEDEF_BLOB"@.len() != "AXIS_PTS"@.len());
    reveal_strlit("BLOB");
    assert("TYPEDEF_BLOB"@.len() != "BLOB"@.len());
    reveal_strlit("INSTANCE");
    assert("TYPEDEF_BLOB"@.len() != "INSTANCE"@.len());
    reveal_strlit("COMPU_METHOD");
    assert("TYPEDEF_BLOB"@[0] != "COMPU_METHOD"@[0]);
    reveal_strlit("COMPU_TAB");
    assert("TYPEDEF_BLOB"@.len() != "COMPU_TAB"@.len());
    reveal_strlit("COMPU_VTAB");
    assert("TYPEDEF_BLOB"@.len() != "COMPU_VTAB"@.len());
    reveal_strlit("COMPU_VTAB_RANGE");
    assert("TYPEDEF_BLOB"@.len() != "COMPU_VTAB_RANGE"@.len());
    reveal_strlit("FORMULA");
    assert("TYPEDEF_BLOB"@.len() != "FORMULA"@.len());
    reveal_strlit("RECORD_LAYOUT");
    assert("TYPEDEF_BLOB"@.len() != "RECORD_LAYOUT"@.len());
    reveal_strlit("FUNCTION");
    assert("TYPEDEF_BLOB"@.len() != "FUNCTION"@.len());
    reveal_strlit("GROUP");
    assert("TYPEDEF_BLOB"@.len() != "GROUP"@.len());
    reveal_strlit("FRAME");
    assert("TYPEDEF_BLOB"@.len() != "FRAME"@.len());
    reveal_strlit("UNIT");
    assert("TYPEDEF_BLOB"@.len() != "UNIT"@.len());
    reveal_strlit("USER_RIGHTS");
    assert("TYPEDEF_BLOB"@.len() != "USER_RIGHTS"@.len());
    reveal_strlit("VARIANT_CODING");
    assert("TYPEDEF_BLOB"@.len() != "VARIANT_CODING"@.len());
    reveal_strlit("TYPEDEF_AXIS");
    assert("TYPEDEF_BLOB"@[8] != "TYPEDEF_AXIS"@[8]);
    assert(bare_tree(tree).keyword == "TYPEDEF_BLOB"@);
    lemma_node_read::<TypedefBlob>(n, tree, f);
}

proof fn lemma_module_child_typedef_characteristic(n: TypedefCharacteristicView, tree: Tree, f: Setting)
    requires
        <TypedefCharacteristic as Faithful>::fits(n, f),
        bare_tree(tree) == <TypedefCharacteristic as Faithful>::shape(n),
        numbered(tree.items, 0, f),
    ensures
        <ModuleChild as Child>::parsed(tree) == Ok::<ModuleChildView, Failure>(
            ModuleChildView::TypedefCharacteristic(n)
        ),
{
    reveal_strlit("TYPEDEF_CHARACTERISTIC");
    reveal_strlit("MOD_PAR");
    assert("TYPEDEF_CHARACTERISTIC"@.len() != "MOD_PAR"@.len());
    reveal_strlit("MOD_COMMON");
    assert("TYPEDEF_CHARACTERISTIC"@.len() != "MOD_COMMON"@.len());
    reveal_strlit("MEASUREMENT");
    assert("TYPEDEF_CHARACTERISTIC"@.len() != "MEASUREMENT"@.len());
    reveal_strlit("CHARACTERISTIC");
    assert("TYPEDEF_CHARACTERISTIC"@.len() != "CHARACTERISTIC"@.len());
    reveal_strlit("AXIS_PTS");
    assert("TYPEDEF_CHARACTERISTIC"@.len() != "AXIS_PTS"@.len());
    reveal_strlit("BLOB");
    assert("TYPEDEF_CHARACTERISTIC"@.len() != "BLOB"@.len());
    reveal_strlit("INSTANCE");
    assert("TYPEDEF_CHARACTERISTIC"@.len() != "INSTANCE"@.len());
    reveal_strlit("COMPU_METHOD");
    assert("TYPEDEF_CHARACTERISTIC"@.len() != "COMPU_METHOD"@.len());
    reveal_strlit("COMPU_TAB");
    assert("TYPEDEF_CHARACTERISTIC"@.len() != "COMPU_TAB"@.len());
    reveal_strlit("COMPU_VTAB");
    assert("TYPEDEF_CHARACTERISTIC"@.len() != "COMPU_VTAB"@.len());
    reveal_strlit("COMPU_VTAB_RANGE");
    assert("TYPEDEF_CHARACTERISTIC"@.len() != "COMPU_VTAB_RANGE"@.len());
    reveal_strlit("FORMULA");
    assert("TYPEDEF_CHARACTERISTIC"@.len() != "FORMULA"@.len());
    reveal_strlit("RECORD_LAYOUT");
    assert("TYPEDEF_CHARACTERISTIC"@.len() != "RECORD_LAYOUT"@.len());
    reveal_strlit("FUNCTION");
    assert("TYPEDEF_CHARACTERISTIC"@.len() != "FUNCTION"@.len());
    reveal_strlit("GROUP");
    assert("TYPEDEF_CHARACTERISTIC"@.len() != "GROUP"@.len());
    reveal_strlit("FRAME");
    assert("TYPEDEF_CHARACTERISTIC"@.len() != "FRAME"@.len());
    reveal_strlit("UNIT");
    assert("TYPEDEF_CHARACTERISTIC"@.len() != "UNIT"@.len());
    reveal_strlit("USER_RIGHTS");
    assert("TYPEDEF_CHARACTERISTIC"@.len() != "USER_RIGHTS"@.len());
    reveal_strlit("VARIANT_CODING");
    assert("TYPEDEF_CHARACTERISTIC"@.len() != "VARIANT_CODING"@.len());
    reveal_strlit("TYPEDEF_AXIS");
    assert("TYPEDEF_CHARACTERISTIC"@.len() != "TYPEDEF_AXIS"@.len());
    reveal_strlit("TYPEDEF_BLOB");
    assert("TYPEDEF_CHARACTERISTIC"@.len() != "TYPEDEF_BLOB"@.len());
    assert(bare_tree(tree).keyword == "TYPEDEF_CHARACTERISTIC"@);
    lemma_node_read::<TypedefCharacteristic>(n, tree, f);
}

proof fn lemma_module_child_typedef_measurement(n: TypedefMeasurementView, tree: Tree, f: Setting)
    requires
        <TypedefMeasurement as Faithful>::fits(n, f),
        bare_tree(tree) == <TypedefMeasurement as Faithful>::shape(n),
        numbered(tree.items, 0, f),
    ensures
        <ModuleChild as Child>::parsed(tree) == Ok::<ModuleChildView, Failure>(
            ModuleChildView::TypedefMeasurement(n)
        ),
{
    reveal_strlit("TYPEDEF_MEASUREMENT");
    reveal_strlit("MOD_PAR");
    assert("TYPEDEF_MEASUREMENT"@.len() != "MOD_PAR"@.len());
    reveal_strlit("MOD_COMMON");
    assert("TYPEDEF_MEASUREMENT"@.len() != "MOD_COMMON"@.len());
    reveal_strlit("MEASUREMENT");
    assert("TYPEDEF_MEASUREMENT"@.len() != "MEASUREMENT"@.len());
    reveal_strlit("CHARACTERISTIC");
    assert("TYPEDEF_MEASUREMENT"@.len() != "CHARACTERISTIC"@.len());
    reveal_strlit("AXIS_PTS");
    assert("TYPEDEF_MEASUREMENT"@.len() != "AXIS_PTS"@.len());
    reveal_strlit("BLOB");
    assert("TYPEDEF_MEASUREMENT"@.len() != "BLOB"@.len());
    reveal_strlit("INSTANCE");
    assert("TYPEDEF_MEASUREMENT"@.len() != "INSTANCE"@.len());
    reveal_strlit("COMPU_METHOD");
    assert("TYPEDEF_MEASUREMENT"@.len() != "COMPU_METHOD"@.len());
    reveal_strlit("COMPU_TAB");
    assert("TYPEDEF_MEASUREMENT"@.len() != "COMPU_TAB"@.len());
    reveal_strlit("COMPU_VTAB");
    assert("TYPEDEF_MEASUREMENT"@.len() != "COMPU_VTAB"@.len());
    reveal_strlit("COMPU_VTAB_RANGE");
    assert("TYPEDEF_MEASUREMENT"@.len() != "COMPU_VTAB_RANGE"@.len());
    reveal_strlit("FORMULA");
    assert("TYPEDEF_MEASUREMENT"@.len() != "FORMULA"@.len());
    reveal_strlit("RECORD_LAYOUT");
    assert("TYPEDEF_MEASUREMENT"@.len() != "RECORD_LAYOUT"@.len());
    reveal_strlit("FUNCTION");
    assert("TYPEDEF_MEASUREMENT"@.len() != "FUNCTION"@.len());
    reveal_strlit("GROUP");
    assert("TYPEDEF_MEASUREMENT"@.len() != "GROUP"@.len());
    reveal_strlit("FRAME");
    assert("TYPEDEF_MEASUREMENT"@.len() != "FRAME"@.len());
    reveal_strlit("UNIT");
    assert("TYPEDEF_MEASUREMENT"@.len() != "UNIT"@.len());
    reveal_strlit("USER_RIGHTS");
    assert("TYPEDEF_MEASUREMENT"@.len() != "USER_RIGHTS"@.len());
    reveal_strlit("VARIANT_CODING");
    assert("TYPEDEF_MEASUREMENT"@.len() != "VARIANT_CODING"@.len());
    reveal_strlit("TYPEDEF_AXIS");
    assert("TYPEDEF_MEASUREMENT"@.len() != "TYPEDEF_AXIS"@.len());
    reveal_strlit("TYPEDEF_BLOB");
    assert("TYPEDEF_MEASUREMENT"@.len() != "TYPEDEF_BLOB"@.len());
    reveal_strlit("TYPEDEF_CHARACTERISTIC");
    assert("TYPEDEF_MEASUREMENT"@.len() != "TYPEDEF_CHARACTERISTIC"@.len());
    assert(bare_tree(tree).keyword == "TYPEDEF_MEASUREMENT"@);
    lemma_node_read::<TypedefMeasurement>(n, tree, f);
}

proof fn lemma_module_child_typedef_structure(n: TypedefStructureView, tree: Tree, f: Setting)
    requires
        <TypedefStructure as Faithful>::fits(n, f),
        bare_tree(tree) == <TypedefStructure as Faithful>::shape(n),
        numbered(tree.items, 0, f),
    ensures
        <ModuleChild as Child>::parsed(tree) == Ok::<ModuleChildView, Failure>(
            ModuleChildView::TypedefStructure(n)
        ),
{
    reveal_strlit("TYPEDEF_STRUCTURE");
    reveal_strlit("MOD_PAR");
    assert("TYPEDEF_STRUCTURE"@.len() != "MOD_PAR"@.len());
    reveal_strlit("MOD_COMMON");
    assert("TYPEDEF_STRUCTURE"@.len() != "MOD_COMMON"@.len());
    reveal_strlit("MEASUREMENT");
    assert("TYPEDEF_STRUCTURE"@.len() != "MEASUREMENT"@.len());
    reveal_strlit("CHARACTERISTIC");
    assert("TYPEDEF_STRUCTURE"@.len() != "CHARACTERISTIC"@.len());
    reveal_strlit("AXIS_PTS");
    assert("TYPEDEF_STRUCTURE"@.len() != "AXIS_PTS"@.len());
    reveal_strlit("BLOB");
    assert("TYPEDEF_STRUCTURE"@.len() != "BLOB"@.len());
    reveal_strlit("INSTANCE");
    assert("TYPEDEF_STRUCTURE"@.len() != "INSTANCE"@.len());
    reveal_strlit("COMPU_METHOD");
    assert("TYPEDEF_STRUCTURE"@.len() != "COMPU_METHOD"@.len());
    reveal_strlit("COMPU_TAB");
    assert("TYPEDEF_STRUCTURE"@.len() != "COMPU_TAB"@.len());
    reveal_strlit("COMPU_VTAB");
    assert("TYPEDEF_STRUCTURE"@.len() != "COMPU_VTAB"@.len());
    reveal_strlit("COMPU_VTAB_RANGE");
    assert("TYPEDEF_STRUCTURE"@.len() != "COMPU_VTAB_RANGE"@.len());
    reveal_strlit("FORMULA");
    assert("TYPEDEF_STRUCTURE"@.len() != "FORMULA"@.len());
    reveal_strlit("RECORD_LAYOUT");
    assert("TYPEDEF_STRUCTURE"@.len() != "RECORD_LAYOUT"@.len());
    reveal_strlit("FUNCTION");
    assert("TYPEDEF_STRUCTURE"@.len() != "FUNCTION"@.len());
    reveal_strlit("GROUP");
    assert("TYPEDEF_STRUCTURE"@.len() != "GROUP"@.len());
    reveal_strlit("FRAME");
    assert("TYPEDEF_STRUCTURE"@.len() != "FRAME"@.len());
    reveal_strlit("UNIT");
    assert("TYPEDEF_STRUCTURE"@.len() != "UNIT"@.len());
    reveal_strlit("USER_RIGHTS");
    assert("TYPEDEF_STRUCTURE"@.len() != "USER_RIGHTS"@.len());
    reveal_strlit("VARIANT_CODING");
    assert("TYPEDEF_STRUCTURE"@.len() != "VARIANT_CODING"@.len());
    reveal_strlit("TYPEDEF_AXIS");
    assert("TYPEDEF_STRUCTURE"@.len() != "TYPEDEF_AXIS"@.len());
    reveal_strlit("TYPEDEF_BLOB");
    assert("TYPEDEF_STRUCTURE"@.len() != "TYPEDEF_BLOB"@.len());
    reveal_strlit("TYPEDEF_CHARACTERISTIC");
    assert("TYPEDEF_STRUCTURE"@.len() != "TYPEDEF_CHARACTERISTIC"@.len());
    reveal_strlit("TYPEDEF_MEASUREMENT");
    assert("TYPEDEF_STRUCTURE"@.len() != "TYPEDEF_MEASUREMENT"@.len());
    assert(bare_tree(tree).keyword == "TYPEDEF_STRUCTURE"@);
    lemma_node_read::<TypedefStructure>(n, tree, f);
}

impl FaithfulChild for ModuleChild {
    open spec fn fits(v: ModuleChildView, f: Setting) -> bool {
        match v {
            ModuleChildView::ModPar(n) => <ModPar as Faithful>::fits(n, f),
            ModuleChildView::ModCommon(n) => <ModCommon as Faithful>::fits(n, f),
            ModuleChildView::Measurement(n) => <Measurement as Faithful>::fits(n, f),
            ModuleChildView::Characteristic(n) => <Characteristic as Faithful>::fits(n, f),
            ModuleChildView::AxisPts(n) => <AxisPts as Faithful>::fits(n, f),
            ModuleChildView::Blob(n) => <Blob as Faithful>::fits(n, f),
            ModuleChildView::Instance(n) => <Instance as Faithful>::fits(n, f),
            ModuleChildView::CompuMethod(n) => <CompuMethod as Faithful>::fits(n, f),
            ModuleChildView::CompuTab(n) => <CompuTab as Faithful>::fits(n, f),
            ModuleChildView::CompuVtab(n) => <CompuVtab as Faithful>::fits(n, f),
            ModuleChildView::CompuVtabRange(n) => <CompuVtabRange as Faithful>::fits(n, f),
            ModuleChildView::Formula(n) => <Formula as Faithful>::fits(n, f),
            ModuleChildView::RecordLayout(n) => <RecordLayout as Faithful>::fits(n, f),
            ModuleChildView::Function(n) => <Function as Faithful>::fits(n, f),
            ModuleChildView::Group(n) => <Group as Faithful>::fits(n, f),
            ModuleChildView::Frame(n) => <Frame as Faithful>::fits(n, f),
            ModuleChildView::Unit(n) => <Unit as Faithful>::fits(n, f),
            ModuleChildView::UserRights(n) => <UserRights as Faithful>::fits(n, f),
            ModuleChildView::VariantCoding(n) => <VariantCoding as Faithful>::fits(n, f),
            ModuleChildView::TypedefAxis(n) => <TypedefAxis as Faithful>::fits(n, f),
            ModuleChildView::TypedefBlob(n) => <TypedefBlob as Faithful>::fits(n, f),
            ModuleChildView::TypedefCharacteristic(n) => <TypedefCharacteristic as Faithful>::fits(n, f),
            ModuleChildView::TypedefMeasurement(n) => <TypedefMeasurement as Faithful>::fits(n, f),
            ModuleChildView::TypedefStructure(n) => <TypedefStructure as Faithful>::fits(n, f),
            ModuleChildView::Unsupported(n) => <UnsupportedNode as FaithfulChild>::fits(n, f) && n.keyword != "MOD_PAR"@ && n.keyword != "MOD_COMMON"@ && n.keyword != "MEASUREMENT"@ && n.keyword != "CHARACTERISTIC"@ && n.keyword != "AXIS_PTS"@ && n.keyword != "BLOB"@ && n.keyword != "INSTANCE"@ && n.keyword != "COMPU_METHOD"@ && n.keyword != "COMPU_TAB"@ && n.keyword != "COMPU_VTAB"@ && n.keyword != "COMPU_VTAB_RANGE"@ && n.keyword != "FORMULA"@ && n.keyword != "RECORD_LAYOUT"@ && n.keyword != "FUNCTION"@ && n.keyword != "GROUP"@ && n.keyword != "FRAME"@ && n.keyword != "UNIT"@ && n.keyword != "USER_RIGHTS"@ && n.keyword != "VARIANT_CODING"@ && n.keyword != "TYPEDEF_AXIS"@ && n.keyword != "TYPEDEF_BLOB"@ && n.keyword != "TYPEDEF_CHARACTERISTIC"@ && n.keyword != "TYPEDEF_MEASUREMENT"@ && n.keyword != "TYPEDEF_STRUCTURE"@,
        }
    }

    open spec fn shape(v: ModuleChildView) -> Tree {
        match v {
            ModuleChildView::ModPar(n) => <ModPar as Faithful>::shape(n),
            ModuleChildView::ModCommon(n) => <ModCommon as Faithful>::shape(n),
            ModuleChildView::Measurement(n) => <Measurement as Faithful>::shape(n),
            ModuleChildView::Characteristic(n) => <Characteristic as Faithful>::shape(n),
            ModuleChildView::AxisPts(n) => <AxisPts as Faithful>::shape(n),
            ModuleChildView::Blob(n) => <Blob as Faithful>::shape(n),
            ModuleChildView::Instance(n) => <Instance as Faithful>::shape(n),
            ModuleChildView::CompuMethod(n) => <CompuMethod as Faithful>::shape(n),
            ModuleChildView::CompuTab(n) => <CompuTab as Faithful>::shape(n),
            ModuleChildView::CompuVtab(n) => <CompuVtab as Faithful>::shape(n),
            ModuleChildView::CompuVtabRange(n) => <CompuVtabRange as Faithful>::shape(n),
            ModuleChildView::Formula(n) => <Formula as Faithful>::shape(n),
            ModuleChildView::RecordLayout(n) => <RecordLayout as Faithful>::shape(n),
            ModuleChildView::Function(n) => <Function as Faithful>::shape(n),
            ModuleChildView::Group(n) => <Group as Faithful>::shape(n),
            ModuleChildView::Frame(n) => <Frame as Faithful>::shape(n),
            ModuleChildView::Unit(n) => <Unit as Faithful>::shape(n),
            ModuleChildView::UserRights(n) => <UserRights as Faithful>::shape(n),
            ModuleChildView::VariantCoding(n) => <VariantCoding as Faithful>::shape(n),
            ModuleChildView::TypedefAxis(n) => <TypedefAxis as Faithful>::shape(n),
            ModuleChildView::TypedefBlob(n) => <TypedefBlob as Faithful>::shape(n),
            ModuleChildView::TypedefCharacteristic(n) => <TypedefCharacteristic as Faithful>::shape(n),
            ModuleChildView::TypedefMeasurement(n) => <TypedefMeasurement as Faithful>::shape(n),
            ModuleChildView::TypedefStructure(n) => <TypedefStructure as Faithful>::shape(n),
            ModuleChildView::Unsupported(n) => <UnsupportedNode as FaithfulChild>::shape(n),
        }
    }

    proof fn law_shown(v: ModuleChildView, p: Page, f: Setting) {
        match v {
            ModuleChildView::ModPar(n) => {
                lemma_node_shown::<ModPar>(n, p, f);
            },
            ModuleChildView::ModCommon(n) => {
                lemma_node_shown::<ModCommon>(n, p, f);
            },
            ModuleChildView::Measurement(n) => {
                lemma_node_shown::<Measurement>(n, p, f);
            },
            ModuleChildView::Characteristic(n) => {
                lemma_node_shown::<Characteristic>(n, p, f);
            },
            ModuleChildView::AxisPts(n) => {
                lemma_node_shown::<AxisPts>(n, p, f);
            },
            ModuleChildView::Blob(n) => {
                lemma_node_shown::<Blob>(n, p, f);
            },
            ModuleChildView::Instance(n) => {
                lemma_node_shown::<Instance>(n, p, f);
            },
            ModuleChildView::CompuMethod(n) => {
                lemma_node_shown::<CompuMethod>(n, p, f);
            },
            ModuleChildView::CompuTab(n) => {
                lemma_node_shown::<CompuTab>(n, p, f);
            },
            ModuleChildView::CompuVtab(n) => {
                lemma_node_shown::<CompuVtab>(n, p, f);
            },
            ModuleChildView::CompuVtabRange(n) => {
                lemma_node_shown::<CompuVtabRange>(n, p, f);
            },
            ModuleChildView::Formula(n) => {
                lemma_node_shown::<Formula>(n, p, f);
            },
            ModuleChildView::RecordLayout(n) => {
                lemma_node_shown::<RecordLayout>(n, p, f);
            },
            ModuleChildView::Function(n) => {
                lemma_node_shown::<Function>(n, p, f);
            },
            ModuleChildView::Group(n) => {
                lemma_node_shown::<Group>(n, p, f);
            },
            ModuleChildView::Frame(n) => {
                lemma_node_shown::<Frame>(n, p, f);
            },
            ModuleChildView::Unit(n) => {
                lemma_node_shown::<Unit>(n, p, f);
            },
            ModuleChildView::UserRights(n) => {
                lemma_node_shown::<UserRights>(n, p, f);
            },
            ModuleChildView::VariantCoding(n) => {
                lemma_node_shown::<VariantCoding>(n, p, f);
            },
            ModuleChildView::TypedefAxis(n) => {
                lemma_node_shown::<TypedefAxis>(n, p, f);
            },
            ModuleChildView::TypedefBlob(n) => {
                lemma_node_shown::<TypedefBlob>(n, p, f);
            },
            ModuleChildView::TypedefCharacteristic(n) => {
                lemma_node_shown::<TypedefCharacteristic>(n, p, f);
            },
            ModuleChildView::TypedefMeasurement(n) => {
                lemma_node_shown::<TypedefMeasurement>(n, p, f);
            },
            ModuleChildView::TypedefStructure(n) => {
                lemma_node_shown::<TypedefStructure>(n, p, f);
            },
            ModuleChildView::Unsupported(n) => {
                <UnsupportedNode as FaithfulChild>::law_shown(n, p, f);
            },
        }
    }

    proof fn law_parsed(v: ModuleChildView, tree: Tree, f: Setting) {
        match v {
            ModuleChildView::ModPar(n) => {
                lemma_module_child_mod_par(n, tree, f);
            },
            ModuleChildView::ModCommon(n) => {
                lemma_module_child_mod_common(n, tree, f);
            },
            ModuleChildView::Measurement(n) => {
                lemma_module_child_measurement(n, tree, f);
            },
            ModuleChildView::Characteristic(n) => {
                lemma_module_child_characteristic(n, tree, f);
            },
            ModuleChildView::AxisPts(n) => {
                lemma_module_child_axis_pts(n, tree, f);
            },
            ModuleChildView::Blob(n) => {
                lemma_module_child_blob(n, tree, f);
            },
            ModuleChildView::Instance(n) => {
                lemma_module_child_instance(n, tree, f);
            },
            ModuleChildView::CompuMethod(n) => {
                lemma_module_child_compu_method(n, tree, f);
            },
            ModuleChildView::CompuTab(n) => {
                lemma_module_child_compu_tab(n, tree, f);
            },
            ModuleChildView::CompuVtab(n) => {
                lemma_module_child_compu_vtab(n, tree, f);
            },
            ModuleChildView::CompuVtabRange(n) => {
                lemma_module_child_compu_vtab_range(n, tree, f);
            },
            ModuleChildView::Formula(n) => {
                lemma_module_child_formula(n, tree, f);
            },
            ModuleChildView::RecordLayout(n) => {
                lemma_module_child_record_layout(n, tree, f);
            },
            ModuleChildView::Function(n) => {
                lemma_module_child_function(n, tree, f);
            },
            ModuleChildView::Group(n) => {
                lemma_module_child_group(n, tree, f);
            },
            ModuleChildView::Frame(n) => {
                lemma_module_child_frame(n, tree, f);
            },
            ModuleChildView::Unit(n) => {
                lemma_module_child_unit(n, tree, f);
            },
            ModuleChildView::UserRights(n) => {
                lemma_module_child_user_rights(n, tree, f);
            },
            ModuleChildView::VariantCoding(n) => {
                lemma_module_child_variant_coding(n, tree, f);
            },
            ModuleChildView::TypedefAxis(n) => {
                lemma_module_child_typedef_axis(n, tree, f);
            },
            ModuleChildView::TypedefBlob(n) => {
                lemma_module_child_typedef_blob(n, tree, f);
            },
            ModuleChildView::TypedefCharacteristic(n) => {
                lemma_module_child_typedef_characteristic(n, tree, f);
            },
            ModuleChildView::TypedefMeasurement(n) => {
                lemma_module_child_typedef_measurement(n, tree, f);
            },
            ModuleChildView::TypedefStructure(n) => {
                lemma_module_child_typedef_structure(n, tree, f);
            },
            ModuleChildView::Unsupported(n) => {
                <UnsupportedNode as FaithfulChild>::law_parsed(n, tree, f);
            },
        }
    }
}

/// The parameters of the block.
pub open spec fn module_params(v: ModuleView) -> Seq<Tok> {
    seq![plain(v.name)] + (seq![string(escaped(v.description->Some_0))])
}

impl Faithful for Module {
    open spec fn fits(v: ModuleView, f: Setting) -> bool {
        &&& is_param(plain(v.name))
        &&& v.description is Some
        &&& all_fit::<ModuleChild>(v.children, f)
        &&& forall|i: int|
            0 <= i < v.children.len() && (#[trigger] v.children[i]).is_a2ml() ==> f.a2ml
    }

    open spec fn shape(v: ModuleView) -> Tree {
        shape_of("MODULE"@, module_params(v), shapes::<ModuleChild>(v.children))
    }

    proof fn law_shown(v: ModuleView, p: Page, f: Setting) {
        reveal_strlit("MODULE");
        lemma_keyword_word("MODULE"@);
        let h = seq![plain(v.name)];
        let x = seq![string(escaped(v.description->Some_0))];
        reveal_strlit("MODULE ");
        reveal_strlit(" ");
        assert("MODULE "@ + v.name =~= "MODULE"@ + " "@ + v.name);
        lemma_spells_word("MODULE"@);
        lemma_spells_word(v.name);
        lemma_spells_join("MODULE"@, seq![plain("MODULE"@)], v.name, seq![plain(v.name)]);
        crate::a2l::tree_laws::lemma_shows_begin(p, "MODULE "@ + v.name, seq![plain("MODULE"@)] + h);
        let p0 = p.begin("MODULE "@ + v.name);
        lemma_shows_quote_line(p0, v.description->Some_0);
        let q0 = p0.quote_line(v.description->Some_0);
        assert(shows(p0, q0, x));
        assert(q0.style == p.style);
        if !p.style.write_a2ml {
            Module::lemma_kept_all(v.children);
        }
        assert(Module::kept(v.children, q0.style.write_a2ml) == v.children);
        lemma_children_shown::<ModuleChild>(v.children, true, q0, f);
        lemma_shapes_sound::<ModuleChild>(v.children, p, f);
        let q = children_written::<ModuleChild>(v.children, 0, true, q0)->Ok_0;
        let kids = shapes::<ModuleChild>(v.children);
        let y = blocks_tokens(kids, 0);
        lemma_shows_join(p0, q0, q, x, y);
        lemma_string_param(v.description->Some_0);
        assert(all_params(h));
        lemma_all_params_join(h, x);
        lemma_shape_tokens(h + x, kids);
        lemma_sound_shape("MODULE"@, h + x, kids);
        assert(h + (x + y) =~= h + x + y);
        assert(Self::body(v, p0) == Ok::<Page, Stopped>(q));
        lemma_shows_block(p, "MODULE "@ + v.name, h, "MODULE"@, q, x + y, Self::shape(v));
    }

    proof fn law_parsed(v: ModuleView, tree: Tree, f: Setting) {
        let h = seq![plain(v.name)];
        let x = seq![string(escaped(v.description->Some_0))];
        let kids = shapes::<ModuleChild>(v.children);
        lemma_shape_found(tree, "MODULE"@, h + x, kids, f);
        let c = Cur::start(tree);
        lemma_tokens_at_split(c.toks, 0, h, x);
        law_unescaped_of_escaped(v.description->Some_0);
        assert(bare(c.toks[0int + 0]) == h[0]);
        assert(bare(c.toks[1int + 0]) == x[0]);
        lemma_children_read::<ModuleChild>(v.children, children_of(tree.items), f);
    }
}

} // verus!
