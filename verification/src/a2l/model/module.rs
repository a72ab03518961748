//! `MODULE` and what it holds of the device: `MOD_COMMON`, `MOD_PAR`, memory, calibration, units
//! and user rights.

use crate::a2l::block::{Block, Tree, children_of};
use crate::a2l::error::{Failure, Result};
use crate::a2l::maps::{
    copy_texts, count_texts, insert_text, new_texts, text_at, text_entries, with_entry,
};
use crate::a2l::model::base::{ByteOrder, ReferenceFields};
use crate::a2l::model::characteristic::{AxisPts, AxisPtsView, Characteristic, CharacteristicView};
use crate::a2l::model::compu::{
    CompuMethod, CompuMethodView, CompuTab, CompuTabView, CompuVtab, CompuVtabRange,
    CompuVtabRangeView, CompuVtabView, Formula, FormulaView,
};
use crate::a2l::model::enums::{
    A2lKeyword, DepositType, MemoryAttribute, MemoryPrgType, MemoryType, PrgType, UnitType,
};
use crate::a2l::model::function::{Frame, FrameView, Function, FunctionView, Group, GroupView};
use crate::a2l::model::measurement::{
    Blob, BlobView, Instance, InstanceView, Measurement, MeasurementView,
};
use crate::a2l::model::parts::{all_kept, 
    Child, children_parsed, children_written, dims_text, enum_value, float_pair, hex_form,
    int_array, keyword_or, listed, node_parsed, node_written, parse_node, read_children, read_enum,
    read_ints, read_pair, to_hex, word_or, write_children, write_node,
};
use crate::a2l::model::record_layout::{RecordLayout, RecordLayoutView};
use crate::a2l::model::typedef::{
    TypedefAxis, TypedefAxisView, TypedefBlob, TypedefBlobView, TypedefCharacteristic,
    TypedefCharacteristicView, TypedefMeasurement, TypedefMeasurementView, TypedefStructure,
    TypedefStructureView,
};
use crate::a2l::model::unsupported::{UnsupportedNode, UnsupportedNodeView};
use crate::a2l::model::variant::{VariantCoding, VariantCodingView};
use crate::a2l::node::{Node, enclosed};
use crate::a2l::number::{Num, Number};
use crate::a2l::params::{
    Cur, Got, ParamCursor, read_ident, read_int, read_string, read_token, read_uint,
};
use crate::views::{append, copy_text, no_text, none_yet, opt, views};
use crate::a2l::writer::{Page, Writer, Written, escape_str, escaped, quote, Stopped};
use crate::text::{
    dec, dec_int, dec_int_text, dec_text, eq_ignore_case, same_ignore_case, same_text,
};
use indexmap::IndexMap;
use vstd::prelude::*;

verus! {

/// `MODULE`: the description of one device.
#[derive(Debug, Clone, PartialEq, Eq)]
pub struct Module {
    pub name: String,
    pub description: Option<String>,
    pub children: Vec<ModuleChild>,
}

/// [`Module`] as a mathematical value.
pub struct ModuleView {
    pub name: Seq<char>,
    pub description: Option<Seq<char>>,
    pub children: Seq<ModuleChildView>,
}

impl View for Module {
    type V = ModuleView;

    open spec fn view(&self) -> ModuleView {
        ModuleView {
            name: self.name@,
            description: opt(self.description),
            children: views(self.children@),
        }
    }
}

impl Module {
    /// The node before anything is read.
    pub open spec fn blank() -> ModuleView {
        ModuleView {
            name: Seq::empty(),
            description: None,
            children: Seq::empty(),
        }
    }
}

impl Default for Module {
    fn default() -> (r: Self)
        ensures
            r@ == Module::blank(),
    {
        Module {
            name: no_text(),
            description: None,
            children: none_yet(),
        }
    }
}

/// A block within the node.
#[allow(clippy::large_enum_variant)]
#[derive(Debug, Clone, PartialEq, Eq)]
pub enum ModuleChild {
    /// `/begin MOD_PAR`.
    ModPar(ModPar),
    /// `/begin MOD_COMMON`.
    ModCommon(ModCommon),
    /// `/begin MEASUREMENT`.
    Measurement(Measurement),
    /// `/begin CHARACTERISTIC`.
    Characteristic(Characteristic),
    /// `/begin AXIS_PTS`.
    AxisPts(AxisPts),
    /// `/begin BLOB`.
    Blob(Blob),
    /// `/begin INSTANCE`.
    Instance(Instance),
    /// `/begin COMPU_METHOD`.
    CompuMethod(CompuMethod),
    /// `/begin COMPU_TAB`.
    CompuTab(CompuTab),
    /// `/begin COMPU_VTAB`.
    CompuVtab(CompuVtab),
    /// `/begin COMPU_VTAB_RANGE`.
    CompuVtabRange(CompuVtabRange),
    /// `/begin FORMULA`.
    Formula(Formula),
    /// `/begin RECORD_LAYOUT`.
    RecordLayout(RecordLayout),
    /// `/begin FUNCTION`.
    Function(Function),
    /// `/begin GROUP`.
    Group(Group),
    /// `/begin FRAME`.
    Frame(Frame),
    /// `/begin UNIT`.
    Unit(Unit),
    /// `/begin USER_RIGHTS`.
    UserRights(UserRights),
    /// `/begin VARIANT_CODING`.
    VariantCoding(VariantCoding),
    /// `/begin TYPEDEF_AXIS`.
    TypedefAxis(TypedefAxis),
    /// `/begin TYPEDEF_BLOB`.
    TypedefBlob(TypedefBlob),
    /// `/begin TYPEDEF_CHARACTERISTIC`.
    TypedefCharacteristic(TypedefCharacteristic),
    /// `/begin TYPEDEF_MEASUREMENT`.
    TypedefMeasurement(TypedefMeasurement),
    /// `/begin TYPEDEF_STRUCTURE`.
    TypedefStructure(TypedefStructure),
    Unsupported(UnsupportedNode),
}

/// [`ModuleChild`] as a mathematical value.
pub enum ModuleChildView {
    ModPar(ModParView),
    ModCommon(ModCommonView),
    Measurement(MeasurementView),
    Characteristic(CharacteristicView),
    AxisPts(AxisPtsView),
    Blob(BlobView),
    Instance(InstanceView),
    CompuMethod(CompuMethodView),
    CompuTab(CompuTabView),
    CompuVtab(CompuVtabView),
    CompuVtabRange(CompuVtabRangeView),
    Formula(FormulaView),
    RecordLayout(RecordLayoutView),
    Function(FunctionView),
    Group(GroupView),
    Frame(FrameView),
    Unit(UnitView),
    UserRights(UserRightsView),
    VariantCoding(VariantCodingView),
    TypedefAxis(TypedefAxisView),
    TypedefBlob(TypedefBlobView),
    TypedefCharacteristic(TypedefCharacteristicView),
    TypedefMeasurement(TypedefMeasurementView),
    TypedefStructure(TypedefStructureView),
    Unsupported(UnsupportedNodeView),
}

impl View for ModuleChild {
    type V = ModuleChildView;

    open spec fn view(&self) -> ModuleChildView {
        match self {
            ModuleChild::ModPar(n) => ModuleChildView::ModPar(n@),
            ModuleChild::ModCommon(n) => ModuleChildView::ModCommon(n@),
            ModuleChild::Measurement(n) => ModuleChildView::Measurement(n@),
            ModuleChild::Characteristic(n) => ModuleChildView::Characteristic(n@),
            ModuleChild::AxisPts(n) => ModuleChildView::AxisPts(n@),
            ModuleChild::Blob(n) => ModuleChildView::Blob(n@),
            ModuleChild::Instance(n) => ModuleChildView::Instance(n@),
            ModuleChild::CompuMethod(n) => ModuleChildView::CompuMethod(n@),
            ModuleChild::CompuTab(n) => ModuleChildView::CompuTab(n@),
            ModuleChild::CompuVtab(n) => ModuleChildView::CompuVtab(n@),
            ModuleChild::CompuVtabRange(n) => ModuleChildView::CompuVtabRange(n@),
            ModuleChild::Formula(n) => ModuleChildView::Formula(n@),
            ModuleChild::RecordLayout(n) => ModuleChildView::RecordLayout(n@),
            ModuleChild::Function(n) => ModuleChildView::Function(n@),
            ModuleChild::Group(n) => ModuleChildView::Group(n@),
            ModuleChild::Frame(n) => ModuleChildView::Frame(n@),
            ModuleChild::Unit(n) => ModuleChildView::Unit(n@),
            ModuleChild::UserRights(n) => ModuleChildView::UserRights(n@),
            ModuleChild::VariantCoding(n) => ModuleChildView::VariantCoding(n@),
            ModuleChild::TypedefAxis(n) => ModuleChildView::TypedefAxis(n@),
            ModuleChild::TypedefBlob(n) => ModuleChildView::TypedefBlob(n@),
            ModuleChild::TypedefCharacteristic(n) => ModuleChildView::TypedefCharacteristic(n@),
            ModuleChild::TypedefMeasurement(n) => ModuleChildView::TypedefMeasurement(n@),
            ModuleChild::TypedefStructure(n) => ModuleChildView::TypedefStructure(n@),
            ModuleChild::Unsupported(n) => ModuleChildView::Unsupported(n@),
        }
    }
}

impl ModuleChild {
    /// What a block of the second group of keywords stands for.
    pub open spec fn parsed_second(tree: Tree) -> std::result::Result<ModuleChildView, Failure> {
        if tree.keyword == "COMPU_TAB"@ {
            match node_parsed::<CompuTab>(tree) {
                Ok(n) => Ok(ModuleChildView::CompuTab(n)),
                Err(f) => Err(f),
            }
        } else if tree.keyword == "COMPU_VTAB"@ {
            match node_parsed::<CompuVtab>(tree) {
                Ok(n) => Ok(ModuleChildView::CompuVtab(n)),
                Err(f) => Err(f),
            }
        } else if tree.keyword == "COMPU_VTAB_RANGE"@ {
            match node_parsed::<CompuVtabRange>(tree) {
                Ok(n) => Ok(ModuleChildView::CompuVtabRange(n)),
                Err(f) => Err(f),
            }
        } else if tree.keyword == "FORMULA"@ {
            match node_parsed::<Formula>(tree) {
                Ok(n) => Ok(ModuleChildView::Formula(n)),
                Err(f) => Err(f),
            }
        } else if tree.keyword == "RECORD_LAYOUT"@ {
            match node_parsed::<RecordLayout>(tree) {
                Ok(n) => Ok(ModuleChildView::RecordLayout(n)),
                Err(f) => Err(f),
            }
        } else if tree.keyword == "FUNCTION"@ {
            match node_parsed::<Function>(tree) {
                Ok(n) => Ok(ModuleChildView::Function(n)),
                Err(f) => Err(f),
            }
        } else if tree.keyword == "GROUP"@ {
            match node_parsed::<Group>(tree) {
                Ok(n) => Ok(ModuleChildView::Group(n)),
                Err(f) => Err(f),
            }
        } else if tree.keyword == "FRAME"@ {
            match node_parsed::<Frame>(tree) {
                Ok(n) => Ok(ModuleChildView::Frame(n)),
                Err(f) => Err(f),
            }
        } else {
            ModuleChild::parsed_third(tree)
        }
    }

    fn read_second(block: &Block) -> (r: Result<Self>)
        ensures
            match r {
                Ok(v) => {
                    &&& ModuleChild::parsed_second(block@) == Ok::<ModuleChildView, Failure>(v@)
                    &&& v.kept(block@)
                },
                Err(e) => ModuleChild::parsed_second(block@) == Err::<ModuleChildView, Failure>(e@),
            },
    {
        if same_text(block.keyword.as_str(), "COMPU_TAB") {
            return Ok(ModuleChild::CompuTab(parse_node::<CompuTab>(block)?));
        }
        if same_text(block.keyword.as_str(), "COMPU_VTAB") {
            return Ok(ModuleChild::CompuVtab(parse_node::<CompuVtab>(block)?));
        }
        if same_text(block.keyword.as_str(), "COMPU_VTAB_RANGE") {
            return Ok(ModuleChild::CompuVtabRange(parse_node::<CompuVtabRange>(block)?));
        }
        if same_text(block.keyword.as_str(), "FORMULA") {
            return Ok(ModuleChild::Formula(parse_node::<Formula>(block)?));
        }
        if same_text(block.keyword.as_str(), "RECORD_LAYOUT") {
            return Ok(ModuleChild::RecordLayout(parse_node::<RecordLayout>(block)?));
        }
        if same_text(block.keyword.as_str(), "FUNCTION") {
            return Ok(ModuleChild::Function(parse_node::<Function>(block)?));
        }
        if same_text(block.keyword.as_str(), "GROUP") {
            return Ok(ModuleChild::Group(parse_node::<Group>(block)?));
        }
        if same_text(block.keyword.as_str(), "FRAME") {
            return Ok(ModuleChild::Frame(parse_node::<Frame>(block)?));
        }
        ModuleChild::read_third(block)
    }
}

impl ModuleChild {
    /// What a block of the third group of keywords stands for.
    pub open spec fn parsed_third(tree: Tree) -> std::result::Result<ModuleChildView, Failure> {
        if tree.keyword == "UNIT"@ {
            match node_parsed::<Unit>(tree) {
                Ok(n) => Ok(ModuleChildView::Unit(n)),
                Err(f) => Err(f),
            }
        } else if tree.keyword == "USER_RIGHTS"@ {
            match node_parsed::<UserRights>(tree) {
                Ok(n) => Ok(ModuleChildView::UserRights(n)),
                Err(f) => Err(f),
            }
        } else if tree.keyword == "VARIANT_CODING"@ {
            match node_parsed::<VariantCoding>(tree) {
                Ok(n) => Ok(ModuleChildView::VariantCoding(n)),
                Err(f) => Err(f),
            }
        } else if tree.keyword == "TYPEDEF_AXIS"@ {
            match node_parsed::<TypedefAxis>(tree) {
                Ok(n) => Ok(ModuleChildView::TypedefAxis(n)),
                Err(f) => Err(f),
            }
        } else if tree.keyword == "TYPEDEF_BLOB"@ {
            match node_parsed::<TypedefBlob>(tree) {
                Ok(n) => Ok(ModuleChildView::TypedefBlob(n)),
                Err(f) => Err(f),
            }
        } else if tree.keyword == "TYPEDEF_CHARACTERISTIC"@ {
            match node_parsed::<TypedefCharacteristic>(tree) {
                Ok(n) => Ok(ModuleChildView::TypedefCharacteristic(n)),
                Err(f) => Err(f),
            }
        } else if tree.keyword == "TYPEDEF_MEASUREMENT"@ {
            match node_parsed::<TypedefMeasurement>(tree) {
                Ok(n) => Ok(ModuleChildView::TypedefMeasurement(n)),
                Err(f) => Err(f),
            }
        } else if tree.keyword == "TYPEDEF_STRUCTURE"@ {
            match node_parsed::<TypedefStructure>(tree) {
                Ok(n) => Ok(ModuleChildView::TypedefStructure(n)),
                Err(f) => Err(f),
            }
        } else {
            Ok(ModuleChildView::Unsupported(UnsupportedNode::of(tree)))
        }
    }

    fn read_third(block: &Block) -> (r: Result<Self>)
        ensures
            match r {
                Ok(v) => {
                    &&& ModuleChild::parsed_third(block@) == Ok::<ModuleChildView, Failure>(v@)
                    &&& v.kept(block@)
                },
                Err(e) => ModuleChild::parsed_third(block@) == Err::<ModuleChildView, Failure>(e@),
            },
    {
        if same_text(block.keyword.as_str(), "UNIT") {
            return Ok(ModuleChild::Unit(parse_node::<Unit>(block)?));
        }
        if same_text(block.keyword.as_str(), "USER_RIGHTS") {
            return Ok(ModuleChild::UserRights(parse_node::<UserRights>(block)?));
        }
        if same_text(block.keyword.as_str(), "VARIANT_CODING") {
            return Ok(ModuleChild::VariantCoding(parse_node::<VariantCoding>(block)?));
        }
        if same_text(block.keyword.as_str(), "TYPEDEF_AXIS") {
            return Ok(ModuleChild::TypedefAxis(parse_node::<TypedefAxis>(block)?));
        }
        if same_text(block.keyword.as_str(), "TYPEDEF_BLOB") {
            return Ok(ModuleChild::TypedefBlob(parse_node::<TypedefBlob>(block)?));
        }
        if same_text(block.keyword.as_str(), "TYPEDEF_CHARACTERISTIC") {
            return Ok(ModuleChild::TypedefCharacteristic(parse_node::<TypedefCharacteristic>(block)?));
        }
        if same_text(block.keyword.as_str(), "TYPEDEF_MEASUREMENT") {
            return Ok(ModuleChild::TypedefMeasurement(parse_node::<TypedefMeasurement>(block)?));
        }
        if same_text(block.keyword.as_str(), "TYPEDEF_STRUCTURE") {
            return Ok(ModuleChild::TypedefStructure(parse_node::<TypedefStructure>(block)?));
        }
        Ok(ModuleChild::Unsupported(UnsupportedNode::from_block(block)))
    }
}

impl Child for ModuleChild {
    open spec fn parsed(tree: Tree) -> std::result::Result<ModuleChildView, Failure> {
        if tree.keyword == "MOD_PAR"@ {
            match node_parsed::<ModPar>(tree) {
                Ok(n) => Ok(ModuleChildView::ModPar(n)),
                Err(f) => Err(f),
            }
        } else if tree.keyword == "MOD_COMMON"@ {
            match node_parsed::<ModCommon>(tree) {
                Ok(n) => Ok(ModuleChildView::ModCommon(n)),
                Err(f) => Err(f),
            }
        } else if tree.keyword == "MEASUREMENT"@ {
            match node_parsed::<Measurement>(tree) {
                Ok(n) => Ok(ModuleChildView::Measurement(n)),
                Err(f) => Err(f),
            }
        } else if tree.keyword == "CHARACTERISTIC"@ {
            match node_parsed::<Characteristic>(tree) {
                Ok(n) => Ok(ModuleChildView::Characteristic(n)),
                Err(f) => Err(f),
            }
        } else if tree.keyword == "AXIS_PTS"@ {
            match node_parsed::<AxisPts>(tree) {
                Ok(n) => Ok(ModuleChildView::AxisPts(n)),
                Err(f) => Err(f),
            }
        } else if tree.keyword == "BLOB"@ {
            match node_parsed::<Blob>(tree) {
                Ok(n) => Ok(ModuleChildView::Blob(n)),
                Err(f) => Err(f),
            }
        } else if tree.keyword == "INSTANCE"@ {
            match node_parsed::<Instance>(tree) {
                Ok(n) => Ok(ModuleChildView::Instance(n)),
                Err(f) => Err(f),
            }
        } else if tree.keyword == "COMPU_METHOD"@ {
            match node_parsed::<CompuMethod>(tree) {
                Ok(n) => Ok(ModuleChildView::CompuMethod(n)),
                Err(f) => Err(f),
            }
        } else {
            ModuleChild::parsed_second(tree)
        }
    }

    open spec fn kept(&self, tree: Tree) -> bool {
        match self {
            ModuleChild::ModPar(n) => n.keeps(tree),
            ModuleChild::ModCommon(n) => n.keeps(tree),
            ModuleChild::Measurement(n) => n.keeps(tree),
            ModuleChild::Characteristic(n) => n.keeps(tree),
            ModuleChild::AxisPts(n) => n.keeps(tree),
            ModuleChild::Blob(n) => n.keeps(tree),
            ModuleChild::Instance(n) => n.keeps(tree),
            ModuleChild::CompuMethod(n) => n.keeps(tree),
            ModuleChild::CompuTab(n) => n.keeps(tree),
            ModuleChild::CompuVtab(n) => n.keeps(tree),
            ModuleChild::CompuVtabRange(n) => n.keeps(tree),
            ModuleChild::Formula(n) => n.keeps(tree),
            ModuleChild::RecordLayout(n) => n.keeps(tree),
            ModuleChild::Function(n) => n.keeps(tree),
            ModuleChild::Group(n) => n.keeps(tree),
            ModuleChild::Frame(n) => n.keeps(tree),
            ModuleChild::Unit(n) => n.keeps(tree),
            ModuleChild::UserRights(n) => n.keeps(tree),
            ModuleChild::VariantCoding(n) => n.keeps(tree),
            ModuleChild::TypedefAxis(n) => n.keeps(tree),
            ModuleChild::TypedefBlob(n) => n.keeps(tree),
            ModuleChild::TypedefCharacteristic(n) => n.keeps(tree),
            ModuleChild::TypedefMeasurement(n) => n.keeps(tree),
            ModuleChild::TypedefStructure(n) => n.keeps(tree),
            ModuleChild::Unsupported(n) => n.kept(tree),
        }
    }

    open spec fn written(v: ModuleChildView, p: Page) -> Written {
        match v {
            ModuleChildView::ModPar(n) => node_written::<ModPar>(n, p),
            ModuleChildView::ModCommon(n) => node_written::<ModCommon>(n, p),
            ModuleChildView::Measurement(n) => node_written::<Measurement>(n, p),
            ModuleChildView::Characteristic(n) => node_written::<Characteristic>(n, p),
            ModuleChildView::AxisPts(n) => node_written::<AxisPts>(n, p),
            ModuleChildView::Blob(n) => node_written::<Blob>(n, p),
            ModuleChildView::Instance(n) => node_written::<Instance>(n, p),
            ModuleChildView::CompuMethod(n) => node_written::<CompuMethod>(n, p),
            ModuleChildView::CompuTab(n) => node_written::<CompuTab>(n, p),
            ModuleChildView::CompuVtab(n) => node_written::<CompuVtab>(n, p),
            ModuleChildView::CompuVtabRange(n) => node_written::<CompuVtabRange>(n, p),
            ModuleChildView::Formula(n) => node_written::<Formula>(n, p),
            ModuleChildView::RecordLayout(n) => node_written::<RecordLayout>(n, p),
            ModuleChildView::Function(n) => node_written::<Function>(n, p),
            ModuleChildView::Group(n) => node_written::<Group>(n, p),
            ModuleChildView::Frame(n) => node_written::<Frame>(n, p),
            ModuleChildView::Unit(n) => node_written::<Unit>(n, p),
            ModuleChildView::UserRights(n) => node_written::<UserRights>(n, p),
            ModuleChildView::VariantCoding(n) => node_written::<VariantCoding>(n, p),
            ModuleChildView::TypedefAxis(n) => node_written::<TypedefAxis>(n, p),
            ModuleChildView::TypedefBlob(n) => node_written::<TypedefBlob>(n, p),
            ModuleChildView::TypedefCharacteristic(n) => node_written::<TypedefCharacteristic>(n, p),
            ModuleChildView::TypedefMeasurement(n) => node_written::<TypedefMeasurement>(n, p),
            ModuleChildView::TypedefStructure(n) => node_written::<TypedefStructure>(n, p),
            ModuleChildView::Unsupported(n) => UnsupportedNode::written(n, p),
        }
    }

    fn read(block: &Block) -> (r: Result<Self>) {
        if same_text(block.keyword.as_str(), "MOD_PAR") {
            return Ok(ModuleChild::ModPar(parse_node::<ModPar>(block)?));
        }
        if same_text(block.keyword.as_str(), "MOD_COMMON") {
            return Ok(ModuleChild::ModCommon(parse_node::<ModCommon>(block)?));
        }
        if same_text(block.keyword.as_str(), "MEASUREMENT") {
            return Ok(ModuleChild::Measurement(parse_node::<Measurement>(block)?));
        }
        if same_text(block.keyword.as_str(), "CHARACTERISTIC") {
            return Ok(ModuleChild::Characteristic(parse_node::<Characteristic>(block)?));
        }
        if same_text(block.keyword.as_str(), "AXIS_PTS") {
            return Ok(ModuleChild::AxisPts(parse_node::<AxisPts>(block)?));
        }
        if same_text(block.keyword.as_str(), "BLOB") {
            return Ok(ModuleChild::Blob(parse_node::<Blob>(block)?));
        }
        if same_text(block.keyword.as_str(), "INSTANCE") {
            return Ok(ModuleChild::Instance(parse_node::<Instance>(block)?));
        }
        if same_text(block.keyword.as_str(), "COMPU_METHOD") {
            return Ok(ModuleChild::CompuMethod(parse_node::<CompuMethod>(block)?));
        }
        ModuleChild::read_second(block)
    }

    fn write(&self, w: &mut Writer) -> (r: Result<()>) {
        self.write_block(w)
    }
}

impl ModuleChild {
    pub fn write_block(&self, w: &mut Writer) -> (r: Result<()>)
        ensures
            match r {
                Ok(()) => ModuleChild::written(self@, old(w)@) == Ok::<Page, Stopped>(final(w)@),
                Err(e) => ModuleChild::written(self@, old(w)@) == Err::<Page, Stopped>(final(w)@.stopped(e@)),
            },
    {
        match self {
            ModuleChild::ModPar(n) => write_node(n, w),
            ModuleChild::ModCommon(n) => write_node(n, w),
            ModuleChild::Measurement(n) => write_node(n, w),
            ModuleChild::Characteristic(n) => write_node(n, w),
            ModuleChild::AxisPts(n) => write_node(n, w),
            ModuleChild::Blob(n) => write_node(n, w),
            ModuleChild::Instance(n) => write_node(n, w),
            ModuleChild::CompuMethod(n) => write_node(n, w),
            ModuleChild::CompuTab(n) => write_node(n, w),
            ModuleChild::CompuVtab(n) => write_node(n, w),
            ModuleChild::CompuVtabRange(n) => write_node(n, w),
            ModuleChild::Formula(n) => write_node(n, w),
            ModuleChild::RecordLayout(n) => write_node(n, w),
            ModuleChild::Function(n) => write_node(n, w),
            ModuleChild::Group(n) => write_node(n, w),
            ModuleChild::Frame(n) => write_node(n, w),
            ModuleChild::Unit(n) => write_node(n, w),
            ModuleChild::UserRights(n) => write_node(n, w),
            ModuleChild::VariantCoding(n) => write_node(n, w),
            ModuleChild::TypedefAxis(n) => write_node(n, w),
            ModuleChild::TypedefBlob(n) => write_node(n, w),
            ModuleChild::TypedefCharacteristic(n) => write_node(n, w),
            ModuleChild::TypedefMeasurement(n) => write_node(n, w),
            ModuleChild::TypedefStructure(n) => write_node(n, w),
            ModuleChild::Unsupported(n) => n.write_block(w),
        }
    }
}

impl Module {
    /// A name, and a description if one follows.
    pub open spec fn head(c: Cur) -> Got<(Seq<char>, Option<Seq<char>>)> {
        match read_ident(c) {
            Err(f) => Err(f),
            Ok((name, m)) => if m.more() {
                match read_string(m) {
                    Err(f) => Err(f),
                    Ok((text, n)) => Ok(((name, Some(text)), n)),
                }
            } else {
                Ok(((name, None), m))
            },
        }
    }

    fn read_head(cur: &mut ParamCursor) -> (r: Result<(String, Option<String>)>)
        ensures
            match r {
                Ok((n, d)) => Module::head(old(cur)@) == Ok::<_, Failure>(
                    ((n@, opt(d)), final(cur)@),
                ),
                Err(e) => Module::head(old(cur)@) == Err::<
                    ((Seq<char>, Option<Seq<char>>), Cur),
                    _,
                >(e@),
            },
    {
        let name = cur.ident()?;
        if cur.is_empty() {
            return Ok((name, None));
        }
        let description = cur.string()?;
        Ok((name, Some(description)))
    }
}

impl ModuleChild {
    fn is_a2ml(&self) -> (r: bool)
        ensures
            r == self@.is_a2ml(),
    {
        match self {
            ModuleChild::Unsupported(n) => eq_ignore_case(n.keyword.as_str(), "A2ML"),
            _ => false,
        }
    }
}

impl ModuleChildView {
    /// Whether the block is one of A2ML.
    pub open spec fn is_a2ml(self) -> bool {
        self matches ModuleChildView::Unsupported(n) && same_ignore_case(n.keyword, "A2ML"@)
    }
}

impl Module {
    /// The blocks that are written: where A2ML is not, those of A2ML are left out.
    pub open spec fn kept(s: Seq<ModuleChildView>, write_a2ml: bool) -> Seq<ModuleChildView>
        decreases s.len(),
    {
        if write_a2ml || s.len() == 0 {
            s
        } else if s.last().is_a2ml() {
            Module::kept(s.drop_last(), write_a2ml)
        } else {
            Module::kept(s.drop_last(), write_a2ml).push(s.last())
        }
    }

    proof fn lemma_kept_prefix(s: Seq<ModuleChildView>, n: int, write_a2ml: bool)
        requires
            0 <= n <= s.len(),
        ensures
            ({
                let before = Module::kept(s.subrange(0, n), write_a2ml);
                let all = Module::kept(s, write_a2ml);
                &&& before.len() <= all.len()
                &&& before == all.subrange(0, before.len() as int)
            }),
        decreases s.len(),
    {
        let all = Module::kept(s, write_a2ml);
        if n == s.len() {
            assert(s.subrange(0, n) =~= s);
            assert(all.subrange(0, all.len() as int) =~= all);
        } else if write_a2ml {
            assert(s.subrange(0, n).len() == n);
        } else {
            Module::lemma_kept_prefix(s.drop_last(), n, write_a2ml);
            assert(s.drop_last().subrange(0, n) =~= s.subrange(0, n));
            let before = Module::kept(s.subrange(0, n), write_a2ml);
            let most = Module::kept(s.drop_last(), write_a2ml);
            assert(all.subrange(0, before.len() as int) =~= most.subrange(0, before.len() as int));
        }
    }

    /// Without A2ML, a module is written as one that has no A2ML blocks and is the same
    /// otherwise.
    pub proof fn law_a2ml_left_out(v: ModuleView, p: Page)
        requires
            !p.style.write_a2ml,
        ensures
            Module::block(v, p) == Module::block(
                ModuleView { children: Module::kept(v.children, false), ..v },
                p,
            ),
            forall|i: int|
                0 <= i < Module::kept(v.children, false).len() ==> !(#[trigger] Module::kept(
                    v.children,
                    false,
                )[i]).is_a2ml(),
    {
        Module::lemma_kept_none(v.children);
        Module::lemma_kept_all(Module::kept(v.children, false));
        reveal(Page::line);
    }

    proof fn lemma_kept_none(s: Seq<ModuleChildView>)
        ensures
            forall|i: int|
                0 <= i < Module::kept(s, false).len() ==> !(#[trigger] Module::kept(
                    s,
                    false,
                )[i]).is_a2ml(),
        decreases s.len(),
    {
        if s.len() > 0 {
            Module::lemma_kept_none(s.drop_last());
            let before = Module::kept(s.drop_last(), false);
            let all = Module::kept(s, false);
            assert forall|i: int| 0 <= i < all.len() implies !(#[trigger] all[i]).is_a2ml() by {
                if i < before.len() {
                    assert(all[i] == before[i]);
                }
            }
        }
    }

    /// All blocks of a module without A2ML are written.
    pub(crate) proof fn lemma_kept_all(s: Seq<ModuleChildView>)
        requires
            forall|i: int| 0 <= i < s.len() ==> !(#[trigger] s[i]).is_a2ml(),
        ensures
            Module::kept(s, false) == s,
        decreases s.len(),
    {
        if s.len() > 0 {
            assert forall|i: int| 0 <= i < s.drop_last().len() implies !(
            #[trigger] s.drop_last()[i]).is_a2ml() by {
                assert(s.drop_last()[i] == s[i]);
            }
            Module::lemma_kept_all(s.drop_last());
            assert(!s[s.len() - 1].is_a2ml());
            assert(s.drop_last().push(s.last()) =~= s);
        }
    }

    /// What one more block adds to those that are written.
    proof fn lemma_kept_step(s: Seq<ModuleChildView>, i: int, write_a2ml: bool)
        requires
            0 <= i < s.len(),
        ensures
            ({
                let all = Module::kept(s, write_a2ml);
                let before = Module::kept(s.subrange(0, i), write_a2ml).len() as int;
                let after = Module::kept(s.subrange(0, i + 1), write_a2ml).len() as int;
                if write_a2ml || !s[i].is_a2ml() {
                    0 <= before < all.len() && all[before] == s[i] && after == before + 1
                } else {
                    after == before
                }
            }),
    {
        let all = Module::kept(s, write_a2ml);
        let before = Module::kept(s.subrange(0, i), write_a2ml);
        let after = Module::kept(s.subrange(0, i + 1), write_a2ml);
        let next = s.subrange(0, i + 1);
        assert(next.drop_last() =~= s.subrange(0, i));
        assert(next.last() == s[i]);
        assert(write_a2ml ==> before.len() == i && after.len() == i + 1);
        Module::lemma_kept_prefix(s, i + 1, write_a2ml);
        assert(after == all.subrange(0, after.len() as int));
        if write_a2ml || !s[i].is_a2ml() {
            assert(after.last() == s[i]);
            assert(all[before.len() as int] == after[before.len() as int]);
        }
    }

    #[verifier::rlimit(40)]
    fn write_kept(&self, w: &mut Writer) -> (r: Result<()>)
        ensures
            ({
                let all = Module::kept(self@.children, old(w)@.style.write_a2ml);
                match r {
                    Ok(()) => children_written::<ModuleChild>(all, 0, true, old(w)@) == Ok::<
                        Page,
                        Stopped,
                    >(final(w)@),
                    Err(e) => children_written::<ModuleChild>(all, 0, true, old(w)@) == Err::<
                        Page,
                        Stopped,
                    >(final(w)@.stopped(e@)),
                }
            }),
    {
        let write_a2ml: bool = w.writes_a2ml();
        let ghost s = self@.children;
        let ghost all = Module::kept(s, write_a2ml);
        let mut i: usize = 0;
        proof {
            assert(Module::kept(s.subrange(0, 0), write_a2ml) =~= Seq::<ModuleChildView>::empty());
        }
        while i < self.children.len()
            invariant
                i <= self.children@.len(),
                s == self@.children,
                s == views(self.children@),
                write_a2ml == old(w)@.style.write_a2ml,
                all == Module::kept(s, write_a2ml),
                children_written::<ModuleChild>(all, 0, true, old(w)@) == children_written::<
                    ModuleChild,
                >(all, Module::kept(s.subrange(0, i as int), write_a2ml).len() as int, true, w@),
            decreases self.children@.len() - i,
        {
            let child = &self.children[i];
            proof {
                assert(s[i as int] == child@);
                Module::lemma_kept_step(s, i as int, write_a2ml);
            }
            if write_a2ml || !child.is_a2ml() {
                w.blank_line();
                child.write(w)?;
            }
            i += 1;
        }
        proof {
            assert(s.subrange(0, i as int) =~= s);
        }
        Ok(())
    }
}

impl Node for Module {
    open spec fn keyword_text() -> Seq<char> {
        "MODULE"@
    }

    open spec fn parsed(tree: Tree) -> std::result::Result<ModuleView, Failure> {
        match Module::head(Cur::start(tree)) {
            Err(f) => Err(f),
            Ok(((name, description), _)) => match children_parsed::<ModuleChild>(
                children_of(tree.items),
                0,
            ) {
                Err(f) => Err(f),
                Ok(children) => Ok(ModuleView { name, description, children }),
            },
        }
    }

    open spec fn keeps(&self, tree: Tree) -> bool {
        all_kept(self.children@, tree)
    }

    open spec fn body(v: ModuleView, p: Page) -> Written {
        let p = match v.description { Some(x) => p.quote_line(x), None => p.quote_line(""@) };
        children_written::<ModuleChild>(
            Module::kept(v.children, p.style.write_a2ml),
            0,
            true,
            p,
        )
    }

    open spec fn block(v: ModuleView, p: Page) -> Written {
        enclosed("MODULE"@, Self::body(v, p.begin("MODULE "@ + v.name)))
    }

    fn keyword() -> (r: &'static str) {
        "MODULE"
    }

    fn parse(block: &Block) -> (r: Result<Self>) {
        let mut cur = ParamCursor::new(block);
        let (name, description) = Module::read_head(&mut cur)?;
        let children = read_children::<ModuleChild>(block)?;
        Ok(Module { name, description, children })
    }

    fn write_body(&self, w: &mut Writer) -> (r: Result<()>) {
        match &self.description {
            Some(x) => w.quote_line(x.as_str()),
            None => w.quote_line(""),
        }
        self.write_kept(w)
    }

    fn write_block(&self, w: &mut Writer) -> (r: Result<()>) {
        let mut s = "MODULE ".to_string();
        s.append(self.name.as_str());
        w.begin_block(s.as_str());
        self.write_body(w)?;
        w.end_block("MODULE");
        Ok(())
    }
}

/// `MOD_COMMON`: what holds of all objects of a module.
#[derive(Debug, Clone, PartialEq, Eq)]
pub struct ModCommon {
    pub comment: Option<String>,
    pub byte_order: ByteOrder,
    pub deposit: DepositType,
    pub data_size: Option<i32>,
    /// Alignments of bytes, words, longs, 32-bit and 64-bit floats, 64-bit integers, and 16-bit
    /// floats.
    pub alignments: [i32; 7],
}

/// [`ModCommon`] as a mathematical value.
pub struct ModCommonView {
    pub comment: Option<Seq<char>>,
    pub byte_order: ByteOrder,
    pub deposit: DepositType,
    pub data_size: Option<i32>,
    pub alignments: Seq<i32>,
}

impl View for ModCommon {
    type V = ModCommonView;

    open spec fn view(&self) -> ModCommonView {
        ModCommonView {
            comment: opt(self.comment),
            byte_order: self.byte_order,
            deposit: self.deposit,
            data_size: self.data_size,
            alignments: self.alignments@,
        }
    }
}

impl ModCommon {
    /// The node before anything is read.
    pub open spec fn blank() -> ModCommonView {
        ModCommonView {
            comment: None,
            byte_order: ByteOrder::MSB_LAST,
            deposit: DepositType::ABSOLUTE,
            data_size: None,
            alignments: seq![1i32, 2i32, 4i32, 4i32, 4i32, 8i32, 2i32],
        }
    }
}

impl Default for ModCommon {
    fn default() -> (r: Self)
        ensures
            r@ == ModCommon::blank(),
    {
        let r = ModCommon {
            comment: None,
            byte_order: ByteOrder::MSB_LAST,
            deposit: DepositType::ABSOLUTE,
            data_size: None,
            alignments: [1, 2, 4, 4, 4, 8, 2],
        };
        proof {
            assert(r.alignments@ =~= ModCommon::blank().alignments);
        }
        r
    }
}

impl ModCommon {
    /// What the first parameter says, if there is one, and where the next ones start.
    pub open spec fn head(c: Cur) -> Got<ModCommonView> {
        let v = ModCommon::blank();
        if c.more() {
            match read_string(c) {
                Err(f) => Err(f),
                Ok((x, c0)) => {
                    Ok((ModCommonView { comment: Some(x), ..v }, c0))
                },
            }
        } else {
            Ok((v, c))
        }
    }

    fn read_head(cur: &mut ParamCursor) -> (r: Result<Self>)
        ensures
            match r {
                Ok(v) => ModCommon::head(old(cur)@) == Ok::<_, Failure>((v@, final(cur)@)),
                Err(e) => ModCommon::head(old(cur)@) == Err::<(ModCommonView, Cur), _>(e@),
            },
    {
        let mut node = ModCommon::default();
        if !cur.is_empty() {
            let x = cur.string()?;
            node.comment = Some(x);
        }
        Ok(node)
    }
}

impl ModCommon {
    /// What the parameters at the cursor set, and where the next ones start.
    pub open spec fn option(v: ModCommonView, c: Cur) -> Got<ModCommonView> {
        if c.at("BYTE_ORDER"@) {
            match read_enum::<ByteOrder>(c.step(), "MOD_COMMON: unknown enum keyword "@) {
                Err(f) => Err(f),
                Ok((x, c0)) => {
                    Ok((ModCommonView { byte_order: x, ..v }, c0))
                },
            }
        } else if c.at("DEPOSIT"@) {
            match read_enum::<DepositType>(c.step(), "MOD_COMMON: unknown enum keyword "@) {
                Err(f) => Err(f),
                Ok((x, c0)) => {
                    Ok((ModCommonView { deposit: x, ..v }, c0))
                },
            }
        } else if c.at("DATA_SIZE"@) {
            match read_int(c.step(), i32::MIN as int, i32::MAX as int) {
                Err(f) => Err(f),
                Ok((x, c0)) => {
                    Ok((ModCommonView { data_size: Some((x as i32)), ..v }, c0))
                },
            }
        } else if c.at("ALIGNMENT_BYTE"@) {
            match read_int(c.step(), i32::MIN as int, i32::MAX as int) {
                Err(f) => Err(f),
                Ok((x, c0)) => {
                    Ok((ModCommonView { alignments: v.alignments.update(0, (x as i32)), ..v }, c0))
                },
            }
        } else if c.at("ALIGNMENT_WORD"@) {
            match read_int(c.step(), i32::MIN as int, i32::MAX as int) {
                Err(f) => Err(f),
                Ok((x, c0)) => {
                    Ok((ModCommonView { alignments: v.alignments.update(1, (x as i32)), ..v }, c0))
                },
            }
        } else if c.at("ALIGNMENT_LONG"@) {
            match read_int(c.step(), i32::MIN as int, i32::MAX as int) {
                Err(f) => Err(f),
                Ok((x, c0)) => {
                    Ok((ModCommonView { alignments: v.alignments.update(2, (x as i32)), ..v }, c0))
                },
            }
        } else if c.at("ALIGNMENT_FLOAT32_IEEE"@) {
            match read_int(c.step(), i32::MIN as int, i32::MAX as int) {
                Err(f) => Err(f),
                Ok((x, c0)) => {
                    Ok((ModCommonView { alignments: v.alignments.update(3, (x as i32)), ..v }, c0))
                },
            }
        } else if c.at("ALIGNMENT_FLOAT64_IEEE"@) {
            match read_int(c.step(), i32::MIN as int, i32::MAX as int) {
                Err(f) => Err(f),
                Ok((x, c0)) => {
                    Ok((ModCommonView { alignments: v.alignments.update(4, (x as i32)), ..v }, c0))
                },
            }
        } else if c.at("ALIGNMENT_INT64"@) {
            match read_int(c.step(), i32::MIN as int, i32::MAX as int) {
                Err(f) => Err(f),
                Ok((x, c0)) => {
                    Ok((ModCommonView { alignments: v.alignments.update(5, (x as i32)), ..v }, c0))
                },
            }
        } else if c.at("ALIGNMENT_FLOAT16_IEEE"@) {
            match read_int(c.step(), i32::MIN as int, i32::MAX as int) {
                Err(f) => Err(f),
                Ok((x, c0)) => {
                    Ok((ModCommonView { alignments: v.alignments.update(6, (x as i32)), ..v }, c0))
                },
            }
        } else {
            match read_token(c) {
                Err(f) => Err(f),
                Ok((_t, c0)) => {
                    Ok((v, c0))
                },
            }
        }
    }

    /// What all the parameters from the cursor on set, and where reading them ends.
    pub open spec fn options(v: ModCommonView, c: Cur) -> Got<ModCommonView>
        decreases c.left(),
    {
        if c.left() < 2 {
            Ok((v, c))
        } else {
            match ModCommon::option(v, c) {
                Err(f) => Err(f),
                Ok((w, n)) => if 0 <= n.left() < c.left() {
                    ModCommon::options(w, n)
                } else {
                    arbitrary()
                },
            }
        }
    }

    fn read_option(&mut self, cur: &mut ParamCursor) -> (r: Result<()>)
        requires
            old(cur)@.more(),
        ensures
            match r {
                Ok(()) => {
                    &&& ModCommon::option(old(self)@, old(cur)@) == Ok::<_, Failure>(
                        (final(self)@, final(cur)@),
                    )
                    &&& 0 <= final(cur)@.left() < old(cur)@.left()
                },
                Err(e) => ModCommon::option(old(self)@, old(cur)@) == Err::<(ModCommonView, Cur), _>(e@),
            },
    {
        if cur.take_if("BYTE_ORDER") {
            let x = enum_value::<ByteOrder>(cur, "MOD_COMMON: unknown enum keyword ")?;
            self.byte_order = x;
            return Ok(());
        }
        if cur.take_if("DEPOSIT") {
            let x = enum_value::<DepositType>(cur, "MOD_COMMON: unknown enum keyword ")?;
            self.deposit = x;
            return Ok(());
        }
        if cur.take_if("DATA_SIZE") {
            let x = cur.sint::<i32>()?;
            self.data_size = Some(x);
            return Ok(());
        }
        if cur.take_if("ALIGNMENT_BYTE") {
            let x = cur.sint::<i32>()?;
            self.alignments[0] = x;
            return Ok(());
        }
        if cur.take_if("ALIGNMENT_WORD") {
            let x = cur.sint::<i32>()?;
            self.alignments[1] = x;
            return Ok(());
        }
        if cur.take_if("ALIGNMENT_LONG") {
            let x = cur.sint::<i32>()?;
            self.alignments[2] = x;
            return Ok(());
        }
        if cur.take_if("ALIGNMENT_FLOAT32_IEEE") {
            let x = cur.sint::<i32>()?;
            self.alignments[3] = x;
            return Ok(());
        }
        if cur.take_if("ALIGNMENT_FLOAT64_IEEE") {
            let x = cur.sint::<i32>()?;
            self.alignments[4] = x;
            return Ok(());
        }
        if cur.take_if("ALIGNMENT_INT64") {
            let x = cur.sint::<i32>()?;
            self.alignments[5] = x;
            return Ok(());
        }
        if cur.take_if("ALIGNMENT_FLOAT16_IEEE") {
            let x = cur.sint::<i32>()?;
            self.alignments[6] = x;
            return Ok(());
        }
        let _t = cur.next_token()?;
        Ok(())
    }

    fn read_options(&mut self, cur: &mut ParamCursor) -> (r: Result<()>)
        ensures
            match r {
                Ok(()) => {
                    &&& ModCommon::options(old(self)@, old(cur)@) == Ok::<_, Failure>(
                        (final(self)@, final(cur)@),
                    )
                    &&& final(cur)@.left() <= old(cur)@.left()
                    &&& final(cur)@ == old(cur)@ || final(cur)@.left() >= 0
                },
                Err(e) => ModCommon::options(old(self)@, old(cur)@) == Err::<(ModCommonView, Cur), _>(e@),
            },
    {
        let ghost whole = ModCommon::options(self@, cur@);
        while cur.remaining() >= 2
            invariant
                whole == ModCommon::options(self@, cur@),
                whole == ModCommon::options(old(self)@, old(cur)@),
                cur@.left() <= old(cur)@.left(),
                cur@ == old(cur)@ || cur@.left() >= 0,
            decreases cur@.left(),
        {
            self.read_option(cur)?;
        }
        Ok(())
    }
}

impl Node for ModCommon {
    open spec fn keyword_text() -> Seq<char> {
        "MOD_COMMON"@
    }

    open spec fn parsed(tree: Tree) -> std::result::Result<ModCommonView, Failure> {
        match ModCommon::head(Cur::start(tree)) {
            Err(f) => Err(f),
            Ok((v, c)) => match ModCommon::options(v, c) {
                Err(f) => Err(f),
                Ok((v, _)) => Ok(v),
            },
        }
    }

    open spec fn body(v: ModCommonView, p: Page) -> Written {
        let p = match v.comment { Some(x) => p.quote_line(x), None => p.quote_line(""@) };
        let p = match v.byte_order.word() { Some(kw) => p.word("BYTE_ORDER"@, kw), None => p };
        let p = match v.deposit.word() { Some(kw) => p.word("DEPOSIT"@, kw), None => p };
        let p = match v.data_size { Some(x) if x > 0 => p.word("DATA_SIZE"@, dec_int(x as int)), _ => p };
        let p = p.word("ALIGNMENT_BYTE"@, dec_int(v.alignments[0] as int));
        let p = p.word("ALIGNMENT_WORD"@, dec_int(v.alignments[1] as int));
        let p = p.word("ALIGNMENT_LONG"@, dec_int(v.alignments[2] as int));
        let p = p.word("ALIGNMENT_FLOAT32_IEEE"@, dec_int(v.alignments[3] as int));
        let p = p.word("ALIGNMENT_FLOAT64_IEEE"@, dec_int(v.alignments[4] as int));
        let p = p.word("ALIGNMENT_INT64"@, dec_int(v.alignments[5] as int));
        let p = p.word("ALIGNMENT_FLOAT16_IEEE"@, dec_int(v.alignments[6] as int));
        Ok(p)
    }

    open spec fn block(v: ModCommonView, p: Page) -> Written {
        enclosed("MOD_COMMON"@, Self::body(v, p.begin("MOD_COMMON"@)))
    }

    fn keyword() -> (r: &'static str) {
        "MOD_COMMON"
    }

    fn parse(block: &Block) -> (r: Result<Self>) {
        let mut cur = ParamCursor::new(block);
        let mut node = ModCommon::read_head(&mut cur)?;
        node.read_options(&mut cur)?;
        Ok(node)
    }

    fn write_body(&self, w: &mut Writer) -> (r: Result<()>) {
        match &self.comment {
            Some(x) => w.quote_line(x.as_str()),
            None => w.quote_line(""),
        }
        if let Some(kw) = self.byte_order.as_keyword() {
            w.word("BYTE_ORDER", kw);
        }
        if let Some(kw) = self.deposit.as_keyword() {
            w.word("DEPOSIT", kw);
        }
        if let Some(x) = &self.data_size {
            if *x > 0 {
                w.word("DATA_SIZE", dec_int_text(*x as i64).as_str());
            }
        }
        w.word("ALIGNMENT_BYTE", dec_int_text(self.alignments[0] as i64).as_str());
        w.word("ALIGNMENT_WORD", dec_int_text(self.alignments[1] as i64).as_str());
        w.word("ALIGNMENT_LONG", dec_int_text(self.alignments[2] as i64).as_str());
        w.word("ALIGNMENT_FLOAT32_IEEE", dec_int_text(self.alignments[3] as i64).as_str());
        w.word("ALIGNMENT_FLOAT64_IEEE", dec_int_text(self.alignments[4] as i64).as_str());
        w.word("ALIGNMENT_INT64", dec_int_text(self.alignments[5] as i64).as_str());
        w.word("ALIGNMENT_FLOAT16_IEEE", dec_int_text(self.alignments[6] as i64).as_str());
        Ok(())
    }

    fn write_block(&self, w: &mut Writer) -> (r: Result<()>) {
        w.begin_block("MOD_COMMON");
        self.write_body(w)?;
        w.end_block("MOD_COMMON");
        Ok(())
    }
}

/// A block within the node.
#[derive(Debug, PartialEq, Eq)]
pub enum ModParChild {
    /// `/begin CALIBRATION_HANDLE`.
    CalibrationHandle(CalibrationHandle),
    /// `/begin CALIBRATION_METHOD`.
    CalibrationMethod(CalibrationMethod),
    /// `/begin MEMORY_LAYOUT`.
    MemoryLayout(MemoryLayout),
    /// `/begin MEMORY_SEGMENT`.
    MemorySegment(MemorySegment),
    Unsupported(UnsupportedNode),
}

/// [`ModParChild`] as a mathematical value.
pub enum ModParChildView {
    CalibrationHandle(CalibrationHandleView),
    CalibrationMethod(CalibrationMethodView),
    MemoryLayout(MemoryLayoutView),
    MemorySegment(MemorySegmentView),
    Unsupported(UnsupportedNodeView),
}

impl View for ModParChild {
    type V = ModParChildView;

    open spec fn view(&self) -> ModParChildView {
        match self {
            ModParChild::CalibrationHandle(n) => ModParChildView::CalibrationHandle(n@),
            ModParChild::CalibrationMethod(n) => ModParChildView::CalibrationMethod(n@),
            ModParChild::MemoryLayout(n) => ModParChildView::MemoryLayout(n@),
            ModParChild::MemorySegment(n) => ModParChildView::MemorySegment(n@),
            ModParChild::Unsupported(n) => ModParChildView::Unsupported(n@),
        }
    }
}

impl Clone for ModParChild {
    fn clone(&self) -> (r: Self)
        ensures
            r@ == self@,
    {
        match self {
            ModParChild::CalibrationHandle(n) => ModParChild::CalibrationHandle(n.clone()),
            ModParChild::CalibrationMethod(n) => ModParChild::CalibrationMethod(n.clone()),
            ModParChild::MemoryLayout(n) => ModParChild::MemoryLayout(n.clone()),
            ModParChild::MemorySegment(n) => ModParChild::MemorySegment(n.clone()),
            ModParChild::Unsupported(n) => ModParChild::Unsupported(n.clone()),
        }
    }
}

impl Child for ModParChild {
    open spec fn parsed(tree: Tree) -> std::result::Result<ModParChildView, Failure> {
        if same_ignore_case(tree.keyword, "CALIBRATION_HANDLE"@) {
            match node_parsed::<CalibrationHandle>(tree) {
                Ok(n) => Ok(ModParChildView::CalibrationHandle(n)),
                Err(f) => Err(f),
            }
        } else if same_ignore_case(tree.keyword, "CALIBRATION_METHOD"@) {
            match node_parsed::<CalibrationMethod>(tree) {
                Ok(n) => Ok(ModParChildView::CalibrationMethod(n)),
                Err(f) => Err(f),
            }
        } else if same_ignore_case(tree.keyword, "MEMORY_LAYOUT"@) {
            match node_parsed::<MemoryLayout>(tree) {
                Ok(n) => Ok(ModParChildView::MemoryLayout(n)),
                Err(f) => Err(f),
            }
        } else if same_ignore_case(tree.keyword, "MEMORY_SEGMENT"@) {
            match node_parsed::<MemorySegment>(tree) {
                Ok(n) => Ok(ModParChildView::MemorySegment(n)),
                Err(f) => Err(f),
            }
        } else {
            Ok(ModParChildView::Unsupported(UnsupportedNode::of(tree)))
        }
    }

    open spec fn kept(&self, tree: Tree) -> bool {
        match self {
            ModParChild::CalibrationHandle(n) => n.keeps(tree),
            ModParChild::CalibrationMethod(n) => n.keeps(tree),
            ModParChild::MemoryLayout(n) => n.keeps(tree),
            ModParChild::MemorySegment(n) => n.keeps(tree),
            ModParChild::Unsupported(n) => n.kept(tree),
        }
    }

    open spec fn written(v: ModParChildView, p: Page) -> Written {
        match v {
            ModParChildView::CalibrationHandle(n) => node_written::<CalibrationHandle>(n, p),
            ModParChildView::CalibrationMethod(n) => node_written::<CalibrationMethod>(n, p),
            ModParChildView::MemoryLayout(n) => node_written::<MemoryLayout>(n, p),
            ModParChildView::MemorySegment(n) => node_written::<MemorySegment>(n, p),
            ModParChildView::Unsupported(n) => UnsupportedNode::written(n, p),
        }
    }

    fn read(block: &Block) -> (r: Result<Self>) {
        if eq_ignore_case(block.keyword.as_str(), "CALIBRATION_HANDLE") {
            return Ok(ModParChild::CalibrationHandle(parse_node::<CalibrationHandle>(block)?));
        }
        if eq_ignore_case(block.keyword.as_str(), "CALIBRATION_METHOD") {
            return Ok(ModParChild::CalibrationMethod(parse_node::<CalibrationMethod>(block)?));
        }
        if eq_ignore_case(block.keyword.as_str(), "MEMORY_LAYOUT") {
            return Ok(ModParChild::MemoryLayout(parse_node::<MemoryLayout>(block)?));
        }
        if eq_ignore_case(block.keyword.as_str(), "MEMORY_SEGMENT") {
            return Ok(ModParChild::MemorySegment(parse_node::<MemorySegment>(block)?));
        }
        Ok(ModParChild::Unsupported(UnsupportedNode::from_block(block)))
    }

    fn write(&self, w: &mut Writer) -> (r: Result<()>) {
        self.write_block(w)
    }
}

impl ModParChild {
    pub fn write_block(&self, w: &mut Writer) -> (r: Result<()>)
        ensures
            match r {
                Ok(()) => ModParChild::written(self@, old(w)@) == Ok::<Page, Stopped>(final(w)@),
                Err(e) => ModParChild::written(self@, old(w)@) == Err::<Page, Stopped>(final(w)@.stopped(e@)),
            },
    {
        match self {
            ModParChild::CalibrationHandle(n) => write_node(n, w),
            ModParChild::CalibrationMethod(n) => write_node(n, w),
            ModParChild::MemoryLayout(n) => write_node(n, w),
            ModParChild::MemorySegment(n) => write_node(n, w),
            ModParChild::Unsupported(n) => n.write_block(w),
        }
    }
}

fn copy_all(children: &Vec<ModParChild>) -> (r: Vec<ModParChild>)
    ensures
        views(r@) == views(children@),
{
    let mut out: Vec<ModParChild> = none_yet();
    let mut i: usize = 0;
    while i < children.len()
        invariant
            i <= children@.len(),
            views(out@) == views(children@.take(i as int)),
        decreases children@.len() - i,
    {
        append(&mut out, children[i].clone());
        i += 1;
        proof {
            assert(views(out@) =~= views(children@.take(i as int)));
        }
    }
    proof {
        assert(children@.take(i as int) =~= children@);
    }
    out
}

/// `MOD_PAR`: the device that a module describes.
#[derive(Debug, PartialEq, Eq)]
pub struct ModPar {
    pub description: Option<String>,
    /// `VERSION "..."`.
    pub version: Option<String>,
    /// `SUPPLIER "..."`.
    pub supplier: Option<String>,
    /// `CUSTOMER "..."`.
    pub customer: Option<String>,
    /// `CUSTOMER_NO "..."`.
    pub customer_no: Option<String>,
    /// `USER "..."`.
    pub user: Option<String>,
    /// `PHONE_NO "..."`.
    pub phone_no: Option<String>,
    /// `ECU "..."`.
    pub ecu: Option<String>,
    /// `CPU "..."`.
    pub cpu: Option<String>,
    /// `EPK "..."`.
    pub epk: Option<String>,
    pub epk_address: Option<u32>,
    pub no_of_interfaces: Option<i32>,
    pub ecu_calibration_offset: Option<u32>,
    pub system_constants: IndexMap<String, String>,
    pub children: Vec<ModParChild>,
}

/// [`ModPar`] as a mathematical value.
pub struct ModParView {
    pub description: Option<Seq<char>>,
    pub version: Option<Seq<char>>,
    pub supplier: Option<Seq<char>>,
    pub customer: Option<Seq<char>>,
    pub customer_no: Option<Seq<char>>,
    pub user: Option<Seq<char>>,
    pub phone_no: Option<Seq<char>>,
    pub ecu: Option<Seq<char>>,
    pub cpu: Option<Seq<char>>,
    pub epk: Option<Seq<char>>,
    pub epk_address: Option<u32>,
    pub no_of_interfaces: Option<i32>,
    pub ecu_calibration_offset: Option<u32>,
    pub system_constants: Seq<(Seq<char>, Seq<char>)>,
    pub children: Seq<ModParChildView>,
}

impl View for ModPar {
    type V = ModParView;

    open spec fn view(&self) -> ModParView {
        ModParView {
            description: opt(self.description),
            version: opt(self.version),
            supplier: opt(self.supplier),
            customer: opt(self.customer),
            customer_no: opt(self.customer_no),
            user: opt(self.user),
            phone_no: opt(self.phone_no),
            ecu: opt(self.ecu),
            cpu: opt(self.cpu),
            epk: opt(self.epk),
            epk_address: self.epk_address,
            no_of_interfaces: self.no_of_interfaces,
            ecu_calibration_offset: self.ecu_calibration_offset,
            system_constants: text_entries(self.system_constants),
            children: views(self.children@),
        }
    }
}

impl ModPar {
    /// The node before anything is read.
    pub open spec fn blank() -> ModParView {
        ModParView {
            description: None,
            version: None,
            supplier: None,
            customer: None,
            customer_no: None,
            user: None,
            phone_no: None,
            ecu: None,
            cpu: None,
            epk: None,
            epk_address: None,
            no_of_interfaces: None,
            ecu_calibration_offset: None,
            system_constants: Seq::empty(),
            children: Seq::empty(),
        }
    }
}

impl Default for ModPar {
    fn default() -> (r: Self)
        ensures
            r@ == ModPar::blank(),
    {
        ModPar {
            description: None,
            version: None,
            supplier: None,
            customer: None,
            customer_no: None,
            user: None,
            phone_no: None,
            ecu: None,
            cpu: None,
            epk: None,
            epk_address: None,
            no_of_interfaces: None,
            ecu_calibration_offset: None,
            system_constants: new_texts(),
            children: none_yet(),
        }
    }
}

impl Clone for ModPar {
    fn clone(&self) -> (r: Self)
        ensures
            r@ == self@,
    {
        ModPar {
            description: copy_text(&self.description),
            version: copy_text(&self.version),
            supplier: copy_text(&self.supplier),
            customer: copy_text(&self.customer),
            customer_no: copy_text(&self.customer_no),
            user: copy_text(&self.user),
            phone_no: copy_text(&self.phone_no),
            ecu: copy_text(&self.ecu),
            cpu: copy_text(&self.cpu),
            epk: copy_text(&self.epk),
            epk_address: self.epk_address,
            no_of_interfaces: self.no_of_interfaces,
            ecu_calibration_offset: self.ecu_calibration_offset,
            system_constants: copy_texts(&self.system_constants),
            children: copy_all(&self.children),
        }
    }
}

impl ModPar {
    /// What the first parameter says, if there is one, and where the next ones start.
    pub open spec fn head(c: Cur) -> Got<ModParView> {
        let v = ModPar::blank();
        if c.more() {
            match read_string(c) {
                Err(f) => Err(f),
                Ok((x, c0)) => {
                    Ok((ModParView { description: Some(x), ..v }, c0))
                },
            }
        } else {
            Ok((v, c))
        }
    }

    fn read_head(cur: &mut ParamCursor) -> (r: Result<Self>)
        ensures
            match r {
                Ok(v) => ModPar::head(old(cur)@) == Ok::<_, Failure>((v@, final(cur)@)),
                Err(e) => ModPar::head(old(cur)@) == Err::<(ModParView, Cur), _>(e@),
            },
    {
        let mut node = ModPar::default();
        if !cur.is_empty() {
            let x = cur.string()?;
            node.description = Some(x);
        }
        Ok(node)
    }
}

impl ModPar {
    /// What the parameters at the cursor set, and where the next ones start.
    pub open spec fn option(v: ModParView, c: Cur) -> Got<ModParView> {
        if c.at("VERSION"@) {
            match read_string(c.step()) {
                Err(f) => Err(f),
                Ok((x, c0)) => {
                    Ok((ModParView { version: Some(x), ..v }, c0))
                },
            }
        } else if c.at("SUPPLIER"@) {
            match read_string(c.step()) {
                Err(f) => Err(f),
                Ok((x, c0)) => {
                    Ok((ModParView { supplier: Some(x), ..v }, c0))
                },
            }
        } else if c.at("CUSTOMER"@) {
            match read_string(c.step()) {
                Err(f) => Err(f),
                Ok((x, c0)) => {
                    Ok((ModParView { customer: Some(x), ..v }, c0))
                },
            }
        } else if c.at("CUSTOMER_NO"@) {
            match read_string(c.step()) {
                Err(f) => Err(f),
                Ok((x, c0)) => {
                    Ok((ModParView { customer_no: Some(x), ..v }, c0))
                },
            }
        } else if c.at("USER"@) {
            match read_string(c.step()) {
                Err(f) => Err(f),
                Ok((x, c0)) => {
                    Ok((ModParView { user: Some(x), ..v }, c0))
                },
            }
        } else if c.at("PHONE_NO"@) {
            match read_string(c.step()) {
                Err(f) => Err(f),
                Ok((x, c0)) => {
                    Ok((ModParView { phone_no: Some(x), ..v }, c0))
                },
            }
        } else if c.at("ECU"@) {
            match read_string(c.step()) {
                Err(f) => Err(f),
                Ok((x, c0)) => {
                    Ok((ModParView { ecu: Some(x), ..v }, c0))
                },
            }
        } else if c.at("CPU"@) {
            match read_string(c.step()) {
                Err(f) => Err(f),
                Ok((x, c0)) => {
                    Ok((ModParView { cpu: Some(x), ..v }, c0))
                },
            }
        } else if c.at("EPK"@) {
            match read_string(c.step()) {
                Err(f) => Err(f),
                Ok((x, c0)) => {
                    Ok((ModParView { epk: Some(x), ..v }, c0))
                },
            }
        } else if c.at("ADDR_EPK"@) {
            match read_uint(c.step(), u32::MAX as int) {
                Err(f) => Err(f),
                Ok((x, c0)) => {
                    Ok((ModParView { epk_address: Some((x as u32)), ..v }, c0))
                },
            }
        } else if c.at("NO_OF_INTERFACES"@) {
            match read_int(c.step(), i32::MIN as int, i32::MAX as int) {
                Err(f) => Err(f),
                Ok((x, c0)) => {
                    Ok((ModParView { no_of_interfaces: Some((x as i32)), ..v }, c0))
                },
            }
        } else if c.at("ECU_CALIBRATION_OFFSET"@) {
            match read_uint(c.step(), u32::MAX as int) {
                Err(f) => Err(f),
                Ok((x, c0)) => {
                    Ok((ModParView { ecu_calibration_offset: Some((x as u32)), ..v }, c0))
                },
            }
        } else if c.at("SYSTEM_CONSTANT"@) {
            match read_string(c.step()) {
                Err(f) => Err(f),
                Ok((name, c0)) => {
                    match read_string(c0) {
                        Err(f) => Err(f),
                        Ok((value, c1)) => {
                            Ok(
                                (
                                    ModParView {
                                        system_constants: with_entry(
                                            v.system_constants,
                                            name,
                                            value
                                        ),
                                        ..v
                                    },
                                    c1
                                )
                            )
                        },
                    }
                },
            }
        } else {
            match read_token(c) {
                Err(f) => Err(f),
                Ok((_t, c0)) => {
                    Ok((v, c0))
                },
            }
        }
    }

    /// What all the parameters from the cursor on set, and where reading them ends.
    pub open spec fn options(v: ModParView, c: Cur) -> Got<ModParView>
        decreases c.left(),
    {
        if c.left() < 2 {
            Ok((v, c))
        } else {
            match ModPar::option(v, c) {
                Err(f) => Err(f),
                Ok((w, n)) => if 0 <= n.left() < c.left() {
                    ModPar::options(w, n)
                } else {
                    arbitrary()
                },
            }
        }
    }

    fn read_option(&mut self, cur: &mut ParamCursor) -> (r: Result<()>)
        requires
            old(cur)@.more(),
        ensures
            match r {
                Ok(()) => {
                    &&& ModPar::option(old(self)@, old(cur)@) == Ok::<_, Failure>(
                        (final(self)@, final(cur)@),
                    )
                    &&& 0 <= final(cur)@.left() < old(cur)@.left()
                },
                Err(e) => ModPar::option(old(self)@, old(cur)@) == Err::<(ModParView, Cur), _>(e@),
            },
    {
        if cur.take_if("VERSION") {
            let x = cur.string()?;
            self.version = Some(x);
            return Ok(());
        }
        if cur.take_if("SUPPLIER") {
            let x = cur.string()?;
            self.supplier = Some(x);
            return Ok(());
        }
        if cur.take_if("CUSTOMER") {
            let x = cur.string()?;
            self.customer = Some(x);
            return Ok(());
        }
        if cur.take_if("CUSTOMER_NO") {
            let x = cur.string()?;
            self.customer_no = Some(x);
            return Ok(());
        }
        if cur.take_if("USER") {
            let x = cur.string()?;
            self.user = Some(x);
            return Ok(());
        }
        if cur.take_if("PHONE_NO") {
            let x = cur.string()?;
            self.phone_no = Some(x);
            return Ok(());
        }
        if cur.take_if("ECU") {
            let x = cur.string()?;
            self.ecu = Some(x);
            return Ok(());
        }
        if cur.take_if("CPU") {
            let x = cur.string()?;
            self.cpu = Some(x);
            return Ok(());
        }
        if cur.take_if("EPK") {
            let x = cur.string()?;
            self.epk = Some(x);
            return Ok(());
        }
        if cur.take_if("ADDR_EPK") {
            let x = cur.uint::<u32>()?;
            self.epk_address = Some(x);
            return Ok(());
        }
        if cur.take_if("NO_OF_INTERFACES") {
            let x = cur.sint::<i32>()?;
            self.no_of_interfaces = Some(x);
            return Ok(());
        }
        if cur.take_if("ECU_CALIBRATION_OFFSET") {
            let x = cur.uint::<u32>()?;
            self.ecu_calibration_offset = Some(x);
            return Ok(());
        }
        if cur.take_if("SYSTEM_CONSTANT") {
            let name = cur.string()?;
            let value = cur.string()?;
            insert_text(&mut self.system_constants, name, value);
            return Ok(());
        }
        let _t = cur.next_token()?;
        Ok(())
    }

    fn read_options(&mut self, cur: &mut ParamCursor) -> (r: Result<()>)
        ensures
            match r {
                Ok(()) => {
                    &&& ModPar::options(old(self)@, old(cur)@) == Ok::<_, Failure>(
                        (final(self)@, final(cur)@),
                    )
                    &&& final(cur)@.left() <= old(cur)@.left()
                    &&& final(cur)@ == old(cur)@ || final(cur)@.left() >= 0
                },
                Err(e) => ModPar::options(old(self)@, old(cur)@) == Err::<(ModParView, Cur), _>(e@),
            },
    {
        let ghost whole = ModPar::options(self@, cur@);
        while cur.remaining() >= 2
            invariant
                whole == ModPar::options(self@, cur@),
                whole == ModPar::options(old(self)@, old(cur)@),
                cur@.left() <= old(cur)@.left(),
                cur@ == old(cur)@ || cur@.left() >= 0,
            decreases cur@.left(),
        {
            self.read_option(cur)?;
        }
        Ok(())
    }
}

/// A line for each of the first system constants.
pub open spec fn constant_lines(s: Seq<(Seq<char>, Seq<char>)>, n: int, p: Page) -> Page
    decreases n,
{
    if n <= 0 {
        p
    } else {
        constant_lines(s, n - 1, p).line(
            "SYSTEM_CONSTANT \""@ + escaped(s[n - 1].0) + "\" \""@ + escaped(s[n - 1].1) + "\""@,
        )
    }
}

fn write_constants(m: &IndexMap<String, String>, w: &mut Writer)
    ensures
        final(w)@ == constant_lines(text_entries(*m), text_entries(*m).len() as int, old(w)@),
{
    let n: usize = count_texts(m);
    let mut i: usize = 0;
    while i < n
        invariant
            i <= n,
            n == text_entries(*m).len(),
            w@ == constant_lines(text_entries(*m), i as int, old(w)@),
        decreases n - i,
    {
        if let Some((k, v)) = text_at(m, i) {
            let mut s = "SYSTEM_CONSTANT \"".to_string();
            s.append(escape_str(k.as_str()).as_str());
            s.append("\" \"");
            s.append(escape_str(v.as_str()).as_str());
            s.append("\"");
            w.line(s.as_str());
        }
        i += 1;
    }
}

impl ModPar {
    /// What is written for the first parameters.
    pub open spec fn opening(v: ModParView, p: Page) -> Page {
        let p = match v.description { Some(x) => p.quote_line(x), None => p.quote_line(""@) };
        let p = match v.version { Some(x) if x.len() > 0 => p.quote("VERSION"@, x), _ => p };
        let p = match v.supplier { Some(x) if x.len() > 0 => p.quote("SUPPLIER"@, x), _ => p };
        let p = match v.customer { Some(x) if x.len() > 0 => p.quote("CUSTOMER"@, x), _ => p };
        let p = match v.customer_no { Some(x) if x.len() > 0 => p.quote("CUSTOMER_NO"@, x), _ => p };
        let p = match v.user { Some(x) if x.len() > 0 => p.quote("USER"@, x), _ => p };
        match v.phone_no { Some(x) if x.len() > 0 => p.quote("PHONE_NO"@, x), _ => p }
    }

    fn write_opening(&self, w: &mut Writer) -> (r: Result<()>)
        ensures
            r is Ok,
            final(w)@ == ModPar::opening(self@, old(w)@),
    {
        match &self.description {
            Some(x) => w.quote_line(x.as_str()),
            None => w.quote_line(""),
        }
        if let Some(x) = &self.version {
            if x.as_str().unicode_len() > 0 {
                w.quote("VERSION", x.as_str());
            }
        }
        if let Some(x) = &self.supplier {
            if x.as_str().unicode_len() > 0 {
                w.quote("SUPPLIER", x.as_str());
            }
        }
        if let Some(x) = &self.customer {
            if x.as_str().unicode_len() > 0 {
                w.quote("CUSTOMER", x.as_str());
            }
        }
        if let Some(x) = &self.customer_no {
            if x.as_str().unicode_len() > 0 {
                w.quote("CUSTOMER_NO", x.as_str());
            }
        }
        if let Some(x) = &self.user {
            if x.as_str().unicode_len() > 0 {
                w.quote("USER", x.as_str());
            }
        }
        if let Some(x) = &self.phone_no {
            if x.as_str().unicode_len() > 0 {
                w.quote("PHONE_NO", x.as_str());
            }
        }
        Ok(())
    }
}

impl Node for ModPar {
    open spec fn keyword_text() -> Seq<char> {
        "MOD_PAR"@
    }

    open spec fn parsed(tree: Tree) -> std::result::Result<ModParView, Failure> {
        match ModPar::head(Cur::start(tree)) {
            Err(f) => Err(f),
            Ok((v, c)) => match ModPar::options(v, c) {
                Err(f) => Err(f),
                Ok((v, _)) => match children_parsed::<ModParChild>(children_of(tree.items), 0) {
                    Err(f) => Err(f),
                    Ok(children) => Ok(ModParView { children, ..v }),
                },
            },
        }
    }

    open spec fn keeps(&self, tree: Tree) -> bool {
        all_kept(self.children@, tree)
    }

    open spec fn body(v: ModParView, p: Page) -> Written {
        let p = ModPar::opening(v, p);
        let p = match v.ecu { Some(x) if x.len() > 0 => p.quote("ECU"@, x), _ => p };
        let p = match v.cpu { Some(x) if x.len() > 0 => p.quote("CPU"@, x), _ => p };
        let p = match v.epk { Some(x) if x.len() > 0 => p.quote("EPK"@, x), _ => p };
        let p = match v.epk_address { Some(x) => p.word("ADDR_EPK"@, hex_form(x as nat)), None => p };
        let p = match v.no_of_interfaces {
            Some(x) if x > -1 => p.word("NO_OF_INTERFACES"@, dec_int(x as int)),
            _ => p
        };
        let p = match v.ecu_calibration_offset {
            Some(x) if x != 0 => p.word("ECU_CALIBRATION_OFFSET"@, dec(x as nat)),
            _ => p
        };
        let p = constant_lines(v.system_constants, v.system_constants.len() as int, p);
        children_written::<ModParChild>(v.children, 0, true, p)
    }

    open spec fn block(v: ModParView, p: Page) -> Written {
        enclosed("MOD_PAR"@, Self::body(v, p.begin("MOD_PAR"@)))
    }

    fn keyword() -> (r: &'static str) {
        "MOD_PAR"
    }

    fn parse(block: &Block) -> (r: Result<Self>) {
        let mut cur = ParamCursor::new(block);
        let mut node = ModPar::read_head(&mut cur)?;
        node.read_options(&mut cur)?;
        node.children = read_children::<ModParChild>(block)?;
        Ok(node)
    }

    fn write_body(&self, w: &mut Writer) -> (r: Result<()>) {
        self.write_opening(w)?;
        if let Some(x) = &self.ecu {
            if x.as_str().unicode_len() > 0 {
                w.quote("ECU", x.as_str());
            }
        }
        if let Some(x) = &self.cpu {
            if x.as_str().unicode_len() > 0 {
                w.quote("CPU", x.as_str());
            }
        }
        if let Some(x) = &self.epk {
            if x.as_str().unicode_len() > 0 {
                w.quote("EPK", x.as_str());
            }
        }
        if let Some(x) = &self.epk_address {
            w.word("ADDR_EPK", to_hex(*x as u64).as_str());
        }
        if let Some(x) = &self.no_of_interfaces {
            if *x > -1 {
                w.word("NO_OF_INTERFACES", dec_int_text(*x as i64).as_str());
            }
        }
        if let Some(x) = &self.ecu_calibration_offset {
            if *x != 0 {
                w.word("ECU_CALIBRATION_OFFSET", dec_text(*x as u64).as_str());
            }
        }
        write_constants(&self.system_constants, w);
        write_children(&self.children, true, w)
    }

    fn write_block(&self, w: &mut Writer) -> (r: Result<()>) {
        w.begin_block("MOD_PAR");
        self.write_body(w)?;
        w.end_block("MOD_PAR");
        Ok(())
    }
}

/// `MEMORY_LAYOUT`: a range of memory.
#[derive(Debug, PartialEq, Eq)]
pub struct MemoryLayout {
    pub prg_type: PrgType,
    pub address: u32,
    pub size: u32,
    pub offsets: [i32; 5],
}

/// [`MemoryLayout`] as a mathematical value.
pub struct MemoryLayoutView {
    pub prg_type: PrgType,
    pub address: u32,
    pub size: u32,
    pub offsets: Seq<i32>,
}

impl View for MemoryLayout {
    type V = MemoryLayoutView;

    open spec fn view(&self) -> MemoryLayoutView {
        MemoryLayoutView {
            prg_type: self.prg_type,
            address: self.address,
            size: self.size,
            offsets: self.offsets@,
        }
    }
}

impl Clone for MemoryLayout {
    fn clone(&self) -> (r: Self)
        ensures
            r@ == self@,
    {
        MemoryLayout {
            prg_type: self.prg_type,
            address: self.address,
            size: self.size,
            offsets: self.offsets,
        }
    }
}

impl MemoryLayout {
    /// The node before anything is read.
    pub open spec fn blank() -> MemoryLayoutView {
        MemoryLayoutView {
            prg_type: PrgType::PRG_CODE,
            address: 0,
            size: 0,
            offsets: seq![-1i32, -1i32, -1i32, -1i32, -1i32],
        }
    }
}

impl Default for MemoryLayout {
    fn default() -> (r: Self)
        ensures
            r@ == MemoryLayout::blank(),
    {
        let r = MemoryLayout {
            prg_type: PrgType::PRG_CODE,
            address: 0,
            size: 0,
            offsets: [-1, -1, -1, -1, -1],
        };
        proof {
            assert(r.offsets@ =~= MemoryLayout::blank().offsets);
        }
        r
    }
}

impl MemoryLayout {
    /// What the parameters at the start say, and where the next ones start.
    pub open spec fn head(c: Cur) -> Got<MemoryLayoutView> {
        let v = MemoryLayout::blank();
        match read_enum::<PrgType>(c, "MEMORY_LAYOUT: unknown enum keyword "@) {
            Err(f) => Err(f),
            Ok((prg_type, c0)) => {
                match read_uint(c0, u32::MAX as int) {
                    Err(f) => Err(f),
                    Ok((address, c1)) => {
                        match read_uint(c1, u32::MAX as int) {
                            Err(f) => Err(f),
                            Ok((size, c2)) => {
                                match read_ints(c2, 5) {
                                    Err(f) => Err(f),
                                    Ok((offsets, c3)) => {
                                        Ok(
                                            (
                                                MemoryLayoutView {
                                                    prg_type,
                                                    address: (address as u32),
                                                    size: (size as u32),
                                                    offsets
                                                },
                                                c3
                                            )
                                        )
                                    },
                                }
                            },
                        }
                    },
                }
            },
        }
    }

    fn read_head(cur: &mut ParamCursor) -> (r: Result<Self>)
        ensures
            match r {
                Ok(v) => MemoryLayout::head(old(cur)@) == Ok::<_, Failure>((v@, final(cur)@)),
                Err(e) => MemoryLayout::head(old(cur)@) == Err::<(MemoryLayoutView, Cur), _>(e@),
            },
    {
        let prg_type = enum_value::<PrgType>(cur, "MEMORY_LAYOUT: unknown enum keyword ")?;
        let address = cur.uint::<u32>()?;
        let size = cur.uint::<u32>()?;
        let offsets = int_array::<5>(cur)?;
        let mut node = MemoryLayout::default();
        node.prg_type = prg_type;
        node.address = address;
        node.size = size;
        node.offsets = offsets;
        Ok(node)
    }
}

impl Node for MemoryLayout {
    open spec fn keyword_text() -> Seq<char> {
        "MEMORY_LAYOUT"@
    }

    open spec fn parsed(tree: Tree) -> std::result::Result<MemoryLayoutView, Failure> {
        match MemoryLayout::head(Cur::start(tree)) {
            Err(f) => Err(f),
            Ok((v, c)) => Ok(v),
        }
    }

    open spec fn body(v: MemoryLayoutView, p: Page) -> Written {
        let p = p.line(
            word_or(
                v.prg_type.word(),
                "PRG_CODE"@
            ) + " "@ + hex_form(v.address as nat) + " "@ + hex_form(v.size as nat) + " "@ + listed(v.offsets)
        );
        Ok(p)
    }

    open spec fn block(v: MemoryLayoutView, p: Page) -> Written {
        enclosed("MEMORY_LAYOUT"@, Self::body(v, p.begin("MEMORY_LAYOUT"@)))
    }

    fn keyword() -> (r: &'static str) {
        "MEMORY_LAYOUT"
    }

    fn parse(block: &Block) -> (r: Result<Self>) {
        let mut cur = ParamCursor::new(block);
        let node = MemoryLayout::read_head(&mut cur)?;
        Ok(node)
    }

    fn write_body(&self, w: &mut Writer) -> (r: Result<()>) {
        {
            let mut s = keyword_or(self.prg_type, "PRG_CODE").to_string();
            s.append(" ");
            s.append(to_hex(self.address as u64).as_str());
            s.append(" ");
            s.append(to_hex(self.size as u64).as_str());
            s.append(" ");
            s.append(dims_text(self.offsets.as_slice()).as_str());
            w.line(s.as_str());
        }
        Ok(())
    }

    fn write_block(&self, w: &mut Writer) -> (r: Result<()>) {
        w.begin_block("MEMORY_LAYOUT");
        self.write_body(w)?;
        w.end_block("MEMORY_LAYOUT");
        Ok(())
    }
}

/// `MEMORY_SEGMENT`: a segment of memory.
#[derive(Debug, PartialEq, Eq)]
pub struct MemorySegment {
    pub name: String,
    pub description: Option<String>,
    /// `MEMORYPRG_TYPE`.
    pub prg_type: MemoryPrgType,
    /// `MEMORY_TYPE`.
    pub memory_type: MemoryType,
    /// `MEMORY_ATTRIBUTE`.
    pub memory_attribute: MemoryAttribute,
    pub address: u32,
    pub size: u32,
    pub offsets: [i32; 5],
}

/// [`MemorySegment`] as a mathematical value.
pub struct MemorySegmentView {
    pub name: Seq<char>,
    pub description: Option<Seq<char>>,
    pub prg_type: MemoryPrgType,
    pub memory_type: MemoryType,
    pub memory_attribute: MemoryAttribute,
    pub address: u32,
    pub size: u32,
    pub offsets: Seq<i32>,
}

impl View for MemorySegment {
    type V = MemorySegmentView;

    open spec fn view(&self) -> MemorySegmentView {
        MemorySegmentView {
            name: self.name@,
            description: opt(self.description),
            prg_type: self.prg_type,
            memory_type: self.memory_type,
            memory_attribute: self.memory_attribute,
            address: self.address,
            size: self.size,
            offsets: self.offsets@,
        }
    }
}

impl Clone for MemorySegment {
    fn clone(&self) -> (r: Self)
        ensures
            r@ == self@,
    {
        MemorySegment {
            name: self.name.clone(),
            description: copy_text(&self.description),
            prg_type: self.prg_type,
            memory_type: self.memory_type,
            memory_attribute: self.memory_attribute,
            address: self.address,
            size: self.size,
            offsets: self.offsets,
        }
    }
}

impl MemorySegment {
    /// The node before anything is read.
    pub open spec fn blank() -> MemorySegmentView {
        MemorySegmentView {
            name: Seq::empty(),
            description: None,
            prg_type: MemoryPrgType::DATA,
            memory_type: MemoryType::FLASH,
            memory_attribute: MemoryAttribute::INTERN,
            address: 0,
            size: 0,
            offsets: seq![-1i32, -1i32, -1i32, -1i32, -1i32],
        }
    }
}

impl Default for MemorySegment {
    fn default() -> (r: Self)
        ensures
            r@ == MemorySegment::blank(),
    {
        let r = MemorySegment {
            name: no_text(),
            description: None,
            prg_type: MemoryPrgType::DATA,
            memory_type: MemoryType::FLASH,
            memory_attribute: MemoryAttribute::INTERN,
            address: 0,
            size: 0,
            offsets: [-1, -1, -1, -1, -1],
        };
        proof {
            assert(r.offsets@ =~= MemorySegment::blank().offsets);
        }
        r
    }
}

impl MemorySegment {
    /// What the parameters at the start say, and where the next ones start.
    pub open spec fn head(c: Cur) -> Got<MemorySegmentView> {
        let v = MemorySegment::blank();
        match read_ident(c) {
            Err(f) => Err(f),
            Ok((name, c0)) => {
                match read_string(c0) {
                    Err(f) => Err(f),
                    Ok((description, c1)) => {
                        match read_enum::<MemoryPrgType>(c1, "MEMORY_SEGMENT: unknown enum keyword "@) {
                            Err(f) => Err(f),
                            Ok((prg_type, c2)) => {
                                match read_enum::<MemoryType>(c2, "MEMORY_SEGMENT: unknown enum keyword "@) {
                                    Err(f) => Err(f),
                                    Ok((memory_type, c3)) => {
                                        match read_enum::<MemoryAttribute>(
                                            c3,
                                            "MEMORY_SEGMENT: unknown enum keyword "@
                                        ) {
                                            Err(f) => Err(f),
                                            Ok((memory_attribute, c4)) => {
                                                match read_uint(c4, u32::MAX as int) {
                                                    Err(f) => Err(f),
                                                    Ok((address, c5)) => {
                                                        match read_uint(c5, u32::MAX as int) {
                                                            Err(f) => Err(f),
                                                            Ok((size, c6)) => {
                                                                match read_ints(c6, 5) {
                                                                    Err(f) => Err(f),
                                                                    Ok((offsets, c7)) => {
                                                                        Ok(
                                                                            (
                                                                                MemorySegmentView {
                                                                                    name,
                                                                                    description: Some(description),
                                                                                    prg_type,
                                                                                    memory_type,
                                                                                    memory_attribute,
                                                                                    address: (address as u32),
                                                                                    size: (size as u32),
                                                                                    offsets
                                                                                },
                                                                                c7
                                                                            )
                                                                        )
                                                                    },
                                                                }
                                                            },
                                                        }
                                                    },
                                                }
                                            },
                                        }
                                    },
                                }
                            },
                        }
                    },
                }
            },
        }
    }

    fn read_head(cur: &mut ParamCursor) -> (r: Result<Self>)
        ensures
            match r {
                Ok(v) => MemorySegment::head(old(cur)@) == Ok::<_, Failure>((v@, final(cur)@)),
                Err(e) => MemorySegment::head(old(cur)@) == Err::<(MemorySegmentView, Cur), _>(e@),
            },
    {
        let name = cur.ident()?;
        let description = cur.string()?;
        let prg_type = enum_value::<MemoryPrgType>(cur, "MEMORY_SEGMENT: unknown enum keyword ")?;
        let memory_type = enum_value::<MemoryType>(cur, "MEMORY_SEGMENT: unknown enum keyword ")?;
        let memory_attribute = enum_value::<MemoryAttribute>(cur, "MEMORY_SEGMENT: unknown enum keyword ")?;
        let address = cur.uint::<u32>()?;
        let size = cur.uint::<u32>()?;
        let offsets = int_array::<5>(cur)?;
        let mut node = MemorySegment::default();
        node.name = name;
        node.description = Some(description);
        node.prg_type = prg_type;
        node.memory_type = memory_type;
        node.memory_attribute = memory_attribute;
        node.address = address;
        node.size = size;
        node.offsets = offsets;
        Ok(node)
    }
}

impl Node for MemorySegment {
    open spec fn keyword_text() -> Seq<char> {
        "MEMORY_SEGMENT"@
    }

    open spec fn parsed(tree: Tree) -> std::result::Result<MemorySegmentView, Failure> {
        match MemorySegment::head(Cur::start(tree)) {
            Err(f) => Err(f),
            Ok((v, c)) => Ok(v),
        }
    }

    open spec fn body(v: MemorySegmentView, p: Page) -> Written {
        let p = match v.description { Some(x) => p.quote_line(x), None => p.quote_line(""@) };
        let p = p.line(
            word_or(v.prg_type.word(), "DATA"@) + " "@ + word_or(
                v.memory_type.word(),
                "FLASH"@
            ) + " "@ + word_or(
                v.memory_attribute.word(),
                "INTERN"@
            ) + " "@ + hex_form(v.address as nat) + " "@ + hex_form(v.size as nat) + " "@ + listed(v.offsets)
        );
        Ok(p)
    }

    open spec fn block(v: MemorySegmentView, p: Page) -> Written {
        enclosed("MEMORY_SEGMENT"@, Self::body(v, p.begin("MEMORY_SEGMENT "@ + v.name)))
    }

    fn keyword() -> (r: &'static str) {
        "MEMORY_SEGMENT"
    }

    fn parse(block: &Block) -> (r: Result<Self>) {
        let mut cur = ParamCursor::new(block);
        let node = MemorySegment::read_head(&mut cur)?;
        Ok(node)
    }

    fn write_body(&self, w: &mut Writer) -> (r: Result<()>) {
        match &self.description {
            Some(x) => w.quote_line(x.as_str()),
            None => w.quote_line(""),
        }
        {
            let mut s = keyword_or(self.prg_type, "DATA").to_string();
            s.append(" ");
            s.append(keyword_or(self.memory_type, "FLASH"));
            s.append(" ");
            s.append(keyword_or(self.memory_attribute, "INTERN"));
            s.append(" ");
            s.append(to_hex(self.address as u64).as_str());
            s.append(" ");
            s.append(to_hex(self.size as u64).as_str());
            s.append(" ");
            s.append(dims_text(self.offsets.as_slice()).as_str());
            w.line(s.as_str());
        }
        Ok(())
    }

    fn write_block(&self, w: &mut Writer) -> (r: Result<()>) {
        let mut s = "MEMORY_SEGMENT ".to_string();
        s.append(self.name.as_str());
        w.begin_block(s.as_str());
        self.write_body(w)?;
        w.end_block("MEMORY_SEGMENT");
        Ok(())
    }
}

/// `CALIBRATION_HANDLE`: handles of a calibration method.
#[derive(Debug, PartialEq, Eq)]
pub struct CalibrationHandle {
    pub text: Option<String>,
    pub handles: Vec<u32>,
}

/// [`CalibrationHandle`] as a mathematical value.
pub struct CalibrationHandleView {
    pub text: Option<Seq<char>>,
    pub handles: Seq<u32>,
}

impl View for CalibrationHandle {
    type V = CalibrationHandleView;

    open spec fn view(&self) -> CalibrationHandleView {
        CalibrationHandleView {
            text: opt(self.text),
            handles: self.handles@,
        }
    }
}

impl Clone for CalibrationHandle {
    fn clone(&self) -> (r: Self)
        ensures
            r@ == self@,
    {
        CalibrationHandle { text: copy_text(&self.text), handles: self.handles.clone() }
    }
}

impl CalibrationHandle {
    /// The node before anything is read.
    pub open spec fn blank() -> CalibrationHandleView {
        CalibrationHandleView {
            text: None,
            handles: Seq::empty(),
        }
    }
}

impl Default for CalibrationHandle {
    fn default() -> (r: Self)
        ensures
            r@ == CalibrationHandle::blank(),
    {
        CalibrationHandle {
            text: None,
            handles: Vec::new(),
        }
    }
}

impl CalibrationHandle {
    /// What the parameters at the cursor set, and where the next ones start.
    pub open spec fn option(v: CalibrationHandleView, c: Cur) -> Got<CalibrationHandleView> {
        if c.at("CALIBRATION_HANDLE_TEXT"@) {
            match read_string(c.step()) {
                Err(f) => Err(f),
                Ok((x, c0)) => {
                    Ok((CalibrationHandleView { text: Some(x), ..v }, c0))
                },
            }
        } else {
            match read_uint(c, u32::MAX as int) {
                Err(f) => Err(f),
                Ok((x, c0)) => {
                    Ok((CalibrationHandleView { handles: v.handles.push((x as u32)), ..v }, c0))
                },
            }
        }
    }

    /// What all the parameters from the cursor on set, and where reading them ends.
    pub open spec fn options(v: CalibrationHandleView, c: Cur) -> Got<CalibrationHandleView>
        decreases c.left(),
    {
        if !c.more() {
            Ok((v, c))
        } else {
            match CalibrationHandle::option(v, c) {
                Err(f) => Err(f),
                Ok((w, n)) => if 0 <= n.left() < c.left() {
                    CalibrationHandle::options(w, n)
                } else {
                    arbitrary()
                },
            }
        }
    }

    fn read_option(&mut self, cur: &mut ParamCursor) -> (r: Result<()>)
        requires
            old(cur)@.more(),
        ensures
            match r {
                Ok(()) => {
                    &&& CalibrationHandle::option(old(self)@, old(cur)@) == Ok::<_, Failure>(
                        (final(self)@, final(cur)@),
                    )
                    &&& 0 <= final(cur)@.left() < old(cur)@.left()
                },
                Err(e) => CalibrationHandle::option(old(self)@, old(cur)@) == Err::<(CalibrationHandleView, Cur), _>(e@),
            },
    {
        if cur.take_if("CALIBRATION_HANDLE_TEXT") {
            let x = cur.string()?;
            self.text = Some(x);
            return Ok(());
        }
        let x = cur.uint::<u32>()?;
        self.handles.push(x);
        Ok(())
    }

    fn read_options(&mut self, cur: &mut ParamCursor) -> (r: Result<()>)
        ensures
            match r {
                Ok(()) => {
                    &&& CalibrationHandle::options(old(self)@, old(cur)@) == Ok::<_, Failure>(
                        (final(self)@, final(cur)@),
                    )
                    &&& final(cur)@.left() <= old(cur)@.left()
                    &&& final(cur)@ == old(cur)@ || final(cur)@.left() >= 0
                },
                Err(e) => CalibrationHandle::options(old(self)@, old(cur)@) == Err::<(CalibrationHandleView, Cur), _>(e@),
            },
    {
        let ghost whole = CalibrationHandle::options(self@, cur@);
        while !cur.is_empty()
            invariant
                whole == CalibrationHandle::options(self@, cur@),
                whole == CalibrationHandle::options(old(self)@, old(cur)@),
                cur@.left() <= old(cur)@.left(),
                cur@ == old(cur)@ || cur@.left() >= 0,
            decreases cur@.left(),
        {
            self.read_option(cur)?;
        }
        Ok(())
    }
}

/// Numbers in hexadecimal, with blanks between them.
pub open spec fn hexes(s: Seq<u32>) -> Seq<char>
    decreases s.len(),
{
    if s.len() == 0 {
        Seq::empty()
    } else if s.len() == 1 {
        hex_form(s[0] as nat)
    } else {
        hexes(s.drop_last()) + " "@ + hex_form(s.last() as nat)
    }
}

fn hex_list(v: &Vec<u32>) -> (r: String)
    ensures
        r@ == hexes(v@),
{
    let mut out = no_text();
    let mut i: usize = 0;
    while i < v.len()
        invariant
            i <= v@.len(),
            out@ == hexes(v@.subrange(0, i as int)),
        decreases v@.len() - i,
    {
        proof {
            let next = v@.subrange(0, i + 1);
            assert(next.drop_last() =~= v@.subrange(0, i as int));
            assert(next.last() == v@[i as int]);
        }
        if i == 0 {
            out = to_hex(v[i] as u64);
        } else {
            out.append(" ");
            out.append(to_hex(v[i] as u64).as_str());
        }
        i += 1;
    }
    proof {
        assert(v@.subrange(0, i as int) =~= v@);
    }
    out
}

impl Node for CalibrationHandle {
    open spec fn keyword_text() -> Seq<char> {
        "CALIBRATION_HANDLE"@
    }

    open spec fn parsed(tree: Tree) -> std::result::Result<CalibrationHandleView, Failure> {
        match CalibrationHandle::options(CalibrationHandle::blank(), Cur::start(tree)) {
            Err(f) => Err(f),
            Ok((v, _)) => Ok(v),
        }
    }

    open spec fn body(v: CalibrationHandleView, p: Page) -> Written {
        let p = match v.text { Some(x) if x.len() > 0 => p.quote("CALIBRATION_HANDLE_TEXT"@, x), _ => p };
        let p = if v.handles.len() > 0 { p.line(hexes(v.handles)) } else { p };
        Ok(p)
    }

    open spec fn block(v: CalibrationHandleView, p: Page) -> Written {
        enclosed("CALIBRATION_HANDLE"@, Self::body(v, p.begin("CALIBRATION_HANDLE"@)))
    }

    fn keyword() -> (r: &'static str) {
        "CALIBRATION_HANDLE"
    }

    fn parse(block: &Block) -> (r: Result<Self>) {
        let mut cur = ParamCursor::new(block);
        let mut node = CalibrationHandle::default();
        node.read_options(&mut cur)?;
        Ok(node)
    }

    fn write_body(&self, w: &mut Writer) -> (r: Result<()>) {
        if let Some(x) = &self.text {
            if x.as_str().unicode_len() > 0 {
                w.quote("CALIBRATION_HANDLE_TEXT", x.as_str());
            }
        }
        if self.handles.len() > 0 {
            w.line(hex_list(&self.handles).as_str());
        }
        Ok(())
    }

    fn write_block(&self, w: &mut Writer) -> (r: Result<()>) {
        w.begin_block("CALIBRATION_HANDLE");
        self.write_body(w)?;
        w.end_block("CALIBRATION_HANDLE");
        Ok(())
    }
}

/// `CALIBRATION_METHOD`: how parameters are exchanged.
#[derive(Debug, PartialEq, Eq)]
pub struct CalibrationMethod {
    pub method: String,
    pub version: i32,
}

/// [`CalibrationMethod`] as a mathematical value.
pub struct CalibrationMethodView {
    pub method: Seq<char>,
    pub version: i32,
}

impl View for CalibrationMethod {
    type V = CalibrationMethodView;

    open spec fn view(&self) -> CalibrationMethodView {
        CalibrationMethodView {
            method: self.method@,
            version: self.version,
        }
    }
}

impl Clone for CalibrationMethod {
    fn clone(&self) -> (r: Self)
        ensures
            r@ == self@,
    {
        CalibrationMethod { method: self.method.clone(), version: self.version }
    }
}

impl CalibrationMethod {
    /// The node before anything is read.
    pub open spec fn blank() -> CalibrationMethodView {
        CalibrationMethodView {
            method: Seq::empty(),
            version: 0,
        }
    }
}

impl Default for CalibrationMethod {
    fn default() -> (r: Self)
        ensures
            r@ == CalibrationMethod::blank(),
    {
        CalibrationMethod {
            method: no_text(),
            version: 0,
        }
    }
}

impl CalibrationMethod {
    /// What the parameters at the start say, and where the next ones start.
    pub open spec fn head(c: Cur) -> Got<CalibrationMethodView> {
        let v = CalibrationMethod::blank();
        match read_string(c) {
            Err(f) => Err(f),
            Ok((method, c0)) => {
                match read_int(c0, i32::MIN as int, i32::MAX as int) {
                    Err(f) => Err(f),
                    Ok((version, c1)) => {
                        Ok((CalibrationMethodView { method, version: (version as i32) }, c1))
                    },
                }
            },
        }
    }

    fn read_head(cur: &mut ParamCursor) -> (r: Result<Self>)
        ensures
            match r {
                Ok(v) => CalibrationMethod::head(old(cur)@) == Ok::<_, Failure>((v@, final(cur)@)),
                Err(e) => CalibrationMethod::head(old(cur)@) == Err::<(CalibrationMethodView, Cur), _>(e@),
            },
    {
        let method = cur.string()?;
        let version = cur.sint::<i32>()?;
        let mut node = CalibrationMethod::default();
        node.method = method;
        node.version = version;
        Ok(node)
    }
}

impl Node for CalibrationMethod {
    open spec fn keyword_text() -> Seq<char> {
        "CALIBRATION_METHOD"@
    }

    open spec fn parsed(tree: Tree) -> std::result::Result<CalibrationMethodView, Failure> {
        match CalibrationMethod::head(Cur::start(tree)) {
            Err(f) => Err(f),
            Ok((v, c)) => Ok(v),
        }
    }

    open spec fn body(v: CalibrationMethodView, p: Page) -> Written {
        let p = p.quote_line(v.method);
        let p = p.line(dec_int(v.version as int));
        Ok(p)
    }

    open spec fn block(v: CalibrationMethodView, p: Page) -> Written {
        enclosed("CALIBRATION_METHOD"@, Self::body(v, p.begin("CALIBRATION_METHOD"@)))
    }

    fn keyword() -> (r: &'static str) {
        "CALIBRATION_METHOD"
    }

    fn parse(block: &Block) -> (r: Result<Self>) {
        let mut cur = ParamCursor::new(block);
        let node = CalibrationMethod::read_head(&mut cur)?;
        Ok(node)
    }

    fn write_body(&self, w: &mut Writer) -> (r: Result<()>) {
        w.quote_line(self.method.as_str());
        w.line(dec_int_text(self.version as i64).as_str());
        Ok(())
    }

    fn write_block(&self, w: &mut Writer) -> (r: Result<()>) {
        w.begin_block("CALIBRATION_METHOD");
        self.write_body(w)?;
        w.end_block("CALIBRATION_METHOD");
        Ok(())
    }
}

/// Two numbers by their views.
pub open spec fn opt_numbers(o: Option<[Number; 2]>) -> Option<Seq<Num>> {
    match o {
        Some(a) => Some(views(a@)),
        None => None,
    }
}

/// Two floating-point numbers as a list.
pub open spec fn read_two(c: Cur) -> Got<Seq<Num>> {
    match read_pair(c) {
        Err(f) => Err(f),
        Ok(((a, b), n)) => Ok((seq![a, b], n)),
    }
}

fn two(cur: &mut ParamCursor) -> (r: Result<[Number; 2]>)
    ensures
        match r {
            Ok(v) => {
                &&& read_two(old(cur)@) == Ok::<_, Failure>((views(v@), final(cur)@))
                &&& 0 <= final(cur)@.left() < old(cur)@.left()
            },
            Err(e) => read_two(old(cur)@) == Err::<(Seq<Num>, Cur), _>(e@),
        },
{
    let (a, b) = float_pair(cur)?;
    let r = [a, b];
    proof {
        assert(views(r@) =~= seq![a@, b@]);
    }
    Ok(r)
}

/// `UNIT`: a unit of measurement.
#[derive(Debug, Clone, PartialEq, Eq)]
pub struct Unit {
    pub name: String,
    pub description: Option<String>,
    pub display: Option<String>,
    pub unit_type: UnitType,
    pub ref_unit: Option<String>,
    pub unit_conversion: Option<[Number; 2]>,
    pub si_exponents: Option<[i32; 7]>,
}

/// [`Unit`] as a mathematical value.
pub struct UnitView {
    pub name: Seq<char>,
    pub description: Option<Seq<char>>,
    pub display: Option<Seq<char>>,
    pub unit_type: UnitType,
    pub ref_unit: Option<Seq<char>>,
    pub unit_conversion: Option<Seq<Num>>,
    pub si_exponents: Option<Seq<i32>>,
}

impl View for Unit {
    type V = UnitView;

    open spec fn view(&self) -> UnitView {
        UnitView {
            name: self.name@,
            description: opt(self.description),
            display: opt(self.display),
            unit_type: self.unit_type,
            ref_unit: opt(self.ref_unit),
            unit_conversion: opt_numbers(self.unit_conversion),
            si_exponents: opt(self.si_exponents),
        }
    }
}

impl Unit {
    /// The node before anything is read.
    pub open spec fn blank() -> UnitView {
        UnitView {
            name: Seq::empty(),
            description: None,
            display: None,
            unit_type: UnitType::DERIVED,
            ref_unit: None,
            unit_conversion: None,
            si_exponents: None,
        }
    }
}

impl Default for Unit {
    fn default() -> (r: Self)
        ensures
            r@ == Unit::blank(),
    {
        Unit {
            name: no_text(),
            description: None,
            display: None,
            unit_type: UnitType::DERIVED,
            ref_unit: None,
            unit_conversion: None,
            si_exponents: None,
        }
    }
}

impl Unit {
    /// What the parameters at the start say, and where the next ones start.
    pub open spec fn head(c: Cur) -> Got<UnitView> {
        let v = Unit::blank();
        match read_ident(c) {
            Err(f) => Err(f),
            Ok((name, c0)) => {
                match read_string(c0) {
                    Err(f) => Err(f),
                    Ok((description, c1)) => {
                        match read_string(c1) {
                            Err(f) => Err(f),
                            Ok((display, c2)) => {
                                match read_enum::<UnitType>(c2, "UNIT: unknown enum keyword "@) {
                                    Err(f) => Err(f),
                                    Ok((unit_type, c3)) => {
                                        Ok(
                                            (
                                                UnitView {
                                                    name,
                                                    description: Some(description),
                                                    display: Some(display),
                                                    unit_type,
                                                    ..v
                                                },
                                                c3
                                            )
                                        )
                                    },
                                }
                            },
                        }
                    },
                }
            },
        }
    }

    fn read_head(cur: &mut ParamCursor) -> (r: Result<Self>)
        ensures
            match r {
                Ok(v) => Unit::head(old(cur)@) == Ok::<_, Failure>((v@, final(cur)@)),
                Err(e) => Unit::head(old(cur)@) == Err::<(UnitView, Cur), _>(e@),
            },
    {
        let name = cur.ident()?;
        let description = cur.string()?;
        let display = cur.string()?;
        let unit_type = enum_value::<UnitType>(cur, "UNIT: unknown enum keyword ")?;
        let mut node = Unit::default();
        node.name = name;
        node.description = Some(description);
        node.display = Some(display);
        node.unit_type = unit_type;
        Ok(node)
    }
}

impl Unit {
    /// What the parameters at the cursor set, and where the next ones start.
    pub open spec fn option(v: UnitView, c: Cur) -> Got<UnitView> {
        if c.at("REF_UNIT"@) {
            match read_ident(c.step()) {
                Err(f) => Err(f),
                Ok((x, c0)) => {
                    Ok((UnitView { ref_unit: Some(x), ..v }, c0))
                },
            }
        } else if c.at("UNIT_CONVERSION"@) {
            match read_two(c.step()) {
                Err(f) => Err(f),
                Ok((x, c0)) => {
                    Ok((UnitView { unit_conversion: Some(x), ..v }, c0))
                },
            }
        } else if c.at("SI_EXPONENTS"@) {
            match read_ints(c.step(), 7) {
                Err(f) => Err(f),
                Ok((x, c0)) => {
                    Ok((UnitView { si_exponents: Some(x), ..v }, c0))
                },
            }
        } else {
            match read_token(c) {
                Err(f) => Err(f),
                Ok((_t, c0)) => {
                    Ok((v, c0))
                },
            }
        }
    }

    /// What all the parameters from the cursor on set, and where reading them ends.
    pub open spec fn options(v: UnitView, c: Cur) -> Got<UnitView>
        decreases c.left(),
    {
        if !c.more() {
            Ok((v, c))
        } else {
            match Unit::option(v, c) {
                Err(f) => Err(f),
                Ok((w, n)) => if 0 <= n.left() < c.left() {
                    Unit::options(w, n)
                } else {
                    arbitrary()
                },
            }
        }
    }

    fn read_option(&mut self, cur: &mut ParamCursor) -> (r: Result<()>)
        requires
            old(cur)@.more(),
        ensures
            match r {
                Ok(()) => {
                    &&& Unit::option(old(self)@, old(cur)@) == Ok::<_, Failure>(
                        (final(self)@, final(cur)@),
                    )
                    &&& 0 <= final(cur)@.left() < old(cur)@.left()
                },
                Err(e) => Unit::option(old(self)@, old(cur)@) == Err::<(UnitView, Cur), _>(e@),
            },
    {
        if cur.take_if("REF_UNIT") {
            let x = cur.ident()?;
            self.ref_unit = Some(x);
            return Ok(());
        }
        if cur.take_if("UNIT_CONVERSION") {
            let x = two(cur)?;
            self.unit_conversion = Some(x);
            return Ok(());
        }
        if cur.take_if("SI_EXPONENTS") {
            let x = int_array::<7>(cur)?;
            self.si_exponents = Some(x);
            return Ok(());
        }
        let _t = cur.next_token()?;
        Ok(())
    }

    fn read_options(&mut self, cur: &mut ParamCursor) -> (r: Result<()>)
        ensures
            match r {
                Ok(()) => {
                    &&& Unit::options(old(self)@, old(cur)@) == Ok::<_, Failure>(
                        (final(self)@, final(cur)@),
                    )
                    &&& final(cur)@.left() <= old(cur)@.left()
                    &&& final(cur)@ == old(cur)@ || final(cur)@.left() >= 0
                },
                Err(e) => Unit::options(old(self)@, old(cur)@) == Err::<(UnitView, Cur), _>(e@),
            },
    {
        let ghost whole = Unit::options(self@, cur@);
        while !cur.is_empty()
            invariant
                whole == Unit::options(self@, cur@),
                whole == Unit::options(old(self)@, old(cur)@),
                cur@.left() <= old(cur)@.left(),
                cur@ == old(cur)@ || cur@.left() >= 0,
            decreases cur@.left(),
        {
            self.read_option(cur)?;
        }
        Ok(())
    }
}

impl Node for Unit {
    open spec fn keyword_text() -> Seq<char> {
        "UNIT"@
    }

    open spec fn parsed(tree: Tree) -> std::result::Result<UnitView, Failure> {
        match Unit::head(Cur::start(tree)) {
            Err(f) => Err(f),
            Ok((v, c)) => match Unit::options(v, c) {
                Err(f) => Err(f),
                Ok((v, _)) => Ok(v),
            },
        }
    }

    open spec fn body(v: UnitView, p: Page) -> Written {
        let p = match v.description { Some(x) => p.quote_line(x), None => p.quote_line(""@) };
        let p = match v.display { Some(x) => p.quote_line(x), None => p.quote_line(""@) };
        let p = match v.unit_type.word() { Some(kw) => p.line(kw), None => p };
        let p = match v.ref_unit { Some(x) if x.len() > 0 => p.word("REF_UNIT"@, x), _ => p };
        let p = match v.unit_conversion {
            Some(x) => p.word("UNIT_CONVERSION"@, x[0].text + " "@ + x[1].text),
            None => p
        };
        let p = match v.si_exponents { Some(x) => p.word("SI_EXPONENTS"@, listed(x)), None => p };
        Ok(p)
    }

    open spec fn block(v: UnitView, p: Page) -> Written {
        enclosed("UNIT"@, Self::body(v, p.begin("UNIT "@ + v.name)))
    }

    fn keyword() -> (r: &'static str) {
        "UNIT"
    }

    fn parse(block: &Block) -> (r: Result<Self>) {
        let mut cur = ParamCursor::new(block);
        let mut node = Unit::read_head(&mut cur)?;
        node.read_options(&mut cur)?;
        Ok(node)
    }

    fn write_body(&self, w: &mut Writer) -> (r: Result<()>) {
        match &self.description {
            Some(x) => w.quote_line(x.as_str()),
            None => w.quote_line(""),
        }
        match &self.display {
            Some(x) => w.quote_line(x.as_str()),
            None => w.quote_line(""),
        }
        if let Some(kw) = self.unit_type.as_keyword() {
            w.line(kw);
        }
        if let Some(x) = &self.ref_unit {
            if x.as_str().unicode_len() > 0 {
                w.word("REF_UNIT", x.as_str());
            }
        }
        if let Some(x) = &self.unit_conversion {
            let mut s = x[0].text.clone();
            s.append(" ");
            s.append(x[1].text.as_str());
            w.word("UNIT_CONVERSION", s.as_str());
        }
        if let Some(x) = &self.si_exponents {
            w.word("SI_EXPONENTS", dims_text(x.as_slice()).as_str());
        }
        Ok(())
    }

    fn write_block(&self, w: &mut Writer) -> (r: Result<()>) {
        let mut s = "UNIT ".to_string();
        s.append(self.name.as_str());
        w.begin_block(s.as_str());
        self.write_body(w)?;
        w.end_block("UNIT");
        Ok(())
    }
}

/// `REF_GROUP`: names of other objects.
#[derive(Debug, Clone, PartialEq, Eq)]
pub struct RefGroup {
    pub references: Vec<String>,
}

/// [`RefGroup`] as a mathematical value.
pub struct RefGroupView {
    pub references: Seq<Seq<char>>,
}

impl View for RefGroup {
    type V = RefGroupView;

    open spec fn view(&self) -> RefGroupView {
        RefGroupView {
            references: views(self.references@),
        }
    }
}

impl RefGroup {
    /// The node before anything is read.
    pub open spec fn blank() -> RefGroupView {
        RefGroupView {
            references: Seq::empty(),
        }
    }
}

impl Default for RefGroup {
    fn default() -> (r: Self)
        ensures
            r@ == RefGroup::blank(),
    {
        RefGroup {
            references: none_yet(),
        }
    }
}

impl Node for RefGroup {
    open spec fn keyword_text() -> Seq<char> {
        "REF_GROUP"@
    }

    open spec fn parsed(tree: Tree) -> std::result::Result<RefGroupView, Failure> {
        Ok(
            RefGroupView {
                references: ReferenceFields::rest(
                    ReferenceFields::blank(),
                    Cur::start(tree)
                ).references
            }
        )
    }

    open spec fn body(v: RefGroupView, p: Page) -> Written {
        let p = p.references(v.references);
        Ok(p)
    }

    open spec fn block(v: RefGroupView, p: Page) -> Written {
        enclosed("REF_GROUP"@, Self::body(v, p.begin("REF_GROUP"@)))
    }

    fn keyword() -> (r: &'static str) {
        "REF_GROUP"
    }

    fn parse(block: &Block) -> (r: Result<Self>) {
        let mut cur = ParamCursor::new(block);
        let fields = ReferenceFields::take_rest(&mut cur);
        Ok(RefGroup { references: fields.references })
    }

    fn write_body(&self, w: &mut Writer) -> (r: Result<()>) {
        w.references(&self.references);
        Ok(())
    }

    fn write_block(&self, w: &mut Writer) -> (r: Result<()>) {
        w.begin_block("REF_GROUP");
        self.write_body(w)?;
        w.end_block("REF_GROUP");
        Ok(())
    }
}

/// A block within the node.
#[derive(Debug, Clone, PartialEq, Eq)]
pub enum UserRightsChild {
    /// `/begin REF_GROUP`.
    RefGroup(RefGroup),
    Unsupported(UnsupportedNode),
}

/// [`UserRightsChild`] as a mathematical value.
pub enum UserRightsChildView {
    RefGroup(RefGroupView),
    Unsupported(UnsupportedNodeView),
}

impl View for UserRightsChild {
    type V = UserRightsChildView;

    open spec fn view(&self) -> UserRightsChildView {
        match self {
            UserRightsChild::RefGroup(n) => UserRightsChildView::RefGroup(n@),
            UserRightsChild::Unsupported(n) => UserRightsChildView::Unsupported(n@),
        }
    }
}

impl Child for UserRightsChild {
    open spec fn parsed(tree: Tree) -> std::result::Result<UserRightsChildView, Failure> {
        if same_ignore_case(tree.keyword, "REF_GROUP"@) {
            match node_parsed::<RefGroup>(tree) {
                Ok(n) => Ok(UserRightsChildView::RefGroup(n)),
                Err(f) => Err(f),
            }
        } else {
            Ok(UserRightsChildView::Unsupported(UnsupportedNode::of(tree)))
        }
    }

    open spec fn kept(&self, tree: Tree) -> bool {
        match self {
            UserRightsChild::RefGroup(n) => n.keeps(tree),
            UserRightsChild::Unsupported(n) => n.kept(tree),
        }
    }

    open spec fn written(v: UserRightsChildView, p: Page) -> Written {
        match v {
            UserRightsChildView::RefGroup(n) => node_written::<RefGroup>(n, p),
            UserRightsChildView::Unsupported(n) => UnsupportedNode::written(n, p),
        }
    }

    fn read(block: &Block) -> (r: Result<Self>) {
        if eq_ignore_case(block.keyword.as_str(), "REF_GROUP") {
            return Ok(UserRightsChild::RefGroup(parse_node::<RefGroup>(block)?));
        }
        Ok(UserRightsChild::Unsupported(UnsupportedNode::from_block(block)))
    }

    fn write(&self, w: &mut Writer) -> (r: Result<()>) {
        self.write_block(w)
    }
}

impl UserRightsChild {
    pub fn write_block(&self, w: &mut Writer) -> (r: Result<()>)
        ensures
            match r {
                Ok(()) => UserRightsChild::written(self@, old(w)@) == Ok::<Page, Stopped>(final(w)@),
                Err(e) => UserRightsChild::written(self@, old(w)@) == Err::<Page, Stopped>(final(w)@.stopped(e@)),
            },
    {
        match self {
            UserRightsChild::RefGroup(n) => write_node(n, w),
            UserRightsChild::Unsupported(n) => n.write_block(w),
        }
    }
}

/// `USER_RIGHTS`: what a user may change.
#[derive(Debug, Clone, PartialEq, Eq)]
pub struct UserRights {
    pub name: String,
    pub read_only: bool,
    pub children: Vec<UserRightsChild>,
}

/// [`UserRights`] as a mathematical value.
pub struct UserRightsView {
    pub name: Seq<char>,
    pub read_only: bool,
    pub children: Seq<UserRightsChildView>,
}

impl View for UserRights {
    type V = UserRightsView;

    open spec fn view(&self) -> UserRightsView {
        UserRightsView {
            name: self.name@,
            read_only: self.read_only,
            children: views(self.children@),
        }
    }
}

impl UserRights {
    /// The node before anything is read.
    pub open spec fn blank() -> UserRightsView {
        UserRightsView {
            name: Seq::empty(),
            read_only: false,
            children: Seq::empty(),
        }
    }
}

impl Default for UserRights {
    fn default() -> (r: Self)
        ensures
            r@ == UserRights::blank(),
    {
        UserRights {
            name: no_text(),
            read_only: false,
            children: none_yet(),
        }
    }
}

impl UserRights {
    /// What the parameters at the start say, and where the next ones start.
    pub open spec fn head(c: Cur) -> Got<UserRightsView> {
        let v = UserRights::blank();
        match read_ident(c) {
            Err(f) => Err(f),
            Ok((name, c0)) => {
                Ok((UserRightsView { name, ..v }, c0))
            },
        }
    }

    fn read_head(cur: &mut ParamCursor) -> (r: Result<Self>)
        ensures
            match r {
                Ok(v) => UserRights::head(old(cur)@) == Ok::<_, Failure>((v@, final(cur)@)),
                Err(e) => UserRights::head(old(cur)@) == Err::<(UserRightsView, Cur), _>(e@),
            },
    {
        let name = cur.ident()?;
        let mut node = UserRights::default();
        node.name = name;
        Ok(node)
    }
}

impl UserRights {
    /// What the parameters at the cursor set, and where the next ones start.
    pub open spec fn option(v: UserRightsView, c: Cur) -> Got<UserRightsView> {
        if c.at("READ_ONLY"@) {
            Ok((UserRightsView { read_only: true, ..v }, c.step()))
        } else {
            match read_token(c) {
                Err(f) => Err(f),
                Ok((_t, c0)) => {
                    Ok((v, c0))
                },
            }
        }
    }

    /// What all the parameters from the cursor on set, and where reading them ends.
    pub open spec fn options(v: UserRightsView, c: Cur) -> Got<UserRightsView>
        decreases c.left(),
    {
        if !c.more() {
            Ok((v, c))
        } else {
            match UserRights::option(v, c) {
                Err(f) => Err(f),
                Ok((w, n)) => if 0 <= n.left() < c.left() {
                    UserRights::options(w, n)
                } else {
                    arbitrary()
                },
            }
        }
    }

    fn read_option(&mut self, cur: &mut ParamCursor) -> (r: Result<()>)
        requires
            old(cur)@.more(),
        ensures
            match r {
                Ok(()) => {
                    &&& UserRights::option(old(self)@, old(cur)@) == Ok::<_, Failure>(
                        (final(self)@, final(cur)@),
                    )
                    &&& 0 <= final(cur)@.left() < old(cur)@.left()
                },
                Err(e) => UserRights::option(old(self)@, old(cur)@) == Err::<(UserRightsView, Cur), _>(e@),
            },
    {
        if cur.take_if("READ_ONLY") {
            self.read_only = true;
            return Ok(());
        }
        let _t = cur.next_token()?;
        Ok(())
    }

    fn read_options(&mut self, cur: &mut ParamCursor) -> (r: Result<()>)
        ensures
            match r {
                Ok(()) => {
                    &&& UserRights::options(old(self)@, old(cur)@) == Ok::<_, Failure>(
                        (final(self)@, final(cur)@),
                    )
                    &&& final(cur)@.left() <= old(cur)@.left()
                    &&& final(cur)@ == old(cur)@ || final(cur)@.left() >= 0
                },
                Err(e) => UserRights::options(old(self)@, old(cur)@) == Err::<(UserRightsView, Cur), _>(e@),
            },
    {
        let ghost whole = UserRights::options(self@, cur@);
        while !cur.is_empty()
            invariant
                whole == UserRights::options(self@, cur@),
                whole == UserRights::options(old(self)@, old(cur)@),
                cur@.left() <= old(cur)@.left(),
                cur@ == old(cur)@ || cur@.left() >= 0,
            decreases cur@.left(),
        {
            self.read_option(cur)?;
        }
        Ok(())
    }
}

impl Node for UserRights {
    open spec fn keyword_text() -> Seq<char> {
        "USER_RIGHTS"@
    }

    open spec fn parsed(tree: Tree) -> std::result::Result<UserRightsView, Failure> {
        match UserRights::head(Cur::start(tree)) {
            Err(f) => Err(f),
            Ok((v, c)) => match UserRights::options(v, c) {
                Err(f) => Err(f),
                Ok((v, _)) => match children_parsed::<UserRightsChild>(children_of(tree.items), 0) {
                    Err(f) => Err(f),
                    Ok(children) => Ok(UserRightsView { children, ..v }),
                },
            },
        }
    }

    open spec fn keeps(&self, tree: Tree) -> bool {
        all_kept(self.children@, tree)
    }

    open spec fn body(v: UserRightsView, p: Page) -> Written {
        let p = if v.read_only { p.line("READ_ONLY"@) } else { p };
        children_written::<UserRightsChild>(v.children, 0, false, p)
    }

    open spec fn block(v: UserRightsView, p: Page) -> Written {
        enclosed("USER_RIGHTS"@, Self::body(v, p.begin("USER_RIGHTS "@ + v.name)))
    }

    fn keyword() -> (r: &'static str) {
        "USER_RIGHTS"
    }

    fn parse(block: &Block) -> (r: Result<Self>) {
        let mut cur = ParamCursor::new(block);
        let mut node = UserRights::read_head(&mut cur)?;
        node.read_options(&mut cur)?;
        node.children = read_children::<UserRightsChild>(block)?;
        Ok(node)
    }

    fn write_body(&self, w: &mut Writer) -> (r: Result<()>) {
        if self.read_only {
            w.line("READ_ONLY");
        }
        write_children(&self.children, false, w)
    }

    fn write_block(&self, w: &mut Writer) -> (r: Result<()>) {
        let mut s = "USER_RIGHTS ".to_string();
        s.append(self.name.as_str());
        w.begin_block(s.as_str());
        self.write_body(w)?;
        w.end_block("USER_RIGHTS");
        Ok(())
    }
}

} // verus!
