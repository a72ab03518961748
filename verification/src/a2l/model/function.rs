//! `FUNCTION`, `GROUP` and `FRAME`, and the references within them.

use crate::a2l::block::{Block, Tree, children_of};
use crate::a2l::error::{Failure, Result};
use crate::a2l::model::annotation::{Annotation, AnnotationView};
use crate::a2l::model::base::{NamedFields, NamedFieldsView, ReferenceFields, ReferenceFieldsView};
use crate::a2l::model::parts::{all_kept, 
    Child, children_parsed, children_written, node_parsed, node_written, parse_node, read_children,
    write_children, write_node,
};
use crate::a2l::model::unsupported::{UnsupportedNode, UnsupportedNodeView};
use crate::a2l::node::{Node, enclosed};
use crate::a2l::params::{Cur, Got, ParamCursor, read_ident, read_int, read_token};
use crate::views::{append, no_text, none_yet, opt, opt_texts, views};
use crate::a2l::writer::{Page, Writer, Written, Stopped};
use crate::text::{dec_int, dec_int_text, eq_ignore_case, same_ignore_case};
use vstd::prelude::*;

verus! {

/// `DEF_CHARACTERISTIC`: names of other objects.
#[derive(Debug, Clone, PartialEq, Eq)]
pub struct DefCharacteristic {
    pub references: ReferenceFields,
}

/// [`DefCharacteristic`] as a mathematical value.
pub struct DefCharacteristicView {
    pub references: ReferenceFieldsView,
}

impl View for DefCharacteristic {
    type V = DefCharacteristicView;

    open spec fn view(&self) -> DefCharacteristicView {
        DefCharacteristicView {
            references: self.references@,
        }
    }
}

impl DefCharacteristic {
    /// The node before anything is read.
    pub open spec fn blank() -> DefCharacteristicView {
        DefCharacteristicView {
            references: ReferenceFields::blank(),
        }
    }
}

impl Default for DefCharacteristic {
    fn default() -> (r: Self)
        ensures
            r@ == DefCharacteristic::blank(),
    {
        DefCharacteristic {
            references: ReferenceFields::default(),
        }
    }
}

impl Node for DefCharacteristic {
    open spec fn keyword_text() -> Seq<char> {
        "DEF_CHARACTERISTIC"@
    }

    open spec fn parsed(tree: Tree) -> std::result::Result<DefCharacteristicView, Failure> {
        Ok(DefCharacteristicView { references: ReferenceFields::rest(ReferenceFields::blank(), Cur::start(tree)) })
    }

    open spec fn body(v: DefCharacteristicView, p: Page) -> Written {
        let p = ReferenceFields::written(v.references, p);
        Ok(p)
    }

    open spec fn block(v: DefCharacteristicView, p: Page) -> Written {
        enclosed("DEF_CHARACTERISTIC"@, Self::body(v, p.begin("DEF_CHARACTERISTIC"@)))
    }

    fn keyword() -> (r: &'static str) {
        "DEF_CHARACTERISTIC"
    }

    fn parse(block: &Block) -> (r: Result<Self>) {
        let mut cur = ParamCursor::new(block);
        let references = ReferenceFields::take_rest(&mut cur);
        Ok(DefCharacteristic { references })
    }

    fn write_body(&self, w: &mut Writer) -> (r: Result<()>) {
        self.references.write(w)?;
        Ok(())
    }

    fn write_block(&self, w: &mut Writer) -> (r: Result<()>) {
        w.begin_block("DEF_CHARACTERISTIC");
        self.write_body(w)?;
        w.end_block("DEF_CHARACTERISTIC");
        Ok(())
    }
}

/// `FUNCTION_LIST`: names of other objects.
#[derive(Debug, Clone, PartialEq, Eq)]
pub struct FunctionList {
    pub references: ReferenceFields,
}

/// [`FunctionList`] as a mathematical value.
pub struct FunctionListView {
    pub references: ReferenceFieldsView,
}

impl View for FunctionList {
    type V = FunctionListView;

    open spec fn view(&self) -> FunctionListView {
        FunctionListView {
            references: self.references@,
        }
    }
}

impl FunctionList {
    /// The node before anything is read.
    pub open spec fn blank() -> FunctionListView {
        FunctionListView {
            references: ReferenceFields::blank(),
        }
    }
}

impl Default for FunctionList {
    fn default() -> (r: Self)
        ensures
            r@ == FunctionList::blank(),
    {
        FunctionList {
            references: ReferenceFields::default(),
        }
    }
}

impl Node for FunctionList {
    open spec fn keyword_text() -> Seq<char> {
        "FUNCTION_LIST"@
    }

    open spec fn parsed(tree: Tree) -> std::result::Result<FunctionListView, Failure> {
        Ok(FunctionListView { references: ReferenceFields::rest(ReferenceFields::blank(), Cur::start(tree)) })
    }

    open spec fn body(v: FunctionListView, p: Page) -> Written {
        let p = ReferenceFields::written(v.references, p);
        Ok(p)
    }

    open spec fn block(v: FunctionListView, p: Page) -> Written {
        enclosed("FUNCTION_LIST"@, Self::body(v, p.begin("FUNCTION_LIST"@)))
    }

    fn keyword() -> (r: &'static str) {
        "FUNCTION_LIST"
    }

    fn parse(block: &Block) -> (r: Result<Self>) {
        let mut cur = ParamCursor::new(block);
        let references = ReferenceFields::take_rest(&mut cur);
        Ok(FunctionList { references })
    }

    fn write_body(&self, w: &mut Writer) -> (r: Result<()>) {
        self.references.write(w)?;
        Ok(())
    }

    fn write_block(&self, w: &mut Writer) -> (r: Result<()>) {
        w.begin_block("FUNCTION_LIST");
        self.write_body(w)?;
        w.end_block("FUNCTION_LIST");
        Ok(())
    }
}

/// `IN_MEASUREMENT`: names of other objects.
#[derive(Debug, Clone, PartialEq, Eq)]
pub struct InMeasurement {
    pub references: ReferenceFields,
}

/// [`InMeasurement`] as a mathematical value.
pub struct InMeasurementView {
    pub references: ReferenceFieldsView,
}

impl View for InMeasurement {
    type V = InMeasurementView;

    open spec fn view(&self) -> InMeasurementView {
        InMeasurementView {
            references: self.references@,
        }
    }
}

impl InMeasurement {
    /// The node before anything is read.
    pub open spec fn blank() -> InMeasurementView {
        InMeasurementView {
            references: ReferenceFields::blank(),
        }
    }
}

impl Default for InMeasurement {
    fn default() -> (r: Self)
        ensures
            r@ == InMeasurement::blank(),
    {
        InMeasurement {
            references: ReferenceFields::default(),
        }
    }
}

impl Node for InMeasurement {
    open spec fn keyword_text() -> Seq<char> {
        "IN_MEASUREMENT"@
    }

    open spec fn parsed(tree: Tree) -> std::result::Result<InMeasurementView, Failure> {
        Ok(InMeasurementView { references: ReferenceFields::rest(ReferenceFields::blank(), Cur::start(tree)) })
    }

    open spec fn body(v: InMeasurementView, p: Page) -> Written {
        let p = ReferenceFields::written(v.references, p);
        Ok(p)
    }

    open spec fn block(v: InMeasurementView, p: Page) -> Written {
        enclosed("IN_MEASUREMENT"@, Self::body(v, p.begin("IN_MEASUREMENT"@)))
    }

    fn keyword() -> (r: &'static str) {
        "IN_MEASUREMENT"
    }

    fn parse(block: &Block) -> (r: Result<Self>) {
        let mut cur = ParamCursor::new(block);
        let references = ReferenceFields::take_rest(&mut cur);
        Ok(InMeasurement { references })
    }

    fn write_body(&self, w: &mut Writer) -> (r: Result<()>) {
        self.references.write(w)?;
        Ok(())
    }

    fn write_block(&self, w: &mut Writer) -> (r: Result<()>) {
        w.begin_block("IN_MEASUREMENT");
        self.write_body(w)?;
        w.end_block("IN_MEASUREMENT");
        Ok(())
    }
}

/// `LOC_MEASUREMENT`: names of other objects.
#[derive(Debug, Clone, PartialEq, Eq)]
pub struct LocMeasurement {
    pub references: ReferenceFields,
}

/// [`LocMeasurement`] as a mathematical value.
pub struct LocMeasurementView {
    pub references: ReferenceFieldsView,
}

impl View for LocMeasurement {
    type V = LocMeasurementView;

    open spec fn view(&self) -> LocMeasurementView {
        LocMeasurementView {
            references: self.references@,
        }
    }
}

impl LocMeasurement {
    /// The node before anything is read.
    pub open spec fn blank() -> LocMeasurementView {
        LocMeasurementView {
            references: ReferenceFields::blank(),
        }
    }
}

impl Default for LocMeasurement {
    fn default() -> (r: Self)
        ensures
            r@ == LocMeasurement::blank(),
    {
        LocMeasurement {
            references: ReferenceFields::default(),
        }
    }
}

impl Node for LocMeasurement {
    open spec fn keyword_text() -> Seq<char> {
        "LOC_MEASUREMENT"@
    }

    open spec fn parsed(tree: Tree) -> std::result::Result<LocMeasurementView, Failure> {
        Ok(LocMeasurementView { references: ReferenceFields::rest(ReferenceFields::blank(), Cur::start(tree)) })
    }

    open spec fn body(v: LocMeasurementView, p: Page) -> Written {
        let p = ReferenceFields::written(v.references, p);
        Ok(p)
    }

    open spec fn block(v: LocMeasurementView, p: Page) -> Written {
        enclosed("LOC_MEASUREMENT"@, Self::body(v, p.begin("LOC_MEASUREMENT"@)))
    }

    fn keyword() -> (r: &'static str) {
        "LOC_MEASUREMENT"
    }

    fn parse(block: &Block) -> (r: Result<Self>) {
        let mut cur = ParamCursor::new(block);
        let references = ReferenceFields::take_rest(&mut cur);
        Ok(LocMeasurement { references })
    }

    fn write_body(&self, w: &mut Writer) -> (r: Result<()>) {
        self.references.write(w)?;
        Ok(())
    }

    fn write_block(&self, w: &mut Writer) -> (r: Result<()>) {
        w.begin_block("LOC_MEASUREMENT");
        self.write_body(w)?;
        w.end_block("LOC_MEASUREMENT");
        Ok(())
    }
}

/// `OUT_MEASUREMENT`: names of other objects.
#[derive(Debug, Clone, PartialEq, Eq)]
pub struct OutMeasurement {
    pub references: ReferenceFields,
}

/// [`OutMeasurement`] as a mathematical value.
pub struct OutMeasurementView {
    pub references: ReferenceFieldsView,
}

impl View for OutMeasurement {
    type V = OutMeasurementView;

    open spec fn view(&self) -> OutMeasurementView {
        OutMeasurementView {
            references: self.references@,
        }
    }
}

impl OutMeasurement {
    /// The node before anything is read.
    pub open spec fn blank() -> OutMeasurementView {
        OutMeasurementView {
            references: ReferenceFields::blank(),
        }
    }
}

impl Default for OutMeasurement {
    fn default() -> (r: Self)
        ensures
            r@ == OutMeasurement::blank(),
    {
        OutMeasurement {
            references: ReferenceFields::default(),
        }
    }
}

impl Node for OutMeasurement {
    open spec fn keyword_text() -> Seq<char> {
        "OUT_MEASUREMENT"@
    }

    open spec fn parsed(tree: Tree) -> std::result::Result<OutMeasurementView, Failure> {
        Ok(OutMeasurementView { references: ReferenceFields::rest(ReferenceFields::blank(), Cur::start(tree)) })
    }

    open spec fn body(v: OutMeasurementView, p: Page) -> Written {
        let p = ReferenceFields::written(v.references, p);
        Ok(p)
    }

    open spec fn block(v: OutMeasurementView, p: Page) -> Written {
        enclosed("OUT_MEASUREMENT"@, Self::body(v, p.begin("OUT_MEASUREMENT"@)))
    }

    fn keyword() -> (r: &'static str) {
        "OUT_MEASUREMENT"
    }

    fn parse(block: &Block) -> (r: Result<Self>) {
        let mut cur = ParamCursor::new(block);
        let references = ReferenceFields::take_rest(&mut cur);
        Ok(OutMeasurement { references })
    }

    fn write_body(&self, w: &mut Writer) -> (r: Result<()>) {
        self.references.write(w)?;
        Ok(())
    }

    fn write_block(&self, w: &mut Writer) -> (r: Result<()>) {
        w.begin_block("OUT_MEASUREMENT");
        self.write_body(w)?;
        w.end_block("OUT_MEASUREMENT");
        Ok(())
    }
}

/// `REF_CHARACTERISTIC`: names of other objects.
#[derive(Debug, Clone, PartialEq, Eq)]
pub struct RefCharacteristic {
    pub references: ReferenceFields,
}

/// [`RefCharacteristic`] as a mathematical value.
pub struct RefCharacteristicView {
    pub references: ReferenceFieldsView,
}

impl View for RefCharacteristic {
    type V = RefCharacteristicView;

    open spec fn view(&self) -> RefCharacteristicView {
        RefCharacteristicView {
            references: self.references@,
        }
    }
}

impl RefCharacteristic {
    /// The node before anything is read.
    pub open spec fn blank() -> RefCharacteristicView {
        RefCharacteristicView {
            references: ReferenceFields::blank(),
        }
    }
}

impl Default for RefCharacteristic {
    fn default() -> (r: Self)
        ensures
            r@ == RefCharacteristic::blank(),
    {
        RefCharacteristic {
            references: ReferenceFields::default(),
        }
    }
}

impl Node for RefCharacteristic {
    open spec fn keyword_text() -> Seq<char> {
        "REF_CHARACTERISTIC"@
    }

    open spec fn parsed(tree: Tree) -> std::result::Result<RefCharacteristicView, Failure> {
        Ok(RefCharacteristicView { references: ReferenceFields::rest(ReferenceFields::blank(), Cur::start(tree)) })
    }

    open spec fn body(v: RefCharacteristicView, p: Page) -> Written {
        let p = ReferenceFields::written(v.references, p);
        Ok(p)
    }

    open spec fn block(v: RefCharacteristicView, p: Page) -> Written {
        enclosed("REF_CHARACTERISTIC"@, Self::body(v, p.begin("REF_CHARACTERISTIC"@)))
    }

    fn keyword() -> (r: &'static str) {
        "REF_CHARACTERISTIC"
    }

    fn parse(block: &Block) -> (r: Result<Self>) {
        let mut cur = ParamCursor::new(block);
        let references = ReferenceFields::take_rest(&mut cur);
        Ok(RefCharacteristic { references })
    }

    fn write_body(&self, w: &mut Writer) -> (r: Result<()>) {
        self.references.write(w)?;
        Ok(())
    }

    fn write_block(&self, w: &mut Writer) -> (r: Result<()>) {
        w.begin_block("REF_CHARACTERISTIC");
        self.write_body(w)?;
        w.end_block("REF_CHARACTERISTIC");
        Ok(())
    }
}

/// `REF_GROUP`: names of other objects.
#[derive(Debug, Clone, PartialEq, Eq)]
pub struct RefGroup {
    pub references: ReferenceFields,
}

/// [`RefGroup`] as a mathematical value.
pub struct RefGroupView {
    pub references: ReferenceFieldsView,
}

impl View for RefGroup {
    type V = RefGroupView;

    open spec fn view(&self) -> RefGroupView {
        RefGroupView {
            references: self.references@,
        }
    }
}

impl RefGroup {
    /// The node before anything is read.
    pub open spec fn blank() -> RefGroupView {
        RefGroupView {
            references: ReferenceFields::blank(),
        }
    }
}

impl Default for RefGroup {
    fn default() -> (r: Self)
        ensures
            r@ == RefGroup::blank(),
    {
        RefGroup {
            references: ReferenceFields::default(),
        }
    }
}

impl Node for RefGroup {
    open spec fn keyword_text() -> Seq<char> {
        "REF_GROUP"@
    }

    open spec fn parsed(tree: Tree) -> std::result::Result<RefGroupView, Failure> {
        Ok(RefGroupView { references: ReferenceFields::rest(ReferenceFields::blank(), Cur::start(tree)) })
    }

    open spec fn body(v: RefGroupView, p: Page) -> Written {
        let p = ReferenceFields::written(v.references, p);
        Ok(p)
    }

    open spec fn block(v: RefGroupView, p: Page) -> Written {
        enclosed("REF_GROUP"@, Self::body(v, p.begin("REF_GROUP"@)))
    }

    fn keyword() -> (r: &'static str) {
        "REF_GROUP"
    }

    fn parse(block: &Block) -> (r: Result<Self>) {
        let mut cur = ParamCursor::new(block);
        let references = ReferenceFields::take_rest(&mut cur);
        Ok(RefGroup { references })
    }

    fn write_body(&self, w: &mut Writer) -> (r: Result<()>) {
        self.references.write(w)?;
        Ok(())
    }

    fn write_block(&self, w: &mut Writer) -> (r: Result<()>) {
        w.begin_block("REF_GROUP");
        self.write_body(w)?;
        w.end_block("REF_GROUP");
        Ok(())
    }
}

/// `REF_MEASUREMENT`: names of other objects.
#[derive(Debug, Clone, PartialEq, Eq)]
pub struct RefMeasurement {
    pub references: ReferenceFields,
}

/// [`RefMeasurement`] as a mathematical value.
pub struct RefMeasurementView {
    pub references: ReferenceFieldsView,
}

impl View for RefMeasurement {
    type V = RefMeasurementView;

    open spec fn view(&self) -> RefMeasurementView {
        RefMeasurementView {
            references: self.references@,
        }
    }
}

impl RefMeasurement {
    /// The node before anything is read.
    pub open spec fn blank() -> RefMeasurementView {
        RefMeasurementView {
            references: ReferenceFields::blank(),
        }
    }
}

impl Default for RefMeasurement {
    fn default() -> (r: Self)
        ensures
            r@ == RefMeasurement::blank(),
    {
        RefMeasurement {
            references: ReferenceFields::default(),
        }
    }
}

impl Node for RefMeasurement {
    open spec fn keyword_text() -> Seq<char> {
        "REF_MEASUREMENT"@
    }

    open spec fn parsed(tree: Tree) -> std::result::Result<RefMeasurementView, Failure> {
        Ok(RefMeasurementView { references: ReferenceFields::rest(ReferenceFields::blank(), Cur::start(tree)) })
    }

    open spec fn body(v: RefMeasurementView, p: Page) -> Written {
        let p = ReferenceFields::written(v.references, p);
        Ok(p)
    }

    open spec fn block(v: RefMeasurementView, p: Page) -> Written {
        enclosed("REF_MEASUREMENT"@, Self::body(v, p.begin("REF_MEASUREMENT"@)))
    }

    fn keyword() -> (r: &'static str) {
        "REF_MEASUREMENT"
    }

    fn parse(block: &Block) -> (r: Result<Self>) {
        let mut cur = ParamCursor::new(block);
        let references = ReferenceFields::take_rest(&mut cur);
        Ok(RefMeasurement { references })
    }

    fn write_body(&self, w: &mut Writer) -> (r: Result<()>) {
        self.references.write(w)?;
        Ok(())
    }

    fn write_block(&self, w: &mut Writer) -> (r: Result<()>) {
        w.begin_block("REF_MEASUREMENT");
        self.write_body(w)?;
        w.end_block("REF_MEASUREMENT");
        Ok(())
    }
}

/// `SUB_FUNCTION`: names of other objects.
#[derive(Debug, Clone, PartialEq, Eq)]
pub struct SubFunction {
    pub references: ReferenceFields,
}

/// [`SubFunction`] as a mathematical value.
pub struct SubFunctionView {
    pub references: ReferenceFieldsView,
}

impl View for SubFunction {
    type V = SubFunctionView;

    open spec fn view(&self) -> SubFunctionView {
        SubFunctionView {
            references: self.references@,
        }
    }
}

impl SubFunction {
    /// The node before anything is read.
    pub open spec fn blank() -> SubFunctionView {
        SubFunctionView {
            references: ReferenceFields::blank(),
        }
    }
}

impl Default for SubFunction {
    fn default() -> (r: Self)
        ensures
            r@ == SubFunction::blank(),
    {
        SubFunction {
            references: ReferenceFields::default(),
        }
    }
}

impl Node for SubFunction {
    open spec fn keyword_text() -> Seq<char> {
        "SUB_FUNCTION"@
    }

    open spec fn parsed(tree: Tree) -> std::result::Result<SubFunctionView, Failure> {
        Ok(SubFunctionView { references: ReferenceFields::rest(ReferenceFields::blank(), Cur::start(tree)) })
    }

    open spec fn body(v: SubFunctionView, p: Page) -> Written {
        let p = ReferenceFields::written(v.references, p);
        Ok(p)
    }

    open spec fn block(v: SubFunctionView, p: Page) -> Written {
        enclosed("SUB_FUNCTION"@, Self::body(v, p.begin("SUB_FUNCTION"@)))
    }

    fn keyword() -> (r: &'static str) {
        "SUB_FUNCTION"
    }

    fn parse(block: &Block) -> (r: Result<Self>) {
        let mut cur = ParamCursor::new(block);
        let references = ReferenceFields::take_rest(&mut cur);
        Ok(SubFunction { references })
    }

    fn write_body(&self, w: &mut Writer) -> (r: Result<()>) {
        self.references.write(w)?;
        Ok(())
    }

    fn write_block(&self, w: &mut Writer) -> (r: Result<()>) {
        w.begin_block("SUB_FUNCTION");
        self.write_body(w)?;
        w.end_block("SUB_FUNCTION");
        Ok(())
    }
}

/// `SUB_GROUP`: names of other objects.
#[derive(Debug, Clone, PartialEq, Eq)]
pub struct SubGroup {
    pub references: ReferenceFields,
}

/// [`SubGroup`] as a mathematical value.
pub struct SubGroupView {
    pub references: ReferenceFieldsView,
}

impl View for SubGroup {
    type V = SubGroupView;

    open spec fn view(&self) -> SubGroupView {
        SubGroupView {
            references: self.references@,
        }
    }
}

impl SubGroup {
    /// The node before anything is read.
    pub open spec fn blank() -> SubGroupView {
        SubGroupView {
            references: ReferenceFields::blank(),
        }
    }
}

impl Default for SubGroup {
    fn default() -> (r: Self)
        ensures
            r@ == SubGroup::blank(),
    {
        SubGroup {
            references: ReferenceFields::default(),
        }
    }
}

impl Node for SubGroup {
    open spec fn keyword_text() -> Seq<char> {
        "SUB_GROUP"@
    }

    open spec fn parsed(tree: Tree) -> std::result::Result<SubGroupView, Failure> {
        Ok(SubGroupView { references: ReferenceFields::rest(ReferenceFields::blank(), Cur::start(tree)) })
    }

    open spec fn body(v: SubGroupView, p: Page) -> Written {
        let p = ReferenceFields::written(v.references, p);
        Ok(p)
    }

    open spec fn block(v: SubGroupView, p: Page) -> Written {
        enclosed("SUB_GROUP"@, Self::body(v, p.begin("SUB_GROUP"@)))
    }

    fn keyword() -> (r: &'static str) {
        "SUB_GROUP"
    }

    fn parse(block: &Block) -> (r: Result<Self>) {
        let mut cur = ParamCursor::new(block);
        let references = ReferenceFields::take_rest(&mut cur);
        Ok(SubGroup { references })
    }

    fn write_body(&self, w: &mut Writer) -> (r: Result<()>) {
        self.references.write(w)?;
        Ok(())
    }

    fn write_block(&self, w: &mut Writer) -> (r: Result<()>) {
        w.begin_block("SUB_GROUP");
        self.write_body(w)?;
        w.end_block("SUB_GROUP");
        Ok(())
    }
}

/// `VIRTUAL`: names of other objects.
#[derive(Debug, Clone, PartialEq, Eq)]
pub struct Virtual {
    pub references: ReferenceFields,
}

/// [`Virtual`] as a mathematical value.
pub struct VirtualView {
    pub references: ReferenceFieldsView,
}

impl View for Virtual {
    type V = VirtualView;

    open spec fn view(&self) -> VirtualView {
        VirtualView {
            references: self.references@,
        }
    }
}

impl Virtual {
    /// The node before anything is read.
    pub open spec fn blank() -> VirtualView {
        VirtualView {
            references: ReferenceFields::blank(),
        }
    }
}

impl Default for Virtual {
    fn default() -> (r: Self)
        ensures
            r@ == Virtual::blank(),
    {
        Virtual {
            references: ReferenceFields::default(),
        }
    }
}

impl Node for Virtual {
    open spec fn keyword_text() -> Seq<char> {
        "VIRTUAL"@
    }

    open spec fn parsed(tree: Tree) -> std::result::Result<VirtualView, Failure> {
        Ok(VirtualView { references: ReferenceFields::rest(ReferenceFields::blank(), Cur::start(tree)) })
    }

    open spec fn body(v: VirtualView, p: Page) -> Written {
        let p = ReferenceFields::written(v.references, p);
        Ok(p)
    }

    open spec fn block(v: VirtualView, p: Page) -> Written {
        enclosed("VIRTUAL"@, Self::body(v, p.begin("VIRTUAL"@)))
    }

    fn keyword() -> (r: &'static str) {
        "VIRTUAL"
    }

    fn parse(block: &Block) -> (r: Result<Self>) {
        let mut cur = ParamCursor::new(block);
        let references = ReferenceFields::take_rest(&mut cur);
        Ok(Virtual { references })
    }

    fn write_body(&self, w: &mut Writer) -> (r: Result<()>) {
        self.references.write(w)?;
        Ok(())
    }

    fn write_block(&self, w: &mut Writer) -> (r: Result<()>) {
        w.begin_block("VIRTUAL");
        self.write_body(w)?;
        w.end_block("VIRTUAL");
        Ok(())
    }
}

/// `DEPENDENT_CHARACTERISTIC`: a formula over other objects.
#[derive(Debug, Clone, PartialEq, Eq)]
pub struct DependentCharacteristic {
    pub formula: String,
    pub references: ReferenceFields,
}

/// [`DependentCharacteristic`] as a mathematical value.
pub struct DependentCharacteristicView {
    pub formula: Seq<char>,
    pub references: ReferenceFieldsView,
}

impl View for DependentCharacteristic {
    type V = DependentCharacteristicView;

    open spec fn view(&self) -> DependentCharacteristicView {
        DependentCharacteristicView {
            formula: self.formula@,
            references: self.references@,
        }
    }
}

impl DependentCharacteristic {
    /// The node before anything is read.
    pub open spec fn blank() -> DependentCharacteristicView {
        DependentCharacteristicView {
            formula: Seq::empty(),
            references: ReferenceFields::blank(),
        }
    }
}

impl Default for DependentCharacteristic {
    fn default() -> (r: Self)
        ensures
            r@ == DependentCharacteristic::blank(),
    {
        DependentCharacteristic {
            formula: no_text(),
            references: ReferenceFields::default(),
        }
    }
}

impl Node for DependentCharacteristic {
    open spec fn keyword_text() -> Seq<char> {
        "DEPENDENT_CHARACTERISTIC"@
    }

    open spec fn parsed(tree: Tree) -> std::result::Result<DependentCharacteristicView, Failure> {
        match read_ident(Cur::start(tree)) {
            Err(f) => Err(f),
            Ok((formula, c)) => Ok(
                DependentCharacteristicView {
                    formula,
                    references: ReferenceFields::rest(ReferenceFields::blank(), c)
                },
            ),
        }
    }

    open spec fn body(v: DependentCharacteristicView, p: Page) -> Written {
        let p = p.line("\""@ + v.formula + "\""@);
        let p = ReferenceFields::written(v.references, p);
        Ok(p)
    }

    open spec fn block(v: DependentCharacteristicView, p: Page) -> Written {
        enclosed("DEPENDENT_CHARACTERISTIC"@, Self::body(v, p.begin("DEPENDENT_CHARACTERISTIC"@)))
    }

    fn keyword() -> (r: &'static str) {
        "DEPENDENT_CHARACTERISTIC"
    }

    fn parse(block: &Block) -> (r: Result<Self>) {
        let mut cur = ParamCursor::new(block);
        let formula = cur.ident()?;
        let references = ReferenceFields::take_rest(&mut cur);
        Ok(DependentCharacteristic { formula, references })
    }

    fn write_body(&self, w: &mut Writer) -> (r: Result<()>) {
        {
            let mut s = "\"".to_string();
            s.append(self.formula.as_str());
            s.append("\"");
            w.line(s.as_str());
        }
        self.references.write(w)?;
        Ok(())
    }

    fn write_block(&self, w: &mut Writer) -> (r: Result<()>) {
        w.begin_block("DEPENDENT_CHARACTERISTIC");
        self.write_body(w)?;
        w.end_block("DEPENDENT_CHARACTERISTIC");
        Ok(())
    }
}

/// `VIRTUAL_CHARACTERISTIC`: a formula over other objects.
#[derive(Debug, Clone, PartialEq, Eq)]
pub struct VirtualCharacteristic {
    pub formula: String,
    pub references: ReferenceFields,
}

/// [`VirtualCharacteristic`] as a mathematical value.
pub struct VirtualCharacteristicView {
    pub formula: Seq<char>,
    pub references: ReferenceFieldsView,
}

impl View for VirtualCharacteristic {
    type V = VirtualCharacteristicView;

    open spec fn view(&self) -> VirtualCharacteristicView {
        VirtualCharacteristicView {
            formula: self.formula@,
            references: self.references@,
        }
    }
}

impl VirtualCharacteristic {
    /// The node before anything is read.
    pub open spec fn blank() -> VirtualCharacteristicView {
        VirtualCharacteristicView {
            formula: Seq::empty(),
            references: ReferenceFields::blank(),
        }
    }
}

impl Default for VirtualCharacteristic {
    fn default() -> (r: Self)
        ensures
            r@ == VirtualCharacteristic::blank(),
    {
        VirtualCharacteristic {
            formula: no_text(),
            references: ReferenceFields::default(),
        }
    }
}

impl Node for VirtualCharacteristic {
    open spec fn keyword_text() -> Seq<char> {
        "VIRTUAL_CHARACTERISTIC"@
    }

    open spec fn parsed(tree: Tree) -> std::result::Result<VirtualCharacteristicView, Failure> {
        match read_ident(Cur::start(tree)) {
            Err(f) => Err(f),
            Ok((formula, c)) => Ok(
                VirtualCharacteristicView {
                    formula,
                    references: ReferenceFields::rest(ReferenceFields::blank(), c)
                },
            ),
        }
    }

    open spec fn body(v: VirtualCharacteristicView, p: Page) -> Written {
        let p = p.line("\""@ + v.formula + "\""@);
        let p = ReferenceFields::written(v.references, p);
        Ok(p)
    }

    open spec fn block(v: VirtualCharacteristicView, p: Page) -> Written {
        enclosed("VIRTUAL_CHARACTERISTIC"@, Self::body(v, p.begin("VIRTUAL_CHARACTERISTIC"@)))
    }

    fn keyword() -> (r: &'static str) {
        "VIRTUAL_CHARACTERISTIC"
    }

    fn parse(block: &Block) -> (r: Result<Self>) {
        let mut cur = ParamCursor::new(block);
        let formula = cur.ident()?;
        let references = ReferenceFields::take_rest(&mut cur);
        Ok(VirtualCharacteristic { formula, references })
    }

    fn write_body(&self, w: &mut Writer) -> (r: Result<()>) {
        {
            let mut s = "\"".to_string();
            s.append(self.formula.as_str());
            s.append("\"");
            w.line(s.as_str());
        }
        self.references.write(w)?;
        Ok(())
    }

    fn write_block(&self, w: &mut Writer) -> (r: Result<()>) {
        w.begin_block("VIRTUAL_CHARACTERISTIC");
        self.write_body(w)?;
        w.end_block("VIRTUAL_CHARACTERISTIC");
        Ok(())
    }
}

/// A block within the node.
#[derive(Debug, Clone, PartialEq, Eq)]
pub enum FunctionChild {
    /// `/begin ANNOTATION`.
    Annotation(Annotation),
    /// `/begin DEF_CHARACTERISTIC`.
    DefCharacteristic(DefCharacteristic),
    /// `/begin REF_CHARACTERISTIC`.
    RefCharacteristic(RefCharacteristic),
    /// `/begin IN_MEASUREMENT`.
    InMeasurement(InMeasurement),
    /// `/begin LOC_MEASUREMENT`.
    LocMeasurement(LocMeasurement),
    /// `/begin OUT_MEASUREMENT`.
    OutMeasurement(OutMeasurement),
    /// `/begin VIRTUAL_CHARACTERISTIC`.
    VirtualCharacteristic(VirtualCharacteristic),
    /// `/begin SUB_FUNCTION`.
    SubFunction(SubFunction),
    Unsupported(UnsupportedNode),
}

/// [`FunctionChild`] as a mathematical value.
pub enum FunctionChildView {
    Annotation(AnnotationView),
    DefCharacteristic(DefCharacteristicView),
    RefCharacteristic(RefCharacteristicView),
    InMeasurement(InMeasurementView),
    LocMeasurement(LocMeasurementView),
    OutMeasurement(OutMeasurementView),
    VirtualCharacteristic(VirtualCharacteristicView),
    SubFunction(SubFunctionView),
    Unsupported(UnsupportedNodeView),
}

impl View for FunctionChild {
    type V = FunctionChildView;

    open spec fn view(&self) -> FunctionChildView {
        match self {
            FunctionChild::Annotation(n) => FunctionChildView::Annotation(n@),
            FunctionChild::DefCharacteristic(n) => FunctionChildView::DefCharacteristic(n@),
            FunctionChild::RefCharacteristic(n) => FunctionChildView::RefCharacteristic(n@),
            FunctionChild::InMeasurement(n) => FunctionChildView::InMeasurement(n@),
            FunctionChild::LocMeasurement(n) => FunctionChildView::LocMeasurement(n@),
            FunctionChild::OutMeasurement(n) => FunctionChildView::OutMeasurement(n@),
            FunctionChild::VirtualCharacteristic(n) => FunctionChildView::VirtualCharacteristic(n@),
            FunctionChild::SubFunction(n) => FunctionChildView::SubFunction(n@),
            FunctionChild::Unsupported(n) => FunctionChildView::Unsupported(n@),
        }
    }
}

impl Child for FunctionChild {
    open spec fn parsed(tree: Tree) -> std::result::Result<FunctionChildView, Failure> {
        if same_ignore_case(tree.keyword, "ANNOTATION"@) {
            match node_parsed::<Annotation>(tree) {
                Ok(n) => Ok(FunctionChildView::Annotation(n)),
                Err(f) => Err(f),
            }
        } else if same_ignore_case(tree.keyword, "DEF_CHARACTERISTIC"@) {
            match node_parsed::<DefCharacteristic>(tree) {
                Ok(n) => Ok(FunctionChildView::DefCharacteristic(n)),
                Err(f) => Err(f),
            }
        } else if same_ignore_case(tree.keyword, "REF_CHARACTERISTIC"@) {
            match node_parsed::<RefCharacteristic>(tree) {
                Ok(n) => Ok(FunctionChildView::RefCharacteristic(n)),
                Err(f) => Err(f),
            }
        } else if same_ignore_case(tree.keyword, "IN_MEASUREMENT"@) {
            match node_parsed::<InMeasurement>(tree) {
                Ok(n) => Ok(FunctionChildView::InMeasurement(n)),
                Err(f) => Err(f),
            }
        } else if same_ignore_case(tree.keyword, "LOC_MEASUREMENT"@) {
            match node_parsed::<LocMeasurement>(tree) {
                Ok(n) => Ok(FunctionChildView::LocMeasurement(n)),
                Err(f) => Err(f),
            }
        } else if same_ignore_case(tree.keyword, "OUT_MEASUREMENT"@) {
            match node_parsed::<OutMeasurement>(tree) {
                Ok(n) => Ok(FunctionChildView::OutMeasurement(n)),
                Err(f) => Err(f),
            }
        } else if same_ignore_case(tree.keyword, "VIRTUAL_CHARACTERISTIC"@) {
            match node_parsed::<VirtualCharacteristic>(tree) {
                Ok(n) => Ok(FunctionChildView::VirtualCharacteristic(n)),
                Err(f) => Err(f),
            }
        } else if same_ignore_case(tree.keyword, "SUB_FUNCTION"@) {
            match node_parsed::<SubFunction>(tree) {
                Ok(n) => Ok(FunctionChildView::SubFunction(n)),
                Err(f) => Err(f),
            }
        } else {
            Ok(FunctionChildView::Unsupported(UnsupportedNode::of(tree)))
        }
    }

    open spec fn kept(&self, tree: Tree) -> bool {
        match self {
            FunctionChild::Annotation(n) => n.keeps(tree),
            FunctionChild::DefCharacteristic(n) => n.keeps(tree),
            FunctionChild::RefCharacteristic(n) => n.keeps(tree),
            FunctionChild::InMeasurement(n) => n.keeps(tree),
            FunctionChild::LocMeasurement(n) => n.keeps(tree),
            FunctionChild::OutMeasurement(n) => n.keeps(tree),
            FunctionChild::VirtualCharacteristic(n) => n.keeps(tree),
            FunctionChild::SubFunction(n) => n.keeps(tree),
            FunctionChild::Unsupported(n) => n.kept(tree),
        }
    }

    open spec fn written(v: FunctionChildView, p: Page) -> Written {
        match v {
            FunctionChildView::Annotation(n) => node_written::<Annotation>(n, p),
            FunctionChildView::DefCharacteristic(n) => node_written::<DefCharacteristic>(n, p),
            FunctionChildView::RefCharacteristic(n) => node_written::<RefCharacteristic>(n, p),
            FunctionChildView::InMeasurement(n) => node_written::<InMeasurement>(n, p),
            FunctionChildView::LocMeasurement(n) => node_written::<LocMeasurement>(n, p),
            FunctionChildView::OutMeasurement(n) => node_written::<OutMeasurement>(n, p),
            FunctionChildView::VirtualCharacteristic(n) => node_written::<VirtualCharacteristic>(n, p),
            FunctionChildView::SubFunction(n) => node_written::<SubFunction>(n, p),
            FunctionChildView::Unsupported(n) => UnsupportedNode::written(n, p),
        }
    }

    fn read(block: &Block) -> (r: Result<Self>) {
        if eq_ignore_case(block.keyword.as_str(), "ANNOTATION") {
            return Ok(FunctionChild::Annotation(parse_node::<Annotation>(block)?));
        }
        if eq_ignore_case(block.keyword.as_str(), "DEF_CHARACTERISTIC") {
            return Ok(FunctionChild::DefCharacteristic(parse_node::<DefCharacteristic>(block)?));
        }
        if eq_ignore_case(block.keyword.as_str(), "REF_CHARACTERISTIC") {
            return Ok(FunctionChild::RefCharacteristic(parse_node::<RefCharacteristic>(block)?));
        }
        if eq_ignore_case(block.keyword.as_str(), "IN_MEASUREMENT") {
            return Ok(FunctionChild::InMeasurement(parse_node::<InMeasurement>(block)?));
        }
        if eq_ignore_case(block.keyword.as_str(), "LOC_MEASUREMENT") {
            return Ok(FunctionChild::LocMeasurement(parse_node::<LocMeasurement>(block)?));
        }
        if eq_ignore_case(block.keyword.as_str(), "OUT_MEASUREMENT") {
            return Ok(FunctionChild::OutMeasurement(parse_node::<OutMeasurement>(block)?));
        }
        if eq_ignore_case(block.keyword.as_str(), "VIRTUAL_CHARACTERISTIC") {
            return Ok(FunctionChild::VirtualCharacteristic(parse_node::<VirtualCharacteristic>(block)?));
        }
        if eq_ignore_case(block.keyword.as_str(), "SUB_FUNCTION") {
            return Ok(FunctionChild::SubFunction(parse_node::<SubFunction>(block)?));
        }
        Ok(FunctionChild::Unsupported(UnsupportedNode::from_block(block)))
    }

    fn write(&self, w: &mut Writer) -> (r: Result<()>) {
        self.write_block(w)
    }
}

impl FunctionChild {
    pub fn write_block(&self, w: &mut Writer) -> (r: Result<()>)
        ensures
            match r {
                Ok(()) => FunctionChild::written(self@, old(w)@) == Ok::<Page, Stopped>(final(w)@),
                Err(e) => FunctionChild::written(self@, old(w)@) == Err::<Page, Stopped>(final(w)@.stopped(e@)),
            },
    {
        match self {
            FunctionChild::Annotation(n) => write_node(n, w),
            FunctionChild::DefCharacteristic(n) => write_node(n, w),
            FunctionChild::RefCharacteristic(n) => write_node(n, w),
            FunctionChild::InMeasurement(n) => write_node(n, w),
            FunctionChild::LocMeasurement(n) => write_node(n, w),
            FunctionChild::OutMeasurement(n) => write_node(n, w),
            FunctionChild::VirtualCharacteristic(n) => write_node(n, w),
            FunctionChild::SubFunction(n) => write_node(n, w),
            FunctionChild::Unsupported(n) => n.write_block(w),
        }
    }
}

/// `FUNCTION`: a function of the software.
#[derive(Debug, Clone, PartialEq, Eq)]
pub struct Function {
    pub named: NamedFields,
    pub version: Option<String>,
    pub children: Vec<FunctionChild>,
}

/// [`Function`] as a mathematical value.
pub struct FunctionView {
    pub named: NamedFieldsView,
    pub version: Option<Seq<char>>,
    pub children: Seq<FunctionChildView>,
}

impl View for Function {
    type V = FunctionView;

    open spec fn view(&self) -> FunctionView {
        FunctionView {
            named: self.named@,
            version: opt(self.version),
            children: views(self.children@),
        }
    }
}

impl Function {
    /// The node before anything is read.
    pub open spec fn blank() -> FunctionView {
        FunctionView {
            named: NamedFields::blank(),
            version: None,
            children: Seq::empty(),
        }
    }
}

impl Default for Function {
    fn default() -> (r: Self)
        ensures
            r@ == Function::blank(),
    {
        Function {
            named: NamedFields::default(),
            version: None,
            children: none_yet(),
        }
    }
}

impl Function {
    /// What the parameters at the start say, and where the next ones start.
    pub open spec fn head(c: Cur) -> Got<FunctionView> {
        let v = Function::blank();
        match NamedFields::head(c) {
            Err(f) => Err(f),
            Ok((named, c0)) => {
                Ok((FunctionView { named, ..v }, c0))
            },
        }
    }

    fn read_head(cur: &mut ParamCursor) -> (r: Result<Self>)
        ensures
            match r {
                Ok(v) => Function::head(old(cur)@) == Ok::<_, Failure>((v@, final(cur)@)),
                Err(e) => Function::head(old(cur)@) == Err::<(FunctionView, Cur), _>(e@),
            },
    {
        let named = NamedFields::read_header(cur)?;
        let mut node = Function::default();
        node.named = named;
        Ok(node)
    }
}

impl Function {
    /// What the parameters at the cursor set, and where the next ones start.
    pub open spec fn option(v: FunctionView, c: Cur) -> Got<FunctionView> {
        if c.at("FUNCTION_VERSION"@) {
            match read_ident(c.step()) {
                Err(f) => Err(f),
                Ok((x, c0)) => {
                    Ok((FunctionView { version: Some(x), ..v }, c0))
                },
            }
        } else {
            match read_token(c) {
                Err(f) => Err(f),
                Ok((_t, c0)) => {
                    Ok((v, c0))
                },
            }
        }
    }

    /// What all the parameters from the cursor on set, and where reading them ends.
    pub open spec fn options(v: FunctionView, c: Cur) -> Got<FunctionView>
        decreases c.left(),
    {
        if !c.more() {
            Ok((v, c))
        } else {
            match Function::option(v, c) {
                Err(f) => Err(f),
                Ok((w, n)) => if 0 <= n.left() < c.left() {
                    Function::options(w, n)
                } else {
                    arbitrary()
                },
            }
        }
    }

    fn read_option(&mut self, cur: &mut ParamCursor) -> (r: Result<()>)
        requires
            old(cur)@.more(),
        ensures
            match r {
                Ok(()) => {
                    &&& Function::option(old(self)@, old(cur)@) == Ok::<_, Failure>(
                        (final(self)@, final(cur)@),
                    )
                    &&& 0 <= final(cur)@.left() < old(cur)@.left()
                },
                Err(e) => Function::option(old(self)@, old(cur)@) == Err::<(FunctionView, Cur), _>(e@),
            },
    {
        if cur.take_if("FUNCTION_VERSION") {
            let x = cur.ident()?;
            self.version = Some(x);
            return Ok(());
        }
        let _t = cur.next_token()?;
        Ok(())
    }

    fn read_options(&mut self, cur: &mut ParamCursor) -> (r: Result<()>)
        ensures
            match r {
                Ok(()) => {
                    &&& Function::options(old(self)@, old(cur)@) == Ok::<_, Failure>(
                        (final(self)@, final(cur)@),
                    )
                    &&& final(cur)@.left() <= old(cur)@.left()
                    &&& final(cur)@ == old(cur)@ || final(cur)@.left() >= 0
                },
                Err(e) => Function::options(old(self)@, old(cur)@) == Err::<(FunctionView, Cur), _>(e@),
            },
    {
        let ghost whole = Function::options(self@, cur@);
        while !cur.is_empty()
            invariant
                whole == Function::options(self@, cur@),
                whole == Function::options(old(self)@, old(cur)@),
                cur@.left() <= old(cur)@.left(),
                cur@ == old(cur)@ || cur@.left() >= 0,
            decreases cur@.left(),
        {
            self.read_option(cur)?;
        }
        Ok(())
    }
}

impl Node for Function {
    open spec fn keyword_text() -> Seq<char> {
        "FUNCTION"@
    }

    open spec fn parsed(tree: Tree) -> std::result::Result<FunctionView, Failure> {
        match Function::head(Cur::start(tree)) {
            Err(f) => Err(f),
            Ok((v, c)) => match Function::options(v, c) {
                Err(f) => Err(f),
                Ok((v, _)) => match children_parsed::<FunctionChild>(children_of(tree.items), 0) {
                    Err(f) => Err(f),
                    Ok(children) => Ok(FunctionView { children, ..v }),
                },
            },
        }
    }

    open spec fn keeps(&self, tree: Tree) -> bool {
        all_kept(self.children@, tree)
    }

    open spec fn body(v: FunctionView, p: Page) -> Written {
        let p = NamedFields::written(v.named, p);
        let p = match v.version { Some(x) if x.len() > 0 => p.line("FUNCTION_VERSION \""@ + x + "\""@), _ => p };
        children_written::<FunctionChild>(v.children, 0, false, p)
    }

    open spec fn block(v: FunctionView, p: Page) -> Written {
        enclosed("FUNCTION"@, Self::body(v, p.begin("FUNCTION "@ + v.named.name)))
    }

    fn keyword() -> (r: &'static str) {
        "FUNCTION"
    }

    fn parse(block: &Block) -> (r: Result<Self>) {
        let mut cur = ParamCursor::new(block);
        let mut node = Function::read_head(&mut cur)?;
        node.read_options(&mut cur)?;
        node.children = read_children::<FunctionChild>(block)?;
        Ok(node)
    }

    fn write_body(&self, w: &mut Writer) -> (r: Result<()>) {
        self.named.write(w)?;
        if let Some(x) = &self.version {
            if x.as_str().unicode_len() > 0 {
                let mut s = "FUNCTION_VERSION \"".to_string();
                s.append(x.as_str());
                s.append("\"");
                w.line(s.as_str());
            }
        }
        write_children(&self.children, false, w)
    }

    fn write_block(&self, w: &mut Writer) -> (r: Result<()>) {
        let mut s = "FUNCTION ".to_string();
        s.append(self.named.name.as_str());
        w.begin_block(s.as_str());
        self.write_body(w)?;
        w.end_block("FUNCTION");
        Ok(())
    }
}

/// A block within the node.
#[derive(Debug, Clone, PartialEq, Eq)]
pub enum GroupChild {
    /// `/begin ANNOTATION`.
    Annotation(Annotation),
    /// `/begin REF_MEASUREMENT`.
    RefMeasurement(RefMeasurement),
    /// `/begin REF_CHARACTERISTIC`.
    RefCharacteristic(RefCharacteristic),
    /// `/begin FUNCTION_LIST`.
    FunctionList(FunctionList),
    /// `/begin SUB_GROUP`.
    SubGroup(SubGroup),
    Unsupported(UnsupportedNode),
}

/// [`GroupChild`] as a mathematical value.
pub enum GroupChildView {
    Annotation(AnnotationView),
    RefMeasurement(RefMeasurementView),
    RefCharacteristic(RefCharacteristicView),
    FunctionList(FunctionListView),
    SubGroup(SubGroupView),
    Unsupported(UnsupportedNodeView),
}

impl View for GroupChild {
    type V = GroupChildView;

    open spec fn view(&self) -> GroupChildView {
        match self {
            GroupChild::Annotation(n) => GroupChildView::Annotation(n@),
            GroupChild::RefMeasurement(n) => GroupChildView::RefMeasurement(n@),
            GroupChild::RefCharacteristic(n) => GroupChildView::RefCharacteristic(n@),
            GroupChild::FunctionList(n) => GroupChildView::FunctionList(n@),
            GroupChild::SubGroup(n) => GroupChildView::SubGroup(n@),
            GroupChild::Unsupported(n) => GroupChildView::Unsupported(n@),
        }
    }
}

impl Child for GroupChild {
    open spec fn parsed(tree: Tree) -> std::result::Result<GroupChildView, Failure> {
        if same_ignore_case(tree.keyword, "ANNOTATION"@) {
            match node_parsed::<Annotation>(tree) {
                Ok(n) => Ok(GroupChildView::Annotation(n)),
                Err(f) => Err(f),
            }
        } else if same_ignore_case(tree.keyword, "REF_MEASUREMENT"@) {
            match node_parsed::<RefMeasurement>(tree) {
                Ok(n) => Ok(GroupChildView::RefMeasurement(n)),
                Err(f) => Err(f),
            }
        } else if same_ignore_case(tree.keyword, "REF_CHARACTERISTIC"@) {
            match node_parsed::<RefCharacteristic>(tree) {
                Ok(n) => Ok(GroupChildView::RefCharacteristic(n)),
                Err(f) => Err(f),
            }
        } else if same_ignore_case(tree.keyword, "FUNCTION_LIST"@) {
            match node_parsed::<FunctionList>(tree) {
                Ok(n) => Ok(GroupChildView::FunctionList(n)),
                Err(f) => Err(f),
            }
        } else if same_ignore_case(tree.keyword, "SUB_GROUP"@) {
            match node_parsed::<SubGroup>(tree) {
                Ok(n) => Ok(GroupChildView::SubGroup(n)),
                Err(f) => Err(f),
            }
        } else {
            Ok(GroupChildView::Unsupported(UnsupportedNode::of(tree)))
        }
    }

    open spec fn kept(&self, tree: Tree) -> bool {
        match self {
            GroupChild::Annotation(n) => n.keeps(tree),
            GroupChild::RefMeasurement(n) => n.keeps(tree),
            GroupChild::RefCharacteristic(n) => n.keeps(tree),
            GroupChild::FunctionList(n) => n.keeps(tree),
            GroupChild::SubGroup(n) => n.keeps(tree),
            GroupChild::Unsupported(n) => n.kept(tree),
        }
    }

    open spec fn written(v: GroupChildView, p: Page) -> Written {
        match v {
            GroupChildView::Annotation(n) => node_written::<Annotation>(n, p),
            GroupChildView::RefMeasurement(n) => node_written::<RefMeasurement>(n, p),
            GroupChildView::RefCharacteristic(n) => node_written::<RefCharacteristic>(n, p),
            GroupChildView::FunctionList(n) => node_written::<FunctionList>(n, p),
            GroupChildView::SubGroup(n) => node_written::<SubGroup>(n, p),
            GroupChildView::Unsupported(n) => UnsupportedNode::written(n, p),
        }
    }

    fn read(block: &Block) -> (r: Result<Self>) {
        if eq_ignore_case(block.keyword.as_str(), "ANNOTATION") {
            return Ok(GroupChild::Annotation(parse_node::<Annotation>(block)?));
        }
        if eq_ignore_case(block.keyword.as_str(), "REF_MEASUREMENT") {
            return Ok(GroupChild::RefMeasurement(parse_node::<RefMeasurement>(block)?));
        }
        if eq_ignore_case(block.keyword.as_str(), "REF_CHARACTERISTIC") {
            return Ok(GroupChild::RefCharacteristic(parse_node::<RefCharacteristic>(block)?));
        }
        if eq_ignore_case(block.keyword.as_str(), "FUNCTION_LIST") {
            return Ok(GroupChild::FunctionList(parse_node::<FunctionList>(block)?));
        }
        if eq_ignore_case(block.keyword.as_str(), "SUB_GROUP") {
            return Ok(GroupChild::SubGroup(parse_node::<SubGroup>(block)?));
        }
        Ok(GroupChild::Unsupported(UnsupportedNode::from_block(block)))
    }

    fn write(&self, w: &mut Writer) -> (r: Result<()>) {
        self.write_block(w)
    }
}

impl GroupChild {
    pub fn write_block(&self, w: &mut Writer) -> (r: Result<()>)
        ensures
            match r {
                Ok(()) => GroupChild::written(self@, old(w)@) == Ok::<Page, Stopped>(final(w)@),
                Err(e) => GroupChild::written(self@, old(w)@) == Err::<Page, Stopped>(final(w)@.stopped(e@)),
            },
    {
        match self {
            GroupChild::Annotation(n) => write_node(n, w),
            GroupChild::RefMeasurement(n) => write_node(n, w),
            GroupChild::RefCharacteristic(n) => write_node(n, w),
            GroupChild::FunctionList(n) => write_node(n, w),
            GroupChild::SubGroup(n) => write_node(n, w),
            GroupChild::Unsupported(n) => n.write_block(w),
        }
    }
}

/// `GROUP`: a group of objects.
#[derive(Debug, Clone, PartialEq, Eq)]
pub struct Group {
    pub named: NamedFields,
    pub root: bool,
    pub children: Vec<GroupChild>,
}

/// [`Group`] as a mathematical value.
pub struct GroupView {
    pub named: NamedFieldsView,
    pub root: bool,
    pub children: Seq<GroupChildView>,
}

impl View for Group {
    type V = GroupView;

    open spec fn view(&self) -> GroupView {
        GroupView {
            named: self.named@,
            root: self.root,
            children: views(self.children@),
        }
    }
}

impl Group {
    /// The node before anything is read.
    pub open spec fn blank() -> GroupView {
        GroupView {
            named: NamedFields::blank(),
            root: false,
            children: Seq::empty(),
        }
    }
}

impl Default for Group {
    fn default() -> (r: Self)
        ensures
            r@ == Group::blank(),
    {
        Group {
            named: NamedFields::default(),
            root: false,
            children: none_yet(),
        }
    }
}

impl Group {
    /// What the parameters at the start say, and where the next ones start.
    pub open spec fn head(c: Cur) -> Got<GroupView> {
        let v = Group::blank();
        match NamedFields::head(c) {
            Err(f) => Err(f),
            Ok((named, c0)) => {
                Ok((GroupView { named, ..v }, c0))
            },
        }
    }

    fn read_head(cur: &mut ParamCursor) -> (r: Result<Self>)
        ensures
            match r {
                Ok(v) => Group::head(old(cur)@) == Ok::<_, Failure>((v@, final(cur)@)),
                Err(e) => Group::head(old(cur)@) == Err::<(GroupView, Cur), _>(e@),
            },
    {
        let named = NamedFields::read_header(cur)?;
        let mut node = Group::default();
        node.named = named;
        Ok(node)
    }
}

impl Group {
    /// What the parameters at the cursor set, and where the next ones start.
    pub open spec fn option(v: GroupView, c: Cur) -> Got<GroupView> {
        if c.at("ROOT"@) {
            Ok((GroupView { root: true, ..v }, c.step()))
        } else {
            match read_token(c) {
                Err(f) => Err(f),
                Ok((_t, c0)) => {
                    Ok((v, c0))
                },
            }
        }
    }

    /// What all the parameters from the cursor on set, and where reading them ends.
    pub open spec fn options(v: GroupView, c: Cur) -> Got<GroupView>
        decreases c.left(),
    {
        if !c.more() {
            Ok((v, c))
        } else {
            match Group::option(v, c) {
                Err(f) => Err(f),
                Ok((w, n)) => if 0 <= n.left() < c.left() {
                    Group::options(w, n)
                } else {
                    arbitrary()
                },
            }
        }
    }

    fn read_option(&mut self, cur: &mut ParamCursor) -> (r: Result<()>)
        requires
            old(cur)@.more(),
        ensures
            match r {
                Ok(()) => {
                    &&& Group::option(old(self)@, old(cur)@) == Ok::<_, Failure>(
                        (final(self)@, final(cur)@),
                    )
                    &&& 0 <= final(cur)@.left() < old(cur)@.left()
                },
                Err(e) => Group::option(old(self)@, old(cur)@) == Err::<(GroupView, Cur), _>(e@),
            },
    {
        if cur.take_if("ROOT") {
            self.root = true;
            return Ok(());
        }
        let _t = cur.next_token()?;
        Ok(())
    }

    fn read_options(&mut self, cur: &mut ParamCursor) -> (r: Result<()>)
        ensures
            match r {
                Ok(()) => {
                    &&& Group::options(old(self)@, old(cur)@) == Ok::<_, Failure>(
                        (final(self)@, final(cur)@),
                    )
                    &&& final(cur)@.left() <= old(cur)@.left()
                    &&& final(cur)@ == old(cur)@ || final(cur)@.left() >= 0
                },
                Err(e) => Group::options(old(self)@, old(cur)@) == Err::<(GroupView, Cur), _>(e@),
            },
    {
        let ghost whole = Group::options(self@, cur@);
        while !cur.is_empty()
            invariant
                whole == Group::options(self@, cur@),
                whole == Group::options(old(self)@, old(cur)@),
                cur@.left() <= old(cur)@.left(),
                cur@ == old(cur)@ || cur@.left() >= 0,
            decreases cur@.left(),
        {
            self.read_option(cur)?;
        }
        Ok(())
    }
}

impl Node for Group {
    open spec fn keyword_text() -> Seq<char> {
        "GROUP"@
    }

    open spec fn parsed(tree: Tree) -> std::result::Result<GroupView, Failure> {
        match Group::head(Cur::start(tree)) {
            Err(f) => Err(f),
            Ok((v, c)) => match Group::options(v, c) {
                Err(f) => Err(f),
                Ok((v, _)) => match children_parsed::<GroupChild>(children_of(tree.items), 0) {
                    Err(f) => Err(f),
                    Ok(children) => Ok(GroupView { children, ..v }),
                },
            },
        }
    }

    open spec fn keeps(&self, tree: Tree) -> bool {
        all_kept(self.children@, tree)
    }

    open spec fn body(v: GroupView, p: Page) -> Written {
        let p = NamedFields::written(v.named, p);
        let p = if v.root { p.line("ROOT"@) } else { p };
        children_written::<GroupChild>(v.children, 0, false, p)
    }

    open spec fn block(v: GroupView, p: Page) -> Written {
        enclosed("GROUP"@, Self::body(v, p.begin("GROUP "@ + v.named.name)))
    }

    fn keyword() -> (r: &'static str) {
        "GROUP"
    }

    fn parse(block: &Block) -> (r: Result<Self>) {
        let mut cur = ParamCursor::new(block);
        let mut node = Group::read_head(&mut cur)?;
        node.read_options(&mut cur)?;
        node.children = read_children::<GroupChild>(block)?;
        Ok(node)
    }

    fn write_body(&self, w: &mut Writer) -> (r: Result<()>) {
        self.named.write(w)?;
        if self.root {
            w.line("ROOT");
        }
        write_children(&self.children, false, w)
    }

    fn write_block(&self, w: &mut Writer) -> (r: Result<()>) {
        let mut s = "GROUP ".to_string();
        s.append(self.named.name.as_str());
        w.begin_block(s.as_str());
        self.write_body(w)?;
        w.end_block("GROUP");
        Ok(())
    }
}

/// What is written for the first measurements of a frame: each in its own line, the first one
/// behind the tag.
pub open spec fn frame_lines(refs: Seq<Seq<char>>, n: int, p: Page) -> Page
    decreases n,
{
    if n <= 0 {
        p
    } else if n == 1 {
        p.word("FRAME_MEASUREMENT"@, refs[0])
    } else {
        frame_lines(refs, n - 1, p).line(refs[n - 1])
    }
}

fn write_frame_measurements(refs: &Vec<String>, w: &mut Writer)
    ensures
        final(w)@ == frame_lines(views(refs@), refs@.len() as int, old(w)@),
{
    let mut i: usize = 0;
    while i < refs.len()
        invariant
            i <= refs@.len(),
            w@ == frame_lines(views(refs@), i as int, old(w)@),
        decreases refs@.len() - i,
    {
        if i == 0 {
            w.word("FRAME_MEASUREMENT", refs[i].as_str());
        } else {
            w.line(refs[i].as_str());
        }
        i += 1;
    }
}

/// The names of all parameters that are left.
pub open spec fn read_rest(c: Cur) -> Got<Seq<Seq<char>>> {
    Ok(
        (
            ReferenceFields::rest(ReferenceFields::blank(), c).references,
            c.behind(),
        ),
    )
}

fn rest(cur: &mut ParamCursor) -> (r: Vec<String>)
    requires
        old(cur)@.left() >= 0,
    ensures
        read_rest(old(cur)@) == Ok::<_, Failure>((views(r@), final(cur)@)),
        0 <= final(cur)@.left() <= old(cur)@.left(),
{
    ReferenceFields::take_rest(cur).references
}

/// `FRAME`: measurements that come together.
#[derive(Debug, Clone, PartialEq, Eq)]
pub struct Frame {
    pub named: NamedFields,
    pub scaling_unit: i32,
    pub rate: i64,
    pub frame_measurements: Option<Vec<String>>,
    pub children: Vec<UnsupportedNode>,
}

/// [`Frame`] as a mathematical value.
pub struct FrameView {
    pub named: NamedFieldsView,
    pub scaling_unit: i32,
    pub rate: i64,
    pub frame_measurements: Option<Seq<Seq<char>>>,
    pub children: Seq<UnsupportedNodeView>,
}

impl View for Frame {
    type V = FrameView;

    open spec fn view(&self) -> FrameView {
        FrameView {
            named: self.named@,
            scaling_unit: self.scaling_unit,
            rate: self.rate,
            frame_measurements: opt_texts(self.frame_measurements),
            children: views(self.children@),
        }
    }
}

impl Frame {
    /// The node before anything is read.
    pub open spec fn blank() -> FrameView {
        FrameView {
            named: NamedFields::blank(),
            scaling_unit: 0,
            rate: 0,
            frame_measurements: None,
            children: Seq::empty(),
        }
    }
}

impl Default for Frame {
    fn default() -> (r: Self)
        ensures
            r@ == Frame::blank(),
    {
        Frame {
            named: NamedFields::default(),
            scaling_unit: 0,
            rate: 0,
            frame_measurements: None,
            children: none_yet(),
        }
    }
}

impl Frame {
    /// What the parameters at the start say, and where the next ones start.
    pub open spec fn head(c: Cur) -> Got<FrameView> {
        let v = Frame::blank();
        match NamedFields::head(c) {
            Err(f) => Err(f),
            Ok((named, c0)) => {
                match read_int(c0, i32::MIN as int, i32::MAX as int) {
                    Err(f) => Err(f),
                    Ok((scaling_unit, c1)) => {
                        match read_int(c1, i64::MIN as int, i64::MAX as int) {
                            Err(f) => Err(f),
                            Ok((rate, c2)) => {
                                Ok(
                                    (
                                        FrameView {
                                            named,
                                            scaling_unit: (scaling_unit as i32),
                                            rate: (rate as i64),
                                            ..v
                                        },
                                        c2
                                    )
                                )
                            },
                        }
                    },
                }
            },
        }
    }

    fn read_head(cur: &mut ParamCursor) -> (r: Result<Self>)
        ensures
            match r {
                Ok(v) => Frame::head(old(cur)@) == Ok::<_, Failure>((v@, final(cur)@)),
                Err(e) => Frame::head(old(cur)@) == Err::<(FrameView, Cur), _>(e@),
            },
    {
        let named = NamedFields::read_header(cur)?;
        let scaling_unit = cur.sint::<i32>()?;
        let rate = cur.sint::<i64>()?;
        let mut node = Frame::default();
        node.named = named;
        node.scaling_unit = scaling_unit;
        node.rate = rate;
        Ok(node)
    }
}

impl Frame {
    /// What the parameters at the cursor set, and where the next ones start.
    pub open spec fn option(v: FrameView, c: Cur) -> Got<FrameView> {
        if c.at("FRAME_MEASUREMENT"@) {
            match read_rest(c.step()) {
                Err(f) => Err(f),
                Ok((x, c0)) => {
                    Ok((FrameView { frame_measurements: Some(x), ..v }, c0))
                },
            }
        } else {
            match read_token(c) {
                Err(f) => Err(f),
                Ok((_t, c0)) => {
                    Ok((v, c0))
                },
            }
        }
    }

    /// What all the parameters from the cursor on set, and where reading them ends.
    pub open spec fn options(v: FrameView, c: Cur) -> Got<FrameView>
        decreases c.left(),
    {
        if !c.more() {
            Ok((v, c))
        } else {
            match Frame::option(v, c) {
                Err(f) => Err(f),
                Ok((w, n)) => if 0 <= n.left() < c.left() {
                    Frame::options(w, n)
                } else {
                    arbitrary()
                },
            }
        }
    }

    fn read_option(&mut self, cur: &mut ParamCursor) -> (r: Result<()>)
        requires
            old(cur)@.more(),
        ensures
            match r {
                Ok(()) => {
                    &&& Frame::option(old(self)@, old(cur)@) == Ok::<_, Failure>(
                        (final(self)@, final(cur)@),
                    )
                    &&& 0 <= final(cur)@.left() < old(cur)@.left()
                },
                Err(e) => Frame::option(old(self)@, old(cur)@) == Err::<(FrameView, Cur), _>(e@),
            },
    {
        if cur.take_if("FRAME_MEASUREMENT") {
            let x = rest(cur);
            self.frame_measurements = Some(x);
            return Ok(());
        }
        let _t = cur.next_token()?;
        Ok(())
    }

    fn read_options(&mut self, cur: &mut ParamCursor) -> (r: Result<()>)
        ensures
            match r {
                Ok(()) => {
                    &&& Frame::options(old(self)@, old(cur)@) == Ok::<_, Failure>(
                        (final(self)@, final(cur)@),
                    )
                    &&& final(cur)@.left() <= old(cur)@.left()
                    &&& final(cur)@ == old(cur)@ || final(cur)@.left() >= 0
                },
                Err(e) => Frame::options(old(self)@, old(cur)@) == Err::<(FrameView, Cur), _>(e@),
            },
    {
        let ghost whole = Frame::options(self@, cur@);
        while !cur.is_empty()
            invariant
                whole == Frame::options(self@, cur@),
                whole == Frame::options(old(self)@, old(cur)@),
                cur@.left() <= old(cur)@.left(),
                cur@ == old(cur)@ || cur@.left() >= 0,
            decreases cur@.left(),
        {
            self.read_option(cur)?;
        }
        Ok(())
    }
}

impl Node for Frame {
    open spec fn keyword_text() -> Seq<char> {
        "FRAME"@
    }

    open spec fn parsed(tree: Tree) -> std::result::Result<FrameView, Failure> {
        match Frame::head(Cur::start(tree)) {
            Err(f) => Err(f),
            Ok((v, c)) => match Frame::options(v, c) {
                Err(f) => Err(f),
                Ok((v, _)) => match children_parsed::<UnsupportedNode>(children_of(tree.items), 0) {
                    Err(f) => Err(f),
                    Ok(children) => Ok(FrameView { children, ..v }),
                },
            },
        }
    }

    open spec fn keeps(&self, tree: Tree) -> bool {
        all_kept(self.children@, tree)
    }

    open spec fn body(v: FrameView, p: Page) -> Written {
        let p = NamedFields::written(v.named, p);
        let p = p.line(dec_int(v.scaling_unit as int));
        let p = p.line(dec_int(v.rate as int));
        let p = match v.frame_measurements { Some(refs) => frame_lines(refs, refs.len() as int, p), None => p };
        children_written::<UnsupportedNode>(v.children, 0, false, p)
    }

    open spec fn block(v: FrameView, p: Page) -> Written {
        enclosed("FRAME"@, Self::body(v, p.begin("FRAME "@ + v.named.name)))
    }

    fn keyword() -> (r: &'static str) {
        "FRAME"
    }

    fn parse(block: &Block) -> (r: Result<Self>) {
        let mut cur = ParamCursor::new(block);
        let mut node = Frame::read_head(&mut cur)?;
        node.read_options(&mut cur)?;
        node.children = read_children::<UnsupportedNode>(block)?;
        Ok(node)
    }

    fn write_body(&self, w: &mut Writer) -> (r: Result<()>) {
        self.named.write(w)?;
        w.line(dec_int_text(self.scaling_unit as i64).as_str());
        w.line(dec_int_text(self.rate as i64).as_str());
        if let Some(refs) = &self.frame_measurements {
            write_frame_measurements(refs, w);
        }
        write_children(&self.children, false, w)
    }

    fn write_block(&self, w: &mut Writer) -> (r: Result<()>) {
        let mut s = "FRAME ".to_string();
        s.append(self.named.name.as_str());
        w.begin_block(s.as_str());
        self.write_body(w)?;
        w.end_block("FRAME");
        Ok(())
    }
}

} // verus!
