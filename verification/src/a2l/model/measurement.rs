//! A2L measurement, axis description, blob, and instance model nodes.
//! Parsing keeps child order and unsupported blocks intact, while writing emits
//! canonical parameter values and preserves optional metadata required for
//! reliable read/write round trips.

use crate::a2l::block::{Block, Tree, children_of};
use crate::a2l::error::{Failure, Result};
use crate::a2l::model::annotation::{Annotation, AnnotationView};
use crate::a2l::model::base::{
    AddressFields, AddressFieldsView, ByteOrder, ConversionRefFields, ConversionRefFieldsView,
    NamedFields, NamedFieldsView,
};
use crate::a2l::model::enums::{
    A2lKeyword, AddrType, AxisType, DataType, DepositType, IndexMode, MonotonyType,
};
use crate::a2l::model::parts::{all_kept, 
    Child, children_parsed, children_written, dims_text, enum_value, float_pair, hex_form,
    keyword_or, listed, matrix_dim, node_parsed, node_written, parse_node, read_children,
    read_dims, read_enum, read_pair, to_hex, word_or, write_children, write_node,
};
use crate::a2l::model::unsupported::{UnsupportedNode, UnsupportedNodeView};
use crate::a2l::node::{Node, enclosed};
use crate::a2l::number::{Num, Number, num_zero};
use crate::a2l::params::{
    Cur, Got, ParamCursor, read_float, read_ident, read_int, read_string, read_token, read_uint,
};
use crate::a2l::writer::{Page, Writer, Written, quote, Stopped};
use crate::text::{dec_int, dec_int_text, eq_ignore_case, same_ignore_case};
use crate::views::{append, no_text, none_yet, opt, opt_pair, views};
use vstd::prelude::*;

verus! {

/// `MEASUREMENT`: a value that is measured.
#[derive(Debug, Clone, PartialEq, Eq)]
pub struct Measurement {
    pub named: NamedFields,
    pub data_type: DataType,
    pub conv: ConversionRefFields,
    pub resolution: i32,
    pub accuracy: Number,
    pub addr: AddressFields,
    pub layout: IndexMode,
    pub bit_mask: Option<u64>,
    pub error_mask: Option<u64>,
    pub discrete: bool,
    pub read_write: bool,
    pub matrix_dim: Option<Vec<i32>>,
    pub addr_type: AddrType,
    pub children: Vec<MeasurementChild>,
}

/// [`Measurement`] as a mathematical value.
pub struct MeasurementView {
    pub named: NamedFieldsView,
    pub data_type: DataType,
    pub conv: ConversionRefFieldsView,
    pub resolution: i32,
    pub accuracy: Num,
    pub addr: AddressFieldsView,
    pub layout: IndexMode,
    pub bit_mask: Option<u64>,
    pub error_mask: Option<u64>,
    pub discrete: bool,
    pub read_write: bool,
    pub matrix_dim: Option<Seq<i32>>,
    pub addr_type: AddrType,
    pub children: Seq<MeasurementChildView>,
}

impl View for Measurement {
    type V = MeasurementView;

    open spec fn view(&self) -> MeasurementView {
        MeasurementView {
            named: self.named@,
            data_type: self.data_type,
            conv: self.conv@,
            resolution: self.resolution,
            accuracy: self.accuracy@,
            addr: self.addr@,
            layout: self.layout,
            bit_mask: self.bit_mask,
            error_mask: self.error_mask,
            discrete: self.discrete,
            read_write: self.read_write,
            matrix_dim: opt(self.matrix_dim),
            addr_type: self.addr_type,
            children: views(self.children@),
        }
    }
}

impl Measurement {
    /// The node before anything is read.
    pub open spec fn blank() -> MeasurementView {
        MeasurementView {
            named: NamedFields::blank(),
            data_type: DataType::blank(),
            conv: ConversionRefFields::blank(),
            resolution: 1,
            accuracy: num_zero(),
            addr: AddressFields::blank(),
            layout: IndexMode::blank(),
            bit_mask: None,
            error_mask: None,
            discrete: false,
            read_write: false,
            matrix_dim: None,
            addr_type: AddrType::DIRECT,
            children: Seq::empty(),
        }
    }
}

impl Default for Measurement {
    fn default() -> (r: Self)
        ensures
            r@ == Measurement::blank(),
    {
        Measurement {
            named: NamedFields::default(),
            data_type: DataType::default(),
            conv: ConversionRefFields::default(),
            resolution: 1,
            accuracy: Number::default(),
            addr: AddressFields::default(),
            layout: IndexMode::default(),
            bit_mask: None,
            error_mask: None,
            discrete: false,
            read_write: false,
            matrix_dim: None,
            addr_type: AddrType::DIRECT,
            children: none_yet(),
        }
    }
}

/// A block within the node.
#[derive(Debug, Clone, PartialEq, Eq)]
pub enum MeasurementChild {
    /// `/begin ANNOTATION`.
    Annotation(Annotation),
    Unsupported(UnsupportedNode),
}

/// [`MeasurementChild`] as a mathematical value.
pub enum MeasurementChildView {
    Annotation(AnnotationView),
    Unsupported(UnsupportedNodeView),
}

impl View for MeasurementChild {
    type V = MeasurementChildView;

    open spec fn view(&self) -> MeasurementChildView {
        match self {
            MeasurementChild::Annotation(n) => MeasurementChildView::Annotation(n@),
            MeasurementChild::Unsupported(n) => MeasurementChildView::Unsupported(n@),
        }
    }
}

impl Child for MeasurementChild {
    open spec fn parsed(tree: Tree) -> std::result::Result<MeasurementChildView, Failure> {
        if same_ignore_case(tree.keyword, "ANNOTATION"@) {
            match node_parsed::<Annotation>(tree) {
                Ok(n) => Ok(MeasurementChildView::Annotation(n)),
                Err(f) => Err(f),
            }
        } else {
            Ok(MeasurementChildView::Unsupported(UnsupportedNode::of(tree)))
        }
    }

    open spec fn kept(&self, tree: Tree) -> bool {
        match self {
            MeasurementChild::Annotation(n) => n.keeps(tree),
            MeasurementChild::Unsupported(n) => n.kept(tree),
        }
    }

    open spec fn written(v: MeasurementChildView, p: Page) -> Written {
        match v {
            MeasurementChildView::Annotation(n) => node_written::<Annotation>(n, p),
            MeasurementChildView::Unsupported(n) => UnsupportedNode::written(n, p),
        }
    }

    fn read(block: &Block) -> (r: Result<Self>) {
        if eq_ignore_case(block.keyword.as_str(), "ANNOTATION") {
            return Ok(MeasurementChild::Annotation(parse_node::<Annotation>(block)?));
        }
        Ok(MeasurementChild::Unsupported(UnsupportedNode::from_block(block)))
    }

    fn write(&self, w: &mut Writer) -> (r: Result<()>) {
        self.write_block(w)
    }
}

impl MeasurementChild {
    pub fn write_block(&self, w: &mut Writer) -> (r: Result<()>)
        ensures
            match r {
                Ok(()) => MeasurementChild::written(self@, old(w)@) == Ok::<Page, Stopped>(final(w)@),
                Err(e) => MeasurementChild::written(self@, old(w)@) == Err::<Page, Stopped>(final(w)@.stopped(e@)),
            },
    {
        match self {
            MeasurementChild::Annotation(n) => write_node(n, w),
            MeasurementChild::Unsupported(n) => n.write_block(w),
        }
    }
}

impl Measurement {
    /// What the parameters at the start say, and where the next ones start.
    pub open spec fn head(c: Cur) -> Got<MeasurementView> {
        let v = Measurement::blank();
        match NamedFields::head(c) {
            Err(f) => Err(f),
            Ok((named, c0)) => {
                match read_enum::<DataType>(c0, "MEASUREMENT: unknown enum keyword "@) {
                    Err(f) => Err(f),
                    Ok((data_type, c1)) => {
                        match read_ident(c1) {
                            Err(f) => Err(f),
                            Ok((conversion, c2)) => {
                                match read_int(c2, i32::MIN as int, i32::MAX as int) {
                                    Err(f) => Err(f),
                                    Ok((resolution, c3)) => {
                                        match read_float(c3) {
                                            Err(f) => Err(f),
                                            Ok((accuracy, c4)) => {
                                                match read_float(c4) {
                                                    Err(f) => Err(f),
                                                    Ok((lower_limit, c5)) => {
                                                        match read_float(c5) {
                                                            Err(f) => Err(f),
                                                            Ok((upper_limit, c6)) => {
                                                                Ok(
                                                                    (
                                                                        MeasurementView {
                                                                            named,
                                                                            data_type,
                                                                            resolution: (resolution as i32),
                                                                            accuracy,
                                                                            conv: ConversionRefFieldsView {
                                                                                conversion,
                                                                                lower_limit,
                                                                                upper_limit,
                                                                                ..v.conv
                                                                            },
                                                                            ..v
                                                                        },
                                                                        c6
                                                                    )
                                                                )
                                                            },
                                                        }
                                                    },
                                                }
                                            },
                                        }
                                    },
                                }
                            },
                        }
                    },
                }
            },
        }
    }

    fn read_head(cur: &mut ParamCursor) -> (r: Result<Self>)
        ensures
            match r {
                Ok(v) => Measurement::head(old(cur)@) == Ok::<_, Failure>((v@, final(cur)@)),
                Err(e) => Measurement::head(old(cur)@) == Err::<(MeasurementView, Cur), _>(e@),
            },
    {
        let named = NamedFields::read_header(cur)?;
        let data_type = enum_value::<DataType>(cur, "MEASUREMENT: unknown enum keyword ")?;
        let conversion = cur.ident()?;
        let resolution = cur.sint::<i32>()?;
        let accuracy = cur.float()?;
        let lower_limit = cur.float()?;
        let upper_limit = cur.float()?;
        let mut node = Measurement::default();
        node.named = named;
        node.data_type = data_type;
        node.resolution = resolution;
        node.accuracy = accuracy;
        node.conv.conversion = conversion;
        node.conv.lower_limit = lower_limit;
        node.conv.upper_limit = upper_limit;
        Ok(node)
    }
}

/// A measurement while it is read, with the size of its array.
#[derive(Debug, Clone, PartialEq, Eq)]
pub struct MeasurementParts {
    pub node: Measurement,
    pub array_size: i32,
}

/// [`MeasurementParts`] as a mathematical value.
pub struct MeasurementPartsView {
    pub node: MeasurementView,
    pub array_size: i32,
}

impl View for MeasurementParts {
    type V = MeasurementPartsView;

    open spec fn view(&self) -> MeasurementPartsView {
        MeasurementPartsView {
            node: self.node@,
            array_size: self.array_size,
        }
    }
}

impl MeasurementParts {
    /// What the parameters at the cursor set, and where the next ones start.
    pub open spec fn option(v: MeasurementPartsView, c: Cur) -> Got<MeasurementPartsView> {
        if c.at("ECU_ADDRESS"@) {
            match read_uint(c.step(), u32::MAX as int) {
                Err(f) => Err(f),
                Ok((x, c0)) => {
                    Ok(
                        (
                            MeasurementPartsView {
                                node: MeasurementView {
                                    addr: AddressFieldsView {
                                        address: Some((x as u32)),
                                        ..v.node.addr
                                    },
                                    ..v.node
                                },
                                ..v
                            },
                            c0
                        )
                    )
                },
            }
        } else if c.at("LAYOUT"@) {
            match read_enum::<IndexMode>(c.step(), "MEASUREMENT: unknown enum keyword "@) {
                Err(f) => Err(f),
                Ok((x, c0)) => {
                    Ok((MeasurementPartsView { node: MeasurementView { layout: x, ..v.node }, ..v }, c0))
                },
            }
        } else if c.at("BIT_MASK"@) {
            match read_uint(c.step(), u64::MAX as int) {
                Err(f) => Err(f),
                Ok((x, c0)) => {
                    Ok(
                        (
                            MeasurementPartsView {
                                node: MeasurementView {
                                    bit_mask: if (x as u64) == u64::MAX { None } else { Some((x as u64)) },
                                    ..v.node
                                },
                                ..v
                            },
                            c0
                        )
                    )
                },
            }
        } else if c.at("ERROR_MASK"@) {
            match read_uint(c.step(), u64::MAX as int) {
                Err(f) => Err(f),
                Ok((x, c0)) => {
                    Ok(
                        (
                            MeasurementPartsView {
                                node: MeasurementView {
                                    error_mask: if (x as u64) == 0 { None } else { Some((x as u64)) },
                                    ..v.node
                                },
                                ..v
                            },
                            c0
                        )
                    )
                },
            }
        } else if c.at("DISCRETE"@) {
            Ok((MeasurementPartsView { node: MeasurementView { discrete: true, ..v.node }, ..v }, c.step()))
        } else if c.at("READ_WRITE"@) {
            Ok((MeasurementPartsView { node: MeasurementView { read_write: true, ..v.node }, ..v }, c.step()))
        } else if c.at("ARRAY_SIZE"@) {
            match read_int(c.step(), i32::MIN as int, i32::MAX as int) {
                Err(f) => Err(f),
                Ok((x, c0)) => {
                    Ok((MeasurementPartsView { array_size: (x as i32), ..v }, c0))
                },
            }
        } else if c.at("MATRIX_DIM"@) {
            match read_dims(c.step()) {
                Err(f) => Err(f),
                Ok((x, c0)) => {
                    Ok((MeasurementPartsView { node: MeasurementView { matrix_dim: Some(x), ..v.node }, ..v }, c0))
                },
            }
        } else if c.at("ADDRESS_TYPE"@) {
            match read_enum::<AddrType>(c.step(), "MEASUREMENT: unknown enum keyword "@) {
                Err(f) => Err(f),
                Ok((x, c0)) => {
                    Ok((MeasurementPartsView { node: MeasurementView { addr_type: x, ..v.node }, ..v }, c0))
                },
            }
        } else {
            match AddressFields::taken(v.node.addr, c) {
                Err(f) => Err(f),
                Ok(Some((part, n))) => Ok(
                    (
                        MeasurementPartsView {
                            node: MeasurementView { addr: part, ..v.node },
                            ..v
                        },
                        n
                    )
                ),
                Ok(None) => {
                    match ConversionRefFields::taken(v.node.conv, c) {
                        Err(f) => Err(f),
                        Ok(Some((part, n))) => Ok(
                            (
                                MeasurementPartsView {
                                    node: MeasurementView { conv: part, ..v.node },
                                    ..v
                                },
                                n
                            )
                        ),
                        Ok(None) => {
                            match read_token(c) {
                                Err(f) => Err(f),
                                Ok((_t, c0)) => {
                                    Ok((v, c0))
                                },
                            }
                        },
                    }
                },
            }
        }
    }

    /// What all the parameters from the cursor on set, and where reading them ends.
    pub open spec fn options(v: MeasurementPartsView, c: Cur) -> Got<MeasurementPartsView>
        decreases c.left(),
    {
        if !c.more() {
            Ok((v, c))
        } else {
            match MeasurementParts::option(v, c) {
                Err(f) => Err(f),
                Ok((w, n)) => if 0 <= n.left() < c.left() {
                    MeasurementParts::options(w, n)
                } else {
                    arbitrary()
                },
            }
        }
    }

    fn read_option(&mut self, cur: &mut ParamCursor) -> (r: Result<()>)
        requires
            old(cur)@.more(),
        ensures
            match r {
                Ok(()) => {
                    &&& MeasurementParts::option(old(self)@, old(cur)@) == Ok::<_, Failure>(
                        (final(self)@, final(cur)@),
                    )
                    &&& 0 <= final(cur)@.left() < old(cur)@.left()
                },
                Err(e) => MeasurementParts::option(old(self)@, old(cur)@) == Err::<(MeasurementPartsView, Cur), _>(e@),
            },
    {
        if cur.take_if("ECU_ADDRESS") {
            let x = cur.uint::<u32>()?;
            self.node.addr.address = Some(x);
            return Ok(());
        }
        if cur.take_if("LAYOUT") {
            let x = enum_value::<IndexMode>(cur, "MEASUREMENT: unknown enum keyword ")?;
            self.node.layout = x;
            return Ok(());
        }
        if cur.take_if("BIT_MASK") {
            let x = cur.uint::<u64>()?;
            self.node.bit_mask = if x == u64::MAX { None } else { Some(x) };
            return Ok(());
        }
        if cur.take_if("ERROR_MASK") {
            let x = cur.uint::<u64>()?;
            self.node.error_mask = if x == 0 { None } else { Some(x) };
            return Ok(());
        }
        if cur.take_if("DISCRETE") {
            self.node.discrete = true;
            return Ok(());
        }
        if cur.take_if("READ_WRITE") {
            self.node.read_write = true;
            return Ok(());
        }
        if cur.take_if("ARRAY_SIZE") {
            let x = cur.sint::<i32>()?;
            self.array_size = x;
            return Ok(());
        }
        if cur.take_if("MATRIX_DIM") {
            let x = matrix_dim(cur);
            self.node.matrix_dim = Some(x);
            return Ok(());
        }
        if cur.take_if("ADDRESS_TYPE") {
            let x = enum_value::<AddrType>(cur, "MEASUREMENT: unknown enum keyword ")?;
            self.node.addr_type = x;
            return Ok(());
        }
        if self.node.addr.take(cur)? {
            return Ok(());
        }
        if self.node.conv.take(cur)? {
            return Ok(());
        }
        let _t = cur.next_token()?;
        Ok(())
    }

    fn read_options(&mut self, cur: &mut ParamCursor) -> (r: Result<()>)
        ensures
            match r {
                Ok(()) => {
                    &&& MeasurementParts::options(old(self)@, old(cur)@) == Ok::<_, Failure>(
                        (final(self)@, final(cur)@),
                    )
                    &&& final(cur)@.left() <= old(cur)@.left()
                    &&& final(cur)@ == old(cur)@ || final(cur)@.left() >= 0
                },
                Err(e) => MeasurementParts::options(old(self)@, old(cur)@) == Err::<(MeasurementPartsView, Cur), _>(e@),
            },
    {
        let ghost whole = MeasurementParts::options(self@, cur@);
        while !cur.is_empty()
            invariant
                whole == MeasurementParts::options(self@, cur@),
                whole == MeasurementParts::options(old(self)@, old(cur)@),
                cur@.left() <= old(cur)@.left(),
                cur@ == old(cur)@ || cur@.left() >= 0,
            decreases cur@.left(),
        {
            self.read_option(cur)?;
        }
        Ok(())
    }
}

impl Measurement {
    /// The dimensions: those that are given, or else the size of an array of more than one
    /// element.
    pub open spec fn dimensions(given: Option<Seq<i32>>, array_size: i32) -> Option<Seq<i32>> {
        if given is None && array_size > 1 {
            Some(seq![array_size, 1i32, 1i32])
        } else {
            given
        }
    }
}

impl Measurement {
    /// What is written for the first parameters.
    pub open spec fn opening(v: MeasurementView, p: Page) -> Page {
        let p = NamedFields::written(v.named, p);
        let p = p.line(word_or(v.data_type.word(), "Unsupported"@));
        let p = p.line(v.conv.conversion);
        let p = p.line(dec_int(v.resolution as int) + " "@ + v.accuracy.text);
        let p = ConversionRefFields::limits_written(v.conv, p);
        let p = AddressFields::written(v.addr, p);
        ConversionRefFields::written(v.conv, p)
    }

    fn write_opening(&self, w: &mut Writer) -> (r: Result<()>)
        ensures
            r is Ok,
            final(w)@ == Measurement::opening(self@, old(w)@),
    {
        self.named.write(w)?;
        w.line(keyword_or(self.data_type, "Unsupported"));
        w.line(self.conv.conversion.as_str());
        {
            let mut s = dec_int_text(self.resolution as i64);
            s.append(" ");
            s.append(self.accuracy.text.as_str());
            w.line(s.as_str());
        }
        self.conv.write_limits(w)?;
        self.addr.write(w)?;
        self.conv.write(w)?;
        Ok(())
    }
}

impl Node for Measurement {
    open spec fn keyword_text() -> Seq<char> {
        "MEASUREMENT"@
    }

    open spec fn parsed(tree: Tree) -> std::result::Result<MeasurementView, Failure> {
        match Measurement::head(Cur::start(tree)) {
            Err(f) => Err(f),
            Ok((v, c)) => match MeasurementParts::options(
                MeasurementPartsView { node: v, array_size: 0 },
                c,
            ) {
                Err(f) => Err(f),
                Ok((v, _)) => match children_parsed::<MeasurementChild>(children_of(tree.items), 0) {
                    Err(f) => Err(f),
                    Ok(children) => Ok(
                        MeasurementView {
                            matrix_dim: Measurement::dimensions(v.node.matrix_dim, v.array_size),
                            children,
                            ..v.node
                        },
                    ),
                },
            },
        }
    }

    open spec fn keeps(&self, tree: Tree) -> bool {
        all_kept(self.children@, tree)
    }

    open spec fn body(v: MeasurementView, p: Page) -> Written {
        let p = Measurement::opening(v, p);
        let p = match v.layout.word() { Some(kw) => p.word("LAYOUT"@, kw), None => p };
        let p = match v.addr.address { Some(x) => p.word("ECU_ADDRESS"@, hex_form(x as nat)), None => p };
        let p = match v.bit_mask { Some(x) => p.word("BIT_MASK"@, hex_form(x as nat)), None => p };
        let p = match v.error_mask { Some(x) => p.word("ERROR_MASK"@, hex_form(x as nat)), None => p };
        let p = if v.discrete { p.line("DISCRETE"@) } else { p };
        let p = if v.read_write { p.line("READ_WRITE"@) } else { p };
        let p = match v.matrix_dim { Some(x) => p.word("MATRIX_DIM"@, listed(x)), None => p };
        let p = if v.addr_type != AddrType::DIRECT {
            match v.addr_type.word() { Some(kw) => p.word("ADDRESS_TYPE"@, kw), None => p }
        } else { p };
        children_written::<MeasurementChild>(v.children, 0, false, p)
    }

    open spec fn block(v: MeasurementView, p: Page) -> Written {
        enclosed("MEASUREMENT"@, Self::body(v, p.begin("MEASUREMENT "@ + v.named.name)))
    }

    fn keyword() -> (r: &'static str) {
        "MEASUREMENT"
    }

    fn parse(block: &Block) -> (r: Result<Self>) {
        let mut cur = ParamCursor::new(block);
        let node = Measurement::read_head(&mut cur)?;
        let mut parts = MeasurementParts { node, array_size: 0 };
        parts.read_options(&mut cur)?;
        let array_size: i32 = parts.array_size;
        let mut node = parts.node;
        if array_size > 1 && node.matrix_dim.is_none() {
            let dims: Vec<i32> = vec![array_size, 1, 1];
            proof {
                assert(dims@ =~= seq![array_size, 1i32, 1i32]);
            }
            node.matrix_dim = Some(dims);
        }
        node.children = read_children::<MeasurementChild>(block)?;
        Ok(node)
    }

    fn write_body(&self, w: &mut Writer) -> (r: Result<()>) {
        self.write_opening(w)?;
        if let Some(kw) = self.layout.as_keyword() {
            w.word("LAYOUT", kw);
        }
        if let Some(x) = &self.addr.address {
            w.word("ECU_ADDRESS", to_hex(*x as u64).as_str());
        }
        if let Some(x) = &self.bit_mask {
            w.word("BIT_MASK", to_hex(*x as u64).as_str());
        }
        if let Some(x) = &self.error_mask {
            w.word("ERROR_MASK", to_hex(*x as u64).as_str());
        }
        if self.discrete {
            w.line("DISCRETE");
        }
        if self.read_write {
            w.line("READ_WRITE");
        }
        if let Some(x) = &self.matrix_dim {
            w.word("MATRIX_DIM", dims_text(x.as_slice()).as_str());
        }
        if self.addr_type != AddrType::DIRECT {
            if let Some(kw) = self.addr_type.as_keyword() {
                w.word("ADDRESS_TYPE", kw);
            }
        }
        write_children(&self.children, false, w)
    }

    fn write_block(&self, w: &mut Writer) -> (r: Result<()>) {
        let mut s = "MEASUREMENT ".to_string();
        s.append(self.named.name.as_str());
        w.begin_block(s.as_str());
        self.write_body(w)?;
        w.end_block("MEASUREMENT");
        Ok(())
    }
}

/// Axis points that are computed by a shift.
#[derive(Debug, Clone, PartialEq, Eq)]
pub struct FixAxisPar {
    pub offset: Number,
    pub shift: Number,
    pub numberapo: i32,
}

/// [`FixAxisPar`] as a mathematical value.
pub struct FixAxisParView {
    pub offset: Num,
    pub shift: Num,
    pub numberapo: i32,
}

impl View for FixAxisPar {
    type V = FixAxisParView;

    open spec fn view(&self) -> FixAxisParView {
        FixAxisParView {
            offset: self.offset@,
            shift: self.shift@,
            numberapo: self.numberapo,
        }
    }
}

impl FixAxisPar {
    /// The values that stand at the cursor, and where the next ones start.
    pub open spec fn reads(c: Cur) -> Got<FixAxisParView> {
        match read_float(c) {
            Err(f) => Err(f),
            Ok((offset, c0)) => {
                match read_float(c0) {
                    Err(f) => Err(f),
                    Ok((shift, c1)) => {
                        match read_int(c1, i32::MIN as int, i32::MAX as int) {
                            Err(f) => Err(f),
                            Ok((numberapo, c2)) => {
                                Ok((FixAxisParView { offset, shift, numberapo: (numberapo as i32) }, c2))
                            },
                        }
                    },
                }
            },
        }
    }

    fn read(cur: &mut ParamCursor) -> (r: Result<Self>)
        ensures
            match r {
                Ok(v) => {
                    &&& FixAxisPar::reads(old(cur)@) == Ok::<_, Failure>((v@, final(cur)@))
                    &&& 0 <= final(cur)@.left() < old(cur)@.left()
                },
                Err(e) => FixAxisPar::reads(old(cur)@) == Err::<(FixAxisParView, Cur), _>(e@),
            },
    {
        let offset = cur.float()?;
        let shift = cur.float()?;
        let numberapo = cur.sint::<i32>()?;
        Ok(FixAxisPar { offset, shift, numberapo })
    }
}

/// Axis points that are computed by a distance.
#[derive(Debug, Clone, PartialEq, Eq)]
pub struct FixAxisParDist {
    pub offset: Number,
    pub distance: Number,
    pub numberapo: i32,
}

/// [`FixAxisParDist`] as a mathematical value.
pub struct FixAxisParDistView {
    pub offset: Num,
    pub distance: Num,
    pub numberapo: i32,
}

impl View for FixAxisParDist {
    type V = FixAxisParDistView;

    open spec fn view(&self) -> FixAxisParDistView {
        FixAxisParDistView {
            offset: self.offset@,
            distance: self.distance@,
            numberapo: self.numberapo,
        }
    }
}

impl FixAxisParDist {
    /// The values that stand at the cursor, and where the next ones start.
    pub open spec fn reads(c: Cur) -> Got<FixAxisParDistView> {
        match read_float(c) {
            Err(f) => Err(f),
            Ok((offset, c0)) => {
                match read_float(c0) {
                    Err(f) => Err(f),
                    Ok((distance, c1)) => {
                        match read_int(c1, i32::MIN as int, i32::MAX as int) {
                            Err(f) => Err(f),
                            Ok((numberapo, c2)) => {
                                Ok((FixAxisParDistView { offset, distance, numberapo: (numberapo as i32) }, c2))
                            },
                        }
                    },
                }
            },
        }
    }

    fn read(cur: &mut ParamCursor) -> (r: Result<Self>)
        ensures
            match r {
                Ok(v) => {
                    &&& FixAxisParDist::reads(old(cur)@) == Ok::<_, Failure>((v@, final(cur)@))
                    &&& 0 <= final(cur)@.left() < old(cur)@.left()
                },
                Err(e) => FixAxisParDist::reads(old(cur)@) == Err::<(FixAxisParDistView, Cur), _>(e@),
            },
    {
        let offset = cur.float()?;
        let distance = cur.float()?;
        let numberapo = cur.sint::<i32>()?;
        Ok(FixAxisParDist { offset, distance, numberapo })
    }
}

/// A block within the node.
#[derive(Debug, Clone, PartialEq, Eq)]
pub enum AxisDescrChild {
    /// `/begin ANNOTATION`.
    Annotation(Annotation),
    Unsupported(UnsupportedNode),
}

/// [`AxisDescrChild`] as a mathematical value.
pub enum AxisDescrChildView {
    Annotation(AnnotationView),
    Unsupported(UnsupportedNodeView),
}

impl View for AxisDescrChild {
    type V = AxisDescrChildView;

    open spec fn view(&self) -> AxisDescrChildView {
        match self {
            AxisDescrChild::Annotation(n) => AxisDescrChildView::Annotation(n@),
            AxisDescrChild::Unsupported(n) => AxisDescrChildView::Unsupported(n@),
        }
    }
}

impl Child for AxisDescrChild {
    open spec fn parsed(tree: Tree) -> std::result::Result<AxisDescrChildView, Failure> {
        if same_ignore_case(tree.keyword, "ANNOTATION"@) {
            match node_parsed::<Annotation>(tree) {
                Ok(n) => Ok(AxisDescrChildView::Annotation(n)),
                Err(f) => Err(f),
            }
        } else {
            Ok(AxisDescrChildView::Unsupported(UnsupportedNode::of(tree)))
        }
    }

    open spec fn kept(&self, tree: Tree) -> bool {
        match self {
            AxisDescrChild::Annotation(n) => n.keeps(tree),
            AxisDescrChild::Unsupported(n) => n.kept(tree),
        }
    }

    open spec fn written(v: AxisDescrChildView, p: Page) -> Written {
        match v {
            AxisDescrChildView::Annotation(n) => node_written::<Annotation>(n, p),
            AxisDescrChildView::Unsupported(n) => UnsupportedNode::written(n, p),
        }
    }

    fn read(block: &Block) -> (r: Result<Self>) {
        if eq_ignore_case(block.keyword.as_str(), "ANNOTATION") {
            return Ok(AxisDescrChild::Annotation(parse_node::<Annotation>(block)?));
        }
        Ok(AxisDescrChild::Unsupported(UnsupportedNode::from_block(block)))
    }

    fn write(&self, w: &mut Writer) -> (r: Result<()>) {
        self.write_block(w)
    }
}

impl AxisDescrChild {
    pub fn write_block(&self, w: &mut Writer) -> (r: Result<()>)
        ensures
            match r {
                Ok(()) => AxisDescrChild::written(self@, old(w)@) == Ok::<Page, Stopped>(final(w)@),
                Err(e) => AxisDescrChild::written(self@, old(w)@) == Err::<Page, Stopped>(final(w)@.stopped(e@)),
            },
    {
        match self {
            AxisDescrChild::Annotation(n) => write_node(n, w),
            AxisDescrChild::Unsupported(n) => n.write_block(w),
        }
    }
}

/// `AXIS_DESCR`: an axis of a characteristic.
#[derive(Debug, Clone, PartialEq, Eq)]
pub struct AxisDescr {
    pub axis_type: AxisType,
    pub input_quantity: String,
    pub conversion: String,
    pub max_axis_points: i32,
    pub lower_limit: Number,
    pub upper_limit: Number,
    pub axis_pts_ref: Option<String>,
    pub curve_axis_ref: Option<String>,
    pub read_only: bool,
    pub extended_limits: Option<(Number, Number)>,
    pub max_grad: Option<Number>,
    pub step_size: Option<Number>,
    pub format: Option<String>,
    pub phys_unit: Option<String>,
    pub byte_order: ByteOrder,
    pub monotony: MonotonyType,
    pub deposit: DepositType,
    pub fix_axis_par: Option<FixAxisPar>,
    pub fix_axis_par_dist: Option<FixAxisParDist>,
    pub children: Vec<AxisDescrChild>,
}

/// [`AxisDescr`] as a mathematical value.
pub struct AxisDescrView {
    pub axis_type: AxisType,
    pub input_quantity: Seq<char>,
    pub conversion: Seq<char>,
    pub max_axis_points: i32,
    pub lower_limit: Num,
    pub upper_limit: Num,
    pub axis_pts_ref: Option<Seq<char>>,
    pub curve_axis_ref: Option<Seq<char>>,
    pub read_only: bool,
    pub extended_limits: Option<(Num, Num)>,
    pub max_grad: Option<Num>,
    pub step_size: Option<Num>,
    pub format: Option<Seq<char>>,
    pub phys_unit: Option<Seq<char>>,
    pub byte_order: ByteOrder,
    pub monotony: MonotonyType,
    pub deposit: DepositType,
    pub fix_axis_par: Option<FixAxisParView>,
    pub fix_axis_par_dist: Option<FixAxisParDistView>,
    pub children: Seq<AxisDescrChildView>,
}

impl View for AxisDescr {
    type V = AxisDescrView;

    open spec fn view(&self) -> AxisDescrView {
        AxisDescrView {
            axis_type: self.axis_type,
            input_quantity: self.input_quantity@,
            conversion: self.conversion@,
            max_axis_points: self.max_axis_points,
            lower_limit: self.lower_limit@,
            upper_limit: self.upper_limit@,
            axis_pts_ref: opt(self.axis_pts_ref),
            curve_axis_ref: opt(self.curve_axis_ref),
            read_only: self.read_only,
            extended_limits: opt_pair(self.extended_limits),
            max_grad: opt(self.max_grad),
            step_size: opt(self.step_size),
            format: opt(self.format),
            phys_unit: opt(self.phys_unit),
            byte_order: self.byte_order,
            monotony: self.monotony,
            deposit: self.deposit,
            fix_axis_par: opt(self.fix_axis_par),
            fix_axis_par_dist: opt(self.fix_axis_par_dist),
            children: views(self.children@),
        }
    }
}

impl AxisDescr {
    /// The node before anything is read.
    pub open spec fn blank() -> AxisDescrView {
        AxisDescrView {
            axis_type: AxisType::STD_AXIS,
            input_quantity: Seq::empty(),
            conversion: Seq::empty(),
            max_axis_points: 0,
            lower_limit: num_zero(),
            upper_limit: num_zero(),
            axis_pts_ref: None,
            curve_axis_ref: None,
            read_only: false,
            extended_limits: None,
            max_grad: None,
            step_size: None,
            format: None,
            phys_unit: None,
            byte_order: ByteOrder::blank(),
            monotony: MonotonyType::blank(),
            deposit: DepositType::blank(),
            fix_axis_par: None,
            fix_axis_par_dist: None,
            children: Seq::empty(),
        }
    }
}

impl Default for AxisDescr {
    fn default() -> (r: Self)
        ensures
            r@ == AxisDescr::blank(),
    {
        AxisDescr {
            axis_type: AxisType::STD_AXIS,
            input_quantity: no_text(),
            conversion: no_text(),
            max_axis_points: 0,
            lower_limit: Number::default(),
            upper_limit: Number::default(),
            axis_pts_ref: None,
            curve_axis_ref: None,
            read_only: false,
            extended_limits: None,
            max_grad: None,
            step_size: None,
            format: None,
            phys_unit: None,
            byte_order: ByteOrder::default(),
            monotony: MonotonyType::default(),
            deposit: DepositType::default(),
            fix_axis_par: None,
            fix_axis_par_dist: None,
            children: none_yet(),
        }
    }
}

impl AxisDescr {
    /// What the parameters at the start say, and where the next ones start.
    pub open spec fn head(c: Cur) -> Got<AxisDescrView> {
        let v = AxisDescr::blank();
        match read_enum::<AxisType>(c, "AXIS_DESCR: unknown enum keyword "@) {
            Err(f) => Err(f),
            Ok((axis_type, c0)) => {
                match read_ident(c0) {
                    Err(f) => Err(f),
                    Ok((input_quantity, c1)) => {
                        match read_ident(c1) {
                            Err(f) => Err(f),
                            Ok((conversion, c2)) => {
                                match read_int(c2, i32::MIN as int, i32::MAX as int) {
                                    Err(f) => Err(f),
                                    Ok((max_axis_points, c3)) => {
                                        match read_float(c3) {
                                            Err(f) => Err(f),
                                            Ok((lower_limit, c4)) => {
                                                match read_float(c4) {
                                                    Err(f) => Err(f),
                                                    Ok((upper_limit, c5)) => {
                                                        Ok(
                                                            (
                                                                AxisDescrView {
                                                                    axis_type,
                                                                    input_quantity,
                                                                    conversion,
                                                                    max_axis_points: (max_axis_points as i32),
                                                                    lower_limit,
                                                                    upper_limit,
                                                                    ..v
                                                                },
                                                                c5
                                                            )
                                                        )
                                                    },
                                                }
                                            },
                                        }
                                    },
                                }
                            },
                        }
                    },
                }
            },
        }
    }

    fn read_head(cur: &mut ParamCursor) -> (r: Result<Self>)
        ensures
            match r {
                Ok(v) => AxisDescr::head(old(cur)@) == Ok::<_, Failure>((v@, final(cur)@)),
                Err(e) => AxisDescr::head(old(cur)@) == Err::<(AxisDescrView, Cur), _>(e@),
            },
    {
        let axis_type = enum_value::<AxisType>(cur, "AXIS_DESCR: unknown enum keyword ")?;
        let input_quantity = cur.ident()?;
        let conversion = cur.ident()?;
        let max_axis_points = cur.sint::<i32>()?;
        let lower_limit = cur.float()?;
        let upper_limit = cur.float()?;
        let mut node = AxisDescr::default();
        node.axis_type = axis_type;
        node.input_quantity = input_quantity;
        node.conversion = conversion;
        node.max_axis_points = max_axis_points;
        node.lower_limit = lower_limit;
        node.upper_limit = upper_limit;
        Ok(node)
    }
}

impl AxisDescr {
    /// What the parameters at the cursor set, and where the next ones start.
    pub open spec fn option(v: AxisDescrView, c: Cur) -> Got<AxisDescrView> {
        if c.at("AXIS_PTS_REF"@) {
            match read_ident(c.step()) {
                Err(f) => Err(f),
                Ok((x, c0)) => {
                    Ok((AxisDescrView { axis_pts_ref: Some(x), ..v }, c0))
                },
            }
        } else if c.at("CURVE_AXIS_REF"@) {
            match read_ident(c.step()) {
                Err(f) => Err(f),
                Ok((x, c0)) => {
                    Ok((AxisDescrView { curve_axis_ref: Some(x), ..v }, c0))
                },
            }
        } else if c.at("READ_ONLY"@) {
            Ok((AxisDescrView { read_only: true, ..v }, c.step()))
        } else if c.at("EXTENDED_LIMITS"@) {
            match read_pair(c.step()) {
                Err(f) => Err(f),
                Ok((x, c0)) => {
                    Ok((AxisDescrView { extended_limits: Some(x), ..v }, c0))
                },
            }
        } else if c.at("MAX_GRAD"@) {
            match read_float(c.step()) {
                Err(f) => Err(f),
                Ok((x, c0)) => {
                    Ok((AxisDescrView { max_grad: Some(x), ..v }, c0))
                },
            }
        } else if c.at("STEP_SIZE"@) {
            match read_float(c.step()) {
                Err(f) => Err(f),
                Ok((x, c0)) => {
                    Ok((AxisDescrView { step_size: Some(x), ..v }, c0))
                },
            }
        } else if c.at("FORMAT"@) {
            match read_string(c.step()) {
                Err(f) => Err(f),
                Ok((x, c0)) => {
                    Ok((AxisDescrView { format: Some(x), ..v }, c0))
                },
            }
        } else if c.at("PHYS_UNIT"@) {
            match read_string(c.step()) {
                Err(f) => Err(f),
                Ok((x, c0)) => {
                    Ok((AxisDescrView { phys_unit: Some(x), ..v }, c0))
                },
            }
        } else if c.at("BYTE_ORDER"@) {
            match read_enum::<ByteOrder>(c.step(), "AXIS_DESCR: unknown enum keyword "@) {
                Err(f) => Err(f),
                Ok((x, c0)) => {
                    Ok((AxisDescrView { byte_order: x, ..v }, c0))
                },
            }
        } else if c.at("MONOTONY"@) {
            match read_enum::<MonotonyType>(c.step(), "AXIS_DESCR: unknown enum keyword "@) {
                Err(f) => Err(f),
                Ok((x, c0)) => {
                    Ok((AxisDescrView { monotony: x, ..v }, c0))
                },
            }
        } else if c.at("DEPOSIT"@) {
            match read_enum::<DepositType>(c.step(), "AXIS_DESCR: unknown enum keyword "@) {
                Err(f) => Err(f),
                Ok((x, c0)) => {
                    Ok((AxisDescrView { deposit: x, ..v }, c0))
                },
            }
        } else if c.at("FIX_AXIS_PAR"@) {
            match FixAxisPar::reads(c.step()) {
                Err(f) => Err(f),
                Ok((x, c0)) => {
                    Ok((AxisDescrView { fix_axis_par: Some(x), ..v }, c0))
                },
            }
        } else if c.at("FIX_AXIS_PAR_DIST"@) {
            match FixAxisParDist::reads(c.step()) {
                Err(f) => Err(f),
                Ok((x, c0)) => {
                    Ok((AxisDescrView { fix_axis_par_dist: Some(x), ..v }, c0))
                },
            }
        } else {
            match read_token(c) {
                Err(f) => Err(f),
                Ok((_t, c0)) => {
                    Ok((v, c0))
                },
            }
        }
    }

    /// What all the parameters from the cursor on set, and where reading them ends.
    pub open spec fn options(v: AxisDescrView, c: Cur) -> Got<AxisDescrView>
        decreases c.left(),
    {
        if !c.more() {
            Ok((v, c))
        } else {
            match AxisDescr::option(v, c) {
                Err(f) => Err(f),
                Ok((w, n)) => if 0 <= n.left() < c.left() {
                    AxisDescr::options(w, n)
                } else {
                    arbitrary()
                },
            }
        }
    }

    fn read_option(&mut self, cur: &mut ParamCursor) -> (r: Result<()>)
        requires
            old(cur)@.more(),
        ensures
            match r {
                Ok(()) => {
                    &&& AxisDescr::option(old(self)@, old(cur)@) == Ok::<_, Failure>(
                        (final(self)@, final(cur)@),
                    )
                    &&& 0 <= final(cur)@.left() < old(cur)@.left()
                },
                Err(e) => AxisDescr::option(old(self)@, old(cur)@) == Err::<(AxisDescrView, Cur), _>(e@),
            },
    {
        if cur.take_if("AXIS_PTS_REF") {
            let x = cur.ident()?;
            self.axis_pts_ref = Some(x);
            return Ok(());
        }
        if cur.take_if("CURVE_AXIS_REF") {
            let x = cur.ident()?;
            self.curve_axis_ref = Some(x);
            return Ok(());
        }
        if cur.take_if("READ_ONLY") {
            self.read_only = true;
            return Ok(());
        }
        if cur.take_if("EXTENDED_LIMITS") {
            let x = float_pair(cur)?;
            self.extended_limits = Some(x);
            return Ok(());
        }
        if cur.take_if("MAX_GRAD") {
            let x = cur.float()?;
            self.max_grad = Some(x);
            return Ok(());
        }
        if cur.take_if("STEP_SIZE") {
            let x = cur.float()?;
            self.step_size = Some(x);
            return Ok(());
        }
        if cur.take_if("FORMAT") {
            let x = cur.string()?;
            self.format = Some(x);
            return Ok(());
        }
        if cur.take_if("PHYS_UNIT") {
            let x = cur.string()?;
            self.phys_unit = Some(x);
            return Ok(());
        }
        if cur.take_if("BYTE_ORDER") {
            let x = enum_value::<ByteOrder>(cur, "AXIS_DESCR: unknown enum keyword ")?;
            self.byte_order = x;
            return Ok(());
        }
        if cur.take_if("MONOTONY") {
            let x = enum_value::<MonotonyType>(cur, "AXIS_DESCR: unknown enum keyword ")?;
            self.monotony = x;
            return Ok(());
        }
        if cur.take_if("DEPOSIT") {
            let x = enum_value::<DepositType>(cur, "AXIS_DESCR: unknown enum keyword ")?;
            self.deposit = x;
            return Ok(());
        }
        if cur.take_if("FIX_AXIS_PAR") {
            let x = FixAxisPar::read(cur)?;
            self.fix_axis_par = Some(x);
            return Ok(());
        }
        if cur.take_if("FIX_AXIS_PAR_DIST") {
            let x = FixAxisParDist::read(cur)?;
            self.fix_axis_par_dist = Some(x);
            return Ok(());
        }
        let _t = cur.next_token()?;
        Ok(())
    }

    fn read_options(&mut self, cur: &mut ParamCursor) -> (r: Result<()>)
        ensures
            match r {
                Ok(()) => {
                    &&& AxisDescr::options(old(self)@, old(cur)@) == Ok::<_, Failure>(
                        (final(self)@, final(cur)@),
                    )
                    &&& final(cur)@.left() <= old(cur)@.left()
                    &&& final(cur)@ == old(cur)@ || final(cur)@.left() >= 0
                },
                Err(e) => AxisDescr::options(old(self)@, old(cur)@) == Err::<(AxisDescrView, Cur), _>(e@),
            },
    {
        let ghost whole = AxisDescr::options(self@, cur@);
        while !cur.is_empty()
            invariant
                whole == AxisDescr::options(self@, cur@),
                whole == AxisDescr::options(old(self)@, old(cur)@),
                cur@.left() <= old(cur)@.left(),
                cur@ == old(cur)@ || cur@.left() >= 0,
            decreases cur@.left(),
        {
            self.read_option(cur)?;
        }
        Ok(())
    }
}

impl AxisDescr {
    /// What is written for the first parameters.
    pub open spec fn opening(v: AxisDescrView, p: Page) -> Page {
        let p = p.line(word_or(v.axis_type.word(), "STD_AXIS"@));
        let p = p.line(v.input_quantity);
        let p = p.line(v.conversion);
        let p = p.line(dec_int(v.max_axis_points as int));
        let p = p.line(v.lower_limit.text + " "@ + v.upper_limit.text);
        let p = match v.axis_pts_ref { Some(x) if x.len() > 0 => p.word("AXIS_PTS_REF"@, x), _ => p };
        let p = match v.curve_axis_ref { Some(x) if x.len() > 0 => p.word("CURVE_AXIS_REF"@, x), _ => p };
        let p = if v.read_only { p.line("READ_ONLY"@) } else { p };
        match v.extended_limits {
            Some((lo, hi)) => p.line("EXTENDED_LIMITS "@ + lo.text + " "@ + hi.text),
            None => p
        }
    }

    fn write_opening(&self, w: &mut Writer) -> (r: Result<()>)
        ensures
            r is Ok,
            final(w)@ == AxisDescr::opening(self@, old(w)@),
    {
        w.line(keyword_or(self.axis_type, "STD_AXIS"));
        w.line(self.input_quantity.as_str());
        w.line(self.conversion.as_str());
        w.line(dec_int_text(self.max_axis_points as i64).as_str());
        {
            let mut s = self.lower_limit.text.clone();
            s.append(" ");
            s.append(self.upper_limit.text.as_str());
            w.line(s.as_str());
        }
        if let Some(x) = &self.axis_pts_ref {
            if x.as_str().unicode_len() > 0 {
                w.word("AXIS_PTS_REF", x.as_str());
            }
        }
        if let Some(x) = &self.curve_axis_ref {
            if x.as_str().unicode_len() > 0 {
                w.word("CURVE_AXIS_REF", x.as_str());
            }
        }
        if self.read_only {
            w.line("READ_ONLY");
        }
        if let Some((lo, hi)) = &self.extended_limits {
            let mut s = "EXTENDED_LIMITS ".to_string();
            s.append(lo.text.as_str());
            s.append(" ");
            s.append(hi.text.as_str());
            w.line(s.as_str());
        }
        Ok(())
    }
}

impl Node for AxisDescr {
    open spec fn keyword_text() -> Seq<char> {
        "AXIS_DESCR"@
    }

    open spec fn parsed(tree: Tree) -> std::result::Result<AxisDescrView, Failure> {
        match AxisDescr::head(Cur::start(tree)) {
            Err(f) => Err(f),
            Ok((v, c)) => match AxisDescr::options(v, c) {
                Err(f) => Err(f),
                Ok((v, _)) => match children_parsed::<AxisDescrChild>(children_of(tree.items), 0) {
                    Err(f) => Err(f),
                    Ok(children) => Ok(AxisDescrView { children, ..v }),
                },
            },
        }
    }

    open spec fn keeps(&self, tree: Tree) -> bool {
        all_kept(self.children@, tree)
    }

    open spec fn body(v: AxisDescrView, p: Page) -> Written {
        let p = AxisDescr::opening(v, p);
        let p = match v.max_grad { Some(x) => p.word("MAX_GRAD"@, x.text), None => p };
        let p = match v.step_size { Some(x) => p.word("STEP_SIZE"@, x.text), None => p };
        let p = match v.format { Some(x) if x.len() > 0 => p.quote("FORMAT"@, x), _ => p };
        let p = match v.phys_unit { Some(x) if x.len() > 0 => p.quote("PHYS_UNIT"@, x), _ => p };
        let p = match v.byte_order.word() { Some(kw) => p.word("BYTE_ORDER"@, kw), None => p };
        let p = match v.monotony.word() { Some(kw) => p.word("MONOTONY"@, kw), None => p };
        let p = match v.deposit.word() { Some(kw) => p.word("DEPOSIT"@, kw), None => p };
        let p = match v.fix_axis_par {
            Some(x) => p.word(
                "FIX_AXIS_PAR"@,
                x.offset.text + " "@ + x.shift.text + " "@ + dec_int(x.numberapo as int)
            ),
            None => p
        };
        let p = match v.fix_axis_par_dist {
            Some(x) => p.word(
                "FIX_AXIS_PAR_DIST"@,
                x.offset.text + " "@ + x.distance.text + " "@ + dec_int(x.numberapo as int)
            ),
            None => p
        };
        children_written::<AxisDescrChild>(v.children, 0, false, p)
    }

    open spec fn block(v: AxisDescrView, p: Page) -> Written {
        enclosed("AXIS_DESCR"@, Self::body(v, p.begin("AXIS_DESCR"@)))
    }

    fn keyword() -> (r: &'static str) {
        "AXIS_DESCR"
    }

    fn parse(block: &Block) -> (r: Result<Self>) {
        let mut cur = ParamCursor::new(block);
        let mut node = AxisDescr::read_head(&mut cur)?;
        node.read_options(&mut cur)?;
        node.children = read_children::<AxisDescrChild>(block)?;
        Ok(node)
    }

    fn write_body(&self, w: &mut Writer) -> (r: Result<()>) {
        self.write_opening(w)?;
        if let Some(x) = &self.max_grad {
            w.word("MAX_GRAD", x.text.as_str());
        }
        if let Some(x) = &self.step_size {
            w.word("STEP_SIZE", x.text.as_str());
        }
        if let Some(x) = &self.format {
            if x.as_str().unicode_len() > 0 {
                w.quote("FORMAT", x.as_str());
            }
        }
        if let Some(x) = &self.phys_unit {
            if x.as_str().unicode_len() > 0 {
                w.quote("PHYS_UNIT", x.as_str());
            }
        }
        if let Some(kw) = self.byte_order.as_keyword() {
            w.word("BYTE_ORDER", kw);
        }
        if let Some(kw) = self.monotony.as_keyword() {
            w.word("MONOTONY", kw);
        }
        if let Some(kw) = self.deposit.as_keyword() {
            w.word("DEPOSIT", kw);
        }
        if let Some(x) = &self.fix_axis_par {
            let mut s = x.offset.text.clone();
            s.append(" ");
            s.append(x.shift.text.as_str());
            s.append(" ");
            s.append(dec_int_text(x.numberapo as i64).as_str());
            w.word("FIX_AXIS_PAR", s.as_str());
        }
        if let Some(x) = &self.fix_axis_par_dist {
            let mut s = x.offset.text.clone();
            s.append(" ");
            s.append(x.distance.text.as_str());
            s.append(" ");
            s.append(dec_int_text(x.numberapo as i64).as_str());
            w.word("FIX_AXIS_PAR_DIST", s.as_str());
        }
        write_children(&self.children, false, w)
    }

    fn write_block(&self, w: &mut Writer) -> (r: Result<()>) {
        w.begin_block("AXIS_DESCR");
        self.write_body(w)?;
        w.end_block("AXIS_DESCR");
        Ok(())
    }
}

/// A block within the node.
#[derive(Debug, Clone, PartialEq, Eq)]
pub enum BlobChild {
    /// `/begin ANNOTATION`.
    Annotation(Annotation),
    Unsupported(UnsupportedNode),
}

/// [`BlobChild`] as a mathematical value.
pub enum BlobChildView {
    Annotation(AnnotationView),
    Unsupported(UnsupportedNodeView),
}

impl View for BlobChild {
    type V = BlobChildView;

    open spec fn view(&self) -> BlobChildView {
        match self {
            BlobChild::Annotation(n) => BlobChildView::Annotation(n@),
            BlobChild::Unsupported(n) => BlobChildView::Unsupported(n@),
        }
    }
}

impl Child for BlobChild {
    open spec fn parsed(tree: Tree) -> std::result::Result<BlobChildView, Failure> {
        if same_ignore_case(tree.keyword, "ANNOTATION"@) {
            match node_parsed::<Annotation>(tree) {
                Ok(n) => Ok(BlobChildView::Annotation(n)),
                Err(f) => Err(f),
            }
        } else {
            Ok(BlobChildView::Unsupported(UnsupportedNode::of(tree)))
        }
    }

    open spec fn kept(&self, tree: Tree) -> bool {
        match self {
            BlobChild::Annotation(n) => n.keeps(tree),
            BlobChild::Unsupported(n) => n.kept(tree),
        }
    }

    open spec fn written(v: BlobChildView, p: Page) -> Written {
        match v {
            BlobChildView::Annotation(n) => node_written::<Annotation>(n, p),
            BlobChildView::Unsupported(n) => UnsupportedNode::written(n, p),
        }
    }

    fn read(block: &Block) -> (r: Result<Self>) {
        if eq_ignore_case(block.keyword.as_str(), "ANNOTATION") {
            return Ok(BlobChild::Annotation(parse_node::<Annotation>(block)?));
        }
        Ok(BlobChild::Unsupported(UnsupportedNode::from_block(block)))
    }

    fn write(&self, w: &mut Writer) -> (r: Result<()>) {
        self.write_block(w)
    }
}

impl BlobChild {
    pub fn write_block(&self, w: &mut Writer) -> (r: Result<()>)
        ensures
            match r {
                Ok(()) => BlobChild::written(self@, old(w)@) == Ok::<Page, Stopped>(final(w)@),
                Err(e) => BlobChild::written(self@, old(w)@) == Err::<Page, Stopped>(final(w)@.stopped(e@)),
            },
    {
        match self {
            BlobChild::Annotation(n) => write_node(n, w),
            BlobChild::Unsupported(n) => n.write_block(w),
        }
    }
}

/// `BLOB`: bytes without a structure.
#[derive(Debug, Clone, PartialEq, Eq)]
pub struct Blob {
    pub named: NamedFields,
    pub addr: AddressFields,
    pub size: u32,
    pub addr_type: AddrType,
    pub children: Vec<BlobChild>,
}

/// [`Blob`] as a mathematical value.
pub struct BlobView {
    pub named: NamedFieldsView,
    pub addr: AddressFieldsView,
    pub size: u32,
    pub addr_type: AddrType,
    pub children: Seq<BlobChildView>,
}

impl View for Blob {
    type V = BlobView;

    open spec fn view(&self) -> BlobView {
        BlobView {
            named: self.named@,
            addr: self.addr@,
            size: self.size,
            addr_type: self.addr_type,
            children: views(self.children@),
        }
    }
}

impl Blob {
    /// The node before anything is read.
    pub open spec fn blank() -> BlobView {
        BlobView {
            named: NamedFields::blank(),
            addr: AddressFields::blank(),
            size: 0,
            addr_type: AddrType::DIRECT,
            children: Seq::empty(),
        }
    }
}

impl Default for Blob {
    fn default() -> (r: Self)
        ensures
            r@ == Blob::blank(),
    {
        Blob {
            named: NamedFields::default(),
            addr: AddressFields::default(),
            size: 0,
            addr_type: AddrType::DIRECT,
            children: none_yet(),
        }
    }
}

impl Blob {
    /// What the parameters at the start say, and where the next ones start.
    pub open spec fn head(c: Cur) -> Got<BlobView> {
        let v = Blob::blank();
        match NamedFields::head(c) {
            Err(f) => Err(f),
            Ok((named, c0)) => {
                match read_uint(c0, u32::MAX as int) {
                    Err(f) => Err(f),
                    Ok((address, c1)) => {
                        match read_uint(c1, u32::MAX as int) {
                            Err(f) => Err(f),
                            Ok((size, c2)) => {
                                Ok(
                                    (
                                        BlobView {
                                            named,
                                            addr: AddressFieldsView {
                                                address: Some((address as u32)),
                                                ..v.addr
                                            },
                                            size: (size as u32),
                                            ..v
                                        },
                                        c2
                                    )
                                )
                            },
                        }
                    },
                }
            },
        }
    }

    fn read_head(cur: &mut ParamCursor) -> (r: Result<Self>)
        ensures
            match r {
                Ok(v) => Blob::head(old(cur)@) == Ok::<_, Failure>((v@, final(cur)@)),
                Err(e) => Blob::head(old(cur)@) == Err::<(BlobView, Cur), _>(e@),
            },
    {
        let named = NamedFields::read_header(cur)?;
        let address = cur.uint::<u32>()?;
        let size = cur.uint::<u32>()?;
        let mut node = Blob::default();
        node.named = named;
        node.addr.address = Some(address);
        node.size = size;
        Ok(node)
    }
}

impl Blob {
    /// What the parameters at the cursor set, and where the next ones start.
    pub open spec fn option(v: BlobView, c: Cur) -> Got<BlobView> {
        if c.at("ADDRESS_TYPE"@) {
            match read_enum::<AddrType>(c.step(), "BLOB: unknown enum keyword "@) {
                Err(f) => Err(f),
                Ok((x, c0)) => {
                    Ok((BlobView { addr_type: x, ..v }, c0))
                },
            }
        } else {
            match AddressFields::taken(v.addr, c) {
                Err(f) => Err(f),
                Ok(Some((part, n))) => Ok((BlobView { addr: part, ..v }, n)),
                Ok(None) => {
                    match read_token(c) {
                        Err(f) => Err(f),
                        Ok((_t, c0)) => {
                            Ok((v, c0))
                        },
                    }
                },
            }
        }
    }

    /// What all the parameters from the cursor on set, and where reading them ends.
    pub open spec fn options(v: BlobView, c: Cur) -> Got<BlobView>
        decreases c.left(),
    {
        if !c.more() {
            Ok((v, c))
        } else {
            match Blob::option(v, c) {
                Err(f) => Err(f),
                Ok((w, n)) => if 0 <= n.left() < c.left() {
                    Blob::options(w, n)
                } else {
                    arbitrary()
                },
            }
        }
    }

    fn read_option(&mut self, cur: &mut ParamCursor) -> (r: Result<()>)
        requires
            old(cur)@.more(),
        ensures
            match r {
                Ok(()) => {
                    &&& Blob::option(old(self)@, old(cur)@) == Ok::<_, Failure>(
                        (final(self)@, final(cur)@),
                    )
                    &&& 0 <= final(cur)@.left() < old(cur)@.left()
                },
                Err(e) => Blob::option(old(self)@, old(cur)@) == Err::<(BlobView, Cur), _>(e@),
            },
    {
        if cur.take_if("ADDRESS_TYPE") {
            let x = enum_value::<AddrType>(cur, "BLOB: unknown enum keyword ")?;
            self.addr_type = x;
            return Ok(());
        }
        if self.addr.take(cur)? {
            return Ok(());
        }
        let _t = cur.next_token()?;
        Ok(())
    }

    fn read_options(&mut self, cur: &mut ParamCursor) -> (r: Result<()>)
        ensures
            match r {
                Ok(()) => {
                    &&& Blob::options(old(self)@, old(cur)@) == Ok::<_, Failure>(
                        (final(self)@, final(cur)@),
                    )
                    &&& final(cur)@.left() <= old(cur)@.left()
                    &&& final(cur)@ == old(cur)@ || final(cur)@.left() >= 0
                },
                Err(e) => Blob::options(old(self)@, old(cur)@) == Err::<(BlobView, Cur), _>(e@),
            },
    {
        let ghost whole = Blob::options(self@, cur@);
        while !cur.is_empty()
            invariant
                whole == Blob::options(self@, cur@),
                whole == Blob::options(old(self)@, old(cur)@),
                cur@.left() <= old(cur)@.left(),
                cur@ == old(cur)@ || cur@.left() >= 0,
            decreases cur@.left(),
        {
            self.read_option(cur)?;
        }
        Ok(())
    }
}

impl Node for Blob {
    open spec fn keyword_text() -> Seq<char> {
        "BLOB"@
    }

    open spec fn parsed(tree: Tree) -> std::result::Result<BlobView, Failure> {
        match Blob::head(Cur::start(tree)) {
            Err(f) => Err(f),
            Ok((v, c)) => match Blob::options(v, c) {
                Err(f) => Err(f),
                Ok((v, _)) => match children_parsed::<BlobChild>(children_of(tree.items), 0) {
                    Err(f) => Err(f),
                    Ok(children) => Ok(BlobView { children, ..v }),
                },
            },
        }
    }

    open spec fn keeps(&self, tree: Tree) -> bool {
        all_kept(self.children@, tree)
    }

    open spec fn body(v: BlobView, p: Page) -> Written {
        let p = NamedFields::written(v.named, p);
        let p = match v.addr.address { Some(x) => p.line(hex_form(x as nat)), None => p };
        let p = p.line(hex_form(v.size as nat));
        let p = AddressFields::written(v.addr, p);
        let p = if v.addr_type != AddrType::DIRECT {
            match v.addr_type.word() { Some(kw) => p.word("ADDRESS_TYPE"@, kw), None => p }
        } else { p };
        children_written::<BlobChild>(v.children, 0, false, p)
    }

    open spec fn block(v: BlobView, p: Page) -> Written {
        enclosed("BLOB"@, Self::body(v, p.begin("BLOB "@ + v.named.name)))
    }

    fn keyword() -> (r: &'static str) {
        "BLOB"
    }

    fn parse(block: &Block) -> (r: Result<Self>) {
        let mut cur = ParamCursor::new(block);
        let mut node = Blob::read_head(&mut cur)?;
        node.read_options(&mut cur)?;
        node.children = read_children::<BlobChild>(block)?;
        Ok(node)
    }

    fn write_body(&self, w: &mut Writer) -> (r: Result<()>) {
        self.named.write(w)?;
        if let Some(x) = &self.addr.address {
            w.line(to_hex(*x as u64).as_str());
        }
        w.line(to_hex(self.size as u64).as_str());
        self.addr.write(w)?;
        if self.addr_type != AddrType::DIRECT {
            if let Some(kw) = self.addr_type.as_keyword() {
                w.word("ADDRESS_TYPE", kw);
            }
        }
        write_children(&self.children, false, w)
    }

    fn write_block(&self, w: &mut Writer) -> (r: Result<()>) {
        let mut s = "BLOB ".to_string();
        s.append(self.named.name.as_str());
        w.begin_block(s.as_str());
        self.write_body(w)?;
        w.end_block("BLOB");
        Ok(())
    }
}

/// A block within the node.
#[derive(Debug, Clone, PartialEq, Eq)]
pub enum InstanceChild {
    /// `/begin ANNOTATION`.
    Annotation(Annotation),
    Unsupported(UnsupportedNode),
}

/// [`InstanceChild`] as a mathematical value.
pub enum InstanceChildView {
    Annotation(AnnotationView),
    Unsupported(UnsupportedNodeView),
}

impl View for InstanceChild {
    type V = InstanceChildView;

    open spec fn view(&self) -> InstanceChildView {
        match self {
            InstanceChild::Annotation(n) => InstanceChildView::Annotation(n@),
            InstanceChild::Unsupported(n) => InstanceChildView::Unsupported(n@),
        }
    }
}

impl Child for InstanceChild {
    open spec fn parsed(tree: Tree) -> std::result::Result<InstanceChildView, Failure> {
        if same_ignore_case(tree.keyword, "ANNOTATION"@) {
            match node_parsed::<Annotation>(tree) {
                Ok(n) => Ok(InstanceChildView::Annotation(n)),
                Err(f) => Err(f),
            }
        } else {
            Ok(InstanceChildView::Unsupported(UnsupportedNode::of(tree)))
        }
    }

    open spec fn kept(&self, tree: Tree) -> bool {
        match self {
            InstanceChild::Annotation(n) => n.keeps(tree),
            InstanceChild::Unsupported(n) => n.kept(tree),
        }
    }

    open spec fn written(v: InstanceChildView, p: Page) -> Written {
        match v {
            InstanceChildView::Annotation(n) => node_written::<Annotation>(n, p),
            InstanceChildView::Unsupported(n) => UnsupportedNode::written(n, p),
        }
    }

    fn read(block: &Block) -> (r: Result<Self>) {
        if eq_ignore_case(block.keyword.as_str(), "ANNOTATION") {
            return Ok(InstanceChild::Annotation(parse_node::<Annotation>(block)?));
        }
        Ok(InstanceChild::Unsupported(UnsupportedNode::from_block(block)))
    }

    fn write(&self, w: &mut Writer) -> (r: Result<()>) {
        self.write_block(w)
    }
}

impl InstanceChild {
    pub fn write_block(&self, w: &mut Writer) -> (r: Result<()>)
        ensures
            match r {
                Ok(()) => InstanceChild::written(self@, old(w)@) == Ok::<Page, Stopped>(final(w)@),
                Err(e) => InstanceChild::written(self@, old(w)@) == Err::<Page, Stopped>(final(w)@.stopped(e@)),
            },
    {
        match self {
            InstanceChild::Annotation(n) => write_node(n, w),
            InstanceChild::Unsupported(n) => n.write_block(w),
        }
    }
}

/// `INSTANCE`: an object of a defined type.
#[derive(Debug, Clone, PartialEq, Eq)]
pub struct Instance {
    pub named: NamedFields,
    pub typedef_name: String,
    pub addr: AddressFields,
    pub layout: IndexMode,
    pub read_write: bool,
    pub matrix_dim: Option<Vec<i32>>,
    pub children: Vec<InstanceChild>,
}

/// [`Instance`] as a mathematical value.
pub struct InstanceView {
    pub named: NamedFieldsView,
    pub typedef_name: Seq<char>,
    pub addr: AddressFieldsView,
    pub layout: IndexMode,
    pub read_write: bool,
    pub matrix_dim: Option<Seq<i32>>,
    pub children: Seq<InstanceChildView>,
}

impl View for Instance {
    type V = InstanceView;

    open spec fn view(&self) -> InstanceView {
        InstanceView {
            named: self.named@,
            typedef_name: self.typedef_name@,
            addr: self.addr@,
            layout: self.layout,
            read_write: self.read_write,
            matrix_dim: opt(self.matrix_dim),
            children: views(self.children@),
        }
    }
}

impl Instance {
    /// The node before anything is read.
    pub open spec fn blank() -> InstanceView {
        InstanceView {
            named: NamedFields::blank(),
            typedef_name: Seq::empty(),
            addr: AddressFields::blank(),
            layout: IndexMode::blank(),
            read_write: false,
            matrix_dim: None,
            children: Seq::empty(),
        }
    }
}

impl Default for Instance {
    fn default() -> (r: Self)
        ensures
            r@ == Instance::blank(),
    {
        Instance {
            named: NamedFields::default(),
            typedef_name: no_text(),
            addr: AddressFields::default(),
            layout: IndexMode::default(),
            read_write: false,
            matrix_dim: None,
            children: none_yet(),
        }
    }
}

impl Instance {
    /// What the parameters at the start say, and where the next ones start.
    pub open spec fn head(c: Cur) -> Got<InstanceView> {
        let v = Instance::blank();
        match NamedFields::head(c) {
            Err(f) => Err(f),
            Ok((named, c0)) => {
                match read_ident(c0) {
                    Err(f) => Err(f),
                    Ok((typedef_name, c1)) => {
                        match read_uint(c1, u32::MAX as int) {
                            Err(f) => Err(f),
                            Ok((address, c2)) => {
                                Ok(
                                    (
                                        InstanceView {
                                            named,
                                            typedef_name,
                                            addr: AddressFieldsView {
                                                address: Some((address as u32)),
                                                ..v.addr
                                            },
                                            ..v
                                        },
                                        c2
                                    )
                                )
                            },
                        }
                    },
                }
            },
        }
    }

    fn read_head(cur: &mut ParamCursor) -> (r: Result<Self>)
        ensures
            match r {
                Ok(v) => Instance::head(old(cur)@) == Ok::<_, Failure>((v@, final(cur)@)),
                Err(e) => Instance::head(old(cur)@) == Err::<(InstanceView, Cur), _>(e@),
            },
    {
        let named = NamedFields::read_header(cur)?;
        let typedef_name = cur.ident()?;
        let address = cur.uint::<u32>()?;
        let mut node = Instance::default();
        node.named = named;
        node.typedef_name = typedef_name;
        node.addr.address = Some(address);
        Ok(node)
    }
}

impl Instance {
    /// What the parameters at the cursor set, and where the next ones start.
    pub open spec fn option(v: InstanceView, c: Cur) -> Got<InstanceView> {
        if c.at("LAYOUT"@) {
            match read_enum::<IndexMode>(c.step(), "INSTANCE: unknown enum keyword "@) {
                Err(f) => Err(f),
                Ok((x, c0)) => {
                    Ok((InstanceView { layout: x, ..v }, c0))
                },
            }
        } else if c.at("READ_WRITE"@) {
            Ok((InstanceView { read_write: true, ..v }, c.step()))
        } else if c.at("MATRIX_DIM"@) {
            match read_dims(c.step()) {
                Err(f) => Err(f),
                Ok((x, c0)) => {
                    Ok((InstanceView { matrix_dim: Some(x), ..v }, c0))
                },
            }
        } else {
            match AddressFields::taken(v.addr, c) {
                Err(f) => Err(f),
                Ok(Some((part, n))) => Ok((InstanceView { addr: part, ..v }, n)),
                Ok(None) => {
                    match read_token(c) {
                        Err(f) => Err(f),
                        Ok((_t, c0)) => {
                            Ok((v, c0))
                        },
                    }
                },
            }
        }
    }

    /// What all the parameters from the cursor on set, and where reading them ends.
    pub open spec fn options(v: InstanceView, c: Cur) -> Got<InstanceView>
        decreases c.left(),
    {
        if !c.more() {
            Ok((v, c))
        } else {
            match Instance::option(v, c) {
                Err(f) => Err(f),
                Ok((w, n)) => if 0 <= n.left() < c.left() {
                    Instance::options(w, n)
                } else {
                    arbitrary()
                },
            }
        }
    }

    fn read_option(&mut self, cur: &mut ParamCursor) -> (r: Result<()>)
        requires
            old(cur)@.more(),
        ensures
            match r {
                Ok(()) => {
                    &&& Instance::option(old(self)@, old(cur)@) == Ok::<_, Failure>(
                        (final(self)@, final(cur)@),
                    )
                    &&& 0 <= final(cur)@.left() < old(cur)@.left()
                },
                Err(e) => Instance::option(old(self)@, old(cur)@) == Err::<(InstanceView, Cur), _>(e@),
            },
    {
        if cur.take_if("LAYOUT") {
            let x = enum_value::<IndexMode>(cur, "INSTANCE: unknown enum keyword ")?;
            self.layout = x;
            return Ok(());
        }
        if cur.take_if("READ_WRITE") {
            self.read_write = true;
            return Ok(());
        }
        if cur.take_if("MATRIX_DIM") {
            let x = matrix_dim(cur);
            self.matrix_dim = Some(x);
            return Ok(());
        }
        if self.addr.take(cur)? {
            return Ok(());
        }
        let _t = cur.next_token()?;
        Ok(())
    }

    fn read_options(&mut self, cur: &mut ParamCursor) -> (r: Result<()>)
        ensures
            match r {
                Ok(()) => {
                    &&& Instance::options(old(self)@, old(cur)@) == Ok::<_, Failure>(
                        (final(self)@, final(cur)@),
                    )
                    &&& final(cur)@.left() <= old(cur)@.left()
                    &&& final(cur)@ == old(cur)@ || final(cur)@.left() >= 0
                },
                Err(e) => Instance::options(old(self)@, old(cur)@) == Err::<(InstanceView, Cur), _>(e@),
            },
    {
        let ghost whole = Instance::options(self@, cur@);
        while !cur.is_empty()
            invariant
                whole == Instance::options(self@, cur@),
                whole == Instance::options(old(self)@, old(cur)@),
                cur@.left() <= old(cur)@.left(),
                cur@ == old(cur)@ || cur@.left() >= 0,
            decreases cur@.left(),
        {
            self.read_option(cur)?;
        }
        Ok(())
    }
}

impl Node for Instance {
    open spec fn keyword_text() -> Seq<char> {
        "INSTANCE"@
    }

    open spec fn parsed(tree: Tree) -> std::result::Result<InstanceView, Failure> {
        match Instance::head(Cur::start(tree)) {
            Err(f) => Err(f),
            Ok((v, c)) => match Instance::options(v, c) {
                Err(f) => Err(f),
                Ok((v, _)) => match children_parsed::<InstanceChild>(children_of(tree.items), 0) {
                    Err(f) => Err(f),
                    Ok(children) => Ok(InstanceView { children, ..v }),
                },
            },
        }
    }

    open spec fn keeps(&self, tree: Tree) -> bool {
        all_kept(self.children@, tree)
    }

    open spec fn body(v: InstanceView, p: Page) -> Written {
        let p = NamedFields::written(v.named, p);
        let p = p.line(v.typedef_name);
        let p = match v.addr.address { Some(x) => p.line(hex_form(x as nat)), None => p };
        let p = AddressFields::written(v.addr, p);
        let p = match v.layout.word() { Some(kw) => p.word("LAYOUT"@, kw), None => p };
        let p = if v.read_write { p.line("READ_WRITE"@) } else { p };
        let p = match v.matrix_dim { Some(x) => p.word("MATRIX_DIM"@, listed(x)), None => p };
        children_written::<InstanceChild>(v.children, 0, false, p)
    }

    open spec fn block(v: InstanceView, p: Page) -> Written {
        enclosed("INSTANCE"@, Self::body(v, p.begin("INSTANCE "@ + v.named.name)))
    }

    fn keyword() -> (r: &'static str) {
        "INSTANCE"
    }

    fn parse(block: &Block) -> (r: Result<Self>) {
        let mut cur = ParamCursor::new(block);
        let mut node = Instance::read_head(&mut cur)?;
        node.read_options(&mut cur)?;
        node.children = read_children::<InstanceChild>(block)?;
        Ok(node)
    }

    fn write_body(&self, w: &mut Writer) -> (r: Result<()>) {
        self.named.write(w)?;
        w.line(self.typedef_name.as_str());
        if let Some(x) = &self.addr.address {
            w.line(to_hex(*x as u64).as_str());
        }
        self.addr.write(w)?;
        if let Some(kw) = self.layout.as_keyword() {
            w.word("LAYOUT", kw);
        }
        if self.read_write {
            w.line("READ_WRITE");
        }
        if let Some(x) = &self.matrix_dim {
            w.word("MATRIX_DIM", dims_text(x.as_slice()).as_str());
        }
        write_children(&self.children, false, w)
    }

    fn write_block(&self, w: &mut Writer) -> (r: Result<()>) {
        let mut s = "INSTANCE ".to_string();
        s.append(self.named.name.as_str());
        w.begin_block(s.as_str());
        self.write_body(w)?;
        w.end_block("INSTANCE");
        Ok(())
    }
}

} // verus!
