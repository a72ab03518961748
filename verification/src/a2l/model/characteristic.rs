//! `CHARACTERISTIC` and `AXIS_PTS`.

use crate::a2l::block::{Block, Tree, children_of};
use crate::a2l::error::{Failure, Result};
use crate::a2l::model::annotation::{Annotation, AnnotationView};
use crate::a2l::model::base::{
    AddressFields, AddressFieldsView, ConversionRefFields, ConversionRefFieldsView, NamedFields,
    NamedFieldsView, RecordLayoutRefFields, RecordLayoutRefFieldsView,
};
use crate::a2l::model::enums::{
    A2lKeyword, CharacteristicType, DepositType, EncodingType, MonotonyType,
};
use crate::a2l::model::function::{
    DependentCharacteristic, DependentCharacteristicView, VirtualCharacteristic,
    VirtualCharacteristicView,
};
use crate::a2l::model::measurement::{AxisDescr, AxisDescrView};
use crate::a2l::model::parts::{all_kept, 
    Child, children_parsed, children_written, dims_text, enum_value, hex_form, listed, matrix_dim,
    node_parsed, node_written, parse_node, read_children, read_dims, read_enum, to_hex,
    write_children, write_node,
};
use crate::a2l::model::unsupported::{UnsupportedNode, UnsupportedNodeView};
use crate::a2l::node::{Node, enclosed};
use crate::a2l::params::{
    Cur, Got, ParamCursor, read_float, read_ident, read_int, read_token, read_uint,
};
use crate::a2l::writer::{Page, Writer, Written, Stopped};
use crate::text::{dec_int, dec_int_text, eq_ignore_case, same_ignore_case};
use crate::views::{append, none_yet, opt, views};
use vstd::prelude::*;

verus! {

/// A block within the node.
#[allow(clippy::large_enum_variant)]
#[derive(Debug, Clone, PartialEq, Eq)]
pub enum CharacteristicChild {
    /// `/begin ANNOTATION`.
    Annotation(Annotation),
    /// `/begin AXIS_DESCR`.
    AxisDescr(AxisDescr),
    /// `/begin DEPENDENT_CHARACTERISTIC`.
    DependentCharacteristic(DependentCharacteristic),
    /// `/begin VIRTUAL_CHARACTERISTIC`.
    VirtualCharacteristic(VirtualCharacteristic),
    Unsupported(UnsupportedNode),
}

/// [`CharacteristicChild`] as a mathematical value.
pub enum CharacteristicChildView {
    Annotation(AnnotationView),
    AxisDescr(AxisDescrView),
    DependentCharacteristic(DependentCharacteristicView),
    VirtualCharacteristic(VirtualCharacteristicView),
    Unsupported(UnsupportedNodeView),
}

impl View for CharacteristicChild {
    type V = CharacteristicChildView;

    open spec fn view(&self) -> CharacteristicChildView {
        match self {
            CharacteristicChild::Annotation(n) => CharacteristicChildView::Annotation(n@),
            CharacteristicChild::AxisDescr(n) => CharacteristicChildView::AxisDescr(n@),
            CharacteristicChild::DependentCharacteristic(n) => CharacteristicChildView::DependentCharacteristic(n@),
            CharacteristicChild::VirtualCharacteristic(n) => CharacteristicChildView::VirtualCharacteristic(n@),
            CharacteristicChild::Unsupported(n) => CharacteristicChildView::Unsupported(n@),
        }
    }
}

impl Child for CharacteristicChild {
    open spec fn parsed(tree: Tree) -> std::result::Result<CharacteristicChildView, Failure> {
        if same_ignore_case(tree.keyword, "ANNOTATION"@) {
            match node_parsed::<Annotation>(tree) {
                Ok(n) => Ok(CharacteristicChildView::Annotation(n)),
                Err(f) => Err(f),
            }
        } else if same_ignore_case(tree.keyword, "AXIS_DESCR"@) {
            match node_parsed::<AxisDescr>(tree) {
                Ok(n) => Ok(CharacteristicChildView::AxisDescr(n)),
                Err(f) => Err(f),
            }
        } else if same_ignore_case(tree.keyword, "DEPENDENT_CHARACTERISTIC"@) {
            match node_parsed::<DependentCharacteristic>(tree) {
                Ok(n) => Ok(CharacteristicChildView::DependentCharacteristic(n)),
                Err(f) => Err(f),
            }
        } else if same_ignore_case(tree.keyword, "VIRTUAL_CHARACTERISTIC"@) {
            match node_parsed::<VirtualCharacteristic>(tree) {
                Ok(n) => Ok(CharacteristicChildView::VirtualCharacteristic(n)),
                Err(f) => Err(f),
            }
        } else {
            Ok(CharacteristicChildView::Unsupported(UnsupportedNode::of(tree)))
        }
    }

    open spec fn kept(&self, tree: Tree) -> bool {
        match self {
            CharacteristicChild::Annotation(n) => n.keeps(tree),
            CharacteristicChild::AxisDescr(n) => n.keeps(tree),
            CharacteristicChild::DependentCharacteristic(n) => n.keeps(tree),
            CharacteristicChild::VirtualCharacteristic(n) => n.keeps(tree),
            CharacteristicChild::Unsupported(n) => n.kept(tree),
        }
    }

    open spec fn written(v: CharacteristicChildView, p: Page) -> Written {
        match v {
            CharacteristicChildView::Annotation(n) => node_written::<Annotation>(n, p),
            CharacteristicChildView::AxisDescr(n) => node_written::<AxisDescr>(n, p),
            CharacteristicChildView::DependentCharacteristic(n) => node_written::<DependentCharacteristic>(n, p),
            CharacteristicChildView::VirtualCharacteristic(n) => node_written::<VirtualCharacteristic>(n, p),
            CharacteristicChildView::Unsupported(n) => UnsupportedNode::written(n, p),
        }
    }

    fn read(block: &Block) -> (r: Result<Self>) {
        if eq_ignore_case(block.keyword.as_str(), "ANNOTATION") {
            return Ok(CharacteristicChild::Annotation(parse_node::<Annotation>(block)?));
        }
        if eq_ignore_case(block.keyword.as_str(), "AXIS_DESCR") {
            return Ok(CharacteristicChild::AxisDescr(parse_node::<AxisDescr>(block)?));
        }
        if eq_ignore_case(block.keyword.as_str(), "DEPENDENT_CHARACTERISTIC") {
            return Ok(CharacteristicChild::DependentCharacteristic(parse_node::<DependentCharacteristic>(block)?));
        }
        if eq_ignore_case(block.keyword.as_str(), "VIRTUAL_CHARACTERISTIC") {
            return Ok(CharacteristicChild::VirtualCharacteristic(parse_node::<VirtualCharacteristic>(block)?));
        }
        Ok(CharacteristicChild::Unsupported(UnsupportedNode::from_block(block)))
    }

    fn write(&self, w: &mut Writer) -> (r: Result<()>) {
        self.write_block(w)
    }
}

impl CharacteristicChild {
    pub fn write_block(&self, w: &mut Writer) -> (r: Result<()>)
        ensures
            match r {
                Ok(()) => CharacteristicChild::written(self@, old(w)@) == Ok::<Page, Stopped>(final(w)@),
                Err(e) => CharacteristicChild::written(self@, old(w)@) == Err::<Page, Stopped>(final(w)@.stopped(e@)),
            },
    {
        match self {
            CharacteristicChild::Annotation(n) => write_node(n, w),
            CharacteristicChild::AxisDescr(n) => write_node(n, w),
            CharacteristicChild::DependentCharacteristic(n) => write_node(n, w),
            CharacteristicChild::VirtualCharacteristic(n) => write_node(n, w),
            CharacteristicChild::Unsupported(n) => n.write_block(w),
        }
    }
}

/// `CHARACTERISTIC`: a value that is calibrated.
#[derive(Debug, Clone, PartialEq, Eq)]
pub struct Characteristic {
    pub named: NamedFields,
    pub char_type: CharacteristicType,
    pub addr: AddressFields,
    pub conv: ConversionRefFields,
    pub rec: RecordLayoutRefFields,
    pub bitmask: Option<u64>,
    pub number: i32,
    pub matrix_dim: Option<Vec<i32>>,
    pub comparison_quantity: Option<String>,
    pub discrete: bool,
    pub encoding: EncodingType,
    pub children: Vec<CharacteristicChild>,
}

/// [`Characteristic`] as a mathematical value.
pub struct CharacteristicView {
    pub named: NamedFieldsView,
    pub char_type: CharacteristicType,
    pub addr: AddressFieldsView,
    pub conv: ConversionRefFieldsView,
    pub rec: RecordLayoutRefFieldsView,
    pub bitmask: Option<u64>,
    pub number: i32,
    pub matrix_dim: Option<Seq<i32>>,
    pub comparison_quantity: Option<Seq<char>>,
    pub discrete: bool,
    pub encoding: EncodingType,
    pub children: Seq<CharacteristicChildView>,
}

impl View for Characteristic {
    type V = CharacteristicView;

    open spec fn view(&self) -> CharacteristicView {
        CharacteristicView {
            named: self.named@,
            char_type: self.char_type,
            addr: self.addr@,
            conv: self.conv@,
            rec: self.rec@,
            bitmask: self.bitmask,
            number: self.number,
            matrix_dim: opt(self.matrix_dim),
            comparison_quantity: opt(self.comparison_quantity),
            discrete: self.discrete,
            encoding: self.encoding,
            children: views(self.children@),
        }
    }
}

impl Characteristic {
    /// The node before anything is read.
    pub open spec fn blank() -> CharacteristicView {
        CharacteristicView {
            named: NamedFields::blank(),
            char_type: CharacteristicType::blank(),
            addr: AddressFields::blank(),
            conv: ConversionRefFields::blank(),
            rec: RecordLayoutRefFields::blank(),
            bitmask: None,
            number: 0,
            matrix_dim: None,
            comparison_quantity: None,
            discrete: false,
            encoding: EncodingType::ASCII,
            children: Seq::empty(),
        }
    }
}

impl Default for Characteristic {
    fn default() -> (r: Self)
        ensures
            r@ == Characteristic::blank(),
    {
        Characteristic {
            named: NamedFields::default(),
            char_type: CharacteristicType::default(),
            addr: AddressFields::default(),
            conv: ConversionRefFields::default(),
            rec: RecordLayoutRefFields::default(),
            bitmask: None,
            number: 0,
            matrix_dim: None,
            comparison_quantity: None,
            discrete: false,
            encoding: EncodingType::ASCII,
            children: none_yet(),
        }
    }
}

impl Characteristic {
    /// What the parameters at the start say, and where the next ones start.
    pub open spec fn head(c: Cur) -> Got<CharacteristicView> {
        let v = Characteristic::blank();
        match NamedFields::head(c) {
            Err(f) => Err(f),
            Ok((named, c0)) => {
                match read_enum::<CharacteristicType>(c0, "CHARACTERISTIC: unknown enum keyword "@) {
                    Err(f) => Err(f),
                    Ok((char_type, c1)) => {
                        match read_uint(c1, u32::MAX as int) {
                            Err(f) => Err(f),
                            Ok((address, c2)) => {
                                match read_ident(c2) {
                                    Err(f) => Err(f),
                                    Ok((record_layout, c3)) => {
                                        match read_float(c3) {
                                            Err(f) => Err(f),
                                            Ok((max_diff, c4)) => {
                                                match read_ident(c4) {
                                                    Err(f) => Err(f),
                                                    Ok((conversion, c5)) => {
                                                        match read_float(c5) {
                                                            Err(f) => Err(f),
                                                            Ok((lower_limit, c6)) => {
                                                                match read_float(c6) {
                                                                    Err(f) => Err(f),
                                                                    Ok((upper_limit, c7)) => {
                                                                        Ok(
                                                                            (
                                                                                CharacteristicView {
                                                                                    named,
                                                                                    char_type,
                                                                                    addr: AddressFieldsView {
                                                                                        address: Some((address as u32)),
                                                                                        ..v.addr
                                                                                    },
                                                                                    rec: RecordLayoutRefFieldsView {
                                                                                        record_layout,
                                                                                        max_diff,
                                                                                        ..v.rec
                                                                                    },
                                                                                    conv: ConversionRefFieldsView {
                                                                                        conversion,
                                                                                        lower_limit,
                                                                                        upper_limit,
                                                                                        ..v.conv
                                                                                    },
                                                                                    ..v
                                                                                },
                                                                                c7
                                                                            )
                                                                        )
                                                                    },
                                                                }
                                                            },
                                                        }
                                                    },
                                                }
                                            },
                                        }
                                    },
                                }
                            },
                        }
                    },
                }
            },
        }
    }

    fn read_head(cur: &mut ParamCursor) -> (r: Result<Self>)
        ensures
            match r {
                Ok(v) => Characteristic::head(old(cur)@) == Ok::<_, Failure>((v@, final(cur)@)),
                Err(e) => Characteristic::head(old(cur)@) == Err::<(CharacteristicView, Cur), _>(e@),
            },
    {
        let named = NamedFields::read_header(cur)?;
        let char_type = enum_value::<CharacteristicType>(cur, "CHARACTERISTIC: unknown enum keyword ")?;
        let address = cur.uint::<u32>()?;
        let record_layout = cur.ident()?;
        let max_diff = cur.float()?;
        let conversion = cur.ident()?;
        let lower_limit = cur.float()?;
        let upper_limit = cur.float()?;
        let mut node = Characteristic::default();
        node.named = named;
        node.char_type = char_type;
        node.addr.address = Some(address);
        node.rec.record_layout = record_layout;
        node.rec.max_diff = max_diff;
        node.conv.conversion = conversion;
        node.conv.lower_limit = lower_limit;
        node.conv.upper_limit = upper_limit;
        Ok(node)
    }
}

impl Characteristic {
    /// What the parameters at the cursor set, and where the next ones start.
    pub open spec fn option(v: CharacteristicView, c: Cur) -> Got<CharacteristicView> {
        match AddressFields::taken(v.addr, c) {
            Err(f) => Err(f),
            Ok(Some((part, n))) => Ok((CharacteristicView { addr: part, ..v }, n)),
            Ok(None) => {
                match ConversionRefFields::taken(v.conv, c) {
                    Err(f) => Err(f),
                    Ok(Some((part, n))) => Ok((CharacteristicView { conv: part, ..v }, n)),
                    Ok(None) => {
                        match RecordLayoutRefFields::taken(v.rec, c) {
                            Err(f) => Err(f),
                            Ok(Some((part, n))) => Ok((CharacteristicView { rec: part, ..v }, n)),
                            Ok(None) => {
                                if c.at("BIT_MASK"@) {
                                    match read_uint(c.step(), u64::MAX as int) {
                                        Err(f) => Err(f),
                                        Ok((x, c0)) => {
                                            Ok((CharacteristicView { bitmask: Some((x as u64)), ..v }, c0))
                                        },
                                    }
                                } else if c.at("NUMBER"@) {
                                    match read_int(c.step(), i32::MIN as int, i32::MAX as int) {
                                        Err(f) => Err(f),
                                        Ok((x, c0)) => {
                                            Ok((CharacteristicView { number: (x as i32), ..v }, c0))
                                        },
                                    }
                                } else if c.at("MATRIX_DIM"@) {
                                    match read_dims(c.step()) {
                                        Err(f) => Err(f),
                                        Ok((x, c0)) => {
                                            Ok((CharacteristicView { matrix_dim: Some(x), ..v }, c0))
                                        },
                                    }
                                } else if c.at("COMPARISON_QUANTITY"@) {
                                    match read_ident(c.step()) {
                                        Err(f) => Err(f),
                                        Ok((x, c0)) => {
                                            Ok((CharacteristicView { comparison_quantity: Some(x), ..v }, c0))
                                        },
                                    }
                                } else if c.at("DISCRETE"@) {
                                    Ok((CharacteristicView { discrete: true, ..v }, c.step()))
                                } else if c.at("ENCODING"@) {
                                    match read_enum::<EncodingType>(
                                        c.step(),
                                        "CHARACTERISTIC: unknown enum keyword "@
                                    ) {
                                        Err(f) => Err(f),
                                        Ok((x, c0)) => {
                                            Ok((CharacteristicView { encoding: x, ..v }, c0))
                                        },
                                    }
                                } else {
                                    match read_token(c) {
                                        Err(f) => Err(f),
                                        Ok((_t, c0)) => {
                                            Ok((v, c0))
                                        },
                                    }
                                }
                            },
                        }
                    },
                }
            },
        }
    }

    /// What all the parameters from the cursor on set, and where reading them ends.
    pub open spec fn options(v: CharacteristicView, c: Cur) -> Got<CharacteristicView>
        decreases c.left(),
    {
        if !c.more() {
            Ok((v, c))
        } else {
            match Characteristic::option(v, c) {
                Err(f) => Err(f),
                Ok((w, n)) => if 0 <= n.left() < c.left() {
                    Characteristic::options(w, n)
                } else {
                    arbitrary()
                },
            }
        }
    }

    fn read_option(&mut self, cur: &mut ParamCursor) -> (r: Result<()>)
        requires
            old(cur)@.more(),
        ensures
            match r {
                Ok(()) => {
                    &&& Characteristic::option(old(self)@, old(cur)@) == Ok::<_, Failure>(
                        (final(self)@, final(cur)@),
                    )
                    &&& 0 <= final(cur)@.left() < old(cur)@.left()
                },
                Err(e) => Characteristic::option(old(self)@, old(cur)@) == Err::<(CharacteristicView, Cur), _>(e@),
            },
    {
        if self.addr.take(cur)? {
            return Ok(());
        }
        if self.conv.take(cur)? {
            return Ok(());
        }
        if self.rec.take(cur)? {
            return Ok(());
        }
        if cur.take_if("BIT_MASK") {
            let x = cur.uint::<u64>()?;
            self.bitmask = Some(x);
            return Ok(());
        }
        if cur.take_if("NUMBER") {
            let x = cur.sint::<i32>()?;
            self.number = x;
            return Ok(());
        }
        if cur.take_if("MATRIX_DIM") {
            let x = matrix_dim(cur);
            self.matrix_dim = Some(x);
            return Ok(());
        }
        if cur.take_if("COMPARISON_QUANTITY") {
            let x = cur.ident()?;
            self.comparison_quantity = Some(x);
            return Ok(());
        }
        if cur.take_if("DISCRETE") {
            self.discrete = true;
            return Ok(());
        }
        if cur.take_if("ENCODING") {
            let x = enum_value::<EncodingType>(cur, "CHARACTERISTIC: unknown enum keyword ")?;
            self.encoding = x;
            return Ok(());
        }
        let _t = cur.next_token()?;
        Ok(())
    }

    fn read_options(&mut self, cur: &mut ParamCursor) -> (r: Result<()>)
        ensures
            match r {
                Ok(()) => {
                    &&& Characteristic::options(old(self)@, old(cur)@) == Ok::<_, Failure>(
                        (final(self)@, final(cur)@),
                    )
                    &&& final(cur)@.left() <= old(cur)@.left()
                    &&& final(cur)@ == old(cur)@ || final(cur)@.left() >= 0
                },
                Err(e) => Characteristic::options(old(self)@, old(cur)@) == Err::<(CharacteristicView, Cur), _>(e@),
            },
    {
        let ghost whole = Characteristic::options(self@, cur@);
        while !cur.is_empty()
            invariant
                whole == Characteristic::options(self@, cur@),
                whole == Characteristic::options(old(self)@, old(cur)@),
                cur@.left() <= old(cur)@.left(),
                cur@ == old(cur)@ || cur@.left() >= 0,
            decreases cur@.left(),
        {
            self.read_option(cur)?;
        }
        Ok(())
    }
}

impl Characteristic {
    /// What is written for the first parameters.
    pub open spec fn opening(v: CharacteristicView, p: Page) -> Page {
        let p = NamedFields::written(v.named, p);
        let p = match v.char_type.word() { Some(kw) => p.line(kw), None => p };
        let p = p.line(hex_form(match v.addr.address { Some(x) => x as nat, None => u32::MAX as nat }));
        let p = p.line(v.rec.record_layout);
        let p = p.line(v.rec.max_diff.text);
        let p = p.line(v.conv.conversion);
        let p = ConversionRefFields::limits_written(v.conv, p);
        AddressFields::written(v.addr, p)
    }

    fn write_opening(&self, w: &mut Writer) -> (r: Result<()>)
        ensures
            r is Ok,
            final(w)@ == Characteristic::opening(self@, old(w)@),
    {
        self.named.write(w)?;
        if let Some(kw) = self.char_type.as_keyword() {
            w.line(kw);
        }
        w.line(to_hex(
                    match self.addr.address {
                        Some(x) => x as u64,
                        None => u32::MAX as u64,
                    },
                ).as_str());
        w.line(self.rec.record_layout.as_str());
        w.line(self.rec.max_diff.text.as_str());
        w.line(self.conv.conversion.as_str());
        self.conv.write_limits(w)?;
        self.addr.write(w)?;
        Ok(())
    }
}

impl Node for Characteristic {
    open spec fn keyword_text() -> Seq<char> {
        "CHARACTERISTIC"@
    }

    open spec fn parsed(tree: Tree) -> std::result::Result<CharacteristicView, Failure> {
        match Characteristic::head(Cur::start(tree)) {
            Err(f) => Err(f),
            Ok((v, c)) => match Characteristic::options(v, c) {
                Err(f) => Err(f),
                Ok((v, _)) => match children_parsed::<CharacteristicChild>(children_of(tree.items), 0) {
                    Err(f) => Err(f),
                    Ok(children) => Ok(CharacteristicView { children, ..v }),
                },
            },
        }
    }

    open spec fn keeps(&self, tree: Tree) -> bool {
        all_kept(self.children@, tree)
    }

    open spec fn body(v: CharacteristicView, p: Page) -> Written {
        let p = Characteristic::opening(v, p);
        let p = ConversionRefFields::written(v.conv, p);
        let p = RecordLayoutRefFields::written(v.rec, p);
        let p = match v.bitmask { Some(x) => p.word("BIT_MASK"@, hex_form(x as nat)), None => p };
        let p = if v.number != 0 { p.word("NUMBER"@, dec_int(v.number as int)) } else { p };
        let p = match v.matrix_dim { Some(x) => p.word("MATRIX_DIM"@, listed(x)), None => p };
        let p = match v.comparison_quantity { Some(x) if x.len() > 0 => p.line(x), _ => p };
        let p = if v.discrete { p.line("DISCRETE"@) } else { p };
        let p = if v.encoding != EncodingType::ASCII {
            match v.encoding.word() { Some(kw) => p.word("ENCODING"@, kw), None => p }
        } else { p };
        children_written::<CharacteristicChild>(v.children, 0, false, p)
    }

    open spec fn block(v: CharacteristicView, p: Page) -> Written {
        enclosed("CHARACTERISTIC"@, Self::body(v, p.begin("CHARACTERISTIC "@ + v.named.name)))
    }

    fn keyword() -> (r: &'static str) {
        "CHARACTERISTIC"
    }

    fn parse(block: &Block) -> (r: Result<Self>) {
        let mut cur = ParamCursor::new(block);
        let mut node = Characteristic::read_head(&mut cur)?;
        node.read_options(&mut cur)?;
        node.children = read_children::<CharacteristicChild>(block)?;
        Ok(node)
    }

    fn write_body(&self, w: &mut Writer) -> (r: Result<()>) {
        self.write_opening(w)?;
        self.conv.write(w)?;
        self.rec.write(w)?;
        if let Some(x) = &self.bitmask {
            w.word("BIT_MASK", to_hex(*x as u64).as_str());
        }
        if self.number != 0 {
            w.word("NUMBER", dec_int_text(self.number as i64).as_str());
        }
        if let Some(x) = &self.matrix_dim {
            w.word("MATRIX_DIM", dims_text(x.as_slice()).as_str());
        }
        if let Some(x) = &self.comparison_quantity {
            if x.as_str().unicode_len() > 0 {
                w.line(x.as_str());
            }
        }
        if self.discrete {
            w.line("DISCRETE");
        }
        if self.encoding != EncodingType::ASCII {
            if let Some(kw) = self.encoding.as_keyword() {
                w.word("ENCODING", kw);
            }
        }
        write_children(&self.children, false, w)
    }

    fn write_block(&self, w: &mut Writer) -> (r: Result<()>) {
        let mut s = "CHARACTERISTIC ".to_string();
        s.append(self.named.name.as_str());
        w.begin_block(s.as_str());
        self.write_body(w)?;
        w.end_block("CHARACTERISTIC");
        Ok(())
    }
}

/// A block within the node.
#[derive(Debug, Clone, PartialEq, Eq)]
pub enum AxisPtsChild {
    /// `/begin ANNOTATION`.
    Annotation(Annotation),
    Unsupported(UnsupportedNode),
}

/// [`AxisPtsChild`] as a mathematical value.
pub enum AxisPtsChildView {
    Annotation(AnnotationView),
    Unsupported(UnsupportedNodeView),
}

impl View for AxisPtsChild {
    type V = AxisPtsChildView;

    open spec fn view(&self) -> AxisPtsChildView {
        match self {
            AxisPtsChild::Annotation(n) => AxisPtsChildView::Annotation(n@),
            AxisPtsChild::Unsupported(n) => AxisPtsChildView::Unsupported(n@),
        }
    }
}

impl Child for AxisPtsChild {
    open spec fn parsed(tree: Tree) -> std::result::Result<AxisPtsChildView, Failure> {
        if same_ignore_case(tree.keyword, "ANNOTATION"@) {
            match node_parsed::<Annotation>(tree) {
                Ok(n) => Ok(AxisPtsChildView::Annotation(n)),
                Err(f) => Err(f),
            }
        } else {
            Ok(AxisPtsChildView::Unsupported(UnsupportedNode::of(tree)))
        }
    }

    open spec fn kept(&self, tree: Tree) -> bool {
        match self {
            AxisPtsChild::Annotation(n) => n.keeps(tree),
            AxisPtsChild::Unsupported(n) => n.kept(tree),
        }
    }

    open spec fn written(v: AxisPtsChildView, p: Page) -> Written {
        match v {
            AxisPtsChildView::Annotation(n) => node_written::<Annotation>(n, p),
            AxisPtsChildView::Unsupported(n) => UnsupportedNode::written(n, p),
        }
    }

    fn read(block: &Block) -> (r: Result<Self>) {
        if eq_ignore_case(block.keyword.as_str(), "ANNOTATION") {
            return Ok(AxisPtsChild::Annotation(parse_node::<Annotation>(block)?));
        }
        Ok(AxisPtsChild::Unsupported(UnsupportedNode::from_block(block)))
    }

    fn write(&self, w: &mut Writer) -> (r: Result<()>) {
        self.write_block(w)
    }
}

impl AxisPtsChild {
    pub fn write_block(&self, w: &mut Writer) -> (r: Result<()>)
        ensures
            match r {
                Ok(()) => AxisPtsChild::written(self@, old(w)@) == Ok::<Page, Stopped>(final(w)@),
                Err(e) => AxisPtsChild::written(self@, old(w)@) == Err::<Page, Stopped>(final(w)@.stopped(e@)),
            },
    {
        match self {
            AxisPtsChild::Annotation(n) => write_node(n, w),
            AxisPtsChild::Unsupported(n) => n.write_block(w),
        }
    }
}

/// `AXIS_PTS`: points of an axis that is shared.
#[derive(Debug, Clone, PartialEq, Eq)]
pub struct AxisPts {
    pub named: NamedFields,
    pub addr: AddressFields,
    pub conv: ConversionRefFields,
    pub rec: RecordLayoutRefFields,
    pub input_quantity: Option<String>,
    pub max_axis_points: i32,
    pub monotony: MonotonyType,
    pub deposit: DepositType,
    pub children: Vec<AxisPtsChild>,
}

/// [`AxisPts`] as a mathematical value.
pub struct AxisPtsView {
    pub named: NamedFieldsView,
    pub addr: AddressFieldsView,
    pub conv: ConversionRefFieldsView,
    pub rec: RecordLayoutRefFieldsView,
    pub input_quantity: Option<Seq<char>>,
    pub max_axis_points: i32,
    pub monotony: MonotonyType,
    pub deposit: DepositType,
    pub children: Seq<AxisPtsChildView>,
}

impl View for AxisPts {
    type V = AxisPtsView;

    open spec fn view(&self) -> AxisPtsView {
        AxisPtsView {
            named: self.named@,
            addr: self.addr@,
            conv: self.conv@,
            rec: self.rec@,
            input_quantity: opt(self.input_quantity),
            max_axis_points: self.max_axis_points,
            monotony: self.monotony,
            deposit: self.deposit,
            children: views(self.children@),
        }
    }
}

impl AxisPts {
    /// The node before anything is read.
    pub open spec fn blank() -> AxisPtsView {
        AxisPtsView {
            named: NamedFields::blank(),
            addr: AddressFields::blank(),
            conv: ConversionRefFields::blank(),
            rec: RecordLayoutRefFields::blank(),
            input_quantity: None,
            max_axis_points: 0,
            monotony: MonotonyType::blank(),
            deposit: DepositType::blank(),
            children: Seq::empty(),
        }
    }
}

impl Default for AxisPts {
    fn default() -> (r: Self)
        ensures
            r@ == AxisPts::blank(),
    {
        AxisPts {
            named: NamedFields::default(),
            addr: AddressFields::default(),
            conv: ConversionRefFields::default(),
            rec: RecordLayoutRefFields::default(),
            input_quantity: None,
            max_axis_points: 0,
            monotony: MonotonyType::default(),
            deposit: DepositType::default(),
            children: none_yet(),
        }
    }
}

impl AxisPts {
    /// What the parameters at the start say, and where the next ones start.
    pub open spec fn head(c: Cur) -> Got<AxisPtsView> {
        let v = AxisPts::blank();
        match NamedFields::head(c) {
            Err(f) => Err(f),
            Ok((named, c0)) => {
                match read_uint(c0, u32::MAX as int) {
                    Err(f) => Err(f),
                    Ok((address, c1)) => {
                        match read_ident(c1) {
                            Err(f) => Err(f),
                            Ok((input_quantity, c2)) => {
                                match read_ident(c2) {
                                    Err(f) => Err(f),
                                    Ok((record_layout, c3)) => {
                                        match read_float(c3) {
                                            Err(f) => Err(f),
                                            Ok((max_diff, c4)) => {
                                                match read_ident(c4) {
                                                    Err(f) => Err(f),
                                                    Ok((conversion, c5)) => {
                                                        match read_int(c5, i32::MIN as int, i32::MAX as int) {
                                                            Err(f) => Err(f),
                                                            Ok((max_axis_points, c6)) => {
                                                                match read_float(c6) {
                                                                    Err(f) => Err(f),
                                                                    Ok((lower_limit, c7)) => {
                                                                        match read_float(c7) {
                                                                            Err(f) => Err(f),
                                                                            Ok((upper_limit, c8)) => {
                                                                                Ok(
                                                                                    (
                                                                                        AxisPtsView {
                                                                                            named,
                                                                                            addr: AddressFieldsView {
                                                                                                address: Some((address as u32)),
                                                                                                ..v.addr
                                                                                            },
                                                                                            input_quantity: Some(input_quantity),
                                                                                            rec: RecordLayoutRefFieldsView {
                                                                                                record_layout,
                                                                                                max_diff,
                                                                                                ..v.rec
                                                                                            },
                                                                                            conv: ConversionRefFieldsView {
                                                                                                conversion,
                                                                                                lower_limit,
                                                                                                upper_limit,
                                                                                                ..v.conv
                                                                                            },
                                                                                            max_axis_points: (max_axis_points as i32),
                                                                                            ..v
                                                                                        },
                                                                                        c8
                                                                                    )
                                                                                )
                                                                            },
                                                                        }
                                                                    },
                                                                }
                                                            },
                                                        }
                                                    },
                                                }
                                            },
                                        }
                                    },
                                }
                            },
                        }
                    },
                }
            },
        }
    }

    fn read_head(cur: &mut ParamCursor) -> (r: Result<Self>)
        ensures
            match r {
                Ok(v) => AxisPts::head(old(cur)@) == Ok::<_, Failure>((v@, final(cur)@)),
                Err(e) => AxisPts::head(old(cur)@) == Err::<(AxisPtsView, Cur), _>(e@),
            },
    {
        let named = NamedFields::read_header(cur)?;
        let address = cur.uint::<u32>()?;
        let input_quantity = cur.ident()?;
        let record_layout = cur.ident()?;
        let max_diff = cur.float()?;
        let conversion = cur.ident()?;
        let max_axis_points = cur.sint::<i32>()?;
        let lower_limit = cur.float()?;
        let upper_limit = cur.float()?;
        let mut node = AxisPts::default();
        node.named = named;
        node.addr.address = Some(address);
        node.input_quantity = Some(input_quantity);
        node.rec.record_layout = record_layout;
        node.rec.max_diff = max_diff;
        node.conv.conversion = conversion;
        node.max_axis_points = max_axis_points;
        node.conv.lower_limit = lower_limit;
        node.conv.upper_limit = upper_limit;
        Ok(node)
    }
}

impl AxisPts {
    /// What the parameters at the cursor set, and where the next ones start.
    pub open spec fn option(v: AxisPtsView, c: Cur) -> Got<AxisPtsView> {
        match AddressFields::taken(v.addr, c) {
            Err(f) => Err(f),
            Ok(Some((part, n))) => Ok((AxisPtsView { addr: part, ..v }, n)),
            Ok(None) => {
                match ConversionRefFields::taken(v.conv, c) {
                    Err(f) => Err(f),
                    Ok(Some((part, n))) => Ok((AxisPtsView { conv: part, ..v }, n)),
                    Ok(None) => {
                        match RecordLayoutRefFields::taken(v.rec, c) {
                            Err(f) => Err(f),
                            Ok(Some((part, n))) => Ok((AxisPtsView { rec: part, ..v }, n)),
                            Ok(None) => {
                                if c.at("MONOTONY"@) {
                                    match read_enum::<MonotonyType>(c.step(), "AXIS_PTS: unknown enum keyword "@) {
                                        Err(f) => Err(f),
                                        Ok((x, c0)) => {
                                            Ok((AxisPtsView { monotony: x, ..v }, c0))
                                        },
                                    }
                                } else if c.at("DEPOSIT"@) {
                                    match read_enum::<DepositType>(c.step(), "AXIS_PTS: unknown enum keyword "@) {
                                        Err(f) => Err(f),
                                        Ok((x, c0)) => {
                                            Ok((AxisPtsView { deposit: x, ..v }, c0))
                                        },
                                    }
                                } else {
                                    match read_token(c) {
                                        Err(f) => Err(f),
                                        Ok((_t, c0)) => {
                                            Ok((v, c0))
                                        },
                                    }
                                }
                            },
                        }
                    },
                }
            },
        }
    }

    /// What all the parameters from the cursor on set, and where reading them ends.
    pub open spec fn options(v: AxisPtsView, c: Cur) -> Got<AxisPtsView>
        decreases c.left(),
    {
        if !c.more() {
            Ok((v, c))
        } else {
            match AxisPts::option(v, c) {
                Err(f) => Err(f),
                Ok((w, n)) => if 0 <= n.left() < c.left() {
                    AxisPts::options(w, n)
                } else {
                    arbitrary()
                },
            }
        }
    }

    fn read_option(&mut self, cur: &mut ParamCursor) -> (r: Result<()>)
        requires
            old(cur)@.more(),
        ensures
            match r {
                Ok(()) => {
                    &&& AxisPts::option(old(self)@, old(cur)@) == Ok::<_, Failure>(
                        (final(self)@, final(cur)@),
                    )
                    &&& 0 <= final(cur)@.left() < old(cur)@.left()
                },
                Err(e) => AxisPts::option(old(self)@, old(cur)@) == Err::<(AxisPtsView, Cur), _>(e@),
            },
    {
        if self.addr.take(cur)? {
            return Ok(());
        }
        if self.conv.take(cur)? {
            return Ok(());
        }
        if self.rec.take(cur)? {
            return Ok(());
        }
        if cur.take_if("MONOTONY") {
            let x = enum_value::<MonotonyType>(cur, "AXIS_PTS: unknown enum keyword ")?;
            self.monotony = x;
            return Ok(());
        }
        if cur.take_if("DEPOSIT") {
            let x = enum_value::<DepositType>(cur, "AXIS_PTS: unknown enum keyword ")?;
            self.deposit = x;
            return Ok(());
        }
        let _t = cur.next_token()?;
        Ok(())
    }

    fn read_options(&mut self, cur: &mut ParamCursor) -> (r: Result<()>)
        ensures
            match r {
                Ok(()) => {
                    &&& AxisPts::options(old(self)@, old(cur)@) == Ok::<_, Failure>(
                        (final(self)@, final(cur)@),
                    )
                    &&& final(cur)@.left() <= old(cur)@.left()
                    &&& final(cur)@ == old(cur)@ || final(cur)@.left() >= 0
                },
                Err(e) => AxisPts::options(old(self)@, old(cur)@) == Err::<(AxisPtsView, Cur), _>(e@),
            },
    {
        let ghost whole = AxisPts::options(self@, cur@);
        while !cur.is_empty()
            invariant
                whole == AxisPts::options(self@, cur@),
                whole == AxisPts::options(old(self)@, old(cur)@),
                cur@.left() <= old(cur)@.left(),
                cur@ == old(cur)@ || cur@.left() >= 0,
            decreases cur@.left(),
        {
            self.read_option(cur)?;
        }
        Ok(())
    }
}

impl AxisPts {
    /// What is written for the first parameters.
    pub open spec fn opening(v: AxisPtsView, p: Page) -> Page {
        let p = NamedFields::written(v.named, p);
        let p = p.line(hex_form(match v.addr.address { Some(x) => x as nat, None => u32::MAX as nat }));
        let p = match v.input_quantity { Some(x) => p.line(x), None => p };
        let p = p.line(v.rec.record_layout);
        let p = p.line(v.rec.max_diff.text);
        p.line(v.conv.conversion)
    }

    fn write_opening(&self, w: &mut Writer) -> (r: Result<()>)
        ensures
            r is Ok,
            final(w)@ == AxisPts::opening(self@, old(w)@),
    {
        self.named.write(w)?;
        w.line(to_hex(
                    match self.addr.address {
                        Some(x) => x as u64,
                        None => u32::MAX as u64,
                    },
                ).as_str());
        if let Some(x) = &self.input_quantity {
            w.line(x.as_str());
        }
        w.line(self.rec.record_layout.as_str());
        w.line(self.rec.max_diff.text.as_str());
        w.line(self.conv.conversion.as_str());
        Ok(())
    }
}

impl Node for AxisPts {
    open spec fn keyword_text() -> Seq<char> {
        "AXIS_PTS"@
    }

    open spec fn parsed(tree: Tree) -> std::result::Result<AxisPtsView, Failure> {
        match AxisPts::head(Cur::start(tree)) {
            Err(f) => Err(f),
            Ok((v, c)) => match AxisPts::options(v, c) {
                Err(f) => Err(f),
                Ok((v, _)) => match children_parsed::<AxisPtsChild>(children_of(tree.items), 0) {
                    Err(f) => Err(f),
                    Ok(children) => Ok(AxisPtsView { children, ..v }),
                },
            },
        }
    }

    open spec fn keeps(&self, tree: Tree) -> bool {
        all_kept(self.children@, tree)
    }

    open spec fn body(v: AxisPtsView, p: Page) -> Written {
        let p = AxisPts::opening(v, p);
        let p = p.line(dec_int(v.max_axis_points as int));
        let p = ConversionRefFields::limits_written(v.conv, p);
        let p = AddressFields::written(v.addr, p);
        let p = ConversionRefFields::written(v.conv, p);
        let p = RecordLayoutRefFields::written(v.rec, p);
        let p = match v.monotony.word() { Some(kw) => p.word("MONOTONY"@, kw), None => p };
        let p = match v.deposit.word() { Some(kw) => p.word("DEPOSIT"@, kw), None => p };
        children_written::<AxisPtsChild>(v.children, 0, false, p)
    }

    open spec fn block(v: AxisPtsView, p: Page) -> Written {
        enclosed("AXIS_PTS"@, Self::body(v, p.begin("AXIS_PTS "@ + v.named.name)))
    }

    fn keyword() -> (r: &'static str) {
        "AXIS_PTS"
    }

    fn parse(block: &Block) -> (r: Result<Self>) {
        let mut cur = ParamCursor::new(block);
        let mut node = AxisPts::read_head(&mut cur)?;
        node.read_options(&mut cur)?;
        node.children = read_children::<AxisPtsChild>(block)?;
        Ok(node)
    }

    fn write_body(&self, w: &mut Writer) -> (r: Result<()>) {
        self.write_opening(w)?;
        w.line(dec_int_text(self.max_axis_points as i64).as_str());
        self.conv.write_limits(w)?;
        self.addr.write(w)?;
        self.conv.write(w)?;
        self.rec.write(w)?;
        if let Some(kw) = self.monotony.as_keyword() {
            w.word("MONOTONY", kw);
        }
        if let Some(kw) = self.deposit.as_keyword() {
            w.word("DEPOSIT", kw);
        }
        write_children(&self.children, false, w)
    }

    fn write_block(&self, w: &mut Writer) -> (r: Result<()>) {
        let mut s = "AXIS_PTS ".to_string();
        s.append(self.named.name.as_str());
        w.begin_block(s.as_str());
        self.write_body(w)?;
        w.end_block("AXIS_PTS");
        Ok(())
    }
}

} // verus!
