//! A2L type definitions for axes, blobs, characteristics, measurements, and
//! structures.
//!
//! The parser collects the common name, description, conversion, record-layout,
//! limits, and dimension fields while preserving unsupported nested blocks for
//! round-trip output.

use crate::a2l::block::{Block, Tree, children_of};
use crate::a2l::error::{Failure, Result};
use crate::a2l::model::base::{
    ByteOrder, ConversionRefFields, ConversionRefFieldsView, NamedFields, NamedFieldsView,
    RecordLayoutRefFields, RecordLayoutRefFieldsView,
};
use crate::a2l::model::enums::{
    A2lKeyword, AddrType, CharacteristicType, DataType, DepositType, EncodingType, IndexMode,
    MonotonyType,
};
use crate::a2l::model::parts::{all_kept, 
    Child, children_parsed, children_written, dims_text, enum_or, hex_form, keyword_or, limits,
    listed, matrix_dim, node_parsed, node_written, parse_node, read_children, read_dims,
    read_enum_or, read_limits, to_hex, word_or, write_children, write_node,
};
use crate::a2l::model::unsupported::{UnsupportedNode, UnsupportedNodeView};
use crate::a2l::node::{Node, enclosed};
use crate::a2l::number::{Num, Number, num_zero};
use crate::a2l::params::{
    Cur, Got, ParamCursor, read_float, read_ident, read_int, read_string, read_token, read_uint,
};
use crate::a2l::writer::{Page, Writer, Written, Stopped};
use crate::text::{dec, dec_int, dec_int_text, dec_text, eq_ignore_case, same_ignore_case};
use crate::views::{append, no_text, none_yet, opt, views};
use vstd::prelude::*;

verus! {

/// `TYPEDEF_AXIS`: the type of an axis.
#[derive(Debug, Clone, PartialEq, Eq)]
pub struct TypedefAxis {
    pub named: NamedFields,
    pub input_quantity: Option<String>,
    pub rec: RecordLayoutRefFields,
    pub conv: ConversionRefFields,
    pub max_axis_points: i32,
    pub monotony: MonotonyType,
    pub deposit: DepositType,
}

/// [`TypedefAxis`] as a mathematical value.
pub struct TypedefAxisView {
    pub named: NamedFieldsView,
    pub input_quantity: Option<Seq<char>>,
    pub rec: RecordLayoutRefFieldsView,
    pub conv: ConversionRefFieldsView,
    pub max_axis_points: i32,
    pub monotony: MonotonyType,
    pub deposit: DepositType,
}

impl View for TypedefAxis {
    type V = TypedefAxisView;

    open spec fn view(&self) -> TypedefAxisView {
        TypedefAxisView {
            named: self.named@,
            input_quantity: opt(self.input_quantity),
            rec: self.rec@,
            conv: self.conv@,
            max_axis_points: self.max_axis_points,
            monotony: self.monotony,
            deposit: self.deposit,
        }
    }
}

impl TypedefAxis {
    /// The node before anything is read.
    pub open spec fn blank() -> TypedefAxisView {
        TypedefAxisView {
            named: NamedFields::blank(),
            input_quantity: None,
            rec: RecordLayoutRefFields::blank(),
            conv: ConversionRefFields::blank(),
            max_axis_points: 0,
            monotony: MonotonyType::blank(),
            deposit: DepositType::blank(),
        }
    }
}

impl Default for TypedefAxis {
    fn default() -> (r: Self)
        ensures
            r@ == TypedefAxis::blank(),
    {
        TypedefAxis {
            named: NamedFields::default(),
            input_quantity: None,
            rec: RecordLayoutRefFields::default(),
            conv: ConversionRefFields::default(),
            max_axis_points: 0,
            monotony: MonotonyType::default(),
            deposit: DepositType::default(),
        }
    }
}

impl TypedefAxis {
    /// What the parameters at the start say, and where the next ones start.
    pub open spec fn head(c: Cur) -> Got<TypedefAxisView> {
        let v = TypedefAxis::blank();
        match NamedFields::head(c) {
            Err(f) => Err(f),
            Ok((named, c0)) => {
                match read_ident(c0) {
                    Err(f) => Err(f),
                    Ok((input_quantity, c1)) => {
                        match read_ident(c1) {
                            Err(f) => Err(f),
                            Ok((record_layout, c2)) => {
                                match read_float(c2) {
                                    Err(f) => Err(f),
                                    Ok((max_diff, c3)) => {
                                        match read_ident(c3) {
                                            Err(f) => Err(f),
                                            Ok((conversion, c4)) => {
                                                match read_int(c4, i32::MIN as int, i32::MAX as int) {
                                                    Err(f) => Err(f),
                                                    Ok((max_axis_points, c5)) => {
                                                        match read_limits(c5) {
                                                            Err(f) => Err(f),
                                                            Ok((lim, c6)) => {
                                                                Ok(
                                                                    (
                                                                        TypedefAxisView {
                                                                            named,
                                                                            input_quantity: Some(input_quantity),
                                                                            rec: RecordLayoutRefFieldsView {
                                                                                record_layout,
                                                                                max_diff,
                                                                                ..v.rec
                                                                            },
                                                                            conv: ConversionRefFieldsView {
                                                                                conversion,
                                                                                lower_limit: lim.0,
                                                                                upper_limit: lim.1,
                                                                                ..v.conv
                                                                            },
                                                                            max_axis_points: (max_axis_points as i32),
                                                                            ..v
                                                                        },
                                                                        c6
                                                                    )
                                                                )
                                                            },
                                                        }
                                                    },
                                                }
                                            },
                                        }
                                    },
                                }
                            },
                        }
                    },
                }
            },
        }
    }

    fn read_head(cur: &mut ParamCursor) -> (r: Result<Self>)
        ensures
            match r {
                Ok(v) => TypedefAxis::head(old(cur)@) == Ok::<_, Failure>((v@, final(cur)@)),
                Err(e) => TypedefAxis::head(old(cur)@) == Err::<(TypedefAxisView, Cur), _>(e@),
            },
    {
        let named = NamedFields::read_header(cur)?;
        let input_quantity = cur.ident()?;
        let record_layout = cur.ident()?;
        let max_diff = cur.float()?;
        let conversion = cur.ident()?;
        let max_axis_points = cur.sint::<i32>()?;
        let lim = limits(cur)?;
        let mut node = TypedefAxis::default();
        node.named = named;
        node.input_quantity = Some(input_quantity);
        node.rec.record_layout = record_layout;
        node.rec.max_diff = max_diff;
        node.conv.conversion = conversion;
        node.max_axis_points = max_axis_points;
        node.conv.lower_limit = lim.0;
        node.conv.upper_limit = lim.1;
        Ok(node)
    }
}

impl TypedefAxis {
    /// What the parameters at the cursor set, and where the next ones start.
    pub open spec fn option(v: TypedefAxisView, c: Cur) -> Got<TypedefAxisView> {
        if c.at("PHYS_UNIT"@) {
            match read_string(c.step()) {
                Err(f) => Err(f),
                Ok((x, c0)) => {
                    Ok(
                        (
                            TypedefAxisView {
                                conv: ConversionRefFieldsView { phys_unit: Some(x), ..v.conv },
                                ..v
                            },
                            c0
                        )
                    )
                },
            }
        } else if c.at("STEP_SIZE"@) {
            match read_float(c.step()) {
                Err(f) => Err(f),
                Ok((x, c0)) => {
                    Ok(
                        (
                            TypedefAxisView {
                                rec: RecordLayoutRefFieldsView { step_size: Some(x), ..v.rec },
                                ..v
                            },
                            c0
                        )
                    )
                },
            }
        } else if c.at("FORMAT"@) {
            match read_string(c.step()) {
                Err(f) => Err(f),
                Ok((x, c0)) => {
                    Ok((TypedefAxisView { conv: ConversionRefFieldsView { format: Some(x), ..v.conv }, ..v }, c0))
                },
            }
        } else if c.at("DEPOSIT"@) {
            match read_enum_or(c.step(), DepositType::NotSet) {
                Err(f) => Err(f),
                Ok((x, c0)) => {
                    Ok((TypedefAxisView { deposit: x, ..v }, c0))
                },
            }
        } else if c.at("MONOTONY"@) {
            match read_enum_or(c.step(), MonotonyType::NotSet) {
                Err(f) => Err(f),
                Ok((x, c0)) => {
                    Ok((TypedefAxisView { monotony: x, ..v }, c0))
                },
            }
        } else if c.at("BYTE_ORDER"@) {
            match read_enum_or(c.step(), ByteOrder::NotSet) {
                Err(f) => Err(f),
                Ok((x, c0)) => {
                    Ok((TypedefAxisView { conv: ConversionRefFieldsView { byte_order: x, ..v.conv }, ..v }, c0))
                },
            }
        } else if c.at("EXTENDED_LIMITS"@) {
            match read_limits(c.step()) {
                Err(f) => Err(f),
                Ok((x, c0)) => {
                    Ok(
                        (
                            TypedefAxisView {
                                rec: RecordLayoutRefFieldsView {
                                    extended_limits: Some(x),
                                    ..v.rec
                                },
                                ..v
                            },
                            c0
                        )
                    )
                },
            }
        } else {
            match read_token(c) {
                Err(f) => Err(f),
                Ok((_t, c0)) => {
                    Ok((v, c0))
                },
            }
        }
    }

    /// What all the parameters from the cursor on set, and where reading them ends.
    pub open spec fn options(v: TypedefAxisView, c: Cur) -> Got<TypedefAxisView>
        decreases c.left(),
    {
        if !c.more() {
            Ok((v, c))
        } else {
            match TypedefAxis::option(v, c) {
                Err(f) => Err(f),
                Ok((w, n)) => if 0 <= n.left() < c.left() {
                    TypedefAxis::options(w, n)
                } else {
                    arbitrary()
                },
            }
        }
    }

    fn read_option(&mut self, cur: &mut ParamCursor) -> (r: Result<()>)
        requires
            old(cur)@.more(),
        ensures
            match r {
                Ok(()) => {
                    &&& TypedefAxis::option(old(self)@, old(cur)@) == Ok::<_, Failure>(
                        (final(self)@, final(cur)@),
                    )
                    &&& 0 <= final(cur)@.left() < old(cur)@.left()
                },
                Err(e) => TypedefAxis::option(old(self)@, old(cur)@) == Err::<(TypedefAxisView, Cur), _>(e@),
            },
    {
        if cur.take_if("PHYS_UNIT") {
            let x = cur.string()?;
            self.conv.phys_unit = Some(x);
            return Ok(());
        }
        if cur.take_if("STEP_SIZE") {
            let x = cur.float()?;
            self.rec.step_size = Some(x);
            return Ok(());
        }
        if cur.take_if("FORMAT") {
            let x = cur.string()?;
            self.conv.format = Some(x);
            return Ok(());
        }
        if cur.take_if("DEPOSIT") {
            let x = enum_or(cur, DepositType::NotSet)?;
            self.deposit = x;
            return Ok(());
        }
        if cur.take_if("MONOTONY") {
            let x = enum_or(cur, MonotonyType::NotSet)?;
            self.monotony = x;
            return Ok(());
        }
        if cur.take_if("BYTE_ORDER") {
            let x = enum_or(cur, ByteOrder::NotSet)?;
            self.conv.byte_order = x;
            return Ok(());
        }
        if cur.take_if("EXTENDED_LIMITS") {
            let x = limits(cur)?;
            self.rec.extended_limits = Some(x);
            return Ok(());
        }
        let _t = cur.next_token()?;
        Ok(())
    }

    fn read_options(&mut self, cur: &mut ParamCursor) -> (r: Result<()>)
        ensures
            match r {
                Ok(()) => {
                    &&& TypedefAxis::options(old(self)@, old(cur)@) == Ok::<_, Failure>(
                        (final(self)@, final(cur)@),
                    )
                    &&& final(cur)@.left() <= old(cur)@.left()
                    &&& final(cur)@ == old(cur)@ || final(cur)@.left() >= 0
                },
                Err(e) => TypedefAxis::options(old(self)@, old(cur)@) == Err::<(TypedefAxisView, Cur), _>(e@),
            },
    {
        let ghost whole = TypedefAxis::options(self@, cur@);
        while !cur.is_empty()
            invariant
                whole == TypedefAxis::options(self@, cur@),
                whole == TypedefAxis::options(old(self)@, old(cur)@),
                cur@.left() <= old(cur)@.left(),
                cur@ == old(cur)@ || cur@.left() >= 0,
            decreases cur@.left(),
        {
            self.read_option(cur)?;
        }
        Ok(())
    }
}

impl Node for TypedefAxis {
    open spec fn keyword_text() -> Seq<char> {
        "TYPEDEF_AXIS"@
    }

    open spec fn parsed(tree: Tree) -> std::result::Result<TypedefAxisView, Failure> {
        match TypedefAxis::head(Cur::start(tree)) {
            Err(f) => Err(f),
            Ok((v, c)) => match TypedefAxis::options(v, c) {
                Err(f) => Err(f),
                Ok((v, _)) => Ok(v),
            },
        }
    }

    open spec fn body(v: TypedefAxisView, p: Page) -> Written {
        let p = NamedFields::written(v.named, p);
        let p = match v.input_quantity { Some(x) => p.line(x), None => p };
        let p = if v.rec.record_layout.len() > 0 { p.line(v.rec.record_layout) } else { p };
        let p = p.line(v.rec.max_diff.text);
        let p = if v.conv.conversion.len() > 0 { p.line(v.conv.conversion) } else { p };
        let p = p.line(dec_int(v.max_axis_points as int));
        let p = ConversionRefFields::limits_written(v.conv, p);
        let p = ConversionRefFields::written(v.conv, p);
        let p = RecordLayoutRefFields::written(v.rec, p);
        let p = match v.monotony.word() { Some(kw) => p.word("MONOTONY"@, kw), None => p };
        let p = match v.deposit.word() { Some(kw) => p.word("DEPOSIT"@, kw), None => p };
        Ok(p)
    }

    open spec fn block(v: TypedefAxisView, p: Page) -> Written {
        enclosed("TYPEDEF_AXIS"@, Self::body(v, p.begin("TYPEDEF_AXIS "@ + v.named.name)))
    }

    fn keyword() -> (r: &'static str) {
        "TYPEDEF_AXIS"
    }

    fn parse(block: &Block) -> (r: Result<Self>) {
        let mut cur = ParamCursor::new(block);
        let mut node = TypedefAxis::read_head(&mut cur)?;
        node.read_options(&mut cur)?;
        Ok(node)
    }

    fn write_body(&self, w: &mut Writer) -> (r: Result<()>) {
        self.named.write(w)?;
        if let Some(x) = &self.input_quantity {
            w.line(x.as_str());
        }
        if self.rec.record_layout.as_str().unicode_len() > 0 {
            w.line(self.rec.record_layout.as_str());
        }
        w.line(self.rec.max_diff.text.as_str());
        if self.conv.conversion.as_str().unicode_len() > 0 {
            w.line(self.conv.conversion.as_str());
        }
        w.line(dec_int_text(self.max_axis_points as i64).as_str());
        self.conv.write_limits(w)?;
        self.conv.write(w)?;
        self.rec.write(w)?;
        if let Some(kw) = self.monotony.as_keyword() {
            w.word("MONOTONY", kw);
        }
        if let Some(kw) = self.deposit.as_keyword() {
            w.word("DEPOSIT", kw);
        }
        Ok(())
    }

    fn write_block(&self, w: &mut Writer) -> (r: Result<()>) {
        let mut s = "TYPEDEF_AXIS ".to_string();
        s.append(self.named.name.as_str());
        w.begin_block(s.as_str());
        self.write_body(w)?;
        w.end_block("TYPEDEF_AXIS");
        Ok(())
    }
}

/// `TYPEDEF_BLOB`: the type of bytes without a structure.
#[derive(Debug, Clone, PartialEq, Eq)]
pub struct TypedefBlob {
    pub named: NamedFields,
    pub size: u32,
    pub addr_type: AddrType,
}

/// [`TypedefBlob`] as a mathematical value.
pub struct TypedefBlobView {
    pub named: NamedFieldsView,
    pub size: u32,
    pub addr_type: AddrType,
}

impl View for TypedefBlob {
    type V = TypedefBlobView;

    open spec fn view(&self) -> TypedefBlobView {
        TypedefBlobView {
            named: self.named@,
            size: self.size,
            addr_type: self.addr_type,
        }
    }
}

impl TypedefBlob {
    /// The node before anything is read.
    pub open spec fn blank() -> TypedefBlobView {
        TypedefBlobView {
            named: NamedFields::blank(),
            size: 0,
            addr_type: AddrType::DIRECT,
        }
    }
}

impl Default for TypedefBlob {
    fn default() -> (r: Self)
        ensures
            r@ == TypedefBlob::blank(),
    {
        TypedefBlob {
            named: NamedFields::default(),
            size: 0,
            addr_type: AddrType::DIRECT,
        }
    }
}

impl TypedefBlob {
    /// What the parameters at the start say, and where the next ones start.
    pub open spec fn head(c: Cur) -> Got<TypedefBlobView> {
        let v = TypedefBlob::blank();
        match NamedFields::head(c) {
            Err(f) => Err(f),
            Ok((named, c0)) => {
                match read_uint(c0, u32::MAX as int) {
                    Err(f) => Err(f),
                    Ok((size, c1)) => {
                        Ok((TypedefBlobView { named, size: (size as u32), ..v }, c1))
                    },
                }
            },
        }
    }

    fn read_head(cur: &mut ParamCursor) -> (r: Result<Self>)
        ensures
            match r {
                Ok(v) => TypedefBlob::head(old(cur)@) == Ok::<_, Failure>((v@, final(cur)@)),
                Err(e) => TypedefBlob::head(old(cur)@) == Err::<(TypedefBlobView, Cur), _>(e@),
            },
    {
        let named = NamedFields::read_header(cur)?;
        let size = cur.uint::<u32>()?;
        let mut node = TypedefBlob::default();
        node.named = named;
        node.size = size;
        Ok(node)
    }
}

impl TypedefBlob {
    /// What the parameters at the cursor set, and where the next ones start.
    pub open spec fn option(v: TypedefBlobView, c: Cur) -> Got<TypedefBlobView> {
        if c.at("ADDRESS_TYPE"@) {
            match read_enum_or(c.step(), AddrType::DIRECT) {
                Err(f) => Err(f),
                Ok((x, c0)) => {
                    Ok((TypedefBlobView { addr_type: x, ..v }, c0))
                },
            }
        } else {
            match read_token(c) {
                Err(f) => Err(f),
                Ok((_t, c0)) => {
                    Ok((v, c0))
                },
            }
        }
    }

    /// What all the parameters from the cursor on set, and where reading them ends.
    pub open spec fn options(v: TypedefBlobView, c: Cur) -> Got<TypedefBlobView>
        decreases c.left(),
    {
        if !c.more() {
            Ok((v, c))
        } else {
            match TypedefBlob::option(v, c) {
                Err(f) => Err(f),
                Ok((w, n)) => if 0 <= n.left() < c.left() {
                    TypedefBlob::options(w, n)
                } else {
                    arbitrary()
                },
            }
        }
    }

    fn read_option(&mut self, cur: &mut ParamCursor) -> (r: Result<()>)
        requires
            old(cur)@.more(),
        ensures
            match r {
                Ok(()) => {
                    &&& TypedefBlob::option(old(self)@, old(cur)@) == Ok::<_, Failure>(
                        (final(self)@, final(cur)@),
                    )
                    &&& 0 <= final(cur)@.left() < old(cur)@.left()
                },
                Err(e) => TypedefBlob::option(old(self)@, old(cur)@) == Err::<(TypedefBlobView, Cur), _>(e@),
            },
    {
        if cur.take_if("ADDRESS_TYPE") {
            let x = enum_or(cur, AddrType::DIRECT)?;
            self.addr_type = x;
            return Ok(());
        }
        let _t = cur.next_token()?;
        Ok(())
    }

    fn read_options(&mut self, cur: &mut ParamCursor) -> (r: Result<()>)
        ensures
            match r {
                Ok(()) => {
                    &&& TypedefBlob::options(old(self)@, old(cur)@) == Ok::<_, Failure>(
                        (final(self)@, final(cur)@),
                    )
                    &&& final(cur)@.left() <= old(cur)@.left()
                    &&& final(cur)@ == old(cur)@ || final(cur)@.left() >= 0
                },
                Err(e) => TypedefBlob::options(old(self)@, old(cur)@) == Err::<(TypedefBlobView, Cur), _>(e@),
            },
    {
        let ghost whole = TypedefBlob::options(self@, cur@);
        while !cur.is_empty()
            invariant
                whole == TypedefBlob::options(self@, cur@),
                whole == TypedefBlob::options(old(self)@, old(cur)@),
                cur@.left() <= old(cur)@.left(),
                cur@ == old(cur)@ || cur@.left() >= 0,
            decreases cur@.left(),
        {
            self.read_option(cur)?;
        }
        Ok(())
    }
}

impl Node for TypedefBlob {
    open spec fn keyword_text() -> Seq<char> {
        "TYPEDEF_BLOB"@
    }

    open spec fn parsed(tree: Tree) -> std::result::Result<TypedefBlobView, Failure> {
        match TypedefBlob::head(Cur::start(tree)) {
            Err(f) => Err(f),
            Ok((v, c)) => match TypedefBlob::options(v, c) {
                Err(f) => Err(f),
                Ok((v, _)) => Ok(v),
            },
        }
    }

    open spec fn body(v: TypedefBlobView, p: Page) -> Written {
        let p = NamedFields::written(v.named, p);
        let p = p.line(hex_form(v.size as nat));
        let p = if v.addr_type != AddrType::DIRECT {
            match v.addr_type.word() { Some(kw) => p.word("ADDRESS_TYPE"@, kw), None => p }
        } else { p };
        Ok(p)
    }

    open spec fn block(v: TypedefBlobView, p: Page) -> Written {
        enclosed("TYPEDEF_BLOB"@, Self::body(v, p.begin("TYPEDEF_BLOB "@ + v.named.name)))
    }

    fn keyword() -> (r: &'static str) {
        "TYPEDEF_BLOB"
    }

    fn parse(block: &Block) -> (r: Result<Self>) {
        let mut cur = ParamCursor::new(block);
        let mut node = TypedefBlob::read_head(&mut cur)?;
        node.read_options(&mut cur)?;
        Ok(node)
    }

    fn write_body(&self, w: &mut Writer) -> (r: Result<()>) {
        self.named.write(w)?;
        w.line(to_hex(self.size as u64).as_str());
        if self.addr_type != AddrType::DIRECT {
            if let Some(kw) = self.addr_type.as_keyword() {
                w.word("ADDRESS_TYPE", kw);
            }
        }
        Ok(())
    }

    fn write_block(&self, w: &mut Writer) -> (r: Result<()>) {
        let mut s = "TYPEDEF_BLOB ".to_string();
        s.append(self.named.name.as_str());
        w.begin_block(s.as_str());
        self.write_body(w)?;
        w.end_block("TYPEDEF_BLOB");
        Ok(())
    }
}

/// `TYPEDEF_CHARACTERISTIC`: the type of a value that is calibrated.
#[derive(Debug, Clone, PartialEq, Eq)]
pub struct TypedefCharacteristic {
    pub named: NamedFields,
    pub char_type: CharacteristicType,
    pub rec: RecordLayoutRefFields,
    pub conv: ConversionRefFields,
    pub bitmask: Option<u64>,
    pub number: i32,
    pub matrix_dim: Option<Vec<i32>>,
    pub discrete: bool,
    pub encoding: EncodingType,
}

/// [`TypedefCharacteristic`] as a mathematical value.
pub struct TypedefCharacteristicView {
    pub named: NamedFieldsView,
    pub char_type: CharacteristicType,
    pub rec: RecordLayoutRefFieldsView,
    pub conv: ConversionRefFieldsView,
    pub bitmask: Option<u64>,
    pub number: i32,
    pub matrix_dim: Option<Seq<i32>>,
    pub discrete: bool,
    pub encoding: EncodingType,
}

impl View for TypedefCharacteristic {
    type V = TypedefCharacteristicView;

    open spec fn view(&self) -> TypedefCharacteristicView {
        TypedefCharacteristicView {
            named: self.named@,
            char_type: self.char_type,
            rec: self.rec@,
            conv: self.conv@,
            bitmask: self.bitmask,
            number: self.number,
            matrix_dim: opt(self.matrix_dim),
            discrete: self.discrete,
            encoding: self.encoding,
        }
    }
}

impl TypedefCharacteristic {
    /// The node before anything is read.
    pub open spec fn blank() -> TypedefCharacteristicView {
        TypedefCharacteristicView {
            named: NamedFields::blank(),
            char_type: CharacteristicType::blank(),
            rec: RecordLayoutRefFields::blank(),
            conv: ConversionRefFields::blank(),
            bitmask: None,
            number: 0,
            matrix_dim: None,
            discrete: false,
            encoding: EncodingType::ASCII,
        }
    }
}

impl Default for TypedefCharacteristic {
    fn default() -> (r: Self)
        ensures
            r@ == TypedefCharacteristic::blank(),
    {
        TypedefCharacteristic {
            named: NamedFields::default(),
            char_type: CharacteristicType::default(),
            rec: RecordLayoutRefFields::default(),
            conv: ConversionRefFields::default(),
            bitmask: None,
            number: 0,
            matrix_dim: None,
            discrete: false,
            encoding: EncodingType::ASCII,
        }
    }
}

impl TypedefCharacteristic {
    /// What the parameters at the start say, and where the next ones start.
    pub open spec fn head(c: Cur) -> Got<TypedefCharacteristicView> {
        let v = TypedefCharacteristic::blank();
        match NamedFields::head(c) {
            Err(f) => Err(f),
            Ok((named, c0)) => {
                match read_enum_or(c0, CharacteristicType::NotSet) {
                    Err(f) => Err(f),
                    Ok((char_type, c1)) => {
                        match read_ident(c1) {
                            Err(f) => Err(f),
                            Ok((record_layout, c2)) => {
                                match read_float(c2) {
                                    Err(f) => Err(f),
                                    Ok((max_diff, c3)) => {
                                        match read_ident(c3) {
                                            Err(f) => Err(f),
                                            Ok((conversion, c4)) => {
                                                match read_limits(c4) {
                                                    Err(f) => Err(f),
                                                    Ok((lim, c5)) => {
                                                        Ok(
                                                            (
                                                                TypedefCharacteristicView {
                                                                    named,
                                                                    char_type,
                                                                    rec: RecordLayoutRefFieldsView {
                                                                        record_layout,
                                                                        max_diff,
                                                                        ..v.rec
                                                                    },
                                                                    conv: ConversionRefFieldsView {
                                                                        conversion,
                                                                        lower_limit: lim.0,
                                                                        upper_limit: lim.1,
                                                                        ..v.conv
                                                                    },
                                                                    ..v
                                                                },
                                                                c5
                                                            )
                                                        )
                                                    },
                                                }
                                            },
                                        }
                                    },
                                }
                            },
                        }
                    },
                }
            },
        }
    }

    fn read_head(cur: &mut ParamCursor) -> (r: Result<Self>)
        ensures
            match r {
                Ok(v) => TypedefCharacteristic::head(old(cur)@) == Ok::<_, Failure>((v@, final(cur)@)),
                Err(e) => TypedefCharacteristic::head(old(cur)@) == Err::<(TypedefCharacteristicView, Cur), _>(e@),
            },
    {
        let named = NamedFields::read_header(cur)?;
        let char_type = enum_or(cur, CharacteristicType::NotSet)?;
        let record_layout = cur.ident()?;
        let max_diff = cur.float()?;
        let conversion = cur.ident()?;
        let lim = limits(cur)?;
        let mut node = TypedefCharacteristic::default();
        node.named = named;
        node.char_type = char_type;
        node.rec.record_layout = record_layout;
        node.rec.max_diff = max_diff;
        node.conv.conversion = conversion;
        node.conv.lower_limit = lim.0;
        node.conv.upper_limit = lim.1;
        Ok(node)
    }
}

impl TypedefCharacteristic {
    /// What the parameters at the cursor set, and where the next ones start.
    pub open spec fn option(v: TypedefCharacteristicView, c: Cur) -> Got<TypedefCharacteristicView> {
        if c.at("DISCRETE"@) {
            Ok((TypedefCharacteristicView { discrete: true, ..v }, c.step()))
        } else if c.at("ENCODING"@) {
            match read_enum_or(c.step(), EncodingType::ASCII) {
                Err(f) => Err(f),
                Ok((x, c0)) => {
                    Ok((TypedefCharacteristicView { encoding: x, ..v }, c0))
                },
            }
        } else if c.at("BIT_MASK"@) {
            match read_uint(c.step(), u64::MAX as int) {
                Err(f) => Err(f),
                Ok((x, c0)) => {
                    Ok((TypedefCharacteristicView { bitmask: Some((x as u64)), ..v }, c0))
                },
            }
        } else if c.at("FORMAT"@) {
            match read_string(c.step()) {
                Err(f) => Err(f),
                Ok((x, c0)) => {
                    Ok(
                        (
                            TypedefCharacteristicView {
                                conv: ConversionRefFieldsView { format: Some(x), ..v.conv },
                                ..v
                            },
                            c0
                        )
                    )
                },
            }
        } else if c.at("NUMBER"@) {
            match read_int(c.step(), i32::MIN as int, i32::MAX as int) {
                Err(f) => Err(f),
                Ok((x, c0)) => {
                    Ok((TypedefCharacteristicView { number: (x as i32), ..v }, c0))
                },
            }
        } else if c.at("PHYS_UNIT"@) {
            match read_string(c.step()) {
                Err(f) => Err(f),
                Ok((x, c0)) => {
                    Ok(
                        (
                            TypedefCharacteristicView {
                                conv: ConversionRefFieldsView { phys_unit: Some(x), ..v.conv },
                                ..v
                            },
                            c0
                        )
                    )
                },
            }
        } else if c.at("STEP_SIZE"@) {
            match read_float(c.step()) {
                Err(f) => Err(f),
                Ok((x, c0)) => {
                    Ok(
                        (
                            TypedefCharacteristicView {
                                rec: RecordLayoutRefFieldsView { step_size: Some(x), ..v.rec },
                                ..v
                            },
                            c0
                        )
                    )
                },
            }
        } else if c.at("BYTE_ORDER"@) {
            match read_enum_or(c.step(), ByteOrder::NotSet) {
                Err(f) => Err(f),
                Ok((x, c0)) => {
                    Ok(
                        (
                            TypedefCharacteristicView {
                                conv: ConversionRefFieldsView { byte_order: x, ..v.conv },
                                ..v
                            },
                            c0
                        )
                    )
                },
            }
        } else if c.at("MATRIX_DIM"@) {
            match read_dims(c.step()) {
                Err(f) => Err(f),
                Ok((x, c0)) => {
                    Ok((TypedefCharacteristicView { matrix_dim: Some(x), ..v }, c0))
                },
            }
        } else if c.at("EXTENDED_LIMITS"@) {
            match read_limits(c.step()) {
                Err(f) => Err(f),
                Ok((x, c0)) => {
                    Ok(
                        (
                            TypedefCharacteristicView {
                                rec: RecordLayoutRefFieldsView {
                                    extended_limits: Some(x),
                                    ..v.rec
                                },
                                ..v
                            },
                            c0
                        )
                    )
                },
            }
        } else if c.at("DISPLAY_IDENTIFIER"@) {
            match read_ident(c.step()) {
                Err(f) => Err(f),
                Ok((_x, c0)) => {
                    Ok((v, c0))
                },
            }
        } else {
            match read_token(c) {
                Err(f) => Err(f),
                Ok((_t, c0)) => {
                    Ok((v, c0))
                },
            }
        }
    }

    /// What all the parameters from the cursor on set, and where reading them ends.
    pub open spec fn options(v: TypedefCharacteristicView, c: Cur) -> Got<TypedefCharacteristicView>
        decreases c.left(),
    {
        if !c.more() {
            Ok((v, c))
        } else {
            match TypedefCharacteristic::option(v, c) {
                Err(f) => Err(f),
                Ok((w, n)) => if 0 <= n.left() < c.left() {
                    TypedefCharacteristic::options(w, n)
                } else {
                    arbitrary()
                },
            }
        }
    }

    fn read_option(&mut self, cur: &mut ParamCursor) -> (r: Result<()>)
        requires
            old(cur)@.more(),
        ensures
            match r {
                Ok(()) => {
                    &&& TypedefCharacteristic::option(old(self)@, old(cur)@) == Ok::<_, Failure>(
                        (final(self)@, final(cur)@),
                    )
                    &&& 0 <= final(cur)@.left() < old(cur)@.left()
                },
                Err(e) => TypedefCharacteristic::option(old(self)@, old(cur)@) == Err::<(
                    TypedefCharacteristicView,
                    Cur
                ), _>(e@),
            },
    {
        if cur.take_if("DISCRETE") {
            self.discrete = true;
            return Ok(());
        }
        if cur.take_if("ENCODING") {
            let x = enum_or(cur, EncodingType::ASCII)?;
            self.encoding = x;
            return Ok(());
        }
        if cur.take_if("BIT_MASK") {
            let x = cur.uint::<u64>()?;
            self.bitmask = Some(x);
            return Ok(());
        }
        if cur.take_if("FORMAT") {
            let x = cur.string()?;
            self.conv.format = Some(x);
            return Ok(());
        }
        if cur.take_if("NUMBER") {
            let x = cur.sint::<i32>()?;
            self.number = x;
            return Ok(());
        }
        if cur.take_if("PHYS_UNIT") {
            let x = cur.string()?;
            self.conv.phys_unit = Some(x);
            return Ok(());
        }
        if cur.take_if("STEP_SIZE") {
            let x = cur.float()?;
            self.rec.step_size = Some(x);
            return Ok(());
        }
        if cur.take_if("BYTE_ORDER") {
            let x = enum_or(cur, ByteOrder::NotSet)?;
            self.conv.byte_order = x;
            return Ok(());
        }
        if cur.take_if("MATRIX_DIM") {
            let x = matrix_dim(cur);
            self.matrix_dim = Some(x);
            return Ok(());
        }
        if cur.take_if("EXTENDED_LIMITS") {
            let x = limits(cur)?;
            self.rec.extended_limits = Some(x);
            return Ok(());
        }
        if cur.take_if("DISPLAY_IDENTIFIER") {
            let _x = cur.ident()?;
            return Ok(());
        }
        let _t = cur.next_token()?;
        Ok(())
    }

    fn read_options(&mut self, cur: &mut ParamCursor) -> (r: Result<()>)
        ensures
            match r {
                Ok(()) => {
                    &&& TypedefCharacteristic::options(old(self)@, old(cur)@) == Ok::<_, Failure>(
                        (final(self)@, final(cur)@),
                    )
                    &&& final(cur)@.left() <= old(cur)@.left()
                    &&& final(cur)@ == old(cur)@ || final(cur)@.left() >= 0
                },
                Err(e) => TypedefCharacteristic::options(old(self)@, old(cur)@) == Err::<(
                    TypedefCharacteristicView,
                    Cur
                ), _>(e@),
            },
    {
        let ghost whole = TypedefCharacteristic::options(self@, cur@);
        while !cur.is_empty()
            invariant
                whole == TypedefCharacteristic::options(self@, cur@),
                whole == TypedefCharacteristic::options(old(self)@, old(cur)@),
                cur@.left() <= old(cur)@.left(),
                cur@ == old(cur)@ || cur@.left() >= 0,
            decreases cur@.left(),
        {
            self.read_option(cur)?;
        }
        Ok(())
    }
}

impl TypedefCharacteristic {
    /// What is written for the first parameters.
    pub open spec fn opening(v: TypedefCharacteristicView, p: Page) -> Page {
        let p = NamedFields::written(v.named, p);
        let p = p.line(word_or(v.char_type.word(), "NotSet"@));
        let p = if v.rec.record_layout.len() > 0 { p.line(v.rec.record_layout) } else { p };
        let p = p.line(v.rec.max_diff.text);
        let p = if v.conv.conversion.len() > 0 { p.line(v.conv.conversion) } else { p };
        ConversionRefFields::limits_written(v.conv, p)
    }

    fn write_opening(&self, w: &mut Writer) -> (r: Result<()>)
        ensures
            r is Ok,
            final(w)@ == TypedefCharacteristic::opening(self@, old(w)@),
    {
        self.named.write(w)?;
        w.line(keyword_or(self.char_type, "NotSet"));
        if self.rec.record_layout.as_str().unicode_len() > 0 {
            w.line(self.rec.record_layout.as_str());
        }
        w.line(self.rec.max_diff.text.as_str());
        if self.conv.conversion.as_str().unicode_len() > 0 {
            w.line(self.conv.conversion.as_str());
        }
        self.conv.write_limits(w)?;
        Ok(())
    }
}

impl Node for TypedefCharacteristic {
    open spec fn keyword_text() -> Seq<char> {
        "TYPEDEF_CHARACTERISTIC"@
    }

    open spec fn parsed(tree: Tree) -> std::result::Result<TypedefCharacteristicView, Failure> {
        match TypedefCharacteristic::head(Cur::start(tree)) {
            Err(f) => Err(f),
            Ok((v, c)) => match TypedefCharacteristic::options(v, c) {
                Err(f) => Err(f),
                Ok((v, _)) => Ok(v),
            },
        }
    }

    open spec fn body(v: TypedefCharacteristicView, p: Page) -> Written {
        let p = TypedefCharacteristic::opening(v, p);
        let p = ConversionRefFields::written(v.conv, p);
        let p = RecordLayoutRefFields::written(v.rec, p);
        let p = match v.bitmask { Some(x) => p.word("BIT_MASK"@, hex_form(x as nat)), None => p };
        let p = if v.number != 0 { p.word("NUMBER"@, dec_int(v.number as int)) } else { p };
        let p = match v.matrix_dim { Some(x) => p.word("MATRIX_DIM"@, listed(x)), None => p };
        let p = if v.discrete { p.line("DISCRETE"@) } else { p };
        let p = if v.encoding != EncodingType::ASCII {
            match v.encoding.word() { Some(kw) => p.word("ENCODING"@, kw), None => p }
        } else { p };
        Ok(p)
    }

    open spec fn block(v: TypedefCharacteristicView, p: Page) -> Written {
        enclosed("TYPEDEF_CHARACTERISTIC"@, Self::body(v, p.begin("TYPEDEF_CHARACTERISTIC "@ + v.named.name)))
    }

    fn keyword() -> (r: &'static str) {
        "TYPEDEF_CHARACTERISTIC"
    }

    fn parse(block: &Block) -> (r: Result<Self>) {
        let mut cur = ParamCursor::new(block);
        let mut node = TypedefCharacteristic::read_head(&mut cur)?;
        node.read_options(&mut cur)?;
        Ok(node)
    }

    fn write_body(&self, w: &mut Writer) -> (r: Result<()>) {
        self.write_opening(w)?;
        self.conv.write(w)?;
        self.rec.write(w)?;
        if let Some(x) = &self.bitmask {
            w.word("BIT_MASK", to_hex(*x as u64).as_str());
        }
        if self.number != 0 {
            w.word("NUMBER", dec_int_text(self.number as i64).as_str());
        }
        if let Some(x) = &self.matrix_dim {
            w.word("MATRIX_DIM", dims_text(x.as_slice()).as_str());
        }
        if self.discrete {
            w.line("DISCRETE");
        }
        if self.encoding != EncodingType::ASCII {
            if let Some(kw) = self.encoding.as_keyword() {
                w.word("ENCODING", kw);
            }
        }
        Ok(())
    }

    fn write_block(&self, w: &mut Writer) -> (r: Result<()>) {
        let mut s = "TYPEDEF_CHARACTERISTIC ".to_string();
        s.append(self.named.name.as_str());
        w.begin_block(s.as_str());
        self.write_body(w)?;
        w.end_block("TYPEDEF_CHARACTERISTIC");
        Ok(())
    }
}

/// `TYPEDEF_MEASUREMENT`: the type of a value that is measured.
#[derive(Debug, Clone, PartialEq, Eq)]
pub struct TypedefMeasurement {
    pub named: NamedFields,
    pub data_type: DataType,
    pub conv: ConversionRefFields,
    pub resolution: i32,
    pub accuracy: Number,
    pub layout: IndexMode,
    pub bit_mask: Option<u64>,
    pub error_mask: u64,
    pub discrete: bool,
    pub matrix_dim: Option<Vec<i32>>,
    pub addr_type: AddrType,
}

/// [`TypedefMeasurement`] as a mathematical value.
pub struct TypedefMeasurementView {
    pub named: NamedFieldsView,
    pub data_type: DataType,
    pub conv: ConversionRefFieldsView,
    pub resolution: i32,
    pub accuracy: Num,
    pub layout: IndexMode,
    pub bit_mask: Option<u64>,
    pub error_mask: u64,
    pub discrete: bool,
    pub matrix_dim: Option<Seq<i32>>,
    pub addr_type: AddrType,
}

impl View for TypedefMeasurement {
    type V = TypedefMeasurementView;

    open spec fn view(&self) -> TypedefMeasurementView {
        TypedefMeasurementView {
            named: self.named@,
            data_type: self.data_type,
            conv: self.conv@,
            resolution: self.resolution,
            accuracy: self.accuracy@,
            layout: self.layout,
            bit_mask: self.bit_mask,
            error_mask: self.error_mask,
            discrete: self.discrete,
            matrix_dim: opt(self.matrix_dim),
            addr_type: self.addr_type,
        }
    }
}

impl TypedefMeasurement {
    /// The node before anything is read.
    pub open spec fn blank() -> TypedefMeasurementView {
        TypedefMeasurementView {
            named: NamedFields::blank(),
            data_type: DataType::blank(),
            conv: ConversionRefFields::blank(),
            resolution: 1,
            accuracy: num_zero(),
            layout: IndexMode::blank(),
            bit_mask: None,
            error_mask: 0,
            discrete: false,
            matrix_dim: None,
            addr_type: AddrType::DIRECT,
        }
    }
}

impl Default for TypedefMeasurement {
    fn default() -> (r: Self)
        ensures
            r@ == TypedefMeasurement::blank(),
    {
        TypedefMeasurement {
            named: NamedFields::default(),
            data_type: DataType::default(),
            conv: ConversionRefFields::default(),
            resolution: 1,
            accuracy: Number::default(),
            layout: IndexMode::default(),
            bit_mask: None,
            error_mask: 0,
            discrete: false,
            matrix_dim: None,
            addr_type: AddrType::DIRECT,
        }
    }
}

impl TypedefMeasurement {
    /// What the parameters at the start say, and where the next ones start.
    pub open spec fn head(c: Cur) -> Got<TypedefMeasurementView> {
        let v = TypedefMeasurement::blank();
        match NamedFields::head(c) {
            Err(f) => Err(f),
            Ok((named, c0)) => {
                match read_enum_or(c0, DataType::Unsupported) {
                    Err(f) => Err(f),
                    Ok((data_type, c1)) => {
                        match read_ident(c1) {
                            Err(f) => Err(f),
                            Ok((conversion, c2)) => {
                                match read_int(c2, i32::MIN as int, i32::MAX as int) {
                                    Err(f) => Err(f),
                                    Ok((resolution, c3)) => {
                                        match read_float(c3) {
                                            Err(f) => Err(f),
                                            Ok((accuracy, c4)) => {
                                                match read_limits(c4) {
                                                    Err(f) => Err(f),
                                                    Ok((lim, c5)) => {
                                                        Ok(
                                                            (
                                                                TypedefMeasurementView {
                                                                    named,
                                                                    data_type,
                                                                    conv: ConversionRefFieldsView {
                                                                        conversion,
                                                                        lower_limit: lim.0,
                                                                        upper_limit: lim.1,
                                                                        ..v.conv
                                                                    },
                                                                    resolution: (resolution as i32),
                                                                    accuracy,
                                                                    ..v
                                                                },
                                                                c5
                                                            )
                                                        )
                                                    },
                                                }
                                            },
                                        }
                                    },
                                }
                            },
                        }
                    },
                }
            },
        }
    }

    fn read_head(cur: &mut ParamCursor) -> (r: Result<Self>)
        ensures
            match r {
                Ok(v) => TypedefMeasurement::head(old(cur)@) == Ok::<_, Failure>((v@, final(cur)@)),
                Err(e) => TypedefMeasurement::head(old(cur)@) == Err::<(TypedefMeasurementView, Cur), _>(e@),
            },
    {
        let named = NamedFields::read_header(cur)?;
        let data_type = enum_or(cur, DataType::Unsupported)?;
        let conversion = cur.ident()?;
        let resolution = cur.sint::<i32>()?;
        let accuracy = cur.float()?;
        let lim = limits(cur)?;
        let mut node = TypedefMeasurement::default();
        node.named = named;
        node.data_type = data_type;
        node.conv.conversion = conversion;
        node.resolution = resolution;
        node.accuracy = accuracy;
        node.conv.lower_limit = lim.0;
        node.conv.upper_limit = lim.1;
        Ok(node)
    }
}

impl TypedefMeasurement {
    /// What the parameters at the cursor set, and where the next ones start.
    pub open spec fn option(v: TypedefMeasurementView, c: Cur) -> Got<TypedefMeasurementView> {
        if c.at("FORMAT"@) {
            match read_string(c.step()) {
                Err(f) => Err(f),
                Ok((x, c0)) => {
                    Ok(
                        (
                            TypedefMeasurementView {
                                conv: ConversionRefFieldsView { format: Some(x), ..v.conv },
                                ..v
                            },
                            c0
                        )
                    )
                },
            }
        } else if c.at("LAYOUT"@) {
            match read_enum_or(c.step(), IndexMode::NotSet) {
                Err(f) => Err(f),
                Ok((x, c0)) => {
                    Ok((TypedefMeasurementView { layout: x, ..v }, c0))
                },
            }
        } else if c.at("BYTE_ORDER"@) {
            match read_enum_or(c.step(), ByteOrder::NotSet) {
                Err(f) => Err(f),
                Ok((x, c0)) => {
                    Ok(
                        (
                            TypedefMeasurementView {
                                conv: ConversionRefFieldsView { byte_order: x, ..v.conv },
                                ..v
                            },
                            c0
                        )
                    )
                },
            }
        } else if c.at("ERROR_MASK"@) {
            match read_uint(c.step(), u64::MAX as int) {
                Err(f) => Err(f),
                Ok((x, c0)) => {
                    Ok((TypedefMeasurementView { error_mask: (x as u64), ..v }, c0))
                },
            }
        } else if c.at("MATRIX_DIM"@) {
            match read_dims(c.step()) {
                Err(f) => Err(f),
                Ok((x, c0)) => {
                    Ok((TypedefMeasurementView { matrix_dim: Some(x), ..v }, c0))
                },
            }
        } else if c.at("BIT_MASK"@) {
            match read_uint(c.step(), u64::MAX as int) {
                Err(f) => Err(f),
                Ok((x, c0)) => {
                    Ok((TypedefMeasurementView { bit_mask: Some((x as u64)), ..v }, c0))
                },
            }
        } else if c.at("DISCRETE"@) {
            Ok((TypedefMeasurementView { discrete: true, ..v }, c.step()))
        } else if c.at("PHYS_UNIT"@) {
            match read_string(c.step()) {
                Err(f) => Err(f),
                Ok((x, c0)) => {
                    Ok(
                        (
                            TypedefMeasurementView {
                                conv: ConversionRefFieldsView { phys_unit: Some(x), ..v.conv },
                                ..v
                            },
                            c0
                        )
                    )
                },
            }
        } else if c.at("ADDRESS_TYPE"@) {
            match read_enum_or(c.step(), AddrType::DIRECT) {
                Err(f) => Err(f),
                Ok((x, c0)) => {
                    Ok((TypedefMeasurementView { addr_type: x, ..v }, c0))
                },
            }
        } else {
            match read_token(c) {
                Err(f) => Err(f),
                Ok((_t, c0)) => {
                    Ok((v, c0))
                },
            }
        }
    }

    /// What all the parameters from the cursor on set, and where reading them ends.
    pub open spec fn options(v: TypedefMeasurementView, c: Cur) -> Got<TypedefMeasurementView>
        decreases c.left(),
    {
        if !c.more() {
            Ok((v, c))
        } else {
            match TypedefMeasurement::option(v, c) {
                Err(f) => Err(f),
                Ok((w, n)) => if 0 <= n.left() < c.left() {
                    TypedefMeasurement::options(w, n)
                } else {
                    arbitrary()
                },
            }
        }
    }

    fn read_option(&mut self, cur: &mut ParamCursor) -> (r: Result<()>)
        requires
            old(cur)@.more(),
        ensures
            match r {
                Ok(()) => {
                    &&& TypedefMeasurement::option(old(self)@, old(cur)@) == Ok::<_, Failure>(
                        (final(self)@, final(cur)@),
                    )
                    &&& 0 <= final(cur)@.left() < old(cur)@.left()
                },
                Err(e) => TypedefMeasurement::option(old(self)@, old(cur)@) == Err::<(TypedefMeasurementView, Cur), _>(e@),
            },
    {
        if cur.take_if("FORMAT") {
            let x = cur.string()?;
            self.conv.format = Some(x);
            return Ok(());
        }
        if cur.take_if("LAYOUT") {
            let x = enum_or(cur, IndexMode::NotSet)?;
            self.layout = x;
            return Ok(());
        }
        if cur.take_if("BYTE_ORDER") {
            let x = enum_or(cur, ByteOrder::NotSet)?;
            self.conv.byte_order = x;
            return Ok(());
        }
        if cur.take_if("ERROR_MASK") {
            let x = cur.uint::<u64>()?;
            self.error_mask = x;
            return Ok(());
        }
        if cur.take_if("MATRIX_DIM") {
            let x = matrix_dim(cur);
            self.matrix_dim = Some(x);
            return Ok(());
        }
        if cur.take_if("BIT_MASK") {
            let x = cur.uint::<u64>()?;
            self.bit_mask = Some(x);
            return Ok(());
        }
        if cur.take_if("DISCRETE") {
            self.discrete = true;
            return Ok(());
        }
        if cur.take_if("PHYS_UNIT") {
            let x = cur.string()?;
            self.conv.phys_unit = Some(x);
            return Ok(());
        }
        if cur.take_if("ADDRESS_TYPE") {
            let x = enum_or(cur, AddrType::DIRECT)?;
            self.addr_type = x;
            return Ok(());
        }
        let _t = cur.next_token()?;
        Ok(())
    }

    fn read_options(&mut self, cur: &mut ParamCursor) -> (r: Result<()>)
        ensures
            match r {
                Ok(()) => {
                    &&& TypedefMeasurement::options(old(self)@, old(cur)@) == Ok::<_, Failure>(
                        (final(self)@, final(cur)@),
                    )
                    &&& final(cur)@.left() <= old(cur)@.left()
                    &&& final(cur)@ == old(cur)@ || final(cur)@.left() >= 0
                },
                Err(e) => TypedefMeasurement::options(old(self)@, old(cur)@) == Err::<(TypedefMeasurementView, Cur), _>(e@),
            },
    {
        let ghost whole = TypedefMeasurement::options(self@, cur@);
        while !cur.is_empty()
            invariant
                whole == TypedefMeasurement::options(self@, cur@),
                whole == TypedefMeasurement::options(old(self)@, old(cur)@),
                cur@.left() <= old(cur)@.left(),
                cur@ == old(cur)@ || cur@.left() >= 0,
            decreases cur@.left(),
        {
            self.read_option(cur)?;
        }
        Ok(())
    }
}

impl Node for TypedefMeasurement {
    open spec fn keyword_text() -> Seq<char> {
        "TYPEDEF_MEASUREMENT"@
    }

    open spec fn parsed(tree: Tree) -> std::result::Result<TypedefMeasurementView, Failure> {
        match TypedefMeasurement::head(Cur::start(tree)) {
            Err(f) => Err(f),
            Ok((v, c)) => match TypedefMeasurement::options(v, c) {
                Err(f) => Err(f),
                Ok((v, _)) => Ok(v),
            },
        }
    }

    open spec fn body(v: TypedefMeasurementView, p: Page) -> Written {
        let p = NamedFields::written(v.named, p);
        let p = p.line(word_or(v.data_type.word(), "Unsupported"@));
        let p = if v.conv.conversion.len() > 0 { p.line(v.conv.conversion) } else { p };
        let p = p.line(dec_int(v.resolution as int) + " "@ + v.accuracy.text);
        let p = ConversionRefFields::limits_written(v.conv, p);
        let p = ConversionRefFields::written(v.conv, p);
        let p = match v.layout.word() { Some(kw) => p.word("LAYOUT"@, kw), None => p };
        let p = match v.bit_mask { Some(x) => p.word("BIT_MASK"@, hex_form(x as nat)), None => p };
        let p = if v.error_mask != 0 { p.word("ERROR_MASK"@, hex_form(v.error_mask as nat)) } else { p };
        let p = if v.discrete { p.line("DISCRETE"@) } else { p };
        let p = match v.matrix_dim { Some(x) => p.word("MATRIX_DIM"@, listed(x)), None => p };
        let p = if v.addr_type != AddrType::DIRECT {
            match v.addr_type.word() { Some(kw) => p.word("ADDRESS_TYPE"@, kw), None => p }
        } else { p };
        Ok(p)
    }

    open spec fn block(v: TypedefMeasurementView, p: Page) -> Written {
        enclosed("TYPEDEF_MEASUREMENT"@, Self::body(v, p.begin("TYPEDEF_MEASUREMENT "@ + v.named.name)))
    }

    fn keyword() -> (r: &'static str) {
        "TYPEDEF_MEASUREMENT"
    }

    fn parse(block: &Block) -> (r: Result<Self>) {
        let mut cur = ParamCursor::new(block);
        let mut node = TypedefMeasurement::read_head(&mut cur)?;
        node.read_options(&mut cur)?;
        Ok(node)
    }

    fn write_body(&self, w: &mut Writer) -> (r: Result<()>) {
        self.named.write(w)?;
        w.line(keyword_or(self.data_type, "Unsupported"));
        if self.conv.conversion.as_str().unicode_len() > 0 {
            w.line(self.conv.conversion.as_str());
        }
        {
            let mut s = dec_int_text(self.resolution as i64);
            s.append(" ");
            s.append(self.accuracy.text.as_str());
            w.line(s.as_str());
        }
        self.conv.write_limits(w)?;
        self.conv.write(w)?;
        if let Some(kw) = self.layout.as_keyword() {
            w.word("LAYOUT", kw);
        }
        if let Some(x) = &self.bit_mask {
            w.word("BIT_MASK", to_hex(*x as u64).as_str());
        }
        if self.error_mask != 0 {
            w.word("ERROR_MASK", to_hex(self.error_mask as u64).as_str());
        }
        if self.discrete {
            w.line("DISCRETE");
        }
        if let Some(x) = &self.matrix_dim {
            w.word("MATRIX_DIM", dims_text(x.as_slice()).as_str());
        }
        if self.addr_type != AddrType::DIRECT {
            if let Some(kw) = self.addr_type.as_keyword() {
                w.word("ADDRESS_TYPE", kw);
            }
        }
        Ok(())
    }

    fn write_block(&self, w: &mut Writer) -> (r: Result<()>) {
        let mut s = "TYPEDEF_MEASUREMENT ".to_string();
        s.append(self.named.name.as_str());
        w.begin_block(s.as_str());
        self.write_body(w)?;
        w.end_block("TYPEDEF_MEASUREMENT");
        Ok(())
    }
}

/// A block within the node.
#[derive(Debug, Clone, PartialEq, Eq)]
pub enum TypedefStructureChild {
    /// `/begin STRUCTURE_COMPONENT`.
    Component(StructureComponent),
    Unsupported(UnsupportedNode),
}

/// [`TypedefStructureChild`] as a mathematical value.
pub enum TypedefStructureChildView {
    Component(StructureComponentView),
    Unsupported(UnsupportedNodeView),
}

impl View for TypedefStructureChild {
    type V = TypedefStructureChildView;

    open spec fn view(&self) -> TypedefStructureChildView {
        match self {
            TypedefStructureChild::Component(n) => TypedefStructureChildView::Component(n@),
            TypedefStructureChild::Unsupported(n) => TypedefStructureChildView::Unsupported(n@),
        }
    }
}

impl Child for TypedefStructureChild {
    open spec fn parsed(tree: Tree) -> std::result::Result<TypedefStructureChildView, Failure> {
        if same_ignore_case(tree.keyword, "STRUCTURE_COMPONENT"@) {
            match node_parsed::<StructureComponent>(tree) {
                Ok(n) => Ok(TypedefStructureChildView::Component(n)),
                Err(f) => Err(f),
            }
        } else {
            Ok(TypedefStructureChildView::Unsupported(UnsupportedNode::of(tree)))
        }
    }

    open spec fn kept(&self, tree: Tree) -> bool {
        match self {
            TypedefStructureChild::Component(n) => n.keeps(tree),
            TypedefStructureChild::Unsupported(n) => n.kept(tree),
        }
    }

    open spec fn written(v: TypedefStructureChildView, p: Page) -> Written {
        match v {
            TypedefStructureChildView::Component(n) => node_written::<StructureComponent>(n, p),
            TypedefStructureChildView::Unsupported(n) => UnsupportedNode::written(n, p),
        }
    }

    fn read(block: &Block) -> (r: Result<Self>) {
        if eq_ignore_case(block.keyword.as_str(), "STRUCTURE_COMPONENT") {
            return Ok(TypedefStructureChild::Component(parse_node::<StructureComponent>(block)?));
        }
        Ok(TypedefStructureChild::Unsupported(UnsupportedNode::from_block(block)))
    }

    fn write(&self, w: &mut Writer) -> (r: Result<()>) {
        self.write_block(w)
    }
}

impl TypedefStructureChild {
    pub fn write_block(&self, w: &mut Writer) -> (r: Result<()>)
        ensures
            match r {
                Ok(()) => TypedefStructureChild::written(self@, old(w)@) == Ok::<Page, Stopped>(final(w)@),
                Err(e) => TypedefStructureChild::written(self@, old(w)@) == Err::<Page, Stopped>(final(w)@.stopped(e@)),
            },
    {
        match self {
            TypedefStructureChild::Component(n) => write_node(n, w),
            TypedefStructureChild::Unsupported(n) => n.write_block(w),
        }
    }
}

/// `TYPEDEF_STRUCTURE`: the type of a structure.
#[derive(Debug, Clone, PartialEq, Eq)]
pub struct TypedefStructure {
    pub named: NamedFields,
    pub size: u32,
    pub addr_type: AddrType,
    pub consistent_exchange: bool,
    pub symbol_type_link: Option<String>,
    pub children: Vec<TypedefStructureChild>,
}

/// [`TypedefStructure`] as a mathematical value.
pub struct TypedefStructureView {
    pub named: NamedFieldsView,
    pub size: u32,
    pub addr_type: AddrType,
    pub consistent_exchange: bool,
    pub symbol_type_link: Option<Seq<char>>,
    pub children: Seq<TypedefStructureChildView>,
}

impl View for TypedefStructure {
    type V = TypedefStructureView;

    open spec fn view(&self) -> TypedefStructureView {
        TypedefStructureView {
            named: self.named@,
            size: self.size,
            addr_type: self.addr_type,
            consistent_exchange: self.consistent_exchange,
            symbol_type_link: opt(self.symbol_type_link),
            children: views(self.children@),
        }
    }
}

impl TypedefStructure {
    /// The node before anything is read.
    pub open spec fn blank() -> TypedefStructureView {
        TypedefStructureView {
            named: NamedFields::blank(),
            size: 0,
            addr_type: AddrType::DIRECT,
            consistent_exchange: false,
            symbol_type_link: None,
            children: Seq::empty(),
        }
    }
}

impl Default for TypedefStructure {
    fn default() -> (r: Self)
        ensures
            r@ == TypedefStructure::blank(),
    {
        TypedefStructure {
            named: NamedFields::default(),
            size: 0,
            addr_type: AddrType::DIRECT,
            consistent_exchange: false,
            symbol_type_link: None,
            children: none_yet(),
        }
    }
}

impl TypedefStructure {
    /// What the parameters at the start say, and where the next ones start.
    pub open spec fn head(c: Cur) -> Got<TypedefStructureView> {
        let v = TypedefStructure::blank();
        match NamedFields::head(c) {
            Err(f) => Err(f),
            Ok((named, c0)) => {
                match read_uint(c0, u32::MAX as int) {
                    Err(f) => Err(f),
                    Ok((size, c1)) => {
                        Ok((TypedefStructureView { named, size: (size as u32), ..v }, c1))
                    },
                }
            },
        }
    }

    fn read_head(cur: &mut ParamCursor) -> (r: Result<Self>)
        ensures
            match r {
                Ok(v) => TypedefStructure::head(old(cur)@) == Ok::<_, Failure>((v@, final(cur)@)),
                Err(e) => TypedefStructure::head(old(cur)@) == Err::<(TypedefStructureView, Cur), _>(e@),
            },
    {
        let named = NamedFields::read_header(cur)?;
        let size = cur.uint::<u32>()?;
        let mut node = TypedefStructure::default();
        node.named = named;
        node.size = size;
        Ok(node)
    }
}

impl TypedefStructure {
    /// What the parameters at the cursor set, and where the next ones start.
    pub open spec fn option(v: TypedefStructureView, c: Cur) -> Got<TypedefStructureView> {
        if c.at("CONSISTENT_EXCHANGE"@) {
            Ok((TypedefStructureView { consistent_exchange: true, ..v }, c.step()))
        } else if c.at("SYMBOL_TYPE_LINK"@) {
            match read_ident(c.step()) {
                Err(f) => Err(f),
                Ok((x, c0)) => {
                    Ok((TypedefStructureView { symbol_type_link: Some(x), ..v }, c0))
                },
            }
        } else if c.at("ADDRESS_TYPE"@) {
            match read_enum_or(c.step(), AddrType::DIRECT) {
                Err(f) => Err(f),
                Ok((x, c0)) => {
                    Ok((TypedefStructureView { addr_type: x, ..v }, c0))
                },
            }
        } else {
            match read_token(c) {
                Err(f) => Err(f),
                Ok((_t, c0)) => {
                    Ok((v, c0))
                },
            }
        }
    }

    /// What all the parameters from the cursor on set, and where reading them ends.
    pub open spec fn options(v: TypedefStructureView, c: Cur) -> Got<TypedefStructureView>
        decreases c.left(),
    {
        if !c.more() {
            Ok((v, c))
        } else {
            match TypedefStructure::option(v, c) {
                Err(f) => Err(f),
                Ok((w, n)) => if 0 <= n.left() < c.left() {
                    TypedefStructure::options(w, n)
                } else {
                    arbitrary()
                },
            }
        }
    }

    fn read_option(&mut self, cur: &mut ParamCursor) -> (r: Result<()>)
        requires
            old(cur)@.more(),
        ensures
            match r {
                Ok(()) => {
                    &&& TypedefStructure::option(old(self)@, old(cur)@) == Ok::<_, Failure>(
                        (final(self)@, final(cur)@),
                    )
                    &&& 0 <= final(cur)@.left() < old(cur)@.left()
                },
                Err(e) => TypedefStructure::option(old(self)@, old(cur)@) == Err::<(TypedefStructureView, Cur), _>(e@),
            },
    {
        if cur.take_if("CONSISTENT_EXCHANGE") {
            self.consistent_exchange = true;
            return Ok(());
        }
        if cur.take_if("SYMBOL_TYPE_LINK") {
            let x = cur.ident()?;
            self.symbol_type_link = Some(x);
            return Ok(());
        }
        if cur.take_if("ADDRESS_TYPE") {
            let x = enum_or(cur, AddrType::DIRECT)?;
            self.addr_type = x;
            return Ok(());
        }
        let _t = cur.next_token()?;
        Ok(())
    }

    fn read_options(&mut self, cur: &mut ParamCursor) -> (r: Result<()>)
        ensures
            match r {
                Ok(()) => {
                    &&& TypedefStructure::options(old(self)@, old(cur)@) == Ok::<_, Failure>(
                        (final(self)@, final(cur)@),
                    )
                    &&& final(cur)@.left() <= old(cur)@.left()
                    &&& final(cur)@ == old(cur)@ || final(cur)@.left() >= 0
                },
                Err(e) => TypedefStructure::options(old(self)@, old(cur)@) == Err::<(TypedefStructureView, Cur), _>(e@),
            },
    {
        let ghost whole = TypedefStructure::options(self@, cur@);
        while !cur.is_empty()
            invariant
                whole == TypedefStructure::options(self@, cur@),
                whole == TypedefStructure::options(old(self)@, old(cur)@),
                cur@.left() <= old(cur)@.left(),
                cur@ == old(cur)@ || cur@.left() >= 0,
            decreases cur@.left(),
        {
            self.read_option(cur)?;
        }
        Ok(())
    }
}

impl Node for TypedefStructure {
    open spec fn keyword_text() -> Seq<char> {
        "TYPEDEF_STRUCTURE"@
    }

    open spec fn parsed(tree: Tree) -> std::result::Result<TypedefStructureView, Failure> {
        match TypedefStructure::head(Cur::start(tree)) {
            Err(f) => Err(f),
            Ok((v, c)) => match TypedefStructure::options(v, c) {
                Err(f) => Err(f),
                Ok((v, _)) => match children_parsed::<TypedefStructureChild>(children_of(tree.items), 0) {
                    Err(f) => Err(f),
                    Ok(children) => Ok(TypedefStructureView { children, ..v }),
                },
            },
        }
    }

    open spec fn keeps(&self, tree: Tree) -> bool {
        all_kept(self.children@, tree)
    }

    open spec fn body(v: TypedefStructureView, p: Page) -> Written {
        let p = NamedFields::written(v.named, p);
        let p = if v.consistent_exchange { p.line("CONSISTENT_EXCHANGE"@) } else { p };
        let p = match v.symbol_type_link { Some(x) if x.len() > 0 => p.word("SYMBOL_TYPE_LINK"@, x), _ => p };
        let p = p.line(hex_form(v.size as nat));
        let p = if v.addr_type != AddrType::DIRECT {
            match v.addr_type.word() { Some(kw) => p.word("ADDRESS_TYPE"@, kw), None => p }
        } else { p };
        children_written::<TypedefStructureChild>(v.children, 0, false, p)
    }

    open spec fn block(v: TypedefStructureView, p: Page) -> Written {
        enclosed("TYPEDEF_STRUCTURE"@, Self::body(v, p.begin("TYPEDEF_STRUCTURE "@ + v.named.name)))
    }

    fn keyword() -> (r: &'static str) {
        "TYPEDEF_STRUCTURE"
    }

    fn parse(block: &Block) -> (r: Result<Self>) {
        let mut cur = ParamCursor::new(block);
        let mut node = TypedefStructure::read_head(&mut cur)?;
        node.read_options(&mut cur)?;
        node.children = read_children::<TypedefStructureChild>(block)?;
        Ok(node)
    }

    fn write_body(&self, w: &mut Writer) -> (r: Result<()>) {
        self.named.write(w)?;
        if self.consistent_exchange {
            w.line("CONSISTENT_EXCHANGE");
        }
        if let Some(x) = &self.symbol_type_link {
            if x.as_str().unicode_len() > 0 {
                w.word("SYMBOL_TYPE_LINK", x.as_str());
            }
        }
        w.line(to_hex(self.size as u64).as_str());
        if self.addr_type != AddrType::DIRECT {
            if let Some(kw) = self.addr_type.as_keyword() {
                w.word("ADDRESS_TYPE", kw);
            }
        }
        write_children(&self.children, false, w)
    }

    fn write_block(&self, w: &mut Writer) -> (r: Result<()>) {
        let mut s = "TYPEDEF_STRUCTURE ".to_string();
        s.append(self.named.name.as_str());
        w.begin_block(s.as_str());
        self.write_body(w)?;
        w.end_block("TYPEDEF_STRUCTURE");
        Ok(())
    }
}

/// A block within the node.
#[derive(Debug, Clone, PartialEq, Eq)]
pub enum StructureComponentChild {
    /// `/begin AR_COMPONENT`.
    ArComponent(ArComponent),
    Unsupported(UnsupportedNode),
}

/// [`StructureComponentChild`] as a mathematical value.
pub enum StructureComponentChildView {
    ArComponent(ArComponentView),
    Unsupported(UnsupportedNodeView),
}

impl View for StructureComponentChild {
    type V = StructureComponentChildView;

    open spec fn view(&self) -> StructureComponentChildView {
        match self {
            StructureComponentChild::ArComponent(n) => StructureComponentChildView::ArComponent(n@),
            StructureComponentChild::Unsupported(n) => StructureComponentChildView::Unsupported(n@),
        }
    }
}

impl Child for StructureComponentChild {
    open spec fn parsed(tree: Tree) -> std::result::Result<StructureComponentChildView, Failure> {
        if same_ignore_case(tree.keyword, "AR_COMPONENT"@) {
            match node_parsed::<ArComponent>(tree) {
                Ok(n) => Ok(StructureComponentChildView::ArComponent(n)),
                Err(f) => Err(f),
            }
        } else {
            Ok(StructureComponentChildView::Unsupported(UnsupportedNode::of(tree)))
        }
    }

    open spec fn kept(&self, tree: Tree) -> bool {
        match self {
            StructureComponentChild::ArComponent(n) => n.keeps(tree),
            StructureComponentChild::Unsupported(n) => n.kept(tree),
        }
    }

    open spec fn written(v: StructureComponentChildView, p: Page) -> Written {
        match v {
            StructureComponentChildView::ArComponent(n) => node_written::<ArComponent>(n, p),
            StructureComponentChildView::Unsupported(n) => UnsupportedNode::written(n, p),
        }
    }

    fn read(block: &Block) -> (r: Result<Self>) {
        if eq_ignore_case(block.keyword.as_str(), "AR_COMPONENT") {
            return Ok(StructureComponentChild::ArComponent(parse_node::<ArComponent>(block)?));
        }
        Ok(StructureComponentChild::Unsupported(UnsupportedNode::from_block(block)))
    }

    fn write(&self, w: &mut Writer) -> (r: Result<()>) {
        self.write_block(w)
    }
}

impl StructureComponentChild {
    pub fn write_block(&self, w: &mut Writer) -> (r: Result<()>)
        ensures
            match r {
                Ok(()) => StructureComponentChild::written(self@, old(w)@) == Ok::<Page, Stopped>(final(w)@),
                Err(e) => StructureComponentChild::written(self@, old(w)@) == Err::<Page, Stopped>(final(w)@.stopped(e@)),
            },
    {
        match self {
            StructureComponentChild::ArComponent(n) => write_node(n, w),
            StructureComponentChild::Unsupported(n) => n.write_block(w),
        }
    }
}

/// `STRUCTURE_COMPONENT`: a component of a structure.
#[derive(Debug, Clone, PartialEq, Eq)]
pub struct StructureComponent {
    pub name: String,
    pub typedef_name: String,
    pub address_offset: u32,
    pub layout: IndexMode,
    pub matrix_dim: Option<Vec<i32>>,
    pub symbol_type_link: Option<String>,
    pub children: Vec<StructureComponentChild>,
}

/// [`StructureComponent`] as a mathematical value.
pub struct StructureComponentView {
    pub name: Seq<char>,
    pub typedef_name: Seq<char>,
    pub address_offset: u32,
    pub layout: IndexMode,
    pub matrix_dim: Option<Seq<i32>>,
    pub symbol_type_link: Option<Seq<char>>,
    pub children: Seq<StructureComponentChildView>,
}

impl View for StructureComponent {
    type V = StructureComponentView;

    open spec fn view(&self) -> StructureComponentView {
        StructureComponentView {
            name: self.name@,
            typedef_name: self.typedef_name@,
            address_offset: self.address_offset,
            layout: self.layout,
            matrix_dim: opt(self.matrix_dim),
            symbol_type_link: opt(self.symbol_type_link),
            children: views(self.children@),
        }
    }
}

impl StructureComponent {
    /// The node before anything is read.
    pub open spec fn blank() -> StructureComponentView {
        StructureComponentView {
            name: Seq::empty(),
            typedef_name: Seq::empty(),
            address_offset: u32::MAX,
            layout: IndexMode::blank(),
            matrix_dim: None,
            symbol_type_link: None,
            children: Seq::empty(),
        }
    }
}

impl Default for StructureComponent {
    fn default() -> (r: Self)
        ensures
            r@ == StructureComponent::blank(),
    {
        StructureComponent {
            name: no_text(),
            typedef_name: no_text(),
            address_offset: u32::MAX,
            layout: IndexMode::default(),
            matrix_dim: None,
            symbol_type_link: None,
            children: none_yet(),
        }
    }
}

impl StructureComponent {
    /// What the parameters at the start say, and where the next ones start.
    pub open spec fn head(c: Cur) -> Got<StructureComponentView> {
        let v = StructureComponent::blank();
        match read_ident(c) {
            Err(f) => Err(f),
            Ok((name, c0)) => {
                match read_ident(c0) {
                    Err(f) => Err(f),
                    Ok((typedef_name, c1)) => {
                        match read_uint(c1, u32::MAX as int) {
                            Err(f) => Err(f),
                            Ok((address_offset, c2)) => {
                                Ok(
                                    (
                                        StructureComponentView {
                                            name,
                                            typedef_name,
                                            address_offset: (address_offset as u32),
                                            ..v
                                        },
                                        c2
                                    )
                                )
                            },
                        }
                    },
                }
            },
        }
    }

    fn read_head(cur: &mut ParamCursor) -> (r: Result<Self>)
        ensures
            match r {
                Ok(v) => StructureComponent::head(old(cur)@) == Ok::<_, Failure>((v@, final(cur)@)),
                Err(e) => StructureComponent::head(old(cur)@) == Err::<(StructureComponentView, Cur), _>(e@),
            },
    {
        let name = cur.ident()?;
        let typedef_name = cur.ident()?;
        let address_offset = cur.uint::<u32>()?;
        let mut node = StructureComponent::default();
        node.name = name;
        node.typedef_name = typedef_name;
        node.address_offset = address_offset;
        Ok(node)
    }
}

impl StructureComponent {
    /// What the parameters at the cursor set, and where the next ones start.
    pub open spec fn option(v: StructureComponentView, c: Cur) -> Got<StructureComponentView> {
        if c.at("LAYOUT"@) {
            match read_enum_or(c.step(), IndexMode::NotSet) {
                Err(f) => Err(f),
                Ok((x, c0)) => {
                    Ok((StructureComponentView { layout: x, ..v }, c0))
                },
            }
        } else if c.at("MATRIX_DIM"@) {
            match read_dims(c.step()) {
                Err(f) => Err(f),
                Ok((x, c0)) => {
                    Ok((StructureComponentView { matrix_dim: Some(x), ..v }, c0))
                },
            }
        } else if c.at("SYMBOL_TYPE_LINK"@) {
            match read_ident(c.step()) {
                Err(f) => Err(f),
                Ok((x, c0)) => {
                    Ok((StructureComponentView { symbol_type_link: Some(x), ..v }, c0))
                },
            }
        } else {
            match read_token(c) {
                Err(f) => Err(f),
                Ok((_t, c0)) => {
                    Ok((v, c0))
                },
            }
        }
    }

    /// What all the parameters from the cursor on set, and where reading them ends.
    pub open spec fn options(v: StructureComponentView, c: Cur) -> Got<StructureComponentView>
        decreases c.left(),
    {
        if !c.more() {
            Ok((v, c))
        } else {
            match StructureComponent::option(v, c) {
                Err(f) => Err(f),
                Ok((w, n)) => if 0 <= n.left() < c.left() {
                    StructureComponent::options(w, n)
                } else {
                    arbitrary()
                },
            }
        }
    }

    fn read_option(&mut self, cur: &mut ParamCursor) -> (r: Result<()>)
        requires
            old(cur)@.more(),
        ensures
            match r {
                Ok(()) => {
                    &&& StructureComponent::option(old(self)@, old(cur)@) == Ok::<_, Failure>(
                        (final(self)@, final(cur)@),
                    )
                    &&& 0 <= final(cur)@.left() < old(cur)@.left()
                },
                Err(e) => StructureComponent::option(old(self)@, old(cur)@) == Err::<(StructureComponentView, Cur), _>(e@),
            },
    {
        if cur.take_if("LAYOUT") {
            let x = enum_or(cur, IndexMode::NotSet)?;
            self.layout = x;
            return Ok(());
        }
        if cur.take_if("MATRIX_DIM") {
            let x = matrix_dim(cur);
            self.matrix_dim = Some(x);
            return Ok(());
        }
        if cur.take_if("SYMBOL_TYPE_LINK") {
            let x = cur.ident()?;
            self.symbol_type_link = Some(x);
            return Ok(());
        }
        let _t = cur.next_token()?;
        Ok(())
    }

    fn read_options(&mut self, cur: &mut ParamCursor) -> (r: Result<()>)
        ensures
            match r {
                Ok(()) => {
                    &&& StructureComponent::options(old(self)@, old(cur)@) == Ok::<_, Failure>(
                        (final(self)@, final(cur)@),
                    )
                    &&& final(cur)@.left() <= old(cur)@.left()
                    &&& final(cur)@ == old(cur)@ || final(cur)@.left() >= 0
                },
                Err(e) => StructureComponent::options(old(self)@, old(cur)@) == Err::<(StructureComponentView, Cur), _>(e@),
            },
    {
        let ghost whole = StructureComponent::options(self@, cur@);
        while !cur.is_empty()
            invariant
                whole == StructureComponent::options(self@, cur@),
                whole == StructureComponent::options(old(self)@, old(cur)@),
                cur@.left() <= old(cur)@.left(),
                cur@ == old(cur)@ || cur@.left() >= 0,
            decreases cur@.left(),
        {
            self.read_option(cur)?;
        }
        Ok(())
    }
}

impl Node for StructureComponent {
    open spec fn keyword_text() -> Seq<char> {
        "STRUCTURE_COMPONENT"@
    }

    open spec fn parsed(tree: Tree) -> std::result::Result<StructureComponentView, Failure> {
        match StructureComponent::head(Cur::start(tree)) {
            Err(f) => Err(f),
            Ok((v, c)) => match StructureComponent::options(v, c) {
                Err(f) => Err(f),
                Ok((v, _)) => match children_parsed::<StructureComponentChild>(children_of(tree.items), 0) {
                    Err(f) => Err(f),
                    Ok(children) => Ok(StructureComponentView { children, ..v }),
                },
            },
        }
    }

    open spec fn keeps(&self, tree: Tree) -> bool {
        all_kept(self.children@, tree)
    }

    open spec fn body(v: StructureComponentView, p: Page) -> Written {
        let p = if v.typedef_name.len() > 0 { p.line(v.typedef_name) } else { p };
        let p = p.line(hex_form(v.address_offset as nat));
        let p = match v.layout.word() { Some(kw) => p.word("LAYOUT"@, kw), None => p };
        let p = match v.matrix_dim { Some(x) => p.word("MATRIX_DIM"@, listed(x)), None => p };
        let p = match v.symbol_type_link { Some(x) if x.len() > 0 => p.word("SYMBOL_TYPE_LINK"@, x), _ => p };
        children_written::<StructureComponentChild>(v.children, 0, false, p)
    }

    open spec fn block(v: StructureComponentView, p: Page) -> Written {
        enclosed("STRUCTURE_COMPONENT"@, Self::body(v, p.begin("STRUCTURE_COMPONENT "@ + v.name)))
    }

    fn keyword() -> (r: &'static str) {
        "STRUCTURE_COMPONENT"
    }

    fn parse(block: &Block) -> (r: Result<Self>) {
        let mut cur = ParamCursor::new(block);
        let mut node = StructureComponent::read_head(&mut cur)?;
        node.read_options(&mut cur)?;
        node.children = read_children::<StructureComponentChild>(block)?;
        Ok(node)
    }

    fn write_body(&self, w: &mut Writer) -> (r: Result<()>) {
        if self.typedef_name.as_str().unicode_len() > 0 {
            w.line(self.typedef_name.as_str());
        }
        w.line(to_hex(self.address_offset as u64).as_str());
        if let Some(kw) = self.layout.as_keyword() {
            w.word("LAYOUT", kw);
        }
        if let Some(x) = &self.matrix_dim {
            w.word("MATRIX_DIM", dims_text(x.as_slice()).as_str());
        }
        if let Some(x) = &self.symbol_type_link {
            if x.as_str().unicode_len() > 0 {
                w.word("SYMBOL_TYPE_LINK", x.as_str());
            }
        }
        write_children(&self.children, false, w)
    }

    fn write_block(&self, w: &mut Writer) -> (r: Result<()>) {
        let mut s = "STRUCTURE_COMPONENT ".to_string();
        s.append(self.name.as_str());
        w.begin_block(s.as_str());
        self.write_body(w)?;
        w.end_block("STRUCTURE_COMPONENT");
        Ok(())
    }
}

/// `OVERWRITE`: what an instance says other than its type.
#[derive(Debug, Clone, PartialEq, Eq)]
pub struct Overwrite {
    pub name: String,
    pub axis_no: u16,
    pub conversion: Option<String>,
    pub format: Option<String>,
    pub phys_unit: Option<String>,
    pub input_quantity: Option<String>,
    pub monotony: MonotonyType,
    pub lower_limit: Option<Number>,
    pub upper_limit: Option<Number>,
    pub lower_limit_ex: Option<Number>,
    pub upper_limit_ex: Option<Number>,
}

/// [`Overwrite`] as a mathematical value.
pub struct OverwriteView {
    pub name: Seq<char>,
    pub axis_no: u16,
    pub conversion: Option<Seq<char>>,
    pub format: Option<Seq<char>>,
    pub phys_unit: Option<Seq<char>>,
    pub input_quantity: Option<Seq<char>>,
    pub monotony: MonotonyType,
    pub lower_limit: Option<Num>,
    pub upper_limit: Option<Num>,
    pub lower_limit_ex: Option<Num>,
    pub upper_limit_ex: Option<Num>,
}

impl View for Overwrite {
    type V = OverwriteView;

    open spec fn view(&self) -> OverwriteView {
        OverwriteView {
            name: self.name@,
            axis_no: self.axis_no,
            conversion: opt(self.conversion),
            format: opt(self.format),
            phys_unit: opt(self.phys_unit),
            input_quantity: opt(self.input_quantity),
            monotony: self.monotony,
            lower_limit: opt(self.lower_limit),
            upper_limit: opt(self.upper_limit),
            lower_limit_ex: opt(self.lower_limit_ex),
            upper_limit_ex: opt(self.upper_limit_ex),
        }
    }
}

impl Overwrite {
    /// The node before anything is read.
    pub open spec fn blank() -> OverwriteView {
        OverwriteView {
            name: Seq::empty(),
            axis_no: 0,
            conversion: None,
            format: None,
            phys_unit: None,
            input_quantity: None,
            monotony: MonotonyType::blank(),
            lower_limit: None,
            upper_limit: None,
            lower_limit_ex: Some(num_zero()),
            upper_limit_ex: Some(num_zero()),
        }
    }
}

impl Default for Overwrite {
    fn default() -> (r: Self)
        ensures
            r@ == Overwrite::blank(),
    {
        Overwrite {
            name: no_text(),
            axis_no: 0,
            conversion: None,
            format: None,
            phys_unit: None,
            input_quantity: None,
            monotony: MonotonyType::default(),
            lower_limit: None,
            upper_limit: None,
            lower_limit_ex: Some(Number::default()),
            upper_limit_ex: Some(Number::default()),
        }
    }
}

impl Overwrite {
    /// What the parameters at the start say, and where the next ones start.
    pub open spec fn head(c: Cur) -> Got<OverwriteView> {
        let v = Overwrite::blank();
        match read_ident(c) {
            Err(f) => Err(f),
            Ok((name, c0)) => {
                match read_uint(c0, u16::MAX as int) {
                    Err(f) => Err(f),
                    Ok((axis_no, c1)) => {
                        Ok((OverwriteView { name, axis_no: (axis_no as u16), ..v }, c1))
                    },
                }
            },
        }
    }

    fn read_head(cur: &mut ParamCursor) -> (r: Result<Self>)
        ensures
            match r {
                Ok(v) => Overwrite::head(old(cur)@) == Ok::<_, Failure>((v@, final(cur)@)),
                Err(e) => Overwrite::head(old(cur)@) == Err::<(OverwriteView, Cur), _>(e@),
            },
    {
        let name = cur.ident()?;
        let axis_no = cur.uint::<u16>()?;
        let mut node = Overwrite::default();
        node.name = name;
        node.axis_no = axis_no;
        Ok(node)
    }
}

impl Overwrite {
    /// What the parameters at the cursor set, and where the next ones start.
    pub open spec fn option(v: OverwriteView, c: Cur) -> Got<OverwriteView> {
        if c.at("FORMAT"@) {
            match read_ident(c.step()) {
                Err(f) => Err(f),
                Ok((x, c0)) => {
                    Ok((OverwriteView { format: Some(x), ..v }, c0))
                },
            }
        } else if c.at("LIMITS"@) {
            match read_limits(c.step()) {
                Err(f) => Err(f),
                Ok((x, c0)) => {
                    Ok((OverwriteView { lower_limit: Some(x.0), upper_limit: Some(x.1), ..v }, c0))
                },
            }
        } else if c.at("CONVERSION"@) {
            match read_ident(c.step()) {
                Err(f) => Err(f),
                Ok((x, c0)) => {
                    Ok((OverwriteView { conversion: Some(x), ..v }, c0))
                },
            }
        } else if c.at("PHYS_UNIT"@) {
            match read_ident(c.step()) {
                Err(f) => Err(f),
                Ok((x, c0)) => {
                    Ok((OverwriteView { phys_unit: Some(x), ..v }, c0))
                },
            }
        } else if c.at("INPUT_QUANTITY"@) {
            match read_ident(c.step()) {
                Err(f) => Err(f),
                Ok((x, c0)) => {
                    Ok((OverwriteView { input_quantity: Some(x), ..v }, c0))
                },
            }
        } else if c.at("MONOTONY"@) {
            match read_enum_or(c.step(), MonotonyType::NotSet) {
                Err(f) => Err(f),
                Ok((x, c0)) => {
                    Ok((OverwriteView { monotony: x, ..v }, c0))
                },
            }
        } else if c.at("EXTENDED_LIMITS"@) {
            match read_limits(c.step()) {
                Err(f) => Err(f),
                Ok((x, c0)) => {
                    Ok((OverwriteView { lower_limit_ex: Some(x.0), upper_limit_ex: Some(x.1), ..v }, c0))
                },
            }
        } else {
            match read_token(c) {
                Err(f) => Err(f),
                Ok((_t, c0)) => {
                    Ok((v, c0))
                },
            }
        }
    }

    /// What all the parameters from the cursor on set, and where reading them ends.
    pub open spec fn options(v: OverwriteView, c: Cur) -> Got<OverwriteView>
        decreases c.left(),
    {
        if !c.more() {
            Ok((v, c))
        } else {
            match Overwrite::option(v, c) {
                Err(f) => Err(f),
                Ok((w, n)) => if 0 <= n.left() < c.left() {
                    Overwrite::options(w, n)
                } else {
                    arbitrary()
                },
            }
        }
    }

    fn read_option(&mut self, cur: &mut ParamCursor) -> (r: Result<()>)
        requires
            old(cur)@.more(),
        ensures
            match r {
                Ok(()) => {
                    &&& Overwrite::option(old(self)@, old(cur)@) == Ok::<_, Failure>(
                        (final(self)@, final(cur)@),
                    )
                    &&& 0 <= final(cur)@.left() < old(cur)@.left()
                },
                Err(e) => Overwrite::option(old(self)@, old(cur)@) == Err::<(OverwriteView, Cur), _>(e@),
            },
    {
        if cur.take_if("FORMAT") {
            let x = cur.ident()?;
            self.format = Some(x);
            return Ok(());
        }
        if cur.take_if("LIMITS") {
            let x = limits(cur)?;
            self.lower_limit = Some(x.0);
            self.upper_limit = Some(x.1);
            return Ok(());
        }
        if cur.take_if("CONVERSION") {
            let x = cur.ident()?;
            self.conversion = Some(x);
            return Ok(());
        }
        if cur.take_if("PHYS_UNIT") {
            let x = cur.ident()?;
            self.phys_unit = Some(x);
            return Ok(());
        }
        if cur.take_if("INPUT_QUANTITY") {
            let x = cur.ident()?;
            self.input_quantity = Some(x);
            return Ok(());
        }
        if cur.take_if("MONOTONY") {
            let x = enum_or(cur, MonotonyType::NotSet)?;
            self.monotony = x;
            return Ok(());
        }
        if cur.take_if("EXTENDED_LIMITS") {
            let x = limits(cur)?;
            self.lower_limit_ex = Some(x.0);
            self.upper_limit_ex = Some(x.1);
            return Ok(());
        }
        let _t = cur.next_token()?;
        Ok(())
    }

    fn read_options(&mut self, cur: &mut ParamCursor) -> (r: Result<()>)
        ensures
            match r {
                Ok(()) => {
                    &&& Overwrite::options(old(self)@, old(cur)@) == Ok::<_, Failure>(
                        (final(self)@, final(cur)@),
                    )
                    &&& final(cur)@.left() <= old(cur)@.left()
                    &&& final(cur)@ == old(cur)@ || final(cur)@.left() >= 0
                },
                Err(e) => Overwrite::options(old(self)@, old(cur)@) == Err::<(OverwriteView, Cur), _>(e@),
            },
    {
        let ghost whole = Overwrite::options(self@, cur@);
        while !cur.is_empty()
            invariant
                whole == Overwrite::options(self@, cur@),
                whole == Overwrite::options(old(self)@, old(cur)@),
                cur@.left() <= old(cur)@.left(),
                cur@ == old(cur)@ || cur@.left() >= 0,
            decreases cur@.left(),
        {
            self.read_option(cur)?;
        }
        Ok(())
    }
}

impl Node for Overwrite {
    open spec fn keyword_text() -> Seq<char> {
        "OVERWRITE"@
    }

    open spec fn parsed(tree: Tree) -> std::result::Result<OverwriteView, Failure> {
        match Overwrite::head(Cur::start(tree)) {
            Err(f) => Err(f),
            Ok((v, c)) => match Overwrite::options(v, c) {
                Err(f) => Err(f),
                Ok((v, _)) => Ok(v),
            },
        }
    }

    open spec fn body(v: OverwriteView, p: Page) -> Written {
        let p = p.line(dec(v.axis_no as nat));
        let p = match v.conversion { Some(x) if x.len() > 0 => p.word("CONVERSION"@, x), _ => p };
        let p = match v.format { Some(x) if x.len() > 0 => p.word("FORMAT"@, x), _ => p };
        let p = match v.phys_unit { Some(x) if x.len() > 0 => p.word("PHYS_UNIT"@, x), _ => p };
        let p = match v.input_quantity { Some(x) if x.len() > 0 => p.word("INPUT_QUANTITY"@, x), _ => p };
        let p = match v.monotony.word() { Some(kw) => p.word("MONOTONY"@, kw), None => p };
        let p = match (v.lower_limit, v.upper_limit) {
            (Some(lo), Some(hi)) => p.line("LIMITS "@ + lo.text + " "@ + hi.text),
            _ => p
        };
        let p = match (v.lower_limit_ex, v.upper_limit_ex) {
            (Some(lo), Some(hi)) => p.line("EXTENDED_LIMITS "@ + lo.text + " "@ + hi.text),
            _ => p
        };
        Ok(p)
    }

    open spec fn block(v: OverwriteView, p: Page) -> Written {
        enclosed("OVERWRITE"@, Self::body(v, p.begin("OVERWRITE "@ + v.name)))
    }

    fn keyword() -> (r: &'static str) {
        "OVERWRITE"
    }

    fn parse(block: &Block) -> (r: Result<Self>) {
        let mut cur = ParamCursor::new(block);
        let mut node = Overwrite::read_head(&mut cur)?;
        node.read_options(&mut cur)?;
        Ok(node)
    }

    fn write_body(&self, w: &mut Writer) -> (r: Result<()>) {
        w.line(dec_text(self.axis_no as u64).as_str());
        if let Some(x) = &self.conversion {
            if x.as_str().unicode_len() > 0 {
                w.word("CONVERSION", x.as_str());
            }
        }
        if let Some(x) = &self.format {
            if x.as_str().unicode_len() > 0 {
                w.word("FORMAT", x.as_str());
            }
        }
        if let Some(x) = &self.phys_unit {
            if x.as_str().unicode_len() > 0 {
                w.word("PHYS_UNIT", x.as_str());
            }
        }
        if let Some(x) = &self.input_quantity {
            if x.as_str().unicode_len() > 0 {
                w.word("INPUT_QUANTITY", x.as_str());
            }
        }
        if let Some(kw) = self.monotony.as_keyword() {
            w.word("MONOTONY", kw);
        }
        if let Some(lo) = &self.lower_limit {
            if let Some(hi) = &self.upper_limit {
                let mut s = "LIMITS ".to_string();
                s.append(lo.text.as_str());
                s.append(" ");
                s.append(hi.text.as_str());
                w.line(s.as_str());
            }
        }
        if let Some(lo) = &self.lower_limit_ex {
            if let Some(hi) = &self.upper_limit_ex {
                let mut s = "EXTENDED_LIMITS ".to_string();
                s.append(lo.text.as_str());
                s.append(" ");
                s.append(hi.text.as_str());
                w.line(s.as_str());
            }
        }
        Ok(())
    }

    fn write_block(&self, w: &mut Writer) -> (r: Result<()>) {
        let mut s = "OVERWRITE ".to_string();
        s.append(self.name.as_str());
        w.begin_block(s.as_str());
        self.write_body(w)?;
        w.end_block("OVERWRITE");
        Ok(())
    }
}

/// `AR_COMPONENT`: the AUTOSAR component that a structure component is.
#[derive(Debug, Clone, PartialEq, Eq)]
pub struct ArComponent {
    pub component_type: String,
    pub prototype_of: Option<String>,
}

/// [`ArComponent`] as a mathematical value.
pub struct ArComponentView {
    pub component_type: Seq<char>,
    pub prototype_of: Option<Seq<char>>,
}

impl View for ArComponent {
    type V = ArComponentView;

    open spec fn view(&self) -> ArComponentView {
        ArComponentView {
            component_type: self.component_type@,
            prototype_of: opt(self.prototype_of),
        }
    }
}

impl ArComponent {
    /// The node before anything is read.
    pub open spec fn blank() -> ArComponentView {
        ArComponentView {
            component_type: Seq::empty(),
            prototype_of: None,
        }
    }
}

impl Default for ArComponent {
    fn default() -> (r: Self)
        ensures
            r@ == ArComponent::blank(),
    {
        ArComponent {
            component_type: no_text(),
            prototype_of: None,
        }
    }
}

impl ArComponent {
    /// What the parameters at the start say, and where the next ones start.
    pub open spec fn head(c: Cur) -> Got<ArComponentView> {
        let v = ArComponent::blank();
        match read_string(c) {
            Err(f) => Err(f),
            Ok((component_type, c0)) => {
                Ok((ArComponentView { component_type, ..v }, c0))
            },
        }
    }

    fn read_head(cur: &mut ParamCursor) -> (r: Result<Self>)
        ensures
            match r {
                Ok(v) => ArComponent::head(old(cur)@) == Ok::<_, Failure>((v@, final(cur)@)),
                Err(e) => ArComponent::head(old(cur)@) == Err::<(ArComponentView, Cur), _>(e@),
            },
    {
        let component_type = cur.string()?;
        let mut node = ArComponent::default();
        node.component_type = component_type;
        Ok(node)
    }
}

impl ArComponent {
    /// What the parameters at the cursor set, and where the next ones start.
    pub open spec fn option(v: ArComponentView, c: Cur) -> Got<ArComponentView> {
        if c.at("PROTOTYPE_OF"@) {
            match read_ident(c.step()) {
                Err(f) => Err(f),
                Ok((x, c0)) => {
                    Ok((ArComponentView { prototype_of: Some(x), ..v }, c0))
                },
            }
        } else {
            match read_token(c) {
                Err(f) => Err(f),
                Ok((_t, c0)) => {
                    Ok((v, c0))
                },
            }
        }
    }

    /// What all the parameters from the cursor on set, and where reading them ends.
    pub open spec fn options(v: ArComponentView, c: Cur) -> Got<ArComponentView>
        decreases c.left(),
    {
        if c.left() < 2 {
            Ok((v, c))
        } else {
            match ArComponent::option(v, c) {
                Err(f) => Err(f),
                Ok((w, n)) => if 0 <= n.left() < c.left() {
                    ArComponent::options(w, n)
                } else {
                    arbitrary()
                },
            }
        }
    }

    fn read_option(&mut self, cur: &mut ParamCursor) -> (r: Result<()>)
        requires
            old(cur)@.more(),
        ensures
            match r {
                Ok(()) => {
                    &&& ArComponent::option(old(self)@, old(cur)@) == Ok::<_, Failure>(
                        (final(self)@, final(cur)@),
                    )
                    &&& 0 <= final(cur)@.left() < old(cur)@.left()
                },
                Err(e) => ArComponent::option(old(self)@, old(cur)@) == Err::<(ArComponentView, Cur), _>(e@),
            },
    {
        if cur.take_if("PROTOTYPE_OF") {
            let x = cur.ident()?;
            self.prototype_of = Some(x);
            return Ok(());
        }
        let _t = cur.next_token()?;
        Ok(())
    }

    fn read_options(&mut self, cur: &mut ParamCursor) -> (r: Result<()>)
        ensures
            match r {
                Ok(()) => {
                    &&& ArComponent::options(old(self)@, old(cur)@) == Ok::<_, Failure>(
                        (final(self)@, final(cur)@),
                    )
                    &&& final(cur)@.left() <= old(cur)@.left()
                    &&& final(cur)@ == old(cur)@ || final(cur)@.left() >= 0
                },
                Err(e) => ArComponent::options(old(self)@, old(cur)@) == Err::<(ArComponentView, Cur), _>(e@),
            },
    {
        let ghost whole = ArComponent::options(self@, cur@);
        while cur.remaining() >= 2
            invariant
                whole == ArComponent::options(self@, cur@),
                whole == ArComponent::options(old(self)@, old(cur)@),
                cur@.left() <= old(cur)@.left(),
                cur@ == old(cur)@ || cur@.left() >= 0,
            decreases cur@.left(),
        {
            self.read_option(cur)?;
        }
        Ok(())
    }
}

impl Node for ArComponent {
    open spec fn keyword_text() -> Seq<char> {
        "AR_COMPONENT"@
    }

    open spec fn parsed(tree: Tree) -> std::result::Result<ArComponentView, Failure> {
        match ArComponent::head(Cur::start(tree)) {
            Err(f) => Err(f),
            Ok((v, c)) => match ArComponent::options(v, c) {
                Err(f) => Err(f),
                Ok((v, _)) => Ok(v),
            },
        }
    }

    open spec fn body(v: ArComponentView, p: Page) -> Written {
        let p = p.quote_line(v.component_type);
        let p = match v.prototype_of { Some(x) if x.len() > 0 => p.word("PROTOTYPE_OF"@, x), _ => p };
        Ok(p)
    }

    open spec fn block(v: ArComponentView, p: Page) -> Written {
        enclosed("AR_COMPONENT"@, Self::body(v, p.begin("AR_COMPONENT"@)))
    }

    fn keyword() -> (r: &'static str) {
        "AR_COMPONENT"
    }

    fn parse(block: &Block) -> (r: Result<Self>) {
        let mut cur = ParamCursor::new(block);
        let mut node = ArComponent::read_head(&mut cur)?;
        node.read_options(&mut cur)?;
        Ok(node)
    }

    fn write_body(&self, w: &mut Writer) -> (r: Result<()>) {
        w.quote_line(self.component_type.as_str());
        if let Some(x) = &self.prototype_of {
            if x.as_str().unicode_len() > 0 {
                w.word("PROTOTYPE_OF", x.as_str());
            }
        }
        Ok(())
    }

    fn write_block(&self, w: &mut Writer) -> (r: Result<()>) {
        w.begin_block("AR_COMPONENT");
        self.write_body(w)?;
        w.end_block("AR_COMPONENT");
        Ok(())
    }
}

} // verus!
