//! `RECORD_LAYOUT`: how characteristics and axis points are laid out in memory.

use crate::a2l::block::{Block, Tree};
use crate::a2l::error::{Error, Failure, Result};
use crate::a2l::maps::pairs;
use crate::a2l::model::characteristic::AxisPts;
use crate::a2l::model::enums::{A2lKeyword, AddrType, DataSize, DataType, IndexMode, IndexOrder};
use crate::a2l::model::parts::{enum_or, keyword_or, read_enum_or, word_or};
use crate::a2l::node::{Node, enclosed};
use crate::a2l::params::{Cur, Got, ParamCursor, read_ident, read_int, read_token};
use crate::a2l::token::{Tok, Token};
use crate::views::{append, no_text, none_yet, opt, opts, views};
use crate::a2l::writer::{Page, Writer, Written, quoted, Stopped};
use crate::text::{chars_of, debug_of, debug_text, dec_int, dec_int_text, same_text, text_of};
use vstd::prelude::*;

verus! {

/// Where the points of an axis are.
#[derive(Debug, Clone, PartialEq, Eq)]
pub struct AxisPtsLayoutDesc {
    pub name: String,
    pub position: i32,
    pub data_type: DataType,
    pub axis_idx: i32,
    pub index_order: IndexOrder,
    pub address_type: AddrType,
}

/// [`AxisPtsLayoutDesc`] as a mathematical value.
pub struct AxisPtsLayoutDescView {
    pub name: Seq<char>,
    pub position: i32,
    pub data_type: DataType,
    pub axis_idx: i32,
    pub index_order: IndexOrder,
    pub address_type: AddrType,
}

impl View for AxisPtsLayoutDesc {
    type V = AxisPtsLayoutDescView;

    open spec fn view(&self) -> AxisPtsLayoutDescView {
        AxisPtsLayoutDescView {
            name: self.name@,
            position: self.position,
            data_type: self.data_type,
            axis_idx: self.axis_idx,
            index_order: self.index_order,
            address_type: self.address_type,
        }
    }
}

/// Where the rescale pairs of an axis are.
#[derive(Debug, Clone, PartialEq, Eq)]
pub struct AxisRescaleLayoutDesc {
    pub name: String,
    pub position: i32,
    pub data_type: DataType,
    pub axis_idx: i32,
    pub index_order: IndexOrder,
    pub address_type: AddrType,
    pub max_no_rescale_pairs: i32,
}

/// [`AxisRescaleLayoutDesc`] as a mathematical value.
pub struct AxisRescaleLayoutDescView {
    pub name: Seq<char>,
    pub position: i32,
    pub data_type: DataType,
    pub axis_idx: i32,
    pub index_order: IndexOrder,
    pub address_type: AddrType,
    pub max_no_rescale_pairs: i32,
}

impl View for AxisRescaleLayoutDesc {
    type V = AxisRescaleLayoutDescView;

    open spec fn view(&self) -> AxisRescaleLayoutDescView {
        AxisRescaleLayoutDescView {
            name: self.name@,
            position: self.position,
            data_type: self.data_type,
            axis_idx: self.axis_idx,
            index_order: self.index_order,
            address_type: self.address_type,
            max_no_rescale_pairs: self.max_no_rescale_pairs,
        }
    }
}

/// Where the function values are.
#[derive(Debug, Clone, PartialEq, Eq)]
pub struct FncValuesLayoutDesc {
    pub name: String,
    pub position: i32,
    pub data_type: DataType,
    pub index_mode: IndexMode,
    pub address_type: AddrType,
}

/// [`FncValuesLayoutDesc`] as a mathematical value.
pub struct FncValuesLayoutDescView {
    pub name: Seq<char>,
    pub position: i32,
    pub data_type: DataType,
    pub index_mode: IndexMode,
    pub address_type: AddrType,
}

impl View for FncValuesLayoutDesc {
    type V = FncValuesLayoutDescView;

    open spec fn view(&self) -> FncValuesLayoutDescView {
        FncValuesLayoutDescView {
            name: self.name@,
            position: self.position,
            data_type: self.data_type,
            index_mode: self.index_mode,
            address_type: self.address_type,
        }
    }
}

/// Where a single value is, such as a number of points, an address or an identification.
#[derive(Debug, Clone, PartialEq, Eq)]
pub struct NoAxisPtsLayoutDesc {
    pub name: String,
    pub position: i32,
    pub data_type: DataType,
    pub axis_idx: i32,
}

/// [`NoAxisPtsLayoutDesc`] as a mathematical value.
pub struct NoAxisPtsLayoutDescView {
    pub name: Seq<char>,
    pub position: i32,
    pub data_type: DataType,
    pub axis_idx: i32,
}

impl View for NoAxisPtsLayoutDesc {
    type V = NoAxisPtsLayoutDescView;

    open spec fn view(&self) -> NoAxisPtsLayoutDescView {
        NoAxisPtsLayoutDescView {
            name: self.name@,
            position: self.position,
            data_type: self.data_type,
            axis_idx: self.axis_idx,
        }
    }
}

/// The size of reserved memory that a data type stands for.
pub open spec fn size_of_type(d: DataType) -> Option<DataSize> {
    match d {
        DataType::UByte | DataType::SByte => Some(DataSize::BYTE),
        DataType::UWord | DataType::SWord => Some(DataSize::WORD),
        DataType::ULong | DataType::SLong | DataType::Float32Ieee => Some(DataSize::LONG),
        _ => None,
    }
}

impl NoAxisPtsLayoutDesc {
    pub fn data_size(&self) -> (r: Option<DataSize>)
        ensures
            r == size_of_type(self@.data_type),
    {
        match self.data_type {
            DataType::UByte | DataType::SByte => Some(DataSize::BYTE),
            DataType::UWord | DataType::SWord => Some(DataSize::WORD),
            DataType::ULong | DataType::SLong | DataType::Float32Ieee => Some(DataSize::LONG),
            _ => None,
        }
    }
}

/// The data type that a size stands for.
pub open spec fn type_for_size(size: DataSize) -> DataType {
    match size {
        DataSize::BYTE => DataType::UByte,
        DataSize::WORD => DataType::UWord,
        DataSize::LONG => DataType::ULong,
    }
}

/// Reserved memory read with a size is written with that size.
pub proof fn law_size_of_type_for_size(size: DataSize)
    ensures
        size_of_type(type_for_size(size)) == Some(size),
{
}

fn data_type_for_size(size: DataSize) -> (r: DataType)
    ensures
        r == type_for_size(size),
{
    match size {
        DataSize::BYTE => DataType::UByte,
        DataSize::WORD => DataType::UWord,
        DataSize::LONG => DataType::ULong,
    }
}

/// `RECORD_LAYOUT`: how a characteristic is laid out in memory.
#[derive(Debug, Clone, PartialEq, Eq)]
pub struct RecordLayout {
    pub name: String,
    pub alignments: Option<[i32; 7]>,
    pub fnc_values: Option<FncValuesLayoutDesc>,
    pub axis_pts: [Option<AxisPtsLayoutDesc>; 5],
    /// `NO_AXIS_PTS_X..5`.
    pub no_axis_pts: [Option<NoAxisPtsLayoutDesc>; 5],
    pub fix_no_axis_pts: [i32; 5],
    /// `SRC_ADDR_X..5`.
    pub src_address: [Option<NoAxisPtsLayoutDesc>; 5],
    pub axis_rescale_x: Option<AxisRescaleLayoutDesc>,
    pub no_rescale_x: Option<NoAxisPtsLayoutDesc>,
    /// `OFFSET_X..5`.
    pub offset: [Option<NoAxisPtsLayoutDesc>; 5],
    /// `DIST_OP_X..5`.
    pub dist_op: [Option<NoAxisPtsLayoutDesc>; 5],
    /// `RIP_ADDR_W_X..5`.
    pub rip_addr: [Option<NoAxisPtsLayoutDesc>; 5],
    /// `SHIFT_OP_X..5`.
    pub shift_op: [Option<NoAxisPtsLayoutDesc>; 5],
    pub reserved: Vec<NoAxisPtsLayoutDesc>,
    pub identification: Option<NoAxisPtsLayoutDesc>,
    pub rip_addr_w: Option<NoAxisPtsLayoutDesc>,
    pub static_record_layout: bool,
    pub static_address_offsets: bool,
}

/// [`RecordLayout`] as a mathematical value.
pub struct RecordLayoutView {
    pub name: Seq<char>,
    pub alignments: Option<Seq<i32>>,
    pub fnc_values: Option<FncValuesLayoutDescView>,
    pub axis_pts: Seq<Option<AxisPtsLayoutDescView>>,
    pub no_axis_pts: Seq<Option<NoAxisPtsLayoutDescView>>,
    pub fix_no_axis_pts: Seq<i32>,
    pub src_address: Seq<Option<NoAxisPtsLayoutDescView>>,
    pub axis_rescale_x: Option<AxisRescaleLayoutDescView>,
    pub no_rescale_x: Option<NoAxisPtsLayoutDescView>,
    pub offset: Seq<Option<NoAxisPtsLayoutDescView>>,
    pub dist_op: Seq<Option<NoAxisPtsLayoutDescView>>,
    pub rip_addr: Seq<Option<NoAxisPtsLayoutDescView>>,
    pub shift_op: Seq<Option<NoAxisPtsLayoutDescView>>,
    pub reserved: Seq<NoAxisPtsLayoutDescView>,
    pub identification: Option<NoAxisPtsLayoutDescView>,
    pub rip_addr_w: Option<NoAxisPtsLayoutDescView>,
    pub static_record_layout: bool,
    pub static_address_offsets: bool,
}

impl View for RecordLayout {
    type V = RecordLayoutView;

    open spec fn view(&self) -> RecordLayoutView {
        RecordLayoutView {
            name: self.name@,
            alignments: opt(self.alignments),
            fnc_values: opt(self.fnc_values),
            axis_pts: opts(self.axis_pts@),
            no_axis_pts: opts(self.no_axis_pts@),
            fix_no_axis_pts: self.fix_no_axis_pts@,
            src_address: opts(self.src_address@),
            axis_rescale_x: opt(self.axis_rescale_x),
            no_rescale_x: opt(self.no_rescale_x),
            offset: opts(self.offset@),
            dist_op: opts(self.dist_op@),
            rip_addr: opts(self.rip_addr@),
            shift_op: opts(self.shift_op@),
            reserved: views(self.reserved@),
            identification: opt(self.identification),
            rip_addr_w: opt(self.rip_addr_w),
            static_record_layout: self.static_record_layout,
            static_address_offsets: self.static_address_offsets,
        }
    }
}

impl RecordLayout {
    /// The node before anything is read.
    pub open spec fn blank() -> RecordLayoutView {
        RecordLayoutView {
            name: Seq::empty(),
            alignments: None,
            fnc_values: None,
            axis_pts: seq![None, None, None, None, None],
            no_axis_pts: seq![None, None, None, None, None],
            fix_no_axis_pts: seq![-1i32, -1i32, -1i32, -1i32, -1i32],
            src_address: seq![None, None, None, None, None],
            axis_rescale_x: None,
            no_rescale_x: None,
            offset: seq![None, None, None, None, None],
            dist_op: seq![None, None, None, None, None],
            rip_addr: seq![None, None, None, None, None],
            shift_op: seq![None, None, None, None, None],
            reserved: Seq::empty(),
            identification: None,
            rip_addr_w: None,
            static_record_layout: false,
            static_address_offsets: false,
        }
    }
}

impl Default for RecordLayout {
    fn default() -> (r: Self)
        ensures
            r@ == RecordLayout::blank(),
    {
        let r = RecordLayout {
            name: no_text(),
            alignments: None,
            fnc_values: None,
            axis_pts: [None, None, None, None, None],
            no_axis_pts: [None, None, None, None, None],
            fix_no_axis_pts: [-1, -1, -1, -1, -1],
            src_address: [None, None, None, None, None],
            axis_rescale_x: None,
            no_rescale_x: None,
            offset: [None, None, None, None, None],
            dist_op: [None, None, None, None, None],
            rip_addr: [None, None, None, None, None],
            shift_op: [None, None, None, None, None],
            reserved: none_yet(),
            identification: None,
            rip_addr_w: None,
            static_record_layout: false,
            static_address_offsets: false,
        };
        proof {
            assert(r.fix_no_axis_pts@ =~= RecordLayout::blank().fix_no_axis_pts);
            assert(opts(r.axis_pts@) =~= RecordLayout::blank().axis_pts);
            assert(opts(r.no_axis_pts@) =~= RecordLayout::blank().no_axis_pts);
            assert(opts(r.src_address@) =~= RecordLayout::blank().src_address);
            assert(opts(r.offset@) =~= RecordLayout::blank().offset);
            assert(opts(r.dist_op@) =~= RecordLayout::blank().dist_op);
            assert(opts(r.rip_addr@) =~= RecordLayout::blank().rip_addr);
            assert(opts(r.shift_op@) =~= RecordLayout::blank().shift_op);
        }
        r
    }
}

/// The first six characters of a parameter that is not quoted, if it has so many.
pub open spec fn prefix_of(t: Tok) -> Seq<char> {
    if !t.quoted && t.text.len() >= 6 {
        t.text.subrange(0, 6)
    } else {
        Seq::empty()
    }
}

fn prefix(t: &Token) -> (r: String)
    ensures
        r@ == prefix_of(t@),
{
    let s = chars_of(t.text.as_str());
    if !t.quoted && s.len() >= 6 {
        text_of(&s, 0, 6)
    } else {
        no_text()
    }
}

/// The axis that the last letter of a parameter stands for.
pub open spec fn axis_of(text: Seq<char>) -> Option<int> {
    if text.len() == 0 {
        None
    } else if text.last() == 'X' {
        Some(0)
    } else if text.last() == 'Y' {
        Some(1)
    } else if text.last() == 'Z' {
        Some(2)
    } else if text.last() == '4' {
        Some(3)
    } else if text.last() == '5' {
        Some(4)
    } else {
        None
    }
}

/// The axis that a parameter is for.
pub open spec fn read_axis(t: Tok, c: Cur) -> Got<int> {
    match axis_of(t.text) {
        Some(i) => Ok((i, c)),
        None => Err(
            Failure::Parse(
                t.line,
                "RECORD_LAYOUT: invalid axis suffix in "@ + debug_of(t.text),
            ),
        ),
    }
}

fn axis_index(t: &Token) -> (r: Result<usize>)
    ensures
        match r {
            Ok(i) => i < 5 && axis_of(t@.text) == Some(i as int),
            Err(e) => axis_of(t@.text) is None && e@ == Failure::Parse(
                t@.line,
                "RECORD_LAYOUT: invalid axis suffix in "@ + debug_of(t@.text),
            ),
        },
{
    let s = chars_of(t.text.as_str());
    if s.len() > 0 {
        let c: char = s[s.len() - 1];
        if c == 'X' {
            return Ok(0);
        } else if c == 'Y' {
            return Ok(1);
        } else if c == 'Z' {
            return Ok(2);
        } else if c == '4' {
            return Ok(3);
        } else if c == '5' {
            return Ok(4);
        }
    }
    let mut m = "RECORD_LAYOUT: invalid axis suffix in ".to_string();
    m.append(debug_text(t.text.as_str()).as_str());
    Err(Error::parse(t.line, m))
}

/// A data type, or a size that stands for one; any other text is an unsupported type.
pub open spec fn read_data_type(c: Cur) -> Got<DataType> {
    match read_token(c) {
        Err(f) => Err(f),
        Ok((t, n)) => Ok(
            (
                match DataType::named(t.text) {
                    Some(d) => d,
                    None => match DataSize::named(t.text) {
                        Some(s) => type_for_size(s),
                        None => DataType::Unsupported,
                    },
                },
                n,
            ),
        ),
    }
}

fn take_data_type(cur: &mut ParamCursor) -> (r: Result<DataType>)
    ensures
        match r {
            Ok(v) => {
                &&& read_data_type(old(cur)@) == Ok::<_, Failure>((v, final(cur)@))
                &&& 0 <= final(cur)@.left() < old(cur)@.left()
            },
            Err(e) => read_data_type(old(cur)@) == Err::<(DataType, Cur), _>(e@),
        },
{
    let t = cur.next_token()?;
    if let Some(d) = DataType::from_keyword(t.text.as_str()) {
        return Ok(d);
    }
    if let Some(s) = DataSize::from_keyword(t.text.as_str()) {
        return Ok(data_type_for_size(s));
    }
    Ok(DataType::Unsupported)
}

/// A position and a data type.
pub open spec fn read_single(c: Cur, name: Seq<char>, axis_idx: i32) -> Got<NoAxisPtsLayoutDescView> {
    match read_int(c, i32::MIN as int, i32::MAX as int) {
        Err(f) => Err(f),
        Ok((position, m)) => match read_data_type(m) {
            Err(f) => Err(f),
            Ok((data_type, n)) => Ok(
                (
                    NoAxisPtsLayoutDescView {
                        name,
                        position: position as i32,
                        data_type,
                        axis_idx,
                    },
                    n,
                ),
            ),
        },
    }
}

fn take_no_axis_pts(text: &str, axis_idx: i32, cur: &mut ParamCursor) -> (r: Result<
    NoAxisPtsLayoutDesc,
>)
    ensures
        match r {
            Ok(v) => {
                &&& read_single(old(cur)@, text@, axis_idx) == Ok::<_, Failure>((v@, final(cur)@))
                &&& 0 <= final(cur)@.left() < old(cur)@.left()
            },
            Err(e) => read_single(old(cur)@, text@, axis_idx) == Err::<
                (NoAxisPtsLayoutDescView, Cur),
                _,
            >(e@),
        },
{
    let position: i32 = cur.sint::<i32>()?;
    let data_type = take_data_type(cur)?;
    Ok(NoAxisPtsLayoutDesc { name: text.to_string(), position, data_type, axis_idx })
}

/// Puts a value in one of the places.
fn set_slot<T: View>(a: &mut [Option<T>; 5], i: usize, x: T)
    requires
        i < 5,
    ensures
        opts(final(a)@) == opts(old(a)@).update(i as int, Some(x@)),
{
    let ghost before = opts(a@);
    a[i] = Some(x);
    proof {
        assert(opts(a@) =~= before.update(i as int, Some(x@)));
    }
}

/// Which alignment a parameter gives.
pub open spec fn alignment_of(text: Seq<char>) -> Option<int> {
    if text == "ALIGNMENT_BYTE"@ {
        Some(0)
    } else if text == "ALIGNMENT_WORD"@ {
        Some(1)
    } else if text == "ALIGNMENT_LONG"@ {
        Some(2)
    } else if text == "ALIGNMENT_FLOAT32_IEEE"@ {
        Some(3)
    } else if text == "ALIGNMENT_FLOAT64_IEEE"@ {
        Some(4)
    } else if text == "ALIGNMENT_INT64"@ {
        Some(5)
    } else if text == "ALIGNMENT_FLOAT16_IEEE"@ {
        Some(6)
    } else {
        None
    }
}

fn alignment_index(text: &str) -> (r: Option<usize>)
    ensures
        match r {
            Some(i) => i < 7 && alignment_of(text@) == Some(i as int),
            None => alignment_of(text@) is None,
        },
{
    if same_text(text, "ALIGNMENT_BYTE") {
        Some(0)
    } else if same_text(text, "ALIGNMENT_WORD") {
        Some(1)
    } else if same_text(text, "ALIGNMENT_LONG") {
        Some(2)
    } else if same_text(text, "ALIGNMENT_FLOAT32_IEEE") {
        Some(3)
    } else if same_text(text, "ALIGNMENT_FLOAT64_IEEE") {
        Some(4)
    } else if same_text(text, "ALIGNMENT_INT64") {
        Some(5)
    } else if same_text(text, "ALIGNMENT_FLOAT16_IEEE") {
        Some(6)
    } else {
        None
    }
}

/// The alignments that hold where none are given.
pub open spec fn usual_alignments() -> Seq<i32> {
    seq![1i32, 2i32, 4i32, 4i32, 4i32, 8i32, 2i32]
}

/// With one alignment given.
pub open spec fn aligned(a: Option<Seq<i32>>, i: int, x: i32) -> Option<Seq<i32>> {
    match a {
        Some(s) => Some(s.update(i, x)),
        None => Some(usual_alignments().update(i, x)),
    }
}

impl RecordLayout {
    fn set_alignment(&mut self, i: usize, x: i32)
        requires
            i < 7,
        ensures
            final(self)@ == (RecordLayoutView {
                alignments: aligned(old(self)@.alignments, i as int, x),
                ..old(self)@
            }),
    {
        let mut a: [i32; 7] = match &self.alignments {
            Some(a) => *a,
            None => [1, 2, 4, 4, 4, 8, 2],
        };
        proof {
            if self.alignments is None {
                assert(a@ =~= usual_alignments());
            }
        }
        a[i] = x;
        self.alignments = Some(a);
    }

    /// What a parameter with those that follow it sets, and where the next ones start.
    pub open spec fn entry(v: RecordLayoutView, t: Tok, c: Cur) -> Got<RecordLayoutView> {
        let k = prefix_of(t);
        if k == "FIX_NO"@ {
            match read_axis(t, c) {
                Err(f) => Err(f),
                Ok((i, c0)) => {
                    match read_int(c0, i32::MIN as int, i32::MAX as int) {
                        Err(f) => Err(f),
                        Ok((x, c1)) => {
                            Ok(
                                (
                                    RecordLayoutView {
                                        fix_no_axis_pts: v.fix_no_axis_pts.update(i, (x as i32)),
                                        ..v
                                    },
                                    c1
                                )
                            )
                        },
                    }
                },
            }
        } else if k == "FNC_VA"@ {
            match read_int(c, i32::MIN as int, i32::MAX as int) {
                Err(f) => Err(f),
                Ok((position, c0)) => {
                    match read_data_type(c0) {
                        Err(f) => Err(f),
                        Ok((data_type, c1)) => {
                            match read_enum_or(c1, IndexMode::NotSet) {
                                Err(f) => Err(f),
                                Ok((index_mode, c2)) => {
                                    match read_enum_or(c2, AddrType::DIRECT) {
                                        Err(f) => Err(f),
                                        Ok((address_type, c3)) => {
                                            Ok(
                                                (
                                                    RecordLayoutView {
                                                        fnc_values: Some(
                                                            FncValuesLayoutDescView {
                                                                name: "FNC_VALUES"@,
                                                                position: (position as i32),
                                                                data_type,
                                                                index_mode,
                                                                address_type
                                                            }
                                                        ),
                                                        ..v
                                                    },
                                                    c3
                                                )
                                            )
                                        },
                                    }
                                },
                            }
                        },
                    }
                },
            }
        } else if k == "DIST_O"@ {
            match read_axis(t, c) {
                Err(f) => Err(f),
                Ok((i, c0)) => {
                    match read_single(c0, t.text, i as i32) {
                        Err(f) => Err(f),
                        Ok((x, c1)) => {
                            Ok((RecordLayoutView { dist_op: v.dist_op.update(i, Some(x)), ..v }, c1))
                        },
                    }
                },
            }
        } else if k == "SRC_AD"@ {
            match read_axis(t, c) {
                Err(f) => Err(f),
                Ok((i, c0)) => {
                    match read_single(c0, t.text, i as i32) {
                        Err(f) => Err(f),
                        Ok((x, c1)) => {
                            Ok((RecordLayoutView { src_address: v.src_address.update(i, Some(x)), ..v }, c1))
                        },
                    }
                },
            }
        } else {
            RecordLayout::entry_of_points(v, t, c)
        }
    }

    fn read_entry(&mut self, t: &Token, cur: &mut ParamCursor) -> (r: Result<()>)
        requires
            old(cur)@.left() >= 0,
        ensures
            match r {
                Ok(()) => {
                    &&& RecordLayout::entry(old(self)@, t@, old(cur)@) == Ok::<_, Failure>(
                        (final(self)@, final(cur)@),
                    )
                    &&& 0 <= final(cur)@.left() <= old(cur)@.left()
                },
                Err(e) => RecordLayout::entry(old(self)@, t@, old(cur)@) == Err::<
                    (RecordLayoutView, Cur),
                    _,
                >(e@),
            },
    {
        let k = prefix(t);
        if same_text(k.as_str(), "FIX_NO") {
            let i = axis_index(t)?;
            let x = cur.sint::<i32>()?;
            self.fix_no_axis_pts[i] = x;
            return Ok(());
        }
        if same_text(k.as_str(), "FNC_VA") {
            let position = cur.sint::<i32>()?;
            let data_type = take_data_type(cur)?;
            let index_mode = enum_or(cur, IndexMode::NotSet)?;
            let address_type = enum_or(cur, AddrType::DIRECT)?;
            self.fnc_values = Some(
                FncValuesLayoutDesc {
                    name: "FNC_VALUES".to_string(),
                    position,
                    data_type,
                    index_mode,
                    address_type
                }
            );
            return Ok(());
        }
        if same_text(k.as_str(), "DIST_O") {
            let i = axis_index(t)?;
            let x = take_no_axis_pts(t.text.as_str(), i as i32, cur)?;
            set_slot(&mut self.dist_op, i, x);
            return Ok(());
        }
        if same_text(k.as_str(), "SRC_AD") {
            let i = axis_index(t)?;
            let x = take_no_axis_pts(t.text.as_str(), i as i32, cur)?;
            set_slot(&mut self.src_address, i, x);
            return Ok(());
        }
        self.read_entry_of_points(t, cur)
    }

    /// What a parameter sets that is for axis points.
    pub open spec fn entry_of_points(v: RecordLayoutView, t: Tok, c: Cur) -> Got<RecordLayoutView> {
        let k = prefix_of(t);
        if k == "NO_AXI"@ {
            match read_axis(t, c) {
                Err(f) => Err(f),
                Ok((i, c0)) => {
                    match read_single(c0, t.text, i as i32) {
                        Err(f) => Err(f),
                        Ok((x, c1)) => {
                            Ok((RecordLayoutView { no_axis_pts: v.no_axis_pts.update(i, Some(x)), ..v }, c1))
                        },
                    }
                },
            }
        } else if k == "OFFSET"@ {
            match read_axis(t, c) {
                Err(f) => Err(f),
                Ok((i, c0)) => {
                    match read_single(c0, t.text, i as i32) {
                        Err(f) => Err(f),
                        Ok((x, c1)) => {
                            Ok((RecordLayoutView { offset: v.offset.update(i, Some(x)), ..v }, c1))
                        },
                    }
                },
            }
        } else if k == "SHIFT_"@ {
            match read_axis(t, c) {
                Err(f) => Err(f),
                Ok((i, c0)) => {
                    match read_single(c0, t.text, i as i32) {
                        Err(f) => Err(f),
                        Ok((x, c1)) => {
                            Ok((RecordLayoutView { shift_op: v.shift_op.update(i, Some(x)), ..v }, c1))
                        },
                    }
                },
            }
        } else if k == "AXIS_P"@ {
            match read_axis(t, c) {
                Err(f) => Err(f),
                Ok((i, c0)) => {
                    match read_int(c0, i32::MIN as int, i32::MAX as int) {
                        Err(f) => Err(f),
                        Ok((position, c1)) => {
                            match read_data_type(c1) {
                                Err(f) => Err(f),
                                Ok((data_type, c2)) => {
                                    match read_enum_or(c2, IndexOrder::INDEX_INCR) {
                                        Err(f) => Err(f),
                                        Ok((index_order, c3)) => {
                                            match read_enum_or(c3, AddrType::DIRECT) {
                                                Err(f) => Err(f),
                                                Ok((address_type, c4)) => {
                                                    Ok(
                                                        (
                                                            RecordLayoutView {
                                                                axis_pts: v.axis_pts.update(
                                                                    i,
                                                                    Some(
                                                                        AxisPtsLayoutDescView {
                                                                            name: t.text,
                                                                            position: (position as i32),
                                                                            data_type,
                                                                            axis_idx: i as i32,
                                                                            index_order,
                                                                            address_type
                                                                        }
                                                                    )
                                                                ),
                                                                ..v
                                                            },
                                                            c4
                                                        )
                                                    )
                                                },
                                            }
                                        },
                                    }
                                },
                            }
                        },
                    }
                },
            }
        } else {
            RecordLayout::entry_of_rest(v, t, c)
        }
    }

    fn read_entry_of_points(&mut self, t: &Token, cur: &mut ParamCursor) -> (r: Result<()>)
        requires
            old(cur)@.left() >= 0,
        ensures
            match r {
                Ok(()) => {
                    &&& RecordLayout::entry_of_points(old(self)@, t@, old(cur)@) == Ok::<_, Failure>(
                        (final(self)@, final(cur)@),
                    )
                    &&& 0 <= final(cur)@.left() <= old(cur)@.left()
                },
                Err(e) => RecordLayout::entry_of_points(old(self)@, t@, old(cur)@) == Err::<
                    (RecordLayoutView, Cur),
                    _,
                >(e@),
            },
    {
        let k = prefix(t);
        if same_text(k.as_str(), "NO_AXI") {
            let i = axis_index(t)?;
            let x = take_no_axis_pts(t.text.as_str(), i as i32, cur)?;
            set_slot(&mut self.no_axis_pts, i, x);
            return Ok(());
        }
        if same_text(k.as_str(), "OFFSET") {
            let i = axis_index(t)?;
            let x = take_no_axis_pts(t.text.as_str(), i as i32, cur)?;
            set_slot(&mut self.offset, i, x);
            return Ok(());
        }
        if same_text(k.as_str(), "SHIFT_") {
            let i = axis_index(t)?;
            let x = take_no_axis_pts(t.text.as_str(), i as i32, cur)?;
            set_slot(&mut self.shift_op, i, x);
            return Ok(());
        }
        if same_text(k.as_str(), "AXIS_P") {
            let i = axis_index(t)?;
            let position = cur.sint::<i32>()?;
            let data_type = take_data_type(cur)?;
            let index_order = enum_or(cur, IndexOrder::INDEX_INCR)?;
            let address_type = enum_or(cur, AddrType::DIRECT)?;
            set_slot(
                &mut self.axis_pts,
                i,
                AxisPtsLayoutDesc {
                    name: t.text.clone(),
                    position,
                    data_type,
                    axis_idx: i as i32,
                    index_order,
                    address_type
                }
            );
            return Ok(());
        }
        self.read_entry_of_rest(t, cur)
    }

    /// What a parameter sets that is for rescaling or reserved memory.
    pub open spec fn entry_of_rest(v: RecordLayoutView, t: Tok, c: Cur) -> Got<RecordLayoutView> {
        let k = prefix_of(t);
        if k == "IDENTI"@ {
            match read_single(c, t.text, -1i32) {
                Err(f) => Err(f),
                Ok((x, c0)) => {
                    Ok((RecordLayoutView { identification: Some(x), ..v }, c0))
                },
            }
        } else if k == "AXIS_R"@ {
            match read_axis(t, c) {
                Err(f) => Err(f),
                Ok((i, c0)) => {
                    match read_int(c0, i32::MIN as int, i32::MAX as int) {
                        Err(f) => Err(f),
                        Ok((position, c1)) => {
                            match read_data_type(c1) {
                                Err(f) => Err(f),
                                Ok((data_type, c2)) => {
                                    match read_int(c2, i32::MIN as int, i32::MAX as int) {
                                        Err(f) => Err(f),
                                        Ok((pairs, c3)) => {
                                            match read_enum_or(c3, IndexOrder::INDEX_INCR) {
                                                Err(f) => Err(f),
                                                Ok((index_order, c4)) => {
                                                    match read_enum_or(c4, AddrType::DIRECT) {
                                                        Err(f) => Err(f),
                                                        Ok((address_type, c5)) => {
                                                            Ok(
                                                                (
                                                                    RecordLayoutView {
                                                                        axis_rescale_x: Some(
                                                                            AxisRescaleLayoutDescView {
                                                                                name: "AXIS_RESCALE_X"@,
                                                                                position: (position as i32),
                                                                                data_type,
                                                                                axis_idx: i as i32,
                                                                                index_order,
                                                                                address_type,
                                                                                max_no_rescale_pairs: (pairs as i32)
                                                                            }
                                                                        ),
                                                                        ..v
                                                                    },
                                                                    c5
                                                                )
                                                            )
                                                        },
                                                    }
                                                },
                                            }
                                        },
                                    }
                                },
                            }
                        },
                    }
                },
            }
        } else if k == "NO_RES"@ {
            match read_axis(t, c) {
                Err(f) => Err(f),
                Ok((i, c0)) => {
                    match read_single(c0, t.text, i as i32) {
                        Err(f) => Err(f),
                        Ok((x, c1)) => {
                            Ok((RecordLayoutView { no_rescale_x: Some(x), ..v }, c1))
                        },
                    }
                },
            }
        } else if k == "RESERV"@ {
            match read_int(c, i32::MIN as int, i32::MAX as int) {
                Err(f) => Err(f),
                Ok((position, c0)) => {
                    match read_enum_or(c0, DataSize::BYTE) {
                        Err(f) => Err(f),
                        Ok((size, c1)) => {
                            Ok(
                                (
                                    RecordLayoutView {
                                        reserved: v.reserved.push(
                                            NoAxisPtsLayoutDescView {
                                                name: "RESERVED"@,
                                                position: (position as i32),
                                                data_type: type_for_size(size),
                                                axis_idx: -1i32
                                            }
                                        ),
                                        ..v
                                    },
                                    c1
                                )
                            )
                        },
                    }
                },
            }
        } else {
            RecordLayout::entry_of_whole(v, t, c)
        }
    }

    fn read_entry_of_rest(&mut self, t: &Token, cur: &mut ParamCursor) -> (r: Result<()>)
        requires
            old(cur)@.left() >= 0,
        ensures
            match r {
                Ok(()) => {
                    &&& RecordLayout::entry_of_rest(old(self)@, t@, old(cur)@) == Ok::<_, Failure>(
                        (final(self)@, final(cur)@),
                    )
                    &&& 0 <= final(cur)@.left() <= old(cur)@.left()
                },
                Err(e) => RecordLayout::entry_of_rest(old(self)@, t@, old(cur)@) == Err::<
                    (RecordLayoutView, Cur),
                    _,
                >(e@),
            },
    {
        let k = prefix(t);
        if same_text(k.as_str(), "IDENTI") {
            let x = take_no_axis_pts(t.text.as_str(), -1, cur)?;
            self.identification = Some(x);
            return Ok(());
        }
        if same_text(k.as_str(), "AXIS_R") {
            let i = axis_index(t)?;
            let position = cur.sint::<i32>()?;
            let data_type = take_data_type(cur)?;
            let pairs = cur.sint::<i32>()?;
            let index_order = enum_or(cur, IndexOrder::INDEX_INCR)?;
            let address_type = enum_or(cur, AddrType::DIRECT)?;
            self.axis_rescale_x = Some(
                AxisRescaleLayoutDesc {
                    name: "AXIS_RESCALE_X".to_string(),
                    position,
                    data_type,
                    axis_idx: i as i32,
                    index_order,
                    address_type,
                    max_no_rescale_pairs: pairs
                }
            );
            return Ok(());
        }
        if same_text(k.as_str(), "NO_RES") {
            let i = axis_index(t)?;
            let x = take_no_axis_pts(t.text.as_str(), i as i32, cur)?;
            self.no_rescale_x = Some(x);
            return Ok(());
        }
        if same_text(k.as_str(), "RESERV") {
            let position = cur.sint::<i32>()?;
            let size = enum_or(cur, DataSize::BYTE)?;
            append(
                &mut self.reserved,
                NoAxisPtsLayoutDesc {
                    name: "RESERVED".to_string(),
                    position,
                    data_type: data_type_for_size(size),
                    axis_idx: -1i32
                }
            );
            return Ok(());
        }
        self.read_entry_of_whole(t, cur)
    }

    /// What a parameter sets that is for the whole layout.
    pub open spec fn entry_of_whole(v: RecordLayoutView, t: Tok, c: Cur) -> Got<RecordLayoutView> {
        let k = prefix_of(t);
        if k == "ALIGNM"@ {
            match alignment_of(t.text) {
                Some(i) => match read_int(c, i32::MIN as int, i32::MAX as int) {
                    Err(f) => Err(f),
                    Ok((x, n)) => Ok(
                        (RecordLayoutView { alignments: aligned(v.alignments, i, x as i32), ..v }, n),
                    ),
                },
                None => Ok((v, c)),
            }
        } else if k == "RIP_AD"@ {
            if t.text.last() == 'W' {
                match read_single(c, t.text, -1i32) {
                    Err(f) => Err(f),
                    Ok((x, n)) => Ok((RecordLayoutView { rip_addr_w: Some(x), ..v }, n)),
                }
            } else {
                match read_axis(t, c) {
                    Err(f) => Err(f),
                    Ok((i, _)) => match read_single(c, t.text, i as i32) {
                        Err(f) => Err(f),
                        Ok((x, n)) => Ok(
                            (
                                RecordLayoutView {
                                    rip_addr: v.rip_addr.update(i, Some(x)),
                                    ..v
                                },
                                n,
                            ),
                        ),
                    },
                }
            }
        } else if k == "STATIC"@ {
            if t.text == "STATIC_RECORD_LAYOUT"@ {
                Ok((RecordLayoutView { static_record_layout: true, ..v }, c))
            } else if t.text == "STATIC_ADDRESS_OFFSETS"@ {
                Ok((RecordLayoutView { static_address_offsets: true, ..v }, c))
            } else {
                Ok((v, c))
            }
        } else {
            Ok((v, c))
        }
    }

    fn read_entry_of_whole(&mut self, t: &Token, cur: &mut ParamCursor) -> (r: Result<()>)
        requires
            old(cur)@.left() >= 0,
        ensures
            match r {
                Ok(()) => {
                    &&& RecordLayout::entry_of_whole(old(self)@, t@, old(cur)@) == Ok::<_, Failure>(
                        (final(self)@, final(cur)@),
                    )
                    &&& 0 <= final(cur)@.left() <= old(cur)@.left()
                },
                Err(e) => RecordLayout::entry_of_whole(old(self)@, t@, old(cur)@) == Err::<
                    (RecordLayoutView, Cur),
                    _,
                >(e@),
            },
    {
        let k = prefix(t);
        proof {
            lemma_prefixes();
        }
        if same_text(k.as_str(), "ALIGNM") {
            if let Some(i) = alignment_index(t.text.as_str()) {
                let x: i32 = cur.sint::<i32>()?;
                self.set_alignment(i, x);
            }
            return Ok(());
        }
        if same_text(k.as_str(), "RIP_AD") {
            let s = chars_of(t.text.as_str());
            if s[s.len() - 1] == 'W' {
                let x = take_no_axis_pts(t.text.as_str(), -1, cur)?;
                self.rip_addr_w = Some(x);
            } else {
                let i = axis_index(t)?;
                let x = take_no_axis_pts(t.text.as_str(), i as i32, cur)?;
                set_slot(&mut self.rip_addr, i, x);
            }
            return Ok(());
        }
        if same_text(k.as_str(), "STATIC") {
            if same_text(t.text.as_str(), "STATIC_RECORD_LAYOUT") {
                self.static_record_layout = true;
            } else if same_text(t.text.as_str(), "STATIC_ADDRESS_OFFSETS") {
                self.static_address_offsets = true;
            }
        }
        Ok(())
    }
}

/// A prefix has six characters.
proof fn lemma_prefixes()
    ensures
        "RIP_AD"@.len() == 6,
{
    reveal_strlit("RIP_AD");
}

impl RecordLayout {
    /// What the parameters at the cursor set, and where the next ones start.
    pub open spec fn option(v: RecordLayoutView, c: Cur) -> Got<RecordLayoutView> {
        match read_token(c) {
            Err(f) => Err(f),
            Ok((t, c0)) => {
                RecordLayout::entry(v, t, c0)
            },
        }
    }

    /// What all the parameters from the cursor on set, and where reading them ends.
    pub open spec fn options(v: RecordLayoutView, c: Cur) -> Got<RecordLayoutView>
        decreases c.left(),
    {
        if !c.more() {
            Ok((v, c))
        } else {
            match RecordLayout::option(v, c) {
                Err(f) => Err(f),
                Ok((w, n)) => if 0 <= n.left() < c.left() {
                    RecordLayout::options(w, n)
                } else {
                    arbitrary()
                },
            }
        }
    }

    fn read_option(&mut self, cur: &mut ParamCursor) -> (r: Result<()>)
        requires
            old(cur)@.more(),
        ensures
            match r {
                Ok(()) => {
                    &&& RecordLayout::option(old(self)@, old(cur)@) == Ok::<_, Failure>(
                        (final(self)@, final(cur)@),
                    )
                    &&& 0 <= final(cur)@.left() < old(cur)@.left()
                },
                Err(e) => RecordLayout::option(old(self)@, old(cur)@) == Err::<(RecordLayoutView, Cur), _>(e@),
            },
    {
        let t = cur.next_token()?;
        self.read_entry(t, cur)
    }

    fn read_options(&mut self, cur: &mut ParamCursor) -> (r: Result<()>)
        ensures
            match r {
                Ok(()) => {
                    &&& RecordLayout::options(old(self)@, old(cur)@) == Ok::<_, Failure>(
                        (final(self)@, final(cur)@),
                    )
                    &&& final(cur)@.left() <= old(cur)@.left()
                    &&& final(cur)@ == old(cur)@ || final(cur)@.left() >= 0
                },
                Err(e) => RecordLayout::options(old(self)@, old(cur)@) == Err::<(RecordLayoutView, Cur), _>(e@),
            },
    {
        let ghost whole = RecordLayout::options(self@, cur@);
        while !cur.is_empty()
            invariant
                whole == RecordLayout::options(self@, cur@),
                whole == RecordLayout::options(old(self)@, old(cur)@),
                cur@.left() <= old(cur)@.left(),
                cur@ == old(cur)@ || cur@.left() >= 0,
            decreases cur@.left(),
        {
            self.read_option(cur)?;
        }
        Ok(())
    }
}

/// An entry of a layout that has a position.
enum LayoutEntry<'a> {
    NoAxisPts(&'a NoAxisPtsLayoutDesc),
    AxisPts(&'a AxisPtsLayoutDesc),
    AxisRescale(&'a AxisRescaleLayoutDesc),
    FncValues(&'a FncValuesLayoutDesc),
}

/// An entry of a layout that has a position, as a mathematical value.
pub enum EntryView {
    NoAxisPts(NoAxisPtsLayoutDescView),
    AxisPts(AxisPtsLayoutDescView),
    AxisRescale(AxisRescaleLayoutDescView),
    FncValues(FncValuesLayoutDescView),
}

impl<'a> View for LayoutEntry<'a> {
    type V = EntryView;

    closed spec fn view(&self) -> EntryView {
        match self {
            LayoutEntry::NoAxisPts(e) => EntryView::NoAxisPts(e@),
            LayoutEntry::AxisPts(e) => EntryView::AxisPts(e@),
            LayoutEntry::AxisRescale(e) => EntryView::AxisRescale(e@),
            LayoutEntry::FncValues(e) => EntryView::FncValues(e@),
        }
    }
}

impl EntryView {
    /// The position of the entry.
    pub open spec fn position(self) -> i32 {
        match self {
            EntryView::NoAxisPts(e) => e.position,
            EntryView::AxisPts(e) => e.position,
            EntryView::AxisRescale(e) => e.position,
            EntryView::FncValues(e) => e.position,
        }
    }

    /// What the entry is written as, or how writing it fails.
    pub open spec fn text(self) -> std::result::Result<Seq<char>, Failure> {
        match self {
            EntryView::NoAxisPts(e) => if e.name == "RESERVED"@ {
                match size_of_type(e.data_type) {
                    Some(s) => Ok(
                        e.name + " "@ + dec_int(e.position as int) + " "@ + word_or(
                            s.word(),
                            ""@,
                        ),
                    ),
                    None => Err(
                        Failure::Write(
                            "RECORD_LAYOUT"@,
                            "cannot derive DataSize from "@ + type_word(e.data_type),
                        ),
                    ),
                }
            } else {
                Ok(
                    e.name + " "@ + dec_int(e.position as int) + " "@ + word_or(
                        e.data_type.word(),
                        "Unsupported"@,
                    ),
                )
            },
            EntryView::AxisPts(e) => Ok(
                e.name + " "@ + dec_int(e.position as int) + " "@ + word_or(
                    e.data_type.word(),
                    "Unsupported"@,
                ) + " "@ + word_or(e.index_order.word(), ""@) + " "@ + word_or(
                    e.address_type.word(),
                    ""@,
                ),
            ),
            EntryView::AxisRescale(e) => Ok(
                e.name + " "@ + dec_int(e.position as int) + " "@ + word_or(
                    e.data_type.word(),
                    "Unsupported"@,
                ) + " "@ + dec_int(e.max_no_rescale_pairs as int) + " "@ + word_or(
                    e.index_order.word(),
                    ""@,
                ) + " "@ + word_or(e.address_type.word(), ""@),
            ),
            EntryView::FncValues(e) => Ok(
                e.name + " "@ + dec_int(e.position as int) + " "@ + word_or(
                    e.data_type.word(),
                    "Unsupported"@,
                ) + " "@ + word_or(e.index_mode.word(), "NotSet"@) + " "@ + word_or(
                    e.address_type.word(),
                    ""@,
                ),
            ),
        }
    }
}

/// The name of a data type in messages.
pub open spec fn type_word(d: DataType) -> Seq<char> {
    match d {
        DataType::Unsupported => "Unsupported"@,
        DataType::UByte => "UByte"@,
        DataType::SByte => "SByte"@,
        DataType::UWord => "UWord"@,
        DataType::SWord => "SWord"@,
        DataType::ULong => "ULong"@,
        DataType::SLong => "SLong"@,
        DataType::AUInt64 => "AUInt64"@,
        DataType::AInt64 => "AInt64"@,
        DataType::Float16Ieee => "Float16Ieee"@,
        DataType::Float32Ieee => "Float32Ieee"@,
        DataType::Float64Ieee => "Float64Ieee"@,
    }
}

fn name_of_type(d: DataType) -> (r: &'static str)
    ensures
        r@ == type_word(d),
{
    match d {
        DataType::Unsupported => "Unsupported",
        DataType::UByte => "UByte",
        DataType::SByte => "SByte",
        DataType::UWord => "UWord",
        DataType::SWord => "SWord",
        DataType::ULong => "ULong",
        DataType::SLong => "SLong",
        DataType::AUInt64 => "AUInt64",
        DataType::AInt64 => "AInt64",
        DataType::Float16Ieee => "Float16Ieee",
        DataType::Float32Ieee => "Float32Ieee",
        DataType::Float64Ieee => "Float64Ieee",
    }
}

impl<'a> LayoutEntry<'a> {
    fn position(&self) -> (r: i32)
        ensures
            r == self@.position(),
    {
        match self {
            LayoutEntry::NoAxisPts(e) => e.position,
            LayoutEntry::AxisPts(e) => e.position,
            LayoutEntry::AxisRescale(e) => e.position,
            LayoutEntry::FncValues(e) => e.position,
        }
    }

    fn to_line(&self) -> (r: Result<String>)
        ensures
            match r {
                Ok(s) => self@.text() == Ok::<Seq<char>, Failure>(s@),
                Err(e) => self@.text() == Err::<Seq<char>, Failure>(e@),
            },
    {
        match self {
            LayoutEntry::NoAxisPts(e) => {
                let mut s = e.name.clone();
                s.append(" ");
                s.append(dec_int_text(e.position as i64).as_str());
                s.append(" ");
                if same_text(e.name.as_str(), "RESERVED") {
                    match e.data_size() {
                        Some(size) => {
                            s.append(keyword_or(size, ""));
                            Ok(s)
                        },
                        None => {
                            let mut m = "cannot derive DataSize from ".to_string();
                            m.append(name_of_type(e.data_type));
                            Err(Error::write("RECORD_LAYOUT", m))
                        },
                    }
                } else {
                    s.append(keyword_or(e.data_type, "Unsupported"));
                    Ok(s)
                }
            },
            LayoutEntry::AxisPts(e) => {
                let mut s = e.name.clone();
                s.append(" ");
                s.append(dec_int_text(e.position as i64).as_str());
                s.append(" ");
                s.append(keyword_or(e.data_type, "Unsupported"));
                s.append(" ");
                s.append(keyword_or(e.index_order, ""));
                s.append(" ");
                s.append(keyword_or(e.address_type, ""));
                Ok(s)
            },
            LayoutEntry::AxisRescale(e) => {
                let mut s = e.name.clone();
                s.append(" ");
                s.append(dec_int_text(e.position as i64).as_str());
                s.append(" ");
                s.append(keyword_or(e.data_type, "Unsupported"));
                s.append(" ");
                s.append(dec_int_text(e.max_no_rescale_pairs as i64).as_str());
                s.append(" ");
                s.append(keyword_or(e.index_order, ""));
                s.append(" ");
                s.append(keyword_or(e.address_type, ""));
                Ok(s)
            },
            LayoutEntry::FncValues(e) => {
                let mut s = e.name.clone();
                s.append(" ");
                s.append(dec_int_text(e.position as i64).as_str());
                s.append(" ");
                s.append(keyword_or(e.data_type, "Unsupported"));
                s.append(" ");
                s.append(keyword_or(e.index_mode, "NotSet"));
                s.append(" ");
                s.append(keyword_or(e.address_type, ""));
                Ok(s)
            },
        }
    }
}

/// The single values that are there, in order.
pub open spec fn singles(s: Seq<Option<NoAxisPtsLayoutDescView>>) -> Seq<EntryView>
    decreases s.len(),
{
    if s.len() == 0 {
        Seq::empty()
    } else {
        match s.last() {
            Some(e) => singles(s.drop_last()).push(EntryView::NoAxisPts(e)),
            None => singles(s.drop_last()),
        }
    }
}

/// The axis points that are there, in order.
pub open spec fn axes(s: Seq<Option<AxisPtsLayoutDescView>>) -> Seq<EntryView>
    decreases s.len(),
{
    if s.len() == 0 {
        Seq::empty()
    } else {
        match s.last() {
            Some(e) => axes(s.drop_last()).push(EntryView::AxisPts(e)),
            None => axes(s.drop_last()),
        }
    }
}

/// One optional entry.
pub open spec fn maybe(e: Option<EntryView>) -> Seq<EntryView> {
    match e {
        Some(e) => seq![e],
        None => Seq::empty(),
    }
}

/// An optional single value as an entry.
pub open spec fn single_entry(e: Option<NoAxisPtsLayoutDescView>) -> Option<EntryView> {
    match e {
        Some(e) => Some(EntryView::NoAxisPts(e)),
        None => None,
    }
}

/// Reserved memory as entries.
pub open spec fn reserved_entries(s: Seq<NoAxisPtsLayoutDescView>) -> Seq<EntryView> {
    Seq::new(s.len(), |i: int| EntryView::NoAxisPts(s[i]))
}

/// The entries of a layout, in the order of their kinds.
pub open spec fn entries_of(v: RecordLayoutView) -> Seq<EntryView> {
    singles(v.no_axis_pts) + axes(v.axis_pts) + singles(v.src_address) + singles(v.offset)
        + singles(v.dist_op) + singles(v.rip_addr) + singles(v.shift_op) + reserved_entries(
        v.reserved,
    ) + maybe(
        match v.axis_rescale_x {
            Some(e) => Some(EntryView::AxisRescale(e)),
            None => None,
        },
    ) + maybe(single_entry(v.no_rescale_x)) + maybe(single_entry(v.identification)) + maybe(
        single_entry(v.rip_addr_w),
    ) + maybe(
        match v.fnc_values {
            Some(e) => Some(EntryView::FncValues(e)),
            None => None,
        },
    )
}

/// Entries with another one put before those at the end that have a greater position.
pub open spec fn entry_inserted(s: Seq<EntryView>, x: EntryView) -> Seq<EntryView>
    decreases s.len(),
{
    if s.len() > 0 && s.last().position() > x.position() {
        entry_inserted(s.drop_last(), x).push(s.last())
    } else {
        s.push(x)
    }
}

/// Entries in the order of their positions; those with the same position keep their order.
pub open spec fn by_position(s: Seq<EntryView>) -> Seq<EntryView>
    decreases s.len(),
{
    if s.len() == 0 {
        s
    } else {
        entry_inserted(by_position(s.drop_last()), s.last())
    }
}

proof fn lemma_entry_inserted(s: Seq<EntryView>, x: EntryView, k: int)
    requires
        0 <= k <= s.len(),
        forall|j: int| k <= j < s.len() ==> (#[trigger] s[j]).position() > x.position(),
        k == 0 || s[k - 1].position() <= x.position(),
    ensures
        entry_inserted(s, x) == s.insert(k, x),
    decreases s.len(),
{
    if k == s.len() {
        assert(s.insert(k, x) =~= s.push(x));
    } else {
        lemma_entry_inserted(s.drop_last(), x, k);
        assert(s.insert(k, x) =~= s.drop_last().insert(k, x).push(s.last()));
    }
}

/// The entries at one position, in order.
pub open spec fn at_position(s: Seq<EntryView>, position: i32) -> Seq<EntryView>
    decreases s.len(),
{
    if s.len() == 0 {
        s
    } else if s.last().position() == position {
        at_position(s.drop_last(), position).push(s.last())
    } else {
        at_position(s.drop_last(), position)
    }
}

/// Whether positions ascend.
pub open spec fn positions_ascend(s: Seq<EntryView>) -> bool {
    forall|i: int, j: int| 0 <= i < j < s.len() ==> s[i].position() <= s[j].position()
}

/// Arranging entries by position makes the positions ascend, and leaves the entries at each
/// position as they are and in their order.
pub proof fn law_by_position(s: Seq<EntryView>, position: i32)
    ensures
        by_position(s).len() == s.len(),
        positions_ascend(by_position(s)),
        at_position(by_position(s), position) == at_position(s, position),
    decreases s.len(),
{
    if s.len() > 0 {
        law_by_position(s.drop_last(), position);
        lemma_inserted_law(by_position(s.drop_last()), s.last(), position);
    }
}

proof fn lemma_inserted_law(s: Seq<EntryView>, x: EntryView, position: i32)
    requires
        positions_ascend(s),
    ensures
        entry_inserted(s, x).len() == s.len() + 1,
        positions_ascend(entry_inserted(s, x)),
        s.len() > 0 && s.last().position() > x.position() ==> entry_inserted(s, x).last()
            == s.last(),
        entry_inserted(s, x).last().position() <= if s.len() > 0 && s.last().position()
            > x.position() {
            s.last().position()
        } else {
            x.position()
        },
        at_position(entry_inserted(s, x), position) == if x.position() == position {
            at_position(s, position).push(x)
        } else {
            at_position(s, position)
        },
    decreases s.len(),
{
    let t = entry_inserted(s, x);
    if s.len() > 0 && s.last().position() > x.position() {
        let before = s.drop_last();
        assert(positions_ascend(before));
        lemma_inserted_law(before, x, position);
        let u = entry_inserted(before, x);
        assert(t.drop_last() =~= u);
        assert(u.last().position() <= s.last().position()) by {
            if before.len() > 0 {
                assert(before.last() == s[s.len() - 2]);
                assert(s.last() == s[s.len() - 1]);
            }
        }
        assert(positions_ascend(t)) by {
            assert forall|i: int, j: int| 0 <= i < j < t.len() implies t[i].position()
                <= t[j].position() by {
                if j < u.len() {
                    assert(u[i].position() <= u[j].position());
                } else if i < u.len() - 1 {
                    assert(u[i].position() <= u[u.len() - 1].position());
                }
            }
        }
    } else {
        assert(t.drop_last() =~= s);
        assert(positions_ascend(t)) by {
            assert forall|i: int, j: int| 0 <= i < j < t.len() implies t[i].position()
                <= t[j].position() by {
                if j < s.len() {
                    assert(s[i].position() <= s[j].position());
                } else if s.len() > 0 {
                    if i < s.len() - 1 {
                        assert(s[i].position() <= s[s.len() - 1].position());
                    }
                }
            }
        }
    }
}

fn push_singles<'a>(out: &mut Vec<LayoutEntry<'a>>, a: &'a [Option<NoAxisPtsLayoutDesc>; 5])
    ensures
        views(final(out)@) == views(old(out)@) + singles(opts(a@)),
{
    let ghost start = views(out@);
    let ghost all = opts(a@);
    let mut i: usize = 0;
    proof {
        assert(all.subrange(0, 0) =~= Seq::empty());
        assert(start + Seq::<EntryView>::empty() =~= start);
    }
    while i < 5
        invariant
            i <= 5,
            all == opts(a@),
            all.len() == 5,
            views(out@) == start + singles(all.subrange(0, i as int)),
        decreases 5 - i,
    {
        proof {
            let next = all.subrange(0, i + 1);
            assert(next.drop_last() =~= all.subrange(0, i as int));
            assert(next.last() == opt(a@[i as int]));
        }
        if let Some(e) = &a[i] {
            let ghost before = singles(all.subrange(0, i as int));
            append(out, LayoutEntry::NoAxisPts(e));
            proof {
                assert((start + before).push(EntryView::NoAxisPts(e@)) =~= start + before.push(
                    EntryView::NoAxisPts(e@),
                ));
            }
        }
        i += 1;
    }
    proof {
        assert(all.subrange(0, 5) =~= all);
    }
}

fn push_axes<'a>(out: &mut Vec<LayoutEntry<'a>>, a: &'a [Option<AxisPtsLayoutDesc>; 5])
    ensures
        views(final(out)@) == views(old(out)@) + axes(opts(a@)),
{
    let ghost start = views(out@);
    let ghost all = opts(a@);
    let mut i: usize = 0;
    proof {
        assert(all.subrange(0, 0) =~= Seq::empty());
        assert(start + Seq::<EntryView>::empty() =~= start);
    }
    while i < 5
        invariant
            i <= 5,
            all == opts(a@),
            all.len() == 5,
            views(out@) == start + axes(all.subrange(0, i as int)),
        decreases 5 - i,
    {
        proof {
            let next = all.subrange(0, i + 1);
            assert(next.drop_last() =~= all.subrange(0, i as int));
            assert(next.last() == opt(a@[i as int]));
        }
        if let Some(e) = &a[i] {
            let ghost before = axes(all.subrange(0, i as int));
            append(out, LayoutEntry::AxisPts(e));
            proof {
                assert((start + before).push(EntryView::AxisPts(e@)) =~= start + before.push(
                    EntryView::AxisPts(e@),
                ));
            }
        }
        i += 1;
    }
    proof {
        assert(all.subrange(0, 5) =~= all);
    }
}

fn push_reserved<'a>(out: &mut Vec<LayoutEntry<'a>>, v: &'a Vec<NoAxisPtsLayoutDesc>)
    ensures
        views(final(out)@) == views(old(out)@) + reserved_entries(views(v@)),
{
    let ghost start = views(out@);
    let ghost all = reserved_entries(views(v@));
    let mut i: usize = 0;
    proof {
        assert(start + all.subrange(0, 0) =~= start);
    }
    while i < v.len()
        invariant
            i <= v@.len(),
            all == reserved_entries(views(v@)),
            views(out@) == start + all.subrange(0, i as int),
        decreases v@.len() - i,
    {
        let e = &v[i];
        append(out, LayoutEntry::NoAxisPts(e));
        proof {
            assert((start + all.subrange(0, i as int)).push(EntryView::NoAxisPts(e@)) =~= start
                + all.subrange(0, i + 1));
        }
        i += 1;
    }
    proof {
        assert(all.subrange(0, i as int) =~= all);
    }
}

fn push_single<'a>(out: &mut Vec<LayoutEntry<'a>>, e: &'a Option<NoAxisPtsLayoutDesc>)
    ensures
        views(final(out)@) == views(old(out)@) + maybe(single_entry(opt(*e))),
{
    let ghost start = views(out@);
    if let Some(e) = e {
        append(out, LayoutEntry::NoAxisPts(e));
        proof {
            assert(start.push(EntryView::NoAxisPts(e@)) =~= start + seq![EntryView::NoAxisPts(e@)]);
        }
    } else {
        proof {
            assert(start + Seq::<EntryView>::empty() =~= start);
        }
    }
}

impl RecordLayout {
    fn collect_entries(&self) -> (r: Vec<LayoutEntry<'_>>)
        ensures
            views(r@) == entries_of(self@),
    {
        let mut out: Vec<LayoutEntry<'_>> = none_yet();
        push_singles(&mut out, &self.no_axis_pts);
        proof {
            assert(views(out@) =~= singles(self@.no_axis_pts));
        }
        push_axes(&mut out, &self.axis_pts);
        push_singles(&mut out, &self.src_address);
        push_singles(&mut out, &self.offset);
        push_singles(&mut out, &self.dist_op);
        push_singles(&mut out, &self.rip_addr);
        push_singles(&mut out, &self.shift_op);
        push_reserved(&mut out, &self.reserved);
        let ghost start = views(out@);
        if let Some(e) = &self.axis_rescale_x {
            append(&mut out, LayoutEntry::AxisRescale(e));
            proof {
                assert(views(out@) =~= start + seq![EntryView::AxisRescale(e@)]);
            }
        } else {
            proof {
                assert(views(out@) =~= start + Seq::<EntryView>::empty());
            }
        }
        push_single(&mut out, &self.no_rescale_x);
        push_single(&mut out, &self.identification);
        push_single(&mut out, &self.rip_addr_w);
        let ghost start = views(out@);
        if let Some(e) = &self.fnc_values {
            append(&mut out, LayoutEntry::FncValues(e));
            proof {
                assert(views(out@) =~= start + seq![EntryView::FncValues(e@)]);
            }
        } else {
            proof {
                assert(views(out@) =~= start + Seq::<EntryView>::empty());
            }
        }
        out
    }

    fn layout_entries(&self) -> (r: Vec<LayoutEntry<'_>>)
        ensures
            views(r@) == by_position(entries_of(self@)),
    {
        let mut rest = self.collect_entries();
        let ghost all = views(rest@);
        let mut out: Vec<LayoutEntry<'_>> = none_yet();
        let mut n: usize = 0;
        let total: usize = rest.len();
        proof {
            assert(all.subrange(0, 0) =~= Seq::<EntryView>::empty());
            assert(all.skip(0) =~= all);
        }
        while n < total
            invariant
                n <= total,
                total == all.len(),
                views(rest@) == all.skip(n as int),
                views(out@) == by_position(all.subrange(0, n as int)),
            decreases total - n,
        {
            let ghost before = rest@;
            proof {
                assert(views(before).len() == before.len());
                assert(views(before)[0] == before[0]@);
            }
            let x = rest.remove(0);
            let ghost done = views(out@);
            proof {
                assert(views(before)[0] == x@);
                assert forall|i: int| 0 <= i < rest@.len() implies views(rest@)[i] == all.skip(
                    n + 1,
                )[i] by {
                    assert(views(before)[i + 1] == before[i + 1]@);
                }
                assert(views(rest@) =~= all.skip(n + 1));
                let next = all.subrange(0, n + 1);
                assert(next.drop_last() =~= all.subrange(0, n as int));
                assert(next.last() == x@);
            }
            let mut k: usize = out.len();
            while k > 0 && out[k - 1].position() > x.position()
                invariant
                    k <= out@.len(),
                    done == views(out@),
                    forall|j: int|
                        k <= j < done.len() ==> (#[trigger] done[j]).position() > x@.position(),
                decreases k,
            {
                k -= 1;
            }
            proof {
                if k > 0 {
                    assert(done[k - 1] == out@[k - 1]@);
                }
                lemma_entry_inserted(done, x@, k as int);
            }
            out.insert(k, x);
            proof {
                assert(views(out@) =~= done.insert(k as int, x@));
            }
            n += 1;
        }
        proof {
            assert(all.subrange(0, n as int) =~= all);
        }
        out
    }

    /// A line for each of the entries from an index on.
    pub open spec fn entry_lines(s: Seq<EntryView>, i: int, p: Page) -> Written
        decreases s.len() - i,
    {
        if i < 0 || i >= s.len() {
            Ok(p)
        } else {
            match s[i].text() {
                Err(f) => Err(p.stopped(f)),
                Ok(x) => RecordLayout::entry_lines(s, i + 1, p.line(x)),
            }
        }
    }

    fn write_entries(&self, w: &mut Writer) -> (r: Result<()>)
        ensures
            match r {
                Ok(()) => RecordLayout::entry_lines(by_position(entries_of(self@)), 0, old(w)@)
                    == Ok::<Page, Stopped>(final(w)@),
                Err(e) => RecordLayout::entry_lines(by_position(entries_of(self@)), 0, old(w)@)
                    == Err::<Page, Stopped>(final(w)@.stopped(e@)),
            },
    {
        let entries = self.layout_entries();
        let ghost all = views(entries@);
        let mut i: usize = 0;
        while i < entries.len()
            invariant
                i <= entries@.len(),
                all == views(entries@),
                all == by_position(entries_of(self@)),
                RecordLayout::entry_lines(all, 0, old(w)@) == RecordLayout::entry_lines(
                    all,
                    i as int,
                    w@,
                ),
            decreases entries@.len() - i,
        {
            proof {
                assert(all[i as int] == entries@[i as int]@);
            }
            let s = entries[i].to_line()?;
            w.line(s.as_str());
            i += 1;
        }
        Ok(())
    }

    /// The lines behind the entries.
    pub open spec fn closing(v: RecordLayoutView, p: Page) -> Page {
        let p = match v.identification {
            Some(x) => p.word(
                "IDENTIFICATION"@,
                dec_int(x.position as int) + " "@ + word_or(x.data_type.word(), "Unsupported"@)
            ),
            None => p
        };
        let p = if v.static_record_layout { p.line("STATIC_RECORD_LAYOUT"@) } else { p };
        if v.static_address_offsets { p.line("STATIC_ADDRESS_OFFSETS"@) } else { p }
    }

    fn write_closing(&self, w: &mut Writer)
        ensures
            final(w)@ == RecordLayout::closing(self@, old(w)@),
    {
        if let Some(x) = &self.identification {
            let mut s = dec_int_text(x.position as i64);
            s.append(" ");
            s.append(keyword_or(x.data_type, "Unsupported"));
            w.word("IDENTIFICATION", s.as_str());
        }
        if self.static_record_layout {
            w.line("STATIC_RECORD_LAYOUT");
        }
        if self.static_address_offsets {
            w.line("STATIC_ADDRESS_OFFSETS");
        }
    }
}

impl RecordLayout {
    /// What the parameters at the start say, and where the next ones start.
    pub open spec fn head(c: Cur) -> Got<RecordLayoutView> {
        let v = RecordLayout::blank();
        match read_ident(c) {
            Err(f) => Err(f),
            Ok((name, c0)) => {
                Ok((RecordLayoutView { name, ..v }, c0))
            },
        }
    }

    fn read_head(cur: &mut ParamCursor) -> (r: Result<Self>)
        ensures
            match r {
                Ok(v) => RecordLayout::head(old(cur)@) == Ok::<_, Failure>((v@, final(cur)@)),
                Err(e) => RecordLayout::head(old(cur)@) == Err::<(RecordLayoutView, Cur), _>(e@),
            },
    {
        let name = cur.ident()?;
        let mut node = RecordLayout::default();
        node.name = name;
        Ok(node)
    }
}

impl Node for RecordLayout {
    open spec fn keyword_text() -> Seq<char> {
        "RECORD_LAYOUT"@
    }

    open spec fn parsed(tree: Tree) -> std::result::Result<RecordLayoutView, Failure> {
        match RecordLayout::head(Cur::start(tree)) {
            Err(f) => Err(f),
            Ok((v, c)) => match RecordLayout::options(v, c) {
                Err(f) => Err(f),
                Ok((v, _)) => Ok(v),
            },
        }
    }

    open spec fn body(v: RecordLayoutView, p: Page) -> Written {
        let p = p.line(v.name);
        let p = match v.alignments {
            Some(a) => {
                let p = p.word("ALIGNMENT_BYTE"@, dec_int(a[0] as int));
                let p = p.word("ALIGNMENT_WORD"@, dec_int(a[1] as int));
                let p = p.word("ALIGNMENT_LONG"@, dec_int(a[2] as int));
                let p = p.word("ALIGNMENT_FLOAT32_IEEE"@, dec_int(a[3] as int));
                let p = p.word("ALIGNMENT_FLOAT64_IEEE"@, dec_int(a[4] as int));
                let p = p.word("ALIGNMENT_INT64"@, dec_int(a[5] as int));
                p.word("ALIGNMENT_FLOAT16_IEEE"@, dec_int(a[6] as int))
            },
            None => p
        };
        let p = if v.fix_no_axis_pts[0] != -1 {
            p.word("FIX_NO_AXIS_PTS_X"@, dec_int(v.fix_no_axis_pts[0] as int))
        } else { p };
        let p = if v.fix_no_axis_pts[1] != -1 {
            p.word("FIX_NO_AXIS_PTS_Y"@, dec_int(v.fix_no_axis_pts[1] as int))
        } else { p };
        let p = if v.fix_no_axis_pts[2] != -1 {
            p.word("FIX_NO_AXIS_PTS_Z"@, dec_int(v.fix_no_axis_pts[2] as int))
        } else { p };
        let p = if v.fix_no_axis_pts[3] != -1 {
            p.word("FIX_NO_AXIS_PTS_4"@, dec_int(v.fix_no_axis_pts[3] as int))
        } else { p };
        let p = if v.fix_no_axis_pts[4] != -1 {
            p.word("FIX_NO_AXIS_PTS_5"@, dec_int(v.fix_no_axis_pts[4] as int))
        } else { p };
        match RecordLayout::entry_lines(by_position(entries_of(v)), 0, p) {
            Err(f) => Err(f),
            Ok(p) => Ok(RecordLayout::closing(v, p)),
        }
    }

    open spec fn block(v: RecordLayoutView, p: Page) -> Written {
        enclosed("RECORD_LAYOUT"@, Self::body(v, p.begin("RECORD_LAYOUT"@)))
    }

    fn keyword() -> (r: &'static str) {
        "RECORD_LAYOUT"
    }

    fn parse(block: &Block) -> (r: Result<Self>) {
        let mut cur = ParamCursor::new(block);
        let mut node = RecordLayout::read_head(&mut cur)?;
        node.read_options(&mut cur)?;
        Ok(node)
    }

    fn write_body(&self, w: &mut Writer) -> (r: Result<()>) {
        w.line(self.name.as_str());
        if let Some(a) = &self.alignments {
            w.word("ALIGNMENT_BYTE", dec_int_text(a[0] as i64).as_str());
            w.word("ALIGNMENT_WORD", dec_int_text(a[1] as i64).as_str());
            w.word("ALIGNMENT_LONG", dec_int_text(a[2] as i64).as_str());
            w.word("ALIGNMENT_FLOAT32_IEEE", dec_int_text(a[3] as i64).as_str());
            w.word("ALIGNMENT_FLOAT64_IEEE", dec_int_text(a[4] as i64).as_str());
            w.word("ALIGNMENT_INT64", dec_int_text(a[5] as i64).as_str());
            w.word("ALIGNMENT_FLOAT16_IEEE", dec_int_text(a[6] as i64).as_str());
        }
        if self.fix_no_axis_pts[0] != -1 {
            w.word("FIX_NO_AXIS_PTS_X", dec_int_text(self.fix_no_axis_pts[0] as i64).as_str());
        }
        if self.fix_no_axis_pts[1] != -1 {
            w.word("FIX_NO_AXIS_PTS_Y", dec_int_text(self.fix_no_axis_pts[1] as i64).as_str());
        }
        if self.fix_no_axis_pts[2] != -1 {
            w.word("FIX_NO_AXIS_PTS_Z", dec_int_text(self.fix_no_axis_pts[2] as i64).as_str());
        }
        if self.fix_no_axis_pts[3] != -1 {
            w.word("FIX_NO_AXIS_PTS_4", dec_int_text(self.fix_no_axis_pts[3] as i64).as_str());
        }
        if self.fix_no_axis_pts[4] != -1 {
            w.word("FIX_NO_AXIS_PTS_5", dec_int_text(self.fix_no_axis_pts[4] as i64).as_str());
        }
        self.write_entries(w)?;
        self.write_closing(w);
        Ok(())
    }

    fn write_block(&self, w: &mut Writer) -> (r: Result<()>) {
        w.begin_block("RECORD_LAYOUT");
        self.write_body(w)?;
        w.end_block("RECORD_LAYOUT");
        Ok(())
    }
}

} // verus!
