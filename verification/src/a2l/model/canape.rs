//! `IF_DATA` blocks of CANape: address updates and extensions.

use crate::a2l::block::{Block, Tree, children_of};
use crate::a2l::error::{Error, Failure, Result};
use crate::a2l::model::parts::{all_kept, 
    Child, children_parsed, children_written, hex_form, node_parsed, node_written, parse_node,
    read_children, to_hex, write_children, write_node,
};
use crate::a2l::model::unsupported::{UnsupportedNode, UnsupportedNodeView};
use crate::a2l::node::{Node, enclosed};
use crate::a2l::number::{Num, Number, num_zero};
use crate::a2l::params::{
    Cur, Got, ParamCursor, read_float, read_ident, read_int, read_string, read_token, read_uint,
};
use crate::views::{append, no_text, none_yet, opt, views};
use crate::a2l::writer::{Page, Writer, Written, escape_str, escaped, Stopped};
use crate::text::{
    debug_of, debug_text, dec, dec_int, dec_int_text, dec_text, eq_ignore_case, same_ignore_case,
};
use vstd::prelude::*;

verus! {

/// A symbol and an offset from it.
#[derive(Debug, Clone, PartialEq, Eq)]
pub struct Symbol {
    pub name: String,
    pub offset: u32,
}

/// [`Symbol`] as a mathematical value.
pub struct SymbolView {
    pub name: Seq<char>,
    pub offset: u32,
}

impl View for Symbol {
    type V = SymbolView;

    open spec fn view(&self) -> SymbolView {
        SymbolView {
            name: self.name@,
            offset: self.offset,
        }
    }
}

impl Symbol {
    /// The node before anything is read.
    pub open spec fn blank() -> SymbolView {
        SymbolView {
            name: Seq::empty(),
            offset: 0,
        }
    }
}

impl Default for Symbol {
    fn default() -> (r: Self)
        ensures
            r@ == Symbol::blank(),
    {
        Symbol {
            name: no_text(),
            offset: 0,
        }
    }
}

impl Symbol {
    /// The values that stand at the cursor, and where the next ones start.
    pub open spec fn reads(c: Cur) -> Got<SymbolView> {
        match read_string(c) {
            Err(f) => Err(f),
            Ok((name, c0)) => {
                match read_uint(c0, u32::MAX as int) {
                    Err(f) => Err(f),
                    Ok((offset, c1)) => {
                        Ok((SymbolView { name, offset: (offset as u32) }, c1))
                    },
                }
            },
        }
    }

    fn read(cur: &mut ParamCursor) -> (r: Result<Self>)
        ensures
            match r {
                Ok(v) => {
                    &&& Symbol::reads(old(cur)@) == Ok::<_, Failure>((v@, final(cur)@))
                    &&& 0 <= final(cur)@.left() < old(cur)@.left()
                },
                Err(e) => Symbol::reads(old(cur)@) == Err::<(SymbolView, Cur), _>(e@),
            },
    {
        let name = cur.string()?;
        let offset = cur.uint::<u32>()?;
        Ok(Symbol { name, offset })
    }
}

/// A section of flash memory.
#[derive(Debug, Clone, PartialEq, Eq)]
pub struct FlashSection {
    pub address: u32,
    pub length: u32,
}

/// [`FlashSection`] as a mathematical value.
pub struct FlashSectionView {
    pub address: u32,
    pub length: u32,
}

impl View for FlashSection {
    type V = FlashSectionView;

    open spec fn view(&self) -> FlashSectionView {
        FlashSectionView {
            address: self.address,
            length: self.length,
        }
    }
}

impl FlashSection {
    /// The node before anything is read.
    pub open spec fn blank() -> FlashSectionView {
        FlashSectionView {
            address: 0,
            length: 0,
        }
    }
}

impl Default for FlashSection {
    fn default() -> (r: Self)
        ensures
            r@ == FlashSection::blank(),
    {
        FlashSection {
            address: 0,
            length: 0,
        }
    }
}

impl FlashSection {
    /// The values that stand at the cursor, and where the next ones start.
    pub open spec fn reads(c: Cur) -> Got<FlashSectionView> {
        match read_uint(c, u32::MAX as int) {
            Err(f) => Err(f),
            Ok((address, c0)) => {
                match read_uint(c0, u32::MAX as int) {
                    Err(f) => Err(f),
                    Ok((length, c1)) => {
                        Ok((FlashSectionView { address: (address as u32), length: (length as u32) }, c1))
                    },
                }
            },
        }
    }

    fn read(cur: &mut ParamCursor) -> (r: Result<Self>)
        ensures
            match r {
                Ok(v) => {
                    &&& FlashSection::reads(old(cur)@) == Ok::<_, Failure>((v@, final(cur)@))
                    &&& 0 <= final(cur)@.left() < old(cur)@.left()
                },
                Err(e) => FlashSection::reads(old(cur)@) == Err::<(FlashSectionView, Cur), _>(e@),
            },
    {
        let address = cur.uint::<u32>()?;
        let length = cur.uint::<u32>()?;
        Ok(FlashSection { address, length })
    }
}

/// A symbol with the table of pointers and the flash section that belong to it.
#[derive(Debug, Clone, PartialEq, Eq)]
pub struct ExSymbol {
    pub name: String,
    pub offset: u32,
    pub original_ptr_table: Option<Symbol>,
    pub flash_section: Option<FlashSection>,
}

/// [`ExSymbol`] as a mathematical value.
pub struct ExSymbolView {
    pub name: Seq<char>,
    pub offset: u32,
    pub original_ptr_table: Option<SymbolView>,
    pub flash_section: Option<FlashSectionView>,
}

impl View for ExSymbol {
    type V = ExSymbolView;

    open spec fn view(&self) -> ExSymbolView {
        ExSymbolView {
            name: self.name@,
            offset: self.offset,
            original_ptr_table: opt(self.original_ptr_table),
            flash_section: opt(self.flash_section),
        }
    }
}

impl ExSymbol {
    /// The node before anything is read.
    pub open spec fn blank() -> ExSymbolView {
        ExSymbolView {
            name: Seq::empty(),
            offset: 0,
            original_ptr_table: None,
            flash_section: None,
        }
    }
}

impl Default for ExSymbol {
    fn default() -> (r: Self)
        ensures
            r@ == ExSymbol::blank(),
    {
        ExSymbol {
            name: no_text(),
            offset: 0,
            original_ptr_table: None,
            flash_section: None,
        }
    }
}

/// A mapping of an address.
#[derive(Debug, Clone, PartialEq, Eq)]
pub struct AdrMap {
    pub src: String,
    pub dst: String,
}

/// [`AdrMap`] as a mathematical value.
pub struct AdrMapView {
    pub src: Seq<char>,
    pub dst: Seq<char>,
}

impl View for AdrMap {
    type V = AdrMapView;

    open spec fn view(&self) -> AdrMapView {
        AdrMapView {
            src: self.src@,
            dst: self.dst@,
        }
    }
}

impl AdrMap {
    /// The node before anything is read.
    pub open spec fn blank() -> AdrMapView {
        AdrMapView {
            src: Seq::empty(),
            dst: Seq::empty(),
        }
    }
}

impl Default for AdrMap {
    fn default() -> (r: Self)
        ensures
            r@ == AdrMap::blank(),
    {
        AdrMap {
            src: no_text(),
            dst: no_text(),
        }
    }
}

impl AdrMap {
    /// The values that stand at the cursor, and where the next ones start.
    pub open spec fn reads(c: Cur) -> Got<AdrMapView> {
        match read_string(c) {
            Err(f) => Err(f),
            Ok((src, c0)) => {
                match read_string(c0) {
                    Err(f) => Err(f),
                    Ok((dst, c1)) => {
                        Ok((AdrMapView { src, dst }, c1))
                    },
                }
            },
        }
    }

    fn read(cur: &mut ParamCursor) -> (r: Result<Self>)
        ensures
            match r {
                Ok(v) => {
                    &&& AdrMap::reads(old(cur)@) == Ok::<_, Failure>((v@, final(cur)@))
                    &&& 0 <= final(cur)@.left() < old(cur)@.left()
                },
                Err(e) => AdrMap::reads(old(cur)@) == Err::<(AdrMapView, Cur), _>(e@),
            },
    {
        let src = cur.string()?;
        let dst = cur.string()?;
        Ok(AdrMap { src, dst })
    }
}

/// A symbol behind a blank: its name in quotes and its offset.
pub open spec fn symbol_text(name: Seq<char>, offset: u32) -> Seq<char> {
    " \""@ + escaped(name) + "\" "@ + hex_form(offset as nat)
}

fn push_symbol_hex(out: &mut String, name: &str, offset: u32)
    ensures
        final(out)@ == old(out)@ + symbol_text(name@, offset),
{
    let mut s = " \"".to_string();
    s.append(escape_str(name).as_str());
    s.append("\" ");
    s.append(to_hex(offset as u64).as_str());
    out.append(s.as_str());
}

/// The first and last symbol of a range, and mappings of its addresses.
#[derive(Debug, Clone, PartialEq, Eq)]
pub struct FirstLast {
    pub first: Option<Symbol>,
    pub last: Option<Symbol>,
    pub address_mapping_xcp: Vec<AdrMap>,
}

/// [`FirstLast`] as a mathematical value.
pub struct FirstLastView {
    pub first: Option<SymbolView>,
    pub last: Option<SymbolView>,
    pub address_mapping_xcp: Seq<AdrMapView>,
}

impl View for FirstLast {
    type V = FirstLastView;

    open spec fn view(&self) -> FirstLastView {
        FirstLastView {
            first: opt(self.first),
            last: opt(self.last),
            address_mapping_xcp: views(self.address_mapping_xcp@),
        }
    }
}

impl FirstLast {
    /// The node before anything is read.
    pub open spec fn blank() -> FirstLastView {
        FirstLastView {
            first: None,
            last: None,
            address_mapping_xcp: Seq::empty(),
        }
    }
}

impl Default for FirstLast {
    fn default() -> (r: Self)
        ensures
            r@ == FirstLast::blank(),
    {
        FirstLast {
            first: None,
            last: None,
            address_mapping_xcp: none_yet(),
        }
    }
}

impl FirstLast {
    /// What the parameters at the cursor set, and where the next ones start.
    pub open spec fn option(v: FirstLastView, c: Cur) -> Got<FirstLastView> {
        if c.at("FIRST"@) {
            match Symbol::reads(c.step()) {
                Err(f) => Err(f),
                Ok((x, c0)) => {
                    Ok((FirstLastView { first: Some(x), ..v }, c0))
                },
            }
        } else if c.at("LAST"@) {
            match Symbol::reads(c.step()) {
                Err(f) => Err(f),
                Ok((x, c0)) => {
                    Ok((FirstLastView { last: Some(x), ..v }, c0))
                },
            }
        } else if c.at("ADDRESS_MAPPING_XCP"@) {
            match AdrMap::reads(c.step()) {
                Err(f) => Err(f),
                Ok((x, c0)) => {
                    Ok((FirstLastView { address_mapping_xcp: v.address_mapping_xcp.push(x), ..v }, c0))
                },
            }
        } else {
            match read_token(c) {
                Err(f) => Err(f),
                Ok((_t, c0)) => {
                    Ok((v, c0))
                },
            }
        }
    }

    /// What all the parameters from the cursor on set, and where reading them ends.
    pub open spec fn options(v: FirstLastView, c: Cur) -> Got<FirstLastView>
        decreases c.left(),
    {
        if !c.more() {
            Ok((v, c))
        } else {
            match FirstLast::option(v, c) {
                Err(f) => Err(f),
                Ok((w, n)) => if 0 <= n.left() < c.left() {
                    FirstLast::options(w, n)
                } else {
                    arbitrary()
                },
            }
        }
    }

    fn read_option(&mut self, cur: &mut ParamCursor) -> (r: Result<()>)
        requires
            old(cur)@.more(),
        ensures
            match r {
                Ok(()) => {
                    &&& FirstLast::option(old(self)@, old(cur)@) == Ok::<_, Failure>(
                        (final(self)@, final(cur)@),
                    )
                    &&& 0 <= final(cur)@.left() < old(cur)@.left()
                },
                Err(e) => FirstLast::option(old(self)@, old(cur)@) == Err::<(FirstLastView, Cur), _>(e@),
            },
    {
        if cur.take_if("FIRST") {
            let x = Symbol::read(cur)?;
            self.first = Some(x);
            return Ok(());
        }
        if cur.take_if("LAST") {
            let x = Symbol::read(cur)?;
            self.last = Some(x);
            return Ok(());
        }
        if cur.take_if("ADDRESS_MAPPING_XCP") {
            let x = AdrMap::read(cur)?;
            append(&mut self.address_mapping_xcp, x);
            return Ok(());
        }
        let _t = cur.next_token()?;
        Ok(())
    }

    fn read_options(&mut self, cur: &mut ParamCursor) -> (r: Result<()>)
        ensures
            match r {
                Ok(()) => {
                    &&& FirstLast::options(old(self)@, old(cur)@) == Ok::<_, Failure>(
                        (final(self)@, final(cur)@),
                    )
                    &&& final(cur)@.left() <= old(cur)@.left()
                    &&& final(cur)@ == old(cur)@ || final(cur)@.left() >= 0
                },
                Err(e) => FirstLast::options(old(self)@, old(cur)@) == Err::<(FirstLastView, Cur), _>(e@),
            },
    {
        let ghost whole = FirstLast::options(self@, cur@);
        while !cur.is_empty()
            invariant
                whole == FirstLast::options(self@, cur@),
                whole == FirstLast::options(old(self)@, old(cur)@),
                cur@.left() <= old(cur)@.left(),
                cur@ == old(cur)@ || cur@.left() >= 0,
            decreases cur@.left(),
        {
            self.read_option(cur)?;
        }
        Ok(())
    }
}

/// The first mappings, each with the end of its line, behind a text.
pub open spec fn mapping_lines(s: Seq<AdrMapView>, n: int, text: Seq<char>) -> Seq<char>
    decreases n,
{
    if n <= 0 {
        text
    } else {
        mapping_lines(s, n - 1, text) + "ADDRESS_MAPPING_XCP \""@ + escaped(s[n - 1].src)
            + "\" \""@ + escaped(s[n - 1].dst) + "\"\n"@
    }
}

/// How a range starts: its keyword, its symbols, and its mappings.
pub open spec fn range_text(v: FirstLastView, keyword: Seq<char>) -> Seq<char> {
    let s = "/begin "@ + keyword;
    let s = match v.first {
        Some(x) => s + " FIRST"@ + symbol_text(x.name, x.offset),
        None => s,
    };
    let s = match v.last {
        Some(x) => s + " LAST"@ + symbol_text(x.name, x.offset),
        None => s,
    };
    let n = v.address_mapping_xcp.len();
    if n == 0 {
        s
    } else if v.first is Some || v.last is Some {
        mapping_lines(v.address_mapping_xcp, n as int, s + "\n"@)
    } else {
        mapping_lines(v.address_mapping_xcp, n as int, s)
    }
}

/// A range as a whole.
pub open spec fn range_block(v: FirstLastView, keyword: Seq<char>, p: Page) -> Page {
    p.line(range_text(v, keyword)).line("/end "@ + keyword)
}

fn write_first_last_block(
    first: &Option<Symbol>,
    last: &Option<Symbol>,
    address_mapping_xcp: &Vec<AdrMap>,
    w: &mut Writer,
    keyword: &str,
)
    ensures
        final(w)@ == range_block(
            FirstLastView {
                first: opt(*first),
                last: opt(*last),
                address_mapping_xcp: views(address_mapping_xcp@),
            },
            keyword@,
            old(w)@,
        ),
{
    let ghost v = FirstLastView {
        first: opt(*first),
        last: opt(*last),
        address_mapping_xcp: views(address_mapping_xcp@),
    };
    let mut line = "/begin ".to_string();
    line.append(keyword);
    if let Some(x) = first {
        line.append(" FIRST");
        push_symbol_hex(&mut line, x.name.as_str(), x.offset);
    }
    if let Some(x) = last {
        line.append(" LAST");
        push_symbol_hex(&mut line, x.name.as_str(), x.offset);
    }
    if address_mapping_xcp.len() > 0 {
        if first.is_some() || last.is_some() {
            line.append("\n");
        }
        let ghost start = line@;
        let mut i: usize = 0;
        while i < address_mapping_xcp.len()
            invariant
                i <= address_mapping_xcp@.len(),
                line@ == mapping_lines(views(address_mapping_xcp@), i as int, start),
            decreases address_mapping_xcp@.len() - i,
        {
            let m = &address_mapping_xcp[i];
            line.append("ADDRESS_MAPPING_XCP \"");
            line.append(escape_str(m.src.as_str()).as_str());
            line.append("\" \"");
            line.append(escape_str(m.dst.as_str()).as_str());
            line.append("\"\n");
            i += 1;
        }
    }
    proof {
        assert(line@ == range_text(v, keyword@));
    }
    w.line(line.as_str());
    let mut end = "/end ".to_string();
    end.append(keyword);
    w.line(end.as_str());
}

/// `MAP_SYMBOL`: a range of symbols of the linker map.
#[derive(Debug, Clone, PartialEq, Eq)]
pub struct MapSymbol {
    pub first: Option<Symbol>,
    pub last: Option<Symbol>,
    pub address_mapping_xcp: Vec<AdrMap>,
}

/// [`MapSymbol`] as a mathematical value.
pub struct MapSymbolView {
    pub first: Option<SymbolView>,
    pub last: Option<SymbolView>,
    pub address_mapping_xcp: Seq<AdrMapView>,
}

impl View for MapSymbol {
    type V = MapSymbolView;

    open spec fn view(&self) -> MapSymbolView {
        MapSymbolView {
            first: opt(self.first),
            last: opt(self.last),
            address_mapping_xcp: views(self.address_mapping_xcp@),
        }
    }
}

impl MapSymbol {
    /// The node before anything is read.
    pub open spec fn blank() -> MapSymbolView {
        MapSymbolView {
            first: None,
            last: None,
            address_mapping_xcp: Seq::empty(),
        }
    }
}

impl Default for MapSymbol {
    fn default() -> (r: Self)
        ensures
            r@ == MapSymbol::blank(),
    {
        MapSymbol {
            first: None,
            last: None,
            address_mapping_xcp: none_yet(),
        }
    }
}

impl Node for MapSymbol {
    open spec fn keyword_text() -> Seq<char> {
        "MAP_SYMBOL"@
    }

    open spec fn parsed(tree: Tree) -> std::result::Result<MapSymbolView, Failure> {
        match FirstLast::options(FirstLast::blank(), Cur::start(tree)) {
            Err(f) => Err(f),
            Ok((v, _)) => Ok(
                MapSymbolView {
                    first: v.first,
                    last: v.last,
                    address_mapping_xcp: v.address_mapping_xcp
                }
            ),
        }
    }

    open spec fn body(v: MapSymbolView, p: Page) -> Written {
        Ok(p)
    }

    open spec fn block(v: MapSymbolView, p: Page) -> Written {
        Ok(
            range_block(
                FirstLastView {
                    first: v.first,
                    last: v.last,
                    address_mapping_xcp: v.address_mapping_xcp
                },
                "MAP_SYMBOL"@,
                p
            )
        )
    }

    fn keyword() -> (r: &'static str) {
        "MAP_SYMBOL"
    }

    fn parse(block: &Block) -> (r: Result<Self>) {
        let mut cur = ParamCursor::new(block);
        let mut parts = FirstLast::default();
        parts.read_options(&mut cur)?;
        Ok(
            MapSymbol {
                first: parts.first,
                last: parts.last,
                address_mapping_xcp: parts.address_mapping_xcp,
            },
        )
    }

    fn write_body(&self, _w: &mut Writer) -> (r: Result<()>) {
        Ok(())
    }

    fn write_block(&self, w: &mut Writer) -> (r: Result<()>) {
        write_first_last_block(&self.first, &self.last, &self.address_mapping_xcp, w, "MAP_SYMBOL");
        Ok(())
    }
}

/// `MEMORY_SEGMENT`: a range of symbols of a memory segment.
#[derive(Debug, Clone, PartialEq, Eq)]
pub struct MemorySegment {
    pub first: Option<Symbol>,
    pub last: Option<Symbol>,
    pub address_mapping_xcp: Vec<AdrMap>,
}

/// [`MemorySegment`] as a mathematical value.
pub struct MemorySegmentView {
    pub first: Option<SymbolView>,
    pub last: Option<SymbolView>,
    pub address_mapping_xcp: Seq<AdrMapView>,
}

impl View for MemorySegment {
    type V = MemorySegmentView;

    open spec fn view(&self) -> MemorySegmentView {
        MemorySegmentView {
            first: opt(self.first),
            last: opt(self.last),
            address_mapping_xcp: views(self.address_mapping_xcp@),
        }
    }
}

impl MemorySegment {
    /// The node before anything is read.
    pub open spec fn blank() -> MemorySegmentView {
        MemorySegmentView {
            first: None,
            last: None,
            address_mapping_xcp: Seq::empty(),
        }
    }
}

impl Default for MemorySegment {
    fn default() -> (r: Self)
        ensures
            r@ == MemorySegment::blank(),
    {
        MemorySegment {
            first: None,
            last: None,
            address_mapping_xcp: none_yet(),
        }
    }
}

impl Node for MemorySegment {
    open spec fn keyword_text() -> Seq<char> {
        "MEMORY_SEGMENT"@
    }

    open spec fn parsed(tree: Tree) -> std::result::Result<MemorySegmentView, Failure> {
        match FirstLast::options(FirstLast::blank(), Cur::start(tree)) {
            Err(f) => Err(f),
            Ok((v, _)) => Ok(
                MemorySegmentView {
                    first: v.first,
                    last: v.last,
                    address_mapping_xcp: v.address_mapping_xcp
                }
            ),
        }
    }

    open spec fn body(v: MemorySegmentView, p: Page) -> Written {
        Ok(p)
    }

    open spec fn block(v: MemorySegmentView, p: Page) -> Written {
        Ok(
            range_block(
                FirstLastView {
                    first: v.first,
                    last: v.last,
                    address_mapping_xcp: v.address_mapping_xcp
                },
                "MEMORY_SEGMENT"@,
                p
            )
        )
    }

    fn keyword() -> (r: &'static str) {
        "MEMORY_SEGMENT"
    }

    fn parse(block: &Block) -> (r: Result<Self>) {
        let mut cur = ParamCursor::new(block);
        let mut parts = FirstLast::default();
        parts.read_options(&mut cur)?;
        Ok(
            MemorySegment {
                first: parts.first,
                last: parts.last,
                address_mapping_xcp: parts.address_mapping_xcp,
            },
        )
    }

    fn write_body(&self, _w: &mut Writer) -> (r: Result<()>) {
        Ok(())
    }

    fn write_block(&self, w: &mut Writer) -> (r: Result<()>) {
        write_first_last_block(&self.first, &self.last, &self.address_mapping_xcp, w, "MEMORY_SEGMENT");
        Ok(())
    }
}

impl ExSymbol {
    /// A name and an offset.
    pub open spec fn head(c: Cur) -> Got<ExSymbolView> {
        match Symbol::reads(c) {
            Err(f) => Err(f),
            Ok((s, n)) => Ok((ExSymbolView { name: s.name, offset: s.offset, ..ExSymbol::blank() }, n)),
        }
    }

    fn read_head(cur: &mut ParamCursor) -> (r: Result<Self>)
        ensures
            match r {
                Ok(v) => {
                    &&& ExSymbol::head(old(cur)@) == Ok::<_, Failure>((v@, final(cur)@))
                    &&& 0 <= final(cur)@.left() < old(cur)@.left()
                },
                Err(e) => ExSymbol::head(old(cur)@) == Err::<(ExSymbolView, Cur), _>(e@),
            },
    {
        let s = Symbol::read(cur)?;
        let mut sym = ExSymbol::default();
        sym.name = s.name;
        sym.offset = s.offset;
        Ok(sym)
    }

    /// A symbol with the table of pointers behind it, if one is there.
    pub open spec fn pointered(c: Cur) -> Got<ExSymbolView> {
        match ExSymbol::head(c) {
            Err(f) => Err(f),
            Ok((v, n)) => if n.left() > 2 && n.at("ORIGINAL_POINTER_TABLE"@) {
                match Symbol::reads(n.step()) {
                    Err(f) => Err(f),
                    Ok((x, m)) => Ok((ExSymbolView { original_ptr_table: Some(x), ..v }, m)),
                }
            } else {
                Ok((v, n))
            },
        }
    }

    fn read_pointered(cur: &mut ParamCursor) -> (r: Result<Self>)
        ensures
            match r {
                Ok(v) => {
                    &&& ExSymbol::pointered(old(cur)@) == Ok::<_, Failure>((v@, final(cur)@))
                    &&& 0 <= final(cur)@.left() < old(cur)@.left()
                },
                Err(e) => ExSymbol::pointered(old(cur)@) == Err::<(ExSymbolView, Cur), _>(e@),
            },
    {
        let mut sym = ExSymbol::read_head(cur)?;
        if cur.remaining() > 2 && cur.take_if("ORIGINAL_POINTER_TABLE") {
            sym.original_ptr_table = Some(Symbol::read(cur)?);
        }
        Ok(sym)
    }

    /// A symbol with what follows it while more than two parameters are left.
    pub open spec fn in_circuit(c: Cur) -> Got<ExSymbolView> {
        match ExSymbol::head(c) {
            Err(f) => Err(f),
            Ok((v, n)) => ExSymbol::options(v, n),
        }
    }

    fn read_in_circuit(cur: &mut ParamCursor) -> (r: Result<Self>)
        ensures
            match r {
                Ok(v) => {
                    &&& ExSymbol::in_circuit(old(cur)@) == Ok::<_, Failure>((v@, final(cur)@))
                    &&& 0 <= final(cur)@.left() < old(cur)@.left()
                },
                Err(e) => ExSymbol::in_circuit(old(cur)@) == Err::<(ExSymbolView, Cur), _>(e@),
            },
    {
        let mut sym = ExSymbol::read_head(cur)?;
        sym.read_options(cur)?;
        Ok(sym)
    }
}

impl ExSymbol {
    /// What the parameters at the cursor set, and where the next ones start.
    pub open spec fn option(v: ExSymbolView, c: Cur) -> Got<ExSymbolView> {
        if c.at("ORIGINAL_POINTER_TABLE"@) {
            match Symbol::reads(c.step()) {
                Err(f) => Err(f),
                Ok((x, c0)) => {
                    Ok((ExSymbolView { original_ptr_table: Some(x), ..v }, c0))
                },
            }
        } else if c.at("FLASH_SECTION"@) {
            match FlashSection::reads(c.step()) {
                Err(f) => Err(f),
                Ok((x, c0)) => {
                    Ok((ExSymbolView { flash_section: Some(x), ..v }, c0))
                },
            }
        } else {
            match read_token(c) {
                Err(f) => Err(f),
                Ok((_t, c0)) => {
                    Ok((v, c0))
                },
            }
        }
    }

    /// What all the parameters from the cursor on set, and where reading them ends.
    pub open spec fn options(v: ExSymbolView, c: Cur) -> Got<ExSymbolView>
        decreases c.left(),
    {
        if c.left() < 3 {
            Ok((v, c))
        } else {
            match ExSymbol::option(v, c) {
                Err(f) => Err(f),
                Ok((w, n)) => if 0 <= n.left() < c.left() {
                    ExSymbol::options(w, n)
                } else {
                    arbitrary()
                },
            }
        }
    }

    fn read_option(&mut self, cur: &mut ParamCursor) -> (r: Result<()>)
        requires
            old(cur)@.more(),
        ensures
            match r {
                Ok(()) => {
                    &&& ExSymbol::option(old(self)@, old(cur)@) == Ok::<_, Failure>(
                        (final(self)@, final(cur)@),
                    )
                    &&& 0 <= final(cur)@.left() < old(cur)@.left()
                },
                Err(e) => ExSymbol::option(old(self)@, old(cur)@) == Err::<(ExSymbolView, Cur), _>(e@),
            },
    {
        if cur.take_if("ORIGINAL_POINTER_TABLE") {
            let x = Symbol::read(cur)?;
            self.original_ptr_table = Some(x);
            return Ok(());
        }
        if cur.take_if("FLASH_SECTION") {
            let x = FlashSection::read(cur)?;
            self.flash_section = Some(x);
            return Ok(());
        }
        let _t = cur.next_token()?;
        Ok(())
    }

    fn read_options(&mut self, cur: &mut ParamCursor) -> (r: Result<()>)
        ensures
            match r {
                Ok(()) => {
                    &&& ExSymbol::options(old(self)@, old(cur)@) == Ok::<_, Failure>(
                        (final(self)@, final(cur)@),
                    )
                    &&& final(cur)@.left() <= old(cur)@.left()
                    &&& final(cur)@ == old(cur)@ || final(cur)@.left() >= 0
                },
                Err(e) => ExSymbol::options(old(self)@, old(cur)@) == Err::<(ExSymbolView, Cur), _>(e@),
            },
    {
        let ghost whole = ExSymbol::options(self@, cur@);
        while cur.remaining() >= 3
            invariant
                whole == ExSymbol::options(self@, cur@),
                whole == ExSymbol::options(old(self)@, old(cur)@),
                cur@.left() <= old(cur)@.left(),
                cur@ == old(cur)@ || cur@.left() >= 0,
            decreases cur@.left(),
        {
            self.read_option(cur)?;
        }
        Ok(())
    }
}

/// `CALIBRATION_METHOD`: how parameters are exchanged.
#[derive(Debug, Clone, PartialEq, Eq)]
pub struct CalibrationMethod {
    pub auto_sar_single_pointered: Option<ExSymbol>,
    pub in_circuit2: Option<ExSymbol>,
}

/// [`CalibrationMethod`] as a mathematical value.
pub struct CalibrationMethodView {
    pub auto_sar_single_pointered: Option<ExSymbolView>,
    pub in_circuit2: Option<ExSymbolView>,
}

impl View for CalibrationMethod {
    type V = CalibrationMethodView;

    open spec fn view(&self) -> CalibrationMethodView {
        CalibrationMethodView {
            auto_sar_single_pointered: opt(self.auto_sar_single_pointered),
            in_circuit2: opt(self.in_circuit2),
        }
    }
}

impl CalibrationMethod {
    /// The node before anything is read.
    pub open spec fn blank() -> CalibrationMethodView {
        CalibrationMethodView {
            auto_sar_single_pointered: None,
            in_circuit2: None,
        }
    }
}

impl Default for CalibrationMethod {
    fn default() -> (r: Self)
        ensures
            r@ == CalibrationMethod::blank(),
    {
        CalibrationMethod {
            auto_sar_single_pointered: None,
            in_circuit2: None,
        }
    }
}

impl CalibrationMethod {
    /// What the parameters at the cursor set, and where the next ones start.
    pub open spec fn option(v: CalibrationMethodView, c: Cur) -> Got<CalibrationMethodView> {
        if c.at("AUTOSAR_SINGLE_POINTERED"@) {
            match ExSymbol::pointered(c.step()) {
                Err(f) => Err(f),
                Ok((x, c0)) => {
                    Ok((CalibrationMethodView { auto_sar_single_pointered: Some(x), ..v }, c0))
                },
            }
        } else if c.at("InCircuit2"@) {
            match ExSymbol::in_circuit(c.step()) {
                Err(f) => Err(f),
                Ok((x, c0)) => {
                    Ok((CalibrationMethodView { in_circuit2: Some(x), ..v }, c0))
                },
            }
        } else {
            match read_token(c) {
                Err(f) => Err(f),
                Ok((_t, c0)) => {
                    Ok((v, c0))
                },
            }
        }
    }

    /// What all the parameters from the cursor on set, and where reading them ends.
    pub open spec fn options(v: CalibrationMethodView, c: Cur) -> Got<CalibrationMethodView>
        decreases c.left(),
    {
        if !c.more() {
            Ok((v, c))
        } else {
            match CalibrationMethod::option(v, c) {
                Err(f) => Err(f),
                Ok((w, n)) => if 0 <= n.left() < c.left() {
                    CalibrationMethod::options(w, n)
                } else {
                    arbitrary()
                },
            }
        }
    }

    fn read_option(&mut self, cur: &mut ParamCursor) -> (r: Result<()>)
        requires
            old(cur)@.more(),
        ensures
            match r {
                Ok(()) => {
                    &&& CalibrationMethod::option(old(self)@, old(cur)@) == Ok::<_, Failure>(
                        (final(self)@, final(cur)@),
                    )
                    &&& 0 <= final(cur)@.left() < old(cur)@.left()
                },
                Err(e) => CalibrationMethod::option(old(self)@, old(cur)@) == Err::<(CalibrationMethodView, Cur), _>(e@),
            },
    {
        if cur.take_if("AUTOSAR_SINGLE_POINTERED") {
            let x = ExSymbol::read_pointered(cur)?;
            self.auto_sar_single_pointered = Some(x);
            return Ok(());
        }
        if cur.take_if("InCircuit2") {
            let x = ExSymbol::read_in_circuit(cur)?;
            self.in_circuit2 = Some(x);
            return Ok(());
        }
        let _t = cur.next_token()?;
        Ok(())
    }

    fn read_options(&mut self, cur: &mut ParamCursor) -> (r: Result<()>)
        ensures
            match r {
                Ok(()) => {
                    &&& CalibrationMethod::options(old(self)@, old(cur)@) == Ok::<_, Failure>(
                        (final(self)@, final(cur)@),
                    )
                    &&& final(cur)@.left() <= old(cur)@.left()
                    &&& final(cur)@ == old(cur)@ || final(cur)@.left() >= 0
                },
                Err(e) => CalibrationMethod::options(old(self)@, old(cur)@) == Err::<(CalibrationMethodView, Cur), _>(e@),
            },
    {
        let ghost whole = CalibrationMethod::options(self@, cur@);
        while !cur.is_empty()
            invariant
                whole == CalibrationMethod::options(self@, cur@),
                whole == CalibrationMethod::options(old(self)@, old(cur)@),
                cur@.left() <= old(cur)@.left(),
                cur@ == old(cur)@ || cur@.left() >= 0,
            decreases cur@.left(),
        {
            self.read_option(cur)?;
        }
        Ok(())
    }
}

impl CalibrationMethod {
    /// How the block starts: its keyword and both methods.
    pub open spec fn text(v: CalibrationMethodView) -> Seq<char> {
        let s = "/begin CALIBRATION_METHOD"@;
        let s = match v.auto_sar_single_pointered {
            Some(x) => {
                let s = s + " AUTOSAR_SINGLE_POINTERED"@ + symbol_text(x.name, x.offset);
                match x.original_ptr_table {
                    Some(t) => s + " ORIGINAL_POINTER_TABLE"@ + symbol_text(t.name, t.offset),
                    None => s,
                }
            },
            None => s,
        };
        match v.in_circuit2 {
            Some(x) => {
                let s = if v.auto_sar_single_pointered is Some {
                    s + "\n"@
                } else {
                    s
                };
                let s = s + " InCircuit2"@ + symbol_text(x.name, x.offset);
                let s = match x.original_ptr_table {
                    Some(t) => s + " AUTOSAR_SINGLE_POINTERED"@ + symbol_text(t.name, t.offset),
                    None => s,
                };
                match x.flash_section {
                    Some(f) => s + " FLASH_SECTION "@ + hex_form(f.address as nat) + " "@
                        + hex_form(f.length as nat),
                    None => s,
                }
            },
            None => s,
        }
    }

    fn to_text(&self) -> (r: String)
        ensures
            r@ == CalibrationMethod::text(self@),
    {
        let mut line = "/begin CALIBRATION_METHOD".to_string();
        if let Some(x) = &self.auto_sar_single_pointered {
            line.append(" AUTOSAR_SINGLE_POINTERED");
            push_symbol_hex(&mut line, x.name.as_str(), x.offset);
            if let Some(t) = &x.original_ptr_table {
                line.append(" ORIGINAL_POINTER_TABLE");
                push_symbol_hex(&mut line, t.name.as_str(), t.offset);
            }
        }
        if let Some(x) = &self.in_circuit2 {
            if self.auto_sar_single_pointered.is_some() {
                line.append("\n");
            }
            line.append(" InCircuit2");
            push_symbol_hex(&mut line, x.name.as_str(), x.offset);
            if let Some(t) = &x.original_ptr_table {
                line.append(" AUTOSAR_SINGLE_POINTERED");
                push_symbol_hex(&mut line, t.name.as_str(), t.offset);
            }
            if let Some(f) = &x.flash_section {
                line.append(" FLASH_SECTION ");
                line.append(to_hex(f.address as u64).as_str());
                line.append(" ");
                line.append(to_hex(f.length as u64).as_str());
            }
        }
        line
    }
}

impl Node for CalibrationMethod {
    open spec fn keyword_text() -> Seq<char> {
        "CALIBRATION_METHOD"@
    }

    open spec fn parsed(tree: Tree) -> std::result::Result<CalibrationMethodView, Failure> {
        match CalibrationMethod::options(CalibrationMethod::blank(), Cur::start(tree)) {
            Err(f) => Err(f),
            Ok((v, _)) => Ok(v),
        }
    }

    open spec fn body(v: CalibrationMethodView, p: Page) -> Written {
        Ok(p)
    }

    open spec fn block(v: CalibrationMethodView, p: Page) -> Written {
        Ok(p.line(CalibrationMethod::text(v)).line("/end CALIBRATION_METHOD"@))
    }

    fn keyword() -> (r: &'static str) {
        "CALIBRATION_METHOD"
    }

    fn parse(block: &Block) -> (r: Result<Self>) {
        let mut cur = ParamCursor::new(block);
        let mut node = CalibrationMethod::default();
        node.read_options(&mut cur)?;
        Ok(node)
    }

    fn write_body(&self, _w: &mut Writer) -> (r: Result<()>) {
        Ok(())
    }

    fn write_block(&self, w: &mut Writer) -> (r: Result<()>) {
        w.line(self.to_text().as_str());
        w.line("/end CALIBRATION_METHOD");
        Ok(())
    }
}

/// A block within the node.
#[derive(Debug, Clone, PartialEq, Eq)]
pub enum CanapeAddressUpdateChild {
    /// `/begin MAP_SYMBOL`.
    MapSymbol(MapSymbol),
    /// `/begin MEMORY_SEGMENT`.
    MemorySegment(MemorySegment),
    /// `/begin CALIBRATION_METHOD`.
    CalibrationMethod(CalibrationMethod),
    Unsupported(UnsupportedNode),
}

/// [`CanapeAddressUpdateChild`] as a mathematical value.
pub enum CanapeAddressUpdateChildView {
    MapSymbol(MapSymbolView),
    MemorySegment(MemorySegmentView),
    CalibrationMethod(CalibrationMethodView),
    Unsupported(UnsupportedNodeView),
}

impl View for CanapeAddressUpdateChild {
    type V = CanapeAddressUpdateChildView;

    open spec fn view(&self) -> CanapeAddressUpdateChildView {
        match self {
            CanapeAddressUpdateChild::MapSymbol(n) => CanapeAddressUpdateChildView::MapSymbol(n@),
            CanapeAddressUpdateChild::MemorySegment(n) => CanapeAddressUpdateChildView::MemorySegment(n@),
            CanapeAddressUpdateChild::CalibrationMethod(n) => CanapeAddressUpdateChildView::CalibrationMethod(n@),
            CanapeAddressUpdateChild::Unsupported(n) => CanapeAddressUpdateChildView::Unsupported(n@),
        }
    }
}

impl Child for CanapeAddressUpdateChild {
    open spec fn parsed(tree: Tree) -> std::result::Result<CanapeAddressUpdateChildView, Failure> {
        if same_ignore_case(tree.keyword, "MAP_SYMBOL"@) {
            match node_parsed::<MapSymbol>(tree) {
                Ok(n) => Ok(CanapeAddressUpdateChildView::MapSymbol(n)),
                Err(f) => Err(f),
            }
        } else if same_ignore_case(tree.keyword, "MEMORY_SEGMENT"@) {
            match node_parsed::<MemorySegment>(tree) {
                Ok(n) => Ok(CanapeAddressUpdateChildView::MemorySegment(n)),
                Err(f) => Err(f),
            }
        } else if same_ignore_case(tree.keyword, "CALIBRATION_METHOD"@) {
            match node_parsed::<CalibrationMethod>(tree) {
                Ok(n) => Ok(CanapeAddressUpdateChildView::CalibrationMethod(n)),
                Err(f) => Err(f),
            }
        } else {
            Ok(CanapeAddressUpdateChildView::Unsupported(UnsupportedNode::of(tree)))
        }
    }

    open spec fn kept(&self, tree: Tree) -> bool {
        match self {
            CanapeAddressUpdateChild::MapSymbol(n) => n.keeps(tree),
            CanapeAddressUpdateChild::MemorySegment(n) => n.keeps(tree),
            CanapeAddressUpdateChild::CalibrationMethod(n) => n.keeps(tree),
            CanapeAddressUpdateChild::Unsupported(n) => n.kept(tree),
        }
    }

    open spec fn written(v: CanapeAddressUpdateChildView, p: Page) -> Written {
        match v {
            CanapeAddressUpdateChildView::MapSymbol(n) => node_written::<MapSymbol>(n, p),
            CanapeAddressUpdateChildView::MemorySegment(n) => node_written::<MemorySegment>(n, p),
            CanapeAddressUpdateChildView::CalibrationMethod(n) => node_written::<CalibrationMethod>(n, p),
            CanapeAddressUpdateChildView::Unsupported(n) => UnsupportedNode::written(n, p),
        }
    }

    fn read(block: &Block) -> (r: Result<Self>) {
        if eq_ignore_case(block.keyword.as_str(), "MAP_SYMBOL") {
            return Ok(CanapeAddressUpdateChild::MapSymbol(parse_node::<MapSymbol>(block)?));
        }
        if eq_ignore_case(block.keyword.as_str(), "MEMORY_SEGMENT") {
            return Ok(CanapeAddressUpdateChild::MemorySegment(parse_node::<MemorySegment>(block)?));
        }
        if eq_ignore_case(block.keyword.as_str(), "CALIBRATION_METHOD") {
            return Ok(CanapeAddressUpdateChild::CalibrationMethod(parse_node::<CalibrationMethod>(block)?));
        }
        Ok(CanapeAddressUpdateChild::Unsupported(UnsupportedNode::from_block(block)))
    }

    fn write(&self, w: &mut Writer) -> (r: Result<()>) {
        self.write_block(w)
    }
}

impl CanapeAddressUpdateChild {
    pub fn write_block(&self, w: &mut Writer) -> (r: Result<()>)
        ensures
            match r {
                Ok(()) => CanapeAddressUpdateChild::written(self@, old(w)@) == Ok::<Page, Stopped>(final(w)@),
                Err(e) => CanapeAddressUpdateChild::written(self@, old(w)@) == Err::<Page, Stopped>(final(w)@.stopped(e@)),
            },
    {
        match self {
            CanapeAddressUpdateChild::MapSymbol(n) => write_node(n, w),
            CanapeAddressUpdateChild::MemorySegment(n) => write_node(n, w),
            CanapeAddressUpdateChild::CalibrationMethod(n) => write_node(n, w),
            CanapeAddressUpdateChild::Unsupported(n) => n.write_block(w),
        }
    }
}

/// `IF_DATA CANAPE_ADDRESS_UPDATE`: symbols by which addresses are updated.
#[derive(Debug, Clone, PartialEq, Eq)]
pub struct CanapeAddressUpdate {
    pub name: String,
    pub epk_address: Vec<Symbol>,
    pub ecu_calibration_offset: Option<Symbol>,
    pub children: Vec<CanapeAddressUpdateChild>,
}

/// [`CanapeAddressUpdate`] as a mathematical value.
pub struct CanapeAddressUpdateView {
    pub name: Seq<char>,
    pub epk_address: Seq<SymbolView>,
    pub ecu_calibration_offset: Option<SymbolView>,
    pub children: Seq<CanapeAddressUpdateChildView>,
}

impl View for CanapeAddressUpdate {
    type V = CanapeAddressUpdateView;

    open spec fn view(&self) -> CanapeAddressUpdateView {
        CanapeAddressUpdateView {
            name: self.name@,
            epk_address: views(self.epk_address@),
            ecu_calibration_offset: opt(self.ecu_calibration_offset),
            children: views(self.children@),
        }
    }
}

impl CanapeAddressUpdate {
    /// The node before anything is read.
    pub open spec fn blank() -> CanapeAddressUpdateView {
        CanapeAddressUpdateView {
            name: "CANAPE_ADDRESS_UPDATE"@,
            epk_address: Seq::empty(),
            ecu_calibration_offset: None,
            children: Seq::empty(),
        }
    }
}

impl Default for CanapeAddressUpdate {
    fn default() -> (r: Self)
        ensures
            r@ == CanapeAddressUpdate::blank(),
    {
        CanapeAddressUpdate {
            name: "CANAPE_ADDRESS_UPDATE".to_string(),
            epk_address: none_yet(),
            ecu_calibration_offset: None,
            children: none_yet(),
        }
    }
}

impl CanapeAddressUpdate {
    /// What the first parameter says, if there is one, and where the next ones start.
    pub open spec fn head(c: Cur) -> Got<CanapeAddressUpdateView> {
        let v = CanapeAddressUpdate::blank();
        if c.more() {
            match read_ident(c) {
                Err(f) => Err(f),
                Ok((x, c0)) => {
                    Ok((CanapeAddressUpdateView { name: x, ..v }, c0))
                },
            }
        } else {
            Ok((v, c))
        }
    }

    fn read_head(cur: &mut ParamCursor) -> (r: Result<Self>)
        ensures
            match r {
                Ok(v) => CanapeAddressUpdate::head(old(cur)@) == Ok::<_, Failure>((v@, final(cur)@)),
                Err(e) => CanapeAddressUpdate::head(old(cur)@) == Err::<(CanapeAddressUpdateView, Cur), _>(e@),
            },
    {
        let mut node = CanapeAddressUpdate::default();
        if !cur.is_empty() {
            let x = cur.ident()?;
            node.name = x;
        }
        Ok(node)
    }
}

impl CanapeAddressUpdate {
    /// What the parameters at the cursor set, and where the next ones start.
    pub open spec fn option(v: CanapeAddressUpdateView, c: Cur) -> Got<CanapeAddressUpdateView> {
        if c.at("EPK_ADDRESS"@) {
            match Symbol::reads(c.step()) {
                Err(f) => Err(f),
                Ok((x, c0)) => {
                    Ok((CanapeAddressUpdateView { epk_address: v.epk_address.push(x), ..v }, c0))
                },
            }
        } else if c.at("ECU_CALIBRATION_OFFSET"@) {
            match Symbol::reads(c.step()) {
                Err(f) => Err(f),
                Ok((x, c0)) => {
                    Ok((CanapeAddressUpdateView { ecu_calibration_offset: Some(x), ..v }, c0))
                },
            }
        } else {
            match read_token(c) {
                Err(f) => Err(f),
                Ok((_t, c0)) => {
                    Ok((v, c0))
                },
            }
        }
    }

    /// What all the parameters from the cursor on set, and where reading them ends.
    pub open spec fn options(v: CanapeAddressUpdateView, c: Cur) -> Got<CanapeAddressUpdateView>
        decreases c.left(),
    {
        if !c.more() {
            Ok((v, c))
        } else {
            match CanapeAddressUpdate::option(v, c) {
                Err(f) => Err(f),
                Ok((w, n)) => if 0 <= n.left() < c.left() {
                    CanapeAddressUpdate::options(w, n)
                } else {
                    arbitrary()
                },
            }
        }
    }

    fn read_option(&mut self, cur: &mut ParamCursor) -> (r: Result<()>)
        requires
            old(cur)@.more(),
        ensures
            match r {
                Ok(()) => {
                    &&& CanapeAddressUpdate::option(old(self)@, old(cur)@) == Ok::<_, Failure>(
                        (final(self)@, final(cur)@),
                    )
                    &&& 0 <= final(cur)@.left() < old(cur)@.left()
                },
                Err(e) => CanapeAddressUpdate::option(old(self)@, old(cur)@) == Err::<(CanapeAddressUpdateView, Cur), _>(e@),
            },
    {
        if cur.take_if("EPK_ADDRESS") {
            let x = Symbol::read(cur)?;
            append(&mut self.epk_address, x);
            return Ok(());
        }
        if cur.take_if("ECU_CALIBRATION_OFFSET") {
            let x = Symbol::read(cur)?;
            self.ecu_calibration_offset = Some(x);
            return Ok(());
        }
        let _t = cur.next_token()?;
        Ok(())
    }

    fn read_options(&mut self, cur: &mut ParamCursor) -> (r: Result<()>)
        ensures
            match r {
                Ok(()) => {
                    &&& CanapeAddressUpdate::options(old(self)@, old(cur)@) == Ok::<_, Failure>(
                        (final(self)@, final(cur)@),
                    )
                    &&& final(cur)@.left() <= old(cur)@.left()
                    &&& final(cur)@ == old(cur)@ || final(cur)@.left() >= 0
                },
                Err(e) => CanapeAddressUpdate::options(old(self)@, old(cur)@) == Err::<(CanapeAddressUpdateView, Cur), _>(e@),
            },
    {
        let ghost whole = CanapeAddressUpdate::options(self@, cur@);
        while !cur.is_empty()
            invariant
                whole == CanapeAddressUpdate::options(self@, cur@),
                whole == CanapeAddressUpdate::options(old(self)@, old(cur)@),
                cur@.left() <= old(cur)@.left(),
                cur@ == old(cur)@ || cur@.left() >= 0,
            decreases cur@.left(),
        {
            self.read_option(cur)?;
        }
        Ok(())
    }
}

impl CanapeAddressUpdate {
    /// The first identification addresses behind a text.
    pub open spec fn epk_text(s: Seq<SymbolView>, n: int, text: Seq<char>) -> Seq<char>
        decreases n,
    {
        if n <= 0 {
            text
        } else {
            CanapeAddressUpdate::epk_text(s, n - 1, text) + " EPK_ADDRESS"@ + symbol_text(
                s[n - 1].name,
                s[n - 1].offset,
            )
        }
    }

    /// How the block starts: its keyword, its name, and its symbols.
    pub open spec fn text(v: CanapeAddressUpdateView) -> Seq<char> {
        let s = CanapeAddressUpdate::epk_text(
            v.epk_address,
            v.epk_address.len() as int,
            "IF_DATA "@ + v.name,
        );
        match v.ecu_calibration_offset {
            Some(x) => s + " ECU_CALIBRATION_OFFSET \""@ + escaped(x.name) + "\" "@ + dec(
                x.offset as nat,
            ),
            None => s,
        }
    }

    fn to_text(&self) -> (r: String)
        ensures
            r@ == CanapeAddressUpdate::text(self@),
    {
        let mut line = "IF_DATA ".to_string();
        line.append(self.name.as_str());
        let ghost start = line@;
        let mut i: usize = 0;
        while i < self.epk_address.len()
            invariant
                i <= self.epk_address@.len(),
                line@ == CanapeAddressUpdate::epk_text(self@.epk_address, i as int, start),
            decreases self.epk_address@.len() - i,
        {
            let x = &self.epk_address[i];
            line.append(" EPK_ADDRESS");
            push_symbol_hex(&mut line, x.name.as_str(), x.offset);
            i += 1;
        }
        if let Some(x) = &self.ecu_calibration_offset {
            line.append(" ECU_CALIBRATION_OFFSET \"");
            line.append(escape_str(x.name.as_str()).as_str());
            line.append("\" ");
            line.append(dec_text(x.offset as u64).as_str());
        }
        line
    }
}

impl Node for CanapeAddressUpdate {
    open spec fn keyword_text() -> Seq<char> {
        "IF_DATA"@
    }

    open spec fn parsed(tree: Tree) -> std::result::Result<CanapeAddressUpdateView, Failure> {
        match CanapeAddressUpdate::head(Cur::start(tree)) {
            Err(f) => Err(f),
            Ok((v, c)) => match CanapeAddressUpdate::options(v, c) {
                Err(f) => Err(f),
                Ok((v, _)) => match children_parsed::<CanapeAddressUpdateChild>(children_of(tree.items), 0) {
                    Err(f) => Err(f),
                    Ok(children) => Ok(CanapeAddressUpdateView { children, ..v }),
                },
            },
        }
    }

    open spec fn keeps(&self, tree: Tree) -> bool {
        all_kept(self.children@, tree)
    }

    open spec fn body(v: CanapeAddressUpdateView, p: Page) -> Written {
        Ok(p)
    }

    open spec fn block(v: CanapeAddressUpdateView, p: Page) -> Written {
        enclosed(
            "IF_DATA"@,
            children_written::<CanapeAddressUpdateChild>(
                v.children,
                0,
                false,
                p.begin(CanapeAddressUpdate::text(v)),
            ),
        )
    }

    fn keyword() -> (r: &'static str) {
        "IF_DATA"
    }

    fn parse(block: &Block) -> (r: Result<Self>) {
        let mut cur = ParamCursor::new(block);
        let mut node = CanapeAddressUpdate::read_head(&mut cur)?;
        node.read_options(&mut cur)?;
        node.children = read_children::<CanapeAddressUpdateChild>(block)?;
        Ok(node)
    }

    fn write_body(&self, _w: &mut Writer) -> (r: Result<()>) {
        Ok(())
    }

    fn write_block(&self, w: &mut Writer) -> (r: Result<()>) {
        w.begin_block(self.to_text().as_str());
        write_children(&self.children, false, w)?;
        w.end_block("IF_DATA");
        Ok(())
    }
}

/// `LINK_MAP`: where the linker has put a symbol.
#[derive(Debug, Clone, PartialEq, Eq)]
pub struct LinkMap {
    pub name: String,
    pub base_address: u32,
    pub base_address_ext: u16,
    pub is_address_relative_to_ds: u16,
    pub offset_segment: i32,
    pub is_data_type_valid: u16,
    pub data_typ_enum: u16,
    pub bit_offset: u16,
}

/// [`LinkMap`] as a mathematical value.
pub struct LinkMapView {
    pub name: Seq<char>,
    pub base_address: u32,
    pub base_address_ext: u16,
    pub is_address_relative_to_ds: u16,
    pub offset_segment: i32,
    pub is_data_type_valid: u16,
    pub data_typ_enum: u16,
    pub bit_offset: u16,
}

impl View for LinkMap {
    type V = LinkMapView;

    open spec fn view(&self) -> LinkMapView {
        LinkMapView {
            name: self.name@,
            base_address: self.base_address,
            base_address_ext: self.base_address_ext,
            is_address_relative_to_ds: self.is_address_relative_to_ds,
            offset_segment: self.offset_segment,
            is_data_type_valid: self.is_data_type_valid,
            data_typ_enum: self.data_typ_enum,
            bit_offset: self.bit_offset,
        }
    }
}

impl LinkMap {
    /// The node before anything is read.
    pub open spec fn blank() -> LinkMapView {
        LinkMapView {
            name: Seq::empty(),
            base_address: 0,
            base_address_ext: 0,
            is_address_relative_to_ds: 0,
            offset_segment: 0,
            is_data_type_valid: 0,
            data_typ_enum: 0,
            bit_offset: 0,
        }
    }
}

impl Default for LinkMap {
    fn default() -> (r: Self)
        ensures
            r@ == LinkMap::blank(),
    {
        LinkMap {
            name: no_text(),
            base_address: 0,
            base_address_ext: 0,
            is_address_relative_to_ds: 0,
            offset_segment: 0,
            is_data_type_valid: 0,
            data_typ_enum: 0,
            bit_offset: 0,
        }
    }
}

impl LinkMap {
    /// The values that stand at the cursor, and where the next ones start.
    pub open spec fn reads(c: Cur) -> Got<LinkMapView> {
        match read_string(c) {
            Err(f) => Err(f),
            Ok((name, c0)) => {
                match read_uint(c0, u32::MAX as int) {
                    Err(f) => Err(f),
                    Ok((base_address, c1)) => {
                        match read_uint(c1, u16::MAX as int) {
                            Err(f) => Err(f),
                            Ok((base_address_ext, c2)) => {
                                match read_uint(c2, u16::MAX as int) {
                                    Err(f) => Err(f),
                                    Ok((is_address_relative_to_ds, c3)) => {
                                        match read_int(c3, i32::MIN as int, i32::MAX as int) {
                                            Err(f) => Err(f),
                                            Ok((offset_segment, c4)) => {
                                                match read_uint(c4, u16::MAX as int) {
                                                    Err(f) => Err(f),
                                                    Ok((is_data_type_valid, c5)) => {
                                                        match read_uint(c5, u16::MAX as int) {
                                                            Err(f) => Err(f),
                                                            Ok((data_typ_enum, c6)) => {
                                                                match read_uint(c6, u16::MAX as int) {
                                                                    Err(f) => Err(f),
                                                                    Ok((bit_offset, c7)) => {
                                                                        Ok(
                                                                            (
                                                                                LinkMapView {
                                                                                    name,
                                                                                    base_address: (base_address as u32),
                                                                                    base_address_ext: (base_address_ext as u16),
                                                                                    is_address_relative_to_ds: (
                                                                                        is_address_relative_to_ds as u16
                                                                                    ),
                                                                                    offset_segment: (offset_segment as i32),
                                                                                    is_data_type_valid: (is_data_type_valid as u16),
                                                                                    data_typ_enum: (data_typ_enum as u16),
                                                                                    bit_offset: (bit_offset as u16)
                                                                                },
                                                                                c7
                                                                            )
                                                                        )
                                                                    },
                                                                }
                                                            },
                                                        }
                                                    },
                                                }
                                            },
                                        }
                                    },
                                }
                            },
                        }
                    },
                }
            },
        }
    }

    fn read(cur: &mut ParamCursor) -> (r: Result<Self>)
        ensures
            match r {
                Ok(v) => {
                    &&& LinkMap::reads(old(cur)@) == Ok::<_, Failure>((v@, final(cur)@))
                    &&& 0 <= final(cur)@.left() < old(cur)@.left()
                },
                Err(e) => LinkMap::reads(old(cur)@) == Err::<(LinkMapView, Cur), _>(e@),
            },
    {
        let name = cur.string()?;
        let base_address = cur.uint::<u32>()?;
        let base_address_ext = cur.uint::<u16>()?;
        let is_address_relative_to_ds = cur.uint::<u16>()?;
        let offset_segment = cur.sint::<i32>()?;
        let is_data_type_valid = cur.uint::<u16>()?;
        let data_typ_enum = cur.uint::<u16>()?;
        let bit_offset = cur.uint::<u16>()?;
        Ok(
            LinkMap {
                name,
                base_address,
                base_address_ext,
                is_address_relative_to_ds,
                offset_segment,
                is_data_type_valid,
                data_typ_enum,
                bit_offset
            }
        )
    }
}

/// `DISPLAY`: how a value is shown.
#[derive(Debug, Clone, PartialEq, Eq)]
pub struct Display {
    pub color: i32,
    pub min: Number,
    pub max: Number,
}

/// [`Display`] as a mathematical value.
pub struct DisplayView {
    pub color: i32,
    pub min: Num,
    pub max: Num,
}

impl View for Display {
    type V = DisplayView;

    open spec fn view(&self) -> DisplayView {
        DisplayView {
            color: self.color,
            min: self.min@,
            max: self.max@,
        }
    }
}

impl Display {
    /// The node before anything is read.
    pub open spec fn blank() -> DisplayView {
        DisplayView {
            color: 0,
            min: num_zero(),
            max: num_zero(),
        }
    }
}

impl Default for Display {
    fn default() -> (r: Self)
        ensures
            r@ == Display::blank(),
    {
        Display {
            color: 0,
            min: Number::default(),
            max: Number::default(),
        }
    }
}

impl Display {
    /// The values that stand at the cursor, and where the next ones start.
    pub open spec fn reads(c: Cur) -> Got<DisplayView> {
        match read_int(c, i32::MIN as int, i32::MAX as int) {
            Err(f) => Err(f),
            Ok((color, c0)) => {
                match read_float(c0) {
                    Err(f) => Err(f),
                    Ok((min, c1)) => {
                        match read_float(c1) {
                            Err(f) => Err(f),
                            Ok((max, c2)) => {
                                Ok((DisplayView { color: (color as i32), min, max }, c2))
                            },
                        }
                    },
                }
            },
        }
    }

    fn read(cur: &mut ParamCursor) -> (r: Result<Self>)
        ensures
            match r {
                Ok(v) => {
                    &&& Display::reads(old(cur)@) == Ok::<_, Failure>((v@, final(cur)@))
                    &&& 0 <= final(cur)@.left() < old(cur)@.left()
                },
                Err(e) => Display::reads(old(cur)@) == Err::<(DisplayView, Cur), _>(e@),
            },
    {
        let color = cur.sint::<i32>()?;
        let min = cur.float()?;
        let max = cur.float()?;
        Ok(Display { color, min, max })
    }
}

/// The mark of the extension.
pub open spec fn read_mark(c: Cur) -> Got<()> {
    match read_token(c) {
        Err(f) => Err(f),
        Ok((t, n)) => if t.is_word("CANAPE_EXT"@) {
            Ok(((), n))
        } else {
            Err(Failure::Parse(t.line, "IF_DATA: expected CANAPE_EXT, got "@ + debug_of(t.text)))
        },
    }
}

fn mark(cur: &mut ParamCursor) -> (r: Result<()>)
    ensures
        match r {
            Ok(()) => read_mark(old(cur)@) == Ok::<_, Failure>(((), final(cur)@)),
            Err(e) => read_mark(old(cur)@) == Err::<((), Cur), _>(e@),
        },
{
    if cur.take_if("CANAPE_EXT") {
        return Ok(());
    }
    let t = cur.next_token()?;
    let mut m = "IF_DATA: expected CANAPE_EXT, got ".to_string();
    m.append(debug_text(t.text.as_str()).as_str());
    Err(Error::parse(t.line, m))
}

/// `IF_DATA CANAPE_EXT`: what CANape adds to an object.
#[derive(Debug, Clone, PartialEq, Eq)]
pub struct CanapeExt {
    pub version: u16,
    /// `LINK_MAP`.
    pub link_map: Option<LinkMap>,
    /// `DISPLAY`.
    pub display: Option<Display>,
    pub virtual_conversion: Option<String>,
}

/// [`CanapeExt`] as a mathematical value.
pub struct CanapeExtView {
    pub version: u16,
    pub link_map: Option<LinkMapView>,
    pub display: Option<DisplayView>,
    pub virtual_conversion: Option<Seq<char>>,
}

impl View for CanapeExt {
    type V = CanapeExtView;

    open spec fn view(&self) -> CanapeExtView {
        CanapeExtView {
            version: self.version,
            link_map: opt(self.link_map),
            display: opt(self.display),
            virtual_conversion: opt(self.virtual_conversion),
        }
    }
}

impl CanapeExt {
    /// The node before anything is read.
    pub open spec fn blank() -> CanapeExtView {
        CanapeExtView {
            version: 0,
            link_map: None,
            display: None,
            virtual_conversion: None,
        }
    }
}

impl Default for CanapeExt {
    fn default() -> (r: Self)
        ensures
            r@ == CanapeExt::blank(),
    {
        CanapeExt {
            version: 0,
            link_map: None,
            display: None,
            virtual_conversion: None,
        }
    }
}

impl CanapeExt {
    /// What the parameters at the start say, and where the next ones start.
    pub open spec fn head(c: Cur) -> Got<CanapeExtView> {
        let v = CanapeExt::blank();
        match read_mark(c) {
            Err(f) => Err(f),
            Ok((_mark, c0)) => {
                match read_uint(c0, u16::MAX as int) {
                    Err(f) => Err(f),
                    Ok((version, c1)) => {
                        Ok((CanapeExtView { version: (version as u16), ..v }, c1))
                    },
                }
            },
        }
    }

    fn read_head(cur: &mut ParamCursor) -> (r: Result<Self>)
        ensures
            match r {
                Ok(v) => CanapeExt::head(old(cur)@) == Ok::<_, Failure>((v@, final(cur)@)),
                Err(e) => CanapeExt::head(old(cur)@) == Err::<(CanapeExtView, Cur), _>(e@),
            },
    {
        let _mark = mark(cur)?;
        let version = cur.uint::<u16>()?;
        let mut node = CanapeExt::default();
        node.version = version;
        Ok(node)
    }
}

impl CanapeExt {
    /// What the parameters at the cursor set, and where the next ones start.
    pub open spec fn option(v: CanapeExtView, c: Cur) -> Got<CanapeExtView> {
        if c.at("LINK_MAP"@) {
            match LinkMap::reads(c.step()) {
                Err(f) => Err(f),
                Ok((x, c0)) => {
                    Ok((CanapeExtView { link_map: Some(x), ..v }, c0))
                },
            }
        } else if c.at("DISPLAY"@) {
            match Display::reads(c.step()) {
                Err(f) => Err(f),
                Ok((x, c0)) => {
                    Ok((CanapeExtView { display: Some(x), ..v }, c0))
                },
            }
        } else if c.at("VIRTUAL_CONVERSION"@) {
            match read_string(c.step()) {
                Err(f) => Err(f),
                Ok((x, c0)) => {
                    Ok((CanapeExtView { virtual_conversion: Some(x), ..v }, c0))
                },
            }
        } else {
            match read_token(c) {
                Err(f) => Err(f),
                Ok((_t, c0)) => {
                    Ok((v, c0))
                },
            }
        }
    }

    /// What all the parameters from the cursor on set, and where reading them ends.
    pub open spec fn options(v: CanapeExtView, c: Cur) -> Got<CanapeExtView>
        decreases c.left(),
    {
        if !c.more() {
            Ok((v, c))
        } else {
            match CanapeExt::option(v, c) {
                Err(f) => Err(f),
                Ok((w, n)) => if 0 <= n.left() < c.left() {
                    CanapeExt::options(w, n)
                } else {
                    arbitrary()
                },
            }
        }
    }

    fn read_option(&mut self, cur: &mut ParamCursor) -> (r: Result<()>)
        requires
            old(cur)@.more(),
        ensures
            match r {
                Ok(()) => {
                    &&& CanapeExt::option(old(self)@, old(cur)@) == Ok::<_, Failure>(
                        (final(self)@, final(cur)@),
                    )
                    &&& 0 <= final(cur)@.left() < old(cur)@.left()
                },
                Err(e) => CanapeExt::option(old(self)@, old(cur)@) == Err::<(CanapeExtView, Cur), _>(e@),
            },
    {
        if cur.take_if("LINK_MAP") {
            let x = LinkMap::read(cur)?;
            self.link_map = Some(x);
            return Ok(());
        }
        if cur.take_if("DISPLAY") {
            let x = Display::read(cur)?;
            self.display = Some(x);
            return Ok(());
        }
        if cur.take_if("VIRTUAL_CONVERSION") {
            let x = cur.string()?;
            self.virtual_conversion = Some(x);
            return Ok(());
        }
        let _t = cur.next_token()?;
        Ok(())
    }

    fn read_options(&mut self, cur: &mut ParamCursor) -> (r: Result<()>)
        ensures
            match r {
                Ok(()) => {
                    &&& CanapeExt::options(old(self)@, old(cur)@) == Ok::<_, Failure>(
                        (final(self)@, final(cur)@),
                    )
                    &&& final(cur)@.left() <= old(cur)@.left()
                    &&& final(cur)@ == old(cur)@ || final(cur)@.left() >= 0
                },
                Err(e) => CanapeExt::options(old(self)@, old(cur)@) == Err::<(CanapeExtView, Cur), _>(e@),
            },
    {
        let ghost whole = CanapeExt::options(self@, cur@);
        while !cur.is_empty()
            invariant
                whole == CanapeExt::options(self@, cur@),
                whole == CanapeExt::options(old(self)@, old(cur)@),
                cur@.left() <= old(cur)@.left(),
                cur@ == old(cur)@ || cur@.left() >= 0,
            decreases cur@.left(),
        {
            self.read_option(cur)?;
        }
        Ok(())
    }
}

impl CanapeExt {
    /// The line that the node is written as.
    pub open spec fn text(v: CanapeExtView) -> Seq<char> {
        let s = "/begin IF_DATA CANAPE_EXT "@ + dec(v.version as nat);
        let s = match v.link_map {
            Some(x) => s + " LINK_MAP \""@ + escaped(x.name) + "\" "@ + hex_form(
                x.base_address as nat,
            ) + " "@ + hex_form(x.base_address_ext as nat) + " "@ + dec(
                x.is_address_relative_to_ds as nat,
            ) + " "@ + hex_form(x.offset_segment as u32 as nat) + " "@ + dec(
                x.is_data_type_valid as nat,
            ) + " "@ + hex_form(x.data_typ_enum as nat) + " "@ + hex_form(x.bit_offset as nat),
            None => s,
        };
        let s = match v.display {
            Some(x) => s + " DISPLAY "@ + dec_int(x.color as int) + " "@ + x.min.text + " "@
                + x.max.text,
            None => s,
        };
        let s = match v.virtual_conversion {
            Some(x) => s + " VIRTUAL_CONVERSION \""@ + escaped(x) + "\""@,
            None => s,
        };
        s + " /end IF_DATA"@
    }

    fn to_text(&self) -> (r: String)
        ensures
            r@ == CanapeExt::text(self@),
    {
        let mut line = "/begin IF_DATA CANAPE_EXT ".to_string();
        line.append(dec_text(self.version as u64).as_str());
        if let Some(x) = &self.link_map {
            line.append(" LINK_MAP \"");
            line.append(escape_str(x.name.as_str()).as_str());
            line.append("\" ");
            line.append(to_hex(x.base_address as u64).as_str());
            line.append(" ");
            line.append(to_hex(x.base_address_ext as u64).as_str());
            line.append(" ");
            line.append(dec_text(x.is_address_relative_to_ds as u64).as_str());
            line.append(" ");
            line.append(to_hex(x.offset_segment as u32 as u64).as_str());
            line.append(" ");
            line.append(dec_text(x.is_data_type_valid as u64).as_str());
            line.append(" ");
            line.append(to_hex(x.data_typ_enum as u64).as_str());
            line.append(" ");
            line.append(to_hex(x.bit_offset as u64).as_str());
        }
        if let Some(x) = &self.display {
            line.append(" DISPLAY ");
            line.append(dec_int_text(x.color as i64).as_str());
            line.append(" ");
            line.append(x.min.text.as_str());
            line.append(" ");
            line.append(x.max.text.as_str());
        }
        if let Some(x) = &self.virtual_conversion {
            line.append(" VIRTUAL_CONVERSION \"");
            line.append(escape_str(x.as_str()).as_str());
            line.append("\"");
        }
        line.append(" /end IF_DATA");
        line
    }
}

impl Node for CanapeExt {
    open spec fn keyword_text() -> Seq<char> {
        "IF_DATA"@
    }

    open spec fn parsed(tree: Tree) -> std::result::Result<CanapeExtView, Failure> {
        match CanapeExt::head(Cur::start(tree)) {
            Err(f) => Err(f),
            Ok((v, c)) => match CanapeExt::options(v, c) {
                Err(f) => Err(f),
                Ok((v, _)) => Ok(v),
            },
        }
    }

    open spec fn body(v: CanapeExtView, p: Page) -> Written {
        Ok(p)
    }

    open spec fn block(v: CanapeExtView, p: Page) -> Written {
        Ok(p.line(CanapeExt::text(v)))
    }

    fn keyword() -> (r: &'static str) {
        "IF_DATA"
    }

    fn parse(block: &Block) -> (r: Result<Self>) {
        let mut cur = ParamCursor::new(block);
        let mut node = CanapeExt::read_head(&mut cur)?;
        node.read_options(&mut cur)?;
        Ok(node)
    }

    fn write_body(&self, _w: &mut Writer) -> (r: Result<()>) {
        Ok(())
    }

    fn write_block(&self, w: &mut Writer) -> (r: Result<()>) {
        w.line(self.to_text().as_str());
        Ok(())
    }
}

} // verus!
