//! `VARIANT_CODING`, `VAR_ADDRESS`, `VAR_CHARACTERISTIC`, `VAR_CRITERION` and
//! `VAR_FORBIDDEN_COMB`.

use crate::a2l::block::{Block, Tree, children_of, params_of};
use crate::a2l::error::{Error, Failure, Result};
use crate::a2l::maps::{
    copy_texts, count_texts, insert_text, new_texts, text_at, text_entries, with_entry,
};
use crate::a2l::model::enums::{A2lKeyword, VarNamingType};
use crate::a2l::model::parts::{all_kept, 
    Child, children_parsed, children_written, enum_or, hex_form, node_parsed, node_written,
    parse_node, read_children, read_enum_or, to_hex, write_children, write_node,
};
use crate::a2l::model::unsupported::{UnsupportedNode, UnsupportedNodeView};
use crate::a2l::node::{Node, enclosed};
use crate::a2l::params::{Cur, Got, ParamCursor, read_ident, read_string, read_token, read_uint};
use crate::a2l::token::Tok;
use crate::views::{append, no_text, none_yet, opt, views};
use crate::a2l::writer::{Page, Writer, Written, quote, Stopped};
use crate::text::{debug_of, debug_text, same_text};
use indexmap::IndexMap;
use vstd::prelude::*;

verus! {

/// `VARIANT_CODING`: variants of characteristics.
#[derive(Debug, Clone, PartialEq, Eq)]
pub struct VariantCoding {
    pub var_separator: Option<String>,
    pub var_naming: VarNamingType,
    pub children: Vec<VariantCodingChild>,
}

/// [`VariantCoding`] as a mathematical value.
pub struct VariantCodingView {
    pub var_separator: Option<Seq<char>>,
    pub var_naming: VarNamingType,
    pub children: Seq<VariantCodingChildView>,
}

impl View for VariantCoding {
    type V = VariantCodingView;

    open spec fn view(&self) -> VariantCodingView {
        VariantCodingView {
            var_separator: opt(self.var_separator),
            var_naming: self.var_naming,
            children: views(self.children@),
        }
    }
}

impl VariantCoding {
    /// The node before anything is read.
    pub open spec fn blank() -> VariantCodingView {
        VariantCodingView {
            var_separator: None,
            var_naming: VarNamingType::blank(),
            children: Seq::empty(),
        }
    }
}

impl Default for VariantCoding {
    fn default() -> (r: Self)
        ensures
            r@ == VariantCoding::blank(),
    {
        VariantCoding {
            var_separator: None,
            var_naming: VarNamingType::default(),
            children: none_yet(),
        }
    }
}

/// A block within the node.
#[derive(Debug, Clone, PartialEq, Eq)]
pub enum VariantCodingChild {
    /// `/begin VAR_CRITERION`.
    VarCriterion(VarCriterion),
    /// `/begin VAR_CHARACTERISTIC`.
    VarCharacteristic(VarCharacteristic),
    /// `/begin VAR_FORBIDDEN_COMB`.
    VarForbiddenComb(VarForbiddenComb),
    Unsupported(UnsupportedNode),
}

/// [`VariantCodingChild`] as a mathematical value.
pub enum VariantCodingChildView {
    VarCriterion(VarCriterionView),
    VarCharacteristic(VarCharacteristicView),
    VarForbiddenComb(VarForbiddenCombView),
    Unsupported(UnsupportedNodeView),
}

impl View for VariantCodingChild {
    type V = VariantCodingChildView;

    open spec fn view(&self) -> VariantCodingChildView {
        match self {
            VariantCodingChild::VarCriterion(n) => VariantCodingChildView::VarCriterion(n@),
            VariantCodingChild::VarCharacteristic(n) => VariantCodingChildView::VarCharacteristic(n@),
            VariantCodingChild::VarForbiddenComb(n) => VariantCodingChildView::VarForbiddenComb(n@),
            VariantCodingChild::Unsupported(n) => VariantCodingChildView::Unsupported(n@),
        }
    }
}

impl Child for VariantCodingChild {
    open spec fn parsed(tree: Tree) -> std::result::Result<VariantCodingChildView, Failure> {
        if tree.keyword == "VAR_CRITERION"@ {
            match node_parsed::<VarCriterion>(tree) {
                Ok(n) => Ok(VariantCodingChildView::VarCriterion(n)),
                Err(f) => Err(f),
            }
        } else if tree.keyword == "VAR_CHARACTERISTIC"@ {
            match node_parsed::<VarCharacteristic>(tree) {
                Ok(n) => Ok(VariantCodingChildView::VarCharacteristic(n)),
                Err(f) => Err(f),
            }
        } else if tree.keyword == "VAR_FORBIDDEN_COMB"@ {
            match node_parsed::<VarForbiddenComb>(tree) {
                Ok(n) => Ok(VariantCodingChildView::VarForbiddenComb(n)),
                Err(f) => Err(f),
            }
        } else {
            Ok(VariantCodingChildView::Unsupported(UnsupportedNode::of(tree)))
        }
    }

    open spec fn kept(&self, tree: Tree) -> bool {
        match self {
            VariantCodingChild::VarCriterion(n) => n.keeps(tree),
            VariantCodingChild::VarCharacteristic(n) => n.keeps(tree),
            VariantCodingChild::VarForbiddenComb(n) => n.keeps(tree),
            VariantCodingChild::Unsupported(n) => n.kept(tree),
        }
    }

    open spec fn written(v: VariantCodingChildView, p: Page) -> Written {
        match v {
            VariantCodingChildView::VarCriterion(n) => node_written::<VarCriterion>(n, p),
            VariantCodingChildView::VarCharacteristic(n) => node_written::<VarCharacteristic>(n, p),
            VariantCodingChildView::VarForbiddenComb(n) => node_written::<VarForbiddenComb>(n, p),
            VariantCodingChildView::Unsupported(n) => UnsupportedNode::written(n, p),
        }
    }

    fn read(block: &Block) -> (r: Result<Self>) {
        if same_text(block.keyword.as_str(), "VAR_CRITERION") {
            return Ok(VariantCodingChild::VarCriterion(parse_node::<VarCriterion>(block)?));
        }
        if same_text(block.keyword.as_str(), "VAR_CHARACTERISTIC") {
            return Ok(VariantCodingChild::VarCharacteristic(parse_node::<VarCharacteristic>(block)?));
        }
        if same_text(block.keyword.as_str(), "VAR_FORBIDDEN_COMB") {
            return Ok(VariantCodingChild::VarForbiddenComb(parse_node::<VarForbiddenComb>(block)?));
        }
        Ok(VariantCodingChild::Unsupported(UnsupportedNode::from_block(block)))
    }

    fn write(&self, w: &mut Writer) -> (r: Result<()>) {
        self.write_block(w)
    }
}

impl VariantCodingChild {
    pub fn write_block(&self, w: &mut Writer) -> (r: Result<()>)
        ensures
            match r {
                Ok(()) => VariantCodingChild::written(self@, old(w)@) == Ok::<Page, Stopped>(final(w)@),
                Err(e) => VariantCodingChild::written(self@, old(w)@) == Err::<Page, Stopped>(final(w)@.stopped(e@)),
            },
    {
        match self {
            VariantCodingChild::VarCriterion(n) => write_node(n, w),
            VariantCodingChild::VarCharacteristic(n) => write_node(n, w),
            VariantCodingChild::VarForbiddenComb(n) => write_node(n, w),
            VariantCodingChild::Unsupported(n) => n.write_block(w),
        }
    }
}

impl VariantCoding {
    /// What the parameters at the cursor set, and where the next ones start.
    pub open spec fn option(v: VariantCodingView, c: Cur) -> Got<VariantCodingView> {
        if c.at("VAR_SEPARATOR"@) {
            match read_string(c.step()) {
                Err(f) => Err(f),
                Ok((x, c0)) => {
                    Ok((VariantCodingView { var_separator: Some(x), ..v }, c0))
                },
            }
        } else if c.at("VAR_NAMING"@) {
            match read_enum_or(c.step(), VarNamingType::NotSet) {
                Err(f) => Err(f),
                Ok((x, c0)) => {
                    Ok((VariantCodingView { var_naming: x, ..v }, c0))
                },
            }
        } else {
            match read_token(c) {
                Err(f) => Err(f),
                Ok((_t, c0)) => {
                    Ok((v, c0))
                },
            }
        }
    }

    /// What all the parameters from the cursor on set, and where reading them ends.
    pub open spec fn options(v: VariantCodingView, c: Cur) -> Got<VariantCodingView>
        decreases c.left(),
    {
        if !c.more() {
            Ok((v, c))
        } else {
            match VariantCoding::option(v, c) {
                Err(f) => Err(f),
                Ok((w, n)) => if 0 <= n.left() < c.left() {
                    VariantCoding::options(w, n)
                } else {
                    arbitrary()
                },
            }
        }
    }

    fn read_option(&mut self, cur: &mut ParamCursor) -> (r: Result<()>)
        requires
            old(cur)@.more(),
        ensures
            match r {
                Ok(()) => {
                    &&& VariantCoding::option(old(self)@, old(cur)@) == Ok::<_, Failure>(
                        (final(self)@, final(cur)@),
                    )
                    &&& 0 <= final(cur)@.left() < old(cur)@.left()
                },
                Err(e) => VariantCoding::option(old(self)@, old(cur)@) == Err::<(VariantCodingView, Cur), _>(e@),
            },
    {
        if cur.take_if("VAR_SEPARATOR") {
            let x = cur.string()?;
            self.var_separator = Some(x);
            return Ok(());
        }
        if cur.take_if("VAR_NAMING") {
            let x = enum_or(cur, VarNamingType::NotSet)?;
            self.var_naming = x;
            return Ok(());
        }
        let _t = cur.next_token()?;
        Ok(())
    }

    fn read_options(&mut self, cur: &mut ParamCursor) -> (r: Result<()>)
        ensures
            match r {
                Ok(()) => {
                    &&& VariantCoding::options(old(self)@, old(cur)@) == Ok::<_, Failure>(
                        (final(self)@, final(cur)@),
                    )
                    &&& final(cur)@.left() <= old(cur)@.left()
                    &&& final(cur)@ == old(cur)@ || final(cur)@.left() >= 0
                },
                Err(e) => VariantCoding::options(old(self)@, old(cur)@) == Err::<(VariantCodingView, Cur), _>(e@),
            },
    {
        let ghost whole = VariantCoding::options(self@, cur@);
        while !cur.is_empty()
            invariant
                whole == VariantCoding::options(self@, cur@),
                whole == VariantCoding::options(old(self)@, old(cur)@),
                cur@.left() <= old(cur)@.left(),
                cur@ == old(cur)@ || cur@.left() >= 0,
            decreases cur@.left(),
        {
            self.read_option(cur)?;
        }
        Ok(())
    }
}

impl Node for VariantCoding {
    open spec fn keyword_text() -> Seq<char> {
        "VARIANT_CODING"@
    }

    open spec fn parsed(tree: Tree) -> std::result::Result<VariantCodingView, Failure> {
        match VariantCoding::options(VariantCoding::blank(), Cur::start(tree)) {
            Err(f) => Err(f),
            Ok((v, _)) => match children_parsed::<VariantCodingChild>(children_of(tree.items), 0) {
                Err(f) => Err(f),
                Ok(children) => Ok(VariantCodingView { children, ..v }),
            },
        }
    }

    open spec fn keeps(&self, tree: Tree) -> bool {
        all_kept(self.children@, tree)
    }

    open spec fn body(v: VariantCodingView, p: Page) -> Written {
        let p = match v.var_separator { Some(x) if x.len() > 0 => p.quote("VAR_SEPARATOR"@, x), _ => p };
        let p = match v.var_naming.word() { Some(kw) => p.word("VAR_NAMING"@, kw), None => p };
        children_written::<VariantCodingChild>(v.children, 0, false, p)
    }

    open spec fn block(v: VariantCodingView, p: Page) -> Written {
        enclosed("VARIANT_CODING"@, Self::body(v, p.begin("VARIANT_CODING"@)))
    }

    fn keyword() -> (r: &'static str) {
        "VARIANT_CODING"
    }

    fn parse(block: &Block) -> (r: Result<Self>) {
        let mut cur = ParamCursor::new(block);
        let mut node = VariantCoding::default();
        node.read_options(&mut cur)?;
        node.children = read_children::<VariantCodingChild>(block)?;
        Ok(node)
    }

    fn write_body(&self, w: &mut Writer) -> (r: Result<()>) {
        if let Some(x) = &self.var_separator {
            if x.as_str().unicode_len() > 0 {
                w.quote("VAR_SEPARATOR", x.as_str());
            }
        }
        if let Some(kw) = self.var_naming.as_keyword() {
            w.word("VAR_NAMING", kw);
        }
        write_children(&self.children, false, w)
    }

    fn write_block(&self, w: &mut Writer) -> (r: Result<()>) {
        w.begin_block("VARIANT_CODING");
        self.write_body(w)?;
        w.end_block("VARIANT_CODING");
        Ok(())
    }
}

/// `VAR_ADDRESS`: addresses of the variants.
#[derive(Debug, Clone, PartialEq, Eq)]
pub struct VarAddress {
    pub addresses: Vec<u32>,
}

/// [`VarAddress`] as a mathematical value.
pub struct VarAddressView {
    pub addresses: Seq<u32>,
}

impl View for VarAddress {
    type V = VarAddressView;

    open spec fn view(&self) -> VarAddressView {
        VarAddressView {
            addresses: self.addresses@,
        }
    }
}

impl VarAddress {
    /// The node before anything is read.
    pub open spec fn blank() -> VarAddressView {
        VarAddressView {
            addresses: Seq::empty(),
        }
    }
}

impl Default for VarAddress {
    fn default() -> (r: Self)
        ensures
            r@ == VarAddress::blank(),
    {
        VarAddress {
            addresses: Vec::new(),
        }
    }
}

impl VarAddress {
    /// What the parameters at the cursor set, and where the next ones start.
    pub open spec fn option(v: VarAddressView, c: Cur) -> Got<VarAddressView> {
        match read_uint(c, u32::MAX as int) {
            Err(f) => Err(f),
            Ok((x, c0)) => {
                Ok((VarAddressView { addresses: v.addresses.push((x as u32)) }, c0))
            },
        }
    }

    /// What all the parameters from the cursor on set, and where reading them ends.
    pub open spec fn options(v: VarAddressView, c: Cur) -> Got<VarAddressView>
        decreases c.left(),
    {
        if !c.more() {
            Ok((v, c))
        } else {
            match VarAddress::option(v, c) {
                Err(f) => Err(f),
                Ok((w, n)) => if 0 <= n.left() < c.left() {
                    VarAddress::options(w, n)
                } else {
                    arbitrary()
                },
            }
        }
    }

    fn read_option(&mut self, cur: &mut ParamCursor) -> (r: Result<()>)
        requires
            old(cur)@.more(),
        ensures
            match r {
                Ok(()) => {
                    &&& VarAddress::option(old(self)@, old(cur)@) == Ok::<_, Failure>(
                        (final(self)@, final(cur)@),
                    )
                    &&& 0 <= final(cur)@.left() < old(cur)@.left()
                },
                Err(e) => VarAddress::option(old(self)@, old(cur)@) == Err::<(VarAddressView, Cur), _>(e@),
            },
    {
        let x = cur.uint::<u32>()?;
        self.addresses.push(x);
        Ok(())
    }

    fn read_options(&mut self, cur: &mut ParamCursor) -> (r: Result<()>)
        ensures
            match r {
                Ok(()) => {
                    &&& VarAddress::options(old(self)@, old(cur)@) == Ok::<_, Failure>(
                        (final(self)@, final(cur)@),
                    )
                    &&& final(cur)@.left() <= old(cur)@.left()
                    &&& final(cur)@ == old(cur)@ || final(cur)@.left() >= 0
                },
                Err(e) => VarAddress::options(old(self)@, old(cur)@) == Err::<(VarAddressView, Cur), _>(e@),
            },
    {
        let ghost whole = VarAddress::options(self@, cur@);
        while !cur.is_empty()
            invariant
                whole == VarAddress::options(self@, cur@),
                whole == VarAddress::options(old(self)@, old(cur)@),
                cur@.left() <= old(cur)@.left(),
                cur@ == old(cur)@ || cur@.left() >= 0,
            decreases cur@.left(),
        {
            self.read_option(cur)?;
        }
        Ok(())
    }
}

/// A line for each of the first addresses.
pub open spec fn address_lines(s: Seq<u32>, n: int, p: Page) -> Page
    decreases n,
{
    if n <= 0 {
        p
    } else {
        address_lines(s, n - 1, p).line(hex_form(s[n - 1] as nat))
    }
}

fn write_addresses(s: &Vec<u32>, w: &mut Writer)
    ensures
        final(w)@ == address_lines(s@, s@.len() as int, old(w)@),
{
    let mut i: usize = 0;
    while i < s.len()
        invariant
            i <= s@.len(),
            w@ == address_lines(s@, i as int, old(w)@),
        decreases s@.len() - i,
    {
        w.line(to_hex(s[i] as u64).as_str());
        i += 1;
    }
}

/// A line for each of the first texts.
pub open spec fn text_lines(s: Seq<Seq<char>>, n: int, p: Page) -> Page
    decreases n,
{
    if n <= 0 {
        p
    } else {
        text_lines(s, n - 1, p).line(s[n - 1])
    }
}

fn write_texts(s: &Vec<String>, w: &mut Writer)
    ensures
        final(w)@ == text_lines(views(s@), s@.len() as int, old(w)@),
{
    let mut i: usize = 0;
    while i < s.len()
        invariant
            i <= s@.len(),
            w@ == text_lines(views(s@), i as int, old(w)@),
        decreases s@.len() - i,
    {
        w.line(s[i].as_str());
        i += 1;
    }
}

impl Node for VarAddress {
    open spec fn keyword_text() -> Seq<char> {
        "VAR_ADDRESS"@
    }

    open spec fn parsed(tree: Tree) -> std::result::Result<VarAddressView, Failure> {
        match VarAddress::options(VarAddress::blank(), Cur::start(tree)) {
            Err(f) => Err(f),
            Ok((v, _)) => Ok(v),
        }
    }

    open spec fn body(v: VarAddressView, p: Page) -> Written {
        let p = address_lines(v.addresses, v.addresses.len() as int, p);
        Ok(p)
    }

    open spec fn block(v: VarAddressView, p: Page) -> Written {
        enclosed("VAR_ADDRESS"@, Self::body(v, p.begin("VAR_ADDRESS"@)))
    }

    fn keyword() -> (r: &'static str) {
        "VAR_ADDRESS"
    }

    fn parse(block: &Block) -> (r: Result<Self>) {
        let mut cur = ParamCursor::new(block);
        let mut node = VarAddress::default();
        node.read_options(&mut cur)?;
        Ok(node)
    }

    fn write_body(&self, w: &mut Writer) -> (r: Result<()>) {
        write_addresses(&self.addresses, w);
        Ok(())
    }

    fn write_block(&self, w: &mut Writer) -> (r: Result<()>) {
        w.begin_block("VAR_ADDRESS");
        self.write_body(w)?;
        w.end_block("VAR_ADDRESS");
        Ok(())
    }
}

/// `VAR_CHARACTERISTIC`: a characteristic that has variants.
#[derive(Debug, Clone, PartialEq, Eq)]
pub struct VarCharacteristic {
    pub name: String,
    pub criterion_values: Vec<String>,
}

/// [`VarCharacteristic`] as a mathematical value.
pub struct VarCharacteristicView {
    pub name: Seq<char>,
    pub criterion_values: Seq<Seq<char>>,
}

impl View for VarCharacteristic {
    type V = VarCharacteristicView;

    open spec fn view(&self) -> VarCharacteristicView {
        VarCharacteristicView {
            name: self.name@,
            criterion_values: views(self.criterion_values@),
        }
    }
}

impl VarCharacteristic {
    /// The node before anything is read.
    pub open spec fn blank() -> VarCharacteristicView {
        VarCharacteristicView {
            name: Seq::empty(),
            criterion_values: Seq::empty(),
        }
    }
}

impl Default for VarCharacteristic {
    fn default() -> (r: Self)
        ensures
            r@ == VarCharacteristic::blank(),
    {
        VarCharacteristic {
            name: no_text(),
            criterion_values: none_yet(),
        }
    }
}

impl VarCharacteristic {
    /// What the first parameter says, if there is one, and where the next ones start.
    pub open spec fn head(c: Cur) -> Got<VarCharacteristicView> {
        let v = VarCharacteristic::blank();
        if c.more() {
            match read_ident(c) {
                Err(f) => Err(f),
                Ok((x, c0)) => {
                    Ok((VarCharacteristicView { name: x, ..v }, c0))
                },
            }
        } else {
            Ok((v, c))
        }
    }

    fn read_head(cur: &mut ParamCursor) -> (r: Result<Self>)
        ensures
            match r {
                Ok(v) => VarCharacteristic::head(old(cur)@) == Ok::<_, Failure>((v@, final(cur)@)),
                Err(e) => VarCharacteristic::head(old(cur)@) == Err::<(VarCharacteristicView, Cur), _>(e@),
            },
    {
        let mut node = VarCharacteristic::default();
        if !cur.is_empty() {
            let x = cur.ident()?;
            node.name = x;
        }
        Ok(node)
    }
}

impl VarCharacteristic {
    /// What the parameters at the cursor set, and where the next ones start.
    pub open spec fn option(v: VarCharacteristicView, c: Cur) -> Got<VarCharacteristicView> {
        match read_ident(c) {
            Err(f) => Err(f),
            Ok((x, c0)) => {
                Ok((VarCharacteristicView { criterion_values: v.criterion_values.push(x), ..v }, c0))
            },
        }
    }

    /// What all the parameters from the cursor on set, and where reading them ends.
    pub open spec fn options(v: VarCharacteristicView, c: Cur) -> Got<VarCharacteristicView>
        decreases c.left(),
    {
        if !c.more() {
            Ok((v, c))
        } else {
            match VarCharacteristic::option(v, c) {
                Err(f) => Err(f),
                Ok((w, n)) => if 0 <= n.left() < c.left() {
                    VarCharacteristic::options(w, n)
                } else {
                    arbitrary()
                },
            }
        }
    }

    fn read_option(&mut self, cur: &mut ParamCursor) -> (r: Result<()>)
        requires
            old(cur)@.more(),
        ensures
            match r {
                Ok(()) => {
                    &&& VarCharacteristic::option(old(self)@, old(cur)@) == Ok::<_, Failure>(
                        (final(self)@, final(cur)@),
                    )
                    &&& 0 <= final(cur)@.left() < old(cur)@.left()
                },
                Err(e) => VarCharacteristic::option(old(self)@, old(cur)@) == Err::<(VarCharacteristicView, Cur), _>(e@),
            },
    {
        let x = cur.ident()?;
        append(&mut self.criterion_values, x);
        Ok(())
    }

    fn read_options(&mut self, cur: &mut ParamCursor) -> (r: Result<()>)
        ensures
            match r {
                Ok(()) => {
                    &&& VarCharacteristic::options(old(self)@, old(cur)@) == Ok::<_, Failure>(
                        (final(self)@, final(cur)@),
                    )
                    &&& final(cur)@.left() <= old(cur)@.left()
                    &&& final(cur)@ == old(cur)@ || final(cur)@.left() >= 0
                },
                Err(e) => VarCharacteristic::options(old(self)@, old(cur)@) == Err::<(VarCharacteristicView, Cur), _>(e@),
            },
    {
        let ghost whole = VarCharacteristic::options(self@, cur@);
        while !cur.is_empty()
            invariant
                whole == VarCharacteristic::options(self@, cur@),
                whole == VarCharacteristic::options(old(self)@, old(cur)@),
                cur@.left() <= old(cur)@.left(),
                cur@ == old(cur)@ || cur@.left() >= 0,
            decreases cur@.left(),
        {
            self.read_option(cur)?;
        }
        Ok(())
    }
}

impl Node for VarCharacteristic {
    open spec fn keyword_text() -> Seq<char> {
        "VAR_CHARACTERISTIC"@
    }

    open spec fn parsed(tree: Tree) -> std::result::Result<VarCharacteristicView, Failure> {
        match VarCharacteristic::head(Cur::start(tree)) {
            Err(f) => Err(f),
            Ok((v, c)) => match VarCharacteristic::options(v, c) {
                Err(f) => Err(f),
                Ok((v, _)) => Ok(v),
            },
        }
    }

    open spec fn body(v: VarCharacteristicView, p: Page) -> Written {
        let p = text_lines(v.criterion_values, v.criterion_values.len() as int, p);
        Ok(p)
    }

    open spec fn block(v: VarCharacteristicView, p: Page) -> Written {
        enclosed("VAR_CHARACTERISTIC"@, Self::body(v, p.begin("VAR_CHARACTERISTIC "@ + v.name)))
    }

    fn keyword() -> (r: &'static str) {
        "VAR_CHARACTERISTIC"
    }

    fn parse(block: &Block) -> (r: Result<Self>) {
        let mut cur = ParamCursor::new(block);
        let mut node = VarCharacteristic::read_head(&mut cur)?;
        node.read_options(&mut cur)?;
        Ok(node)
    }

    fn write_body(&self, w: &mut Writer) -> (r: Result<()>) {
        write_texts(&self.criterion_values, w);
        Ok(())
    }

    fn write_block(&self, w: &mut Writer) -> (r: Result<()>) {
        let mut s = "VAR_CHARACTERISTIC ".to_string();
        s.append(self.name.as_str());
        w.begin_block(s.as_str());
        self.write_body(w)?;
        w.end_block("VAR_CHARACTERISTIC");
        Ok(())
    }
}

/// A block within the node.
#[derive(Debug, Clone, PartialEq, Eq)]
pub enum VarCriterionChild {
    /// `/begin VAR_ADDRESS`.
    VarAddress(VarAddress),
    Unsupported(UnsupportedNode),
}

/// [`VarCriterionChild`] as a mathematical value.
pub enum VarCriterionChildView {
    VarAddress(VarAddressView),
    Unsupported(UnsupportedNodeView),
}

impl View for VarCriterionChild {
    type V = VarCriterionChildView;

    open spec fn view(&self) -> VarCriterionChildView {
        match self {
            VarCriterionChild::VarAddress(n) => VarCriterionChildView::VarAddress(n@),
            VarCriterionChild::Unsupported(n) => VarCriterionChildView::Unsupported(n@),
        }
    }
}

impl Child for VarCriterionChild {
    open spec fn parsed(tree: Tree) -> std::result::Result<VarCriterionChildView, Failure> {
        if tree.keyword == "VAR_ADDRESS"@ {
            match node_parsed::<VarAddress>(tree) {
                Ok(n) => Ok(VarCriterionChildView::VarAddress(n)),
                Err(f) => Err(f),
            }
        } else {
            Ok(VarCriterionChildView::Unsupported(UnsupportedNode::of(tree)))
        }
    }

    open spec fn kept(&self, tree: Tree) -> bool {
        match self {
            VarCriterionChild::VarAddress(n) => n.keeps(tree),
            VarCriterionChild::Unsupported(n) => n.kept(tree),
        }
    }

    open spec fn written(v: VarCriterionChildView, p: Page) -> Written {
        match v {
            VarCriterionChildView::VarAddress(n) => node_written::<VarAddress>(n, p),
            VarCriterionChildView::Unsupported(n) => UnsupportedNode::written(n, p),
        }
    }

    fn read(block: &Block) -> (r: Result<Self>) {
        if same_text(block.keyword.as_str(), "VAR_ADDRESS") {
            return Ok(VarCriterionChild::VarAddress(parse_node::<VarAddress>(block)?));
        }
        Ok(VarCriterionChild::Unsupported(UnsupportedNode::from_block(block)))
    }

    fn write(&self, w: &mut Writer) -> (r: Result<()>) {
        self.write_block(w)
    }
}

impl VarCriterionChild {
    pub fn write_block(&self, w: &mut Writer) -> (r: Result<()>)
        ensures
            match r {
                Ok(()) => VarCriterionChild::written(self@, old(w)@) == Ok::<Page, Stopped>(final(w)@),
                Err(e) => VarCriterionChild::written(self@, old(w)@) == Err::<Page, Stopped>(final(w)@.stopped(e@)),
            },
    {
        match self {
            VarCriterionChild::VarAddress(n) => write_node(n, w),
            VarCriterionChild::Unsupported(n) => n.write_block(w),
        }
    }
}

/// `VAR_CRITERION`: what variants depend on.
#[derive(Debug, Clone, PartialEq, Eq)]
pub struct VarCriterion {
    pub name: String,
    pub description: String,
    pub var_measurement: Option<String>,
    pub var_selection_characteristic: Option<String>,
    pub criterion_values: Vec<String>,
    pub children: Vec<VarCriterionChild>,
}

/// [`VarCriterion`] as a mathematical value.
pub struct VarCriterionView {
    pub name: Seq<char>,
    pub description: Seq<char>,
    pub var_measurement: Option<Seq<char>>,
    pub var_selection_characteristic: Option<Seq<char>>,
    pub criterion_values: Seq<Seq<char>>,
    pub children: Seq<VarCriterionChildView>,
}

impl View for VarCriterion {
    type V = VarCriterionView;

    open spec fn view(&self) -> VarCriterionView {
        VarCriterionView {
            name: self.name@,
            description: self.description@,
            var_measurement: opt(self.var_measurement),
            var_selection_characteristic: opt(self.var_selection_characteristic),
            criterion_values: views(self.criterion_values@),
            children: views(self.children@),
        }
    }
}

impl VarCriterion {
    /// The node before anything is read.
    pub open spec fn blank() -> VarCriterionView {
        VarCriterionView {
            name: Seq::empty(),
            description: Seq::empty(),
            var_measurement: None,
            var_selection_characteristic: None,
            criterion_values: Seq::empty(),
            children: Seq::empty(),
        }
    }
}

impl Default for VarCriterion {
    fn default() -> (r: Self)
        ensures
            r@ == VarCriterion::blank(),
    {
        VarCriterion {
            name: no_text(),
            description: no_text(),
            var_measurement: None,
            var_selection_characteristic: None,
            criterion_values: none_yet(),
            children: none_yet(),
        }
    }
}

impl VarCriterion {
    /// What the parameters at the start say, and where the next ones start.
    pub open spec fn head(c: Cur) -> Got<VarCriterionView> {
        let v = VarCriterion::blank();
        match read_ident(c) {
            Err(f) => Err(f),
            Ok((name, c0)) => {
                match read_string(c0) {
                    Err(f) => Err(f),
                    Ok((description, c1)) => {
                        Ok((VarCriterionView { name, description, ..v }, c1))
                    },
                }
            },
        }
    }

    fn read_head(cur: &mut ParamCursor) -> (r: Result<Self>)
        ensures
            match r {
                Ok(v) => VarCriterion::head(old(cur)@) == Ok::<_, Failure>((v@, final(cur)@)),
                Err(e) => VarCriterion::head(old(cur)@) == Err::<(VarCriterionView, Cur), _>(e@),
            },
    {
        let name = cur.ident()?;
        let description = cur.string()?;
        let mut node = VarCriterion::default();
        node.name = name;
        node.description = description;
        Ok(node)
    }
}

impl VarCriterion {
    /// What the parameters at the cursor set, and where the next ones start.
    pub open spec fn option(v: VarCriterionView, c: Cur) -> Got<VarCriterionView> {
        if c.at("VAR_MEASUREMENT"@) {
            match read_ident(c.step()) {
                Err(f) => Err(f),
                Ok((x, c0)) => {
                    Ok((VarCriterionView { var_measurement: Some(x), ..v }, c0))
                },
            }
        } else if c.at("VAR_SELECTION_CHARACTERISTIC"@) {
            match read_ident(c.step()) {
                Err(f) => Err(f),
                Ok((x, c0)) => {
                    Ok((VarCriterionView { var_selection_characteristic: Some(x), ..v }, c0))
                },
            }
        } else {
            match read_ident(c) {
                Err(f) => Err(f),
                Ok((x, c0)) => {
                    Ok((VarCriterionView { criterion_values: v.criterion_values.push(x), ..v }, c0))
                },
            }
        }
    }

    /// What all the parameters from the cursor on set, and where reading them ends.
    pub open spec fn options(v: VarCriterionView, c: Cur) -> Got<VarCriterionView>
        decreases c.left(),
    {
        if !c.more() {
            Ok((v, c))
        } else {
            match VarCriterion::option(v, c) {
                Err(f) => Err(f),
                Ok((w, n)) => if 0 <= n.left() < c.left() {
                    VarCriterion::options(w, n)
                } else {
                    arbitrary()
                },
            }
        }
    }

    fn read_option(&mut self, cur: &mut ParamCursor) -> (r: Result<()>)
        requires
            old(cur)@.more(),
        ensures
            match r {
                Ok(()) => {
                    &&& VarCriterion::option(old(self)@, old(cur)@) == Ok::<_, Failure>(
                        (final(self)@, final(cur)@),
                    )
                    &&& 0 <= final(cur)@.left() < old(cur)@.left()
                },
                Err(e) => VarCriterion::option(old(self)@, old(cur)@) == Err::<(VarCriterionView, Cur), _>(e@),
            },
    {
        if cur.take_if("VAR_MEASUREMENT") {
            let x = cur.ident()?;
            self.var_measurement = Some(x);
            return Ok(());
        }
        if cur.take_if("VAR_SELECTION_CHARACTERISTIC") {
            let x = cur.ident()?;
            self.var_selection_characteristic = Some(x);
            return Ok(());
        }
        let x = cur.ident()?;
        append(&mut self.criterion_values, x);
        Ok(())
    }

    fn read_options(&mut self, cur: &mut ParamCursor) -> (r: Result<()>)
        ensures
            match r {
                Ok(()) => {
                    &&& VarCriterion::options(old(self)@, old(cur)@) == Ok::<_, Failure>(
                        (final(self)@, final(cur)@),
                    )
                    &&& final(cur)@.left() <= old(cur)@.left()
                    &&& final(cur)@ == old(cur)@ || final(cur)@.left() >= 0
                },
                Err(e) => VarCriterion::options(old(self)@, old(cur)@) == Err::<(VarCriterionView, Cur), _>(e@),
            },
    {
        let ghost whole = VarCriterion::options(self@, cur@);
        while !cur.is_empty()
            invariant
                whole == VarCriterion::options(self@, cur@),
                whole == VarCriterion::options(old(self)@, old(cur)@),
                cur@.left() <= old(cur)@.left(),
                cur@ == old(cur)@ || cur@.left() >= 0,
            decreases cur@.left(),
        {
            self.read_option(cur)?;
        }
        Ok(())
    }
}

impl Node for VarCriterion {
    open spec fn keyword_text() -> Seq<char> {
        "VAR_CRITERION"@
    }

    open spec fn parsed(tree: Tree) -> std::result::Result<VarCriterionView, Failure> {
        match VarCriterion::head(Cur::start(tree)) {
            Err(f) => Err(f),
            Ok((v, c)) => match VarCriterion::options(v, c) {
                Err(f) => Err(f),
                Ok((v, _)) => match children_parsed::<VarCriterionChild>(children_of(tree.items), 0) {
                    Err(f) => Err(f),
                    Ok(children) => Ok(VarCriterionView { children, ..v }),
                },
            },
        }
    }

    open spec fn keeps(&self, tree: Tree) -> bool {
        all_kept(self.children@, tree)
    }

    open spec fn body(v: VarCriterionView, p: Page) -> Written {
        let p = p.quote_line(v.description);
        let p = match v.var_measurement { Some(x) if x.len() > 0 => p.word("VAR_MEASUREMENT"@, x), _ => p };
        let p = match v.var_selection_characteristic {
            Some(x) if x.len() > 0 => p.word("VAR_SELECTION_CHARACTERISTIC"@, x),
            _ => p
        };
        let p = p.references(v.criterion_values);
        children_written::<VarCriterionChild>(v.children, 0, false, p)
    }

    open spec fn block(v: VarCriterionView, p: Page) -> Written {
        enclosed("VAR_CRITERION"@, Self::body(v, p.begin("VAR_CRITERION "@ + v.name)))
    }

    fn keyword() -> (r: &'static str) {
        "VAR_CRITERION"
    }

    fn parse(block: &Block) -> (r: Result<Self>) {
        let mut cur = ParamCursor::new(block);
        let mut node = VarCriterion::read_head(&mut cur)?;
        node.read_options(&mut cur)?;
        node.children = read_children::<VarCriterionChild>(block)?;
        Ok(node)
    }

    fn write_body(&self, w: &mut Writer) -> (r: Result<()>) {
        w.quote_line(self.description.as_str());
        if let Some(x) = &self.var_measurement {
            if x.as_str().unicode_len() > 0 {
                w.word("VAR_MEASUREMENT", x.as_str());
            }
        }
        if let Some(x) = &self.var_selection_characteristic {
            if x.as_str().unicode_len() > 0 {
                w.word("VAR_SELECTION_CHARACTERISTIC", x.as_str());
            }
        }
        w.references(&self.criterion_values);
        write_children(&self.children, false, w)
    }

    fn write_block(&self, w: &mut Writer) -> (r: Result<()>) {
        let mut s = "VAR_CRITERION ".to_string();
        s.append(self.name.as_str());
        w.begin_block(s.as_str());
        self.write_body(w)?;
        w.end_block("VAR_CRITERION");
        Ok(())
    }
}

/// `VAR_FORBIDDEN_COMB`: values of criteria that exclude each other.
#[derive(Debug, PartialEq, Eq)]
pub struct VarForbiddenComb {
    pub forbidden: IndexMap<String, String>,
}

/// [`VarForbiddenComb`] as a mathematical value.
pub struct VarForbiddenCombView {
    pub forbidden: Seq<(Seq<char>, Seq<char>)>,
}

impl View for VarForbiddenComb {
    type V = VarForbiddenCombView;

    open spec fn view(&self) -> VarForbiddenCombView {
        VarForbiddenCombView {
            forbidden: text_entries(self.forbidden),
        }
    }
}

impl VarForbiddenComb {
    /// The node before anything is read.
    pub open spec fn blank() -> VarForbiddenCombView {
        VarForbiddenCombView {
            forbidden: Seq::empty(),
        }
    }
}

impl Default for VarForbiddenComb {
    fn default() -> (r: Self)
        ensures
            r@ == VarForbiddenComb::blank(),
    {
        VarForbiddenComb {
            forbidden: new_texts(),
        }
    }
}

impl Clone for VarForbiddenComb {
    fn clone(&self) -> (r: Self)
        ensures
            r@ == self@,
    {
        VarForbiddenComb { forbidden: copy_texts(&self.forbidden) }
    }
}

/// The first pairs of parameters as entries.
pub open spec fn combined(s: Seq<Tok>, n: int) -> Seq<(Seq<char>, Seq<char>)>
    decreases n,
{
    if n <= 0 {
        Seq::empty()
    } else {
        with_entry(combined(s, n - 1), s[2 * n - 2].text, s[2 * n - 1].text)
    }
}

/// A line for each of the first entries.
pub open spec fn entry_lines(s: Seq<(Seq<char>, Seq<char>)>, n: int, p: Page) -> Page
    decreases n,
{
    if n <= 0 {
        p
    } else {
        entry_lines(s, n - 1, p).word(s[n - 1].0, s[n - 1].1)
    }
}

fn write_entries(m: &IndexMap<String, String>, w: &mut Writer)
    ensures
        final(w)@ == entry_lines(text_entries(*m), text_entries(*m).len() as int, old(w)@),
{
    let n: usize = count_texts(m);
    let mut i: usize = 0;
    while i < n
        invariant
            i <= n,
            n == text_entries(*m).len(),
            w@ == entry_lines(text_entries(*m), i as int, old(w)@),
        decreases n - i,
    {
        if let Some((k, v)) = text_at(m, i) {
            w.word(k.as_str(), v.as_str());
        }
        i += 1;
    }
}

impl Node for VarForbiddenComb {
    open spec fn keyword_text() -> Seq<char> {
        "VAR_FORBIDDEN_COMB"@
    }

    open spec fn parsed(tree: Tree) -> std::result::Result<VarForbiddenCombView, Failure> {
        let s = params_of(tree.items);
        if s.len() % 2 == 1 {
            Err(
                Failure::Parse(
                    s.last().line,
                    "VAR_FORBIDDEN_COMB: dangling key "@ + debug_of(s.last().text),
                ),
            )
        } else {
            Ok(VarForbiddenCombView { forbidden: combined(s, s.len() as int / 2) })
        }
    }

    open spec fn body(v: VarForbiddenCombView, p: Page) -> Written {
        let p = entry_lines(v.forbidden, v.forbidden.len() as int, p);
        Ok(p)
    }

    open spec fn block(v: VarForbiddenCombView, p: Page) -> Written {
        enclosed("VAR_FORBIDDEN_COMB"@, Self::body(v, p.begin("VAR_FORBIDDEN_COMB"@)))
    }

    fn keyword() -> (r: &'static str) {
        "VAR_FORBIDDEN_COMB"
    }

    fn parse(block: &Block) -> (r: Result<Self>) {
        let mut cur = ParamCursor::new(block);
        let mut node = VarForbiddenComb::default();
        let ghost s = params_of(block@.items);
        let ghost n: int = 0;
        while cur.remaining() >= 2
            invariant
                cur@ == (Cur { pos: 2 * n, ..Cur::start(block@) }),
                s == params_of(block@.items),
                0 <= 2 * n <= s.len(),
                node@.forbidden == combined(s, n),
            decreases cur@.left(),
        {
            let key = cur.ident()?;
            let value = cur.ident()?;
            insert_text(&mut node.forbidden, key, value);
            proof {
                n = n + 1;
            }
        }
        if !cur.is_empty() {
            let t = cur.next_token()?;
            let mut m = "VAR_FORBIDDEN_COMB: dangling key ".to_string();
            m.append(debug_text(t.text.as_str()).as_str());
            return Err(Error::parse(t.line, m));
        }
        Ok(node)
    }

    fn write_body(&self, w: &mut Writer) -> (r: Result<()>) {
        write_entries(&self.forbidden, w);
        Ok(())
    }

    fn write_block(&self, w: &mut Writer) -> (r: Result<()>) {
        w.begin_block("VAR_FORBIDDEN_COMB");
        self.write_body(w)?;
        w.end_block("VAR_FORBIDDEN_COMB");
        Ok(())
    }
}

} // verus!
