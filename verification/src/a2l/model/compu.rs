//! Conversion methods and tables: `COMPU_METHOD`, `COMPU_TAB`, `COMPU_VTAB`,
//! `COMPU_VTAB_RANGE`, `FORMULA`, `BIT_OPERATION` and `FIX_AXIS_PAR_LIST`.

use crate::a2l::block::{Block, Tree, block_views, children_of};
use crate::a2l::error::{Error, Failure, Result};
use crate::a2l::maps::{
    copy_ranges, count_ranges, insert_ranges, new_ranges, pairs, place, range_entries, ranges_at,
    ranges_of, with_entry,
};
use crate::a2l::model::enums::{A2lKeyword, BitOperationType, ConversionType};
use crate::a2l::model::parts::{enum_value, float_pair, read_enum, read_pair};
use crate::a2l::node::{Node, enclosed};
use crate::a2l::number::{JointNum, Num, Number, Single, Sng, num_zero};
use crate::a2l::params::{Cur, Got, ParamCursor, joint_at, read_float, read_ident, read_int, read_string, read_token, read_uint};
use crate::a2l::writer::{Page, Writer, Written, escape_str, escaped, quote};
use crate::text::{
    debug_of, debug_text, dec, dec_int, dec_int_text, dec_text, dec_wide_text, eq_ignore_case,
    same_ignore_case,
};
use crate::views::{append, copy_text, no_text, none_yet, opt, views};
use indexmap::IndexMap;
use std::collections::BTreeMap;
use vstd::std_specs::iter::IteratorSpec;
use vstd::prelude::*;

verus! {

/// The number one.
pub open spec fn num_one() -> Num {
    Num {
        text: "1"@,
        key: 4607182418800017408,
        nan: false,
        single_text: "1"@,
        single_key: 1065353216,
        rounded: 1,
    }
}

/// The negative zero.
pub open spec fn num_minus_zero() -> Num {
    Num { text: "-0"@, key: 0, nan: false, single_text: "-0"@, single_key: 0, rounded: 0 }
}

fn one() -> (r: Number)
    ensures
        r@ == num_one(),
{
    Number {
        text: "1".to_string(),
        key: 4607182418800017408,
        nan: false,
        single_text: "1".to_string(),
        single_key: 1065353216,
        rounded: 1,
    }
}

fn minus_zero() -> (r: Number)
    ensures
        r@ == num_minus_zero(),
{
    Number {
        text: "-0".to_string(),
        key: 0,
        nan: false,
        single_text: "-0".to_string(),
        single_key: 0,
        rounded: 0,
    }
}

/// The coefficients of a rational conversion, and the factor and the offset of the linear one
/// that they stand for.
#[derive(Debug, Clone, PartialEq, Eq)]
pub struct RationalCoeffs {
    pub coeffs: [Number; 6],
    pub factor: Number,
    pub offset: Number,
}

/// [`RationalCoeffs`] as a mathematical value.
pub struct RationalCoeffsView {
    pub coeffs: Seq<Num>,
    pub factor: Num,
    pub offset: Num,
}

impl View for RationalCoeffs {
    type V = RationalCoeffsView;

    open spec fn view(&self) -> RationalCoeffsView {
        RationalCoeffsView {
            coeffs: views(self.coeffs@),
            factor: self.factor@,
            offset: self.offset@,
        }
    }
}

impl RationalCoeffs {
    /// The node before anything is read.
    pub open spec fn blank() -> RationalCoeffsView {
        RationalCoeffsView {
            coeffs: seq![num_zero(), num_one(), num_zero(), num_zero(), num_zero(), num_one()],
            factor: num_one(),
            offset: num_minus_zero(),
        }
    }
}

impl Default for RationalCoeffs {
    fn default() -> (r: Self)
        ensures
            r@ == RationalCoeffs::blank(),
    {
        let r = RationalCoeffs {
            coeffs: [Number::default(), one(), Number::default(), Number::default(), Number::default(), one()],
            factor: one(),
            offset: minus_zero(),
        };
        proof {
            assert(views(r.coeffs@) =~= RationalCoeffs::blank().coeffs);
        }
        r
    }
}

impl RationalCoeffs {
    /// The coefficients given, with the factor and the offset that they stand for.
    pub open spec fn rational(coeffs: Seq<Num>, joint: JointNum) -> RationalCoeffsView {
        RationalCoeffsView { coeffs, factor: joint.inverse, offset: joint.offset }
    }

    /// The coefficients that a factor and an offset stand for, if the factor is not zero, and
    /// the factor and the offset that those coefficients stand for.
    pub open spec fn linear(v: RationalCoeffsView, factor: Num, joint: JointNum) -> RationalCoeffsView {
        if factor.nan || factor.key != 0 {
            RationalCoeffsView {
                coeffs: v.coeffs.update(1, joint.inverse).update(2, joint.quotient),
                factor: joint.slope,
                offset: joint.start,
            }
        } else {
            v
        }
    }

    /// What six coefficients at the cursor set.
    pub open spec fn read_rational(c: Cur) -> Got<RationalCoeffsView> {
        match RationalCoeffs::read_six(c) {
            Err(f) => Err(f),
            Ok((x, c0)) => match joint_at(c.step()) {
                Err(f) => Err(f),
                Ok(joint) => Ok((RationalCoeffs::rational(x, joint), c0)),
            },
        }
    }

    /// What a factor and an offset at the cursor set.
    pub open spec fn read_linear(v: RationalCoeffsView, c: Cur) -> Got<RationalCoeffsView> {
        match read_pair(c) {
            Err(f) => Err(f),
            Ok((x, c0)) => if x.0.nan || x.0.key != 0 {
                match joint_at(c) {
                    Err(f) => Err(f),
                    Ok(joint) => Ok((RationalCoeffs::linear(v, x.0, joint), c0)),
                }
            } else {
                Ok((v, c0))
            },
        }
    }

    fn set_linear(&mut self, cur: &mut ParamCursor) -> (r: Result<()>)
        ensures
            match r {
                Ok(()) => {
                    &&& RationalCoeffs::read_linear(old(self)@, old(cur)@) == Ok::<_, Failure>(
                        (final(self)@, final(cur)@),
                    )
                    &&& 0 <= final(cur)@.left() < old(cur)@.left()
                },
                Err(e) => RationalCoeffs::read_linear(old(self)@, old(cur)@) == Err::<
                    (RationalCoeffsView, Cur),
                    _,
                >(e@),
            },
    {
        let t = cur.peek();
        let (factor, _) = float_pair(cur)?;
        if factor.nan || factor.key != 0 {
            if let Some(t) = t {
                let q = cur.joint(t)?;
                let ghost before = self.coeffs@;
                self.coeffs[1] = q.inverse;
                self.coeffs[2] = q.quotient;
                self.factor = q.slope;
                self.offset = q.start;
                proof {
                    assert(views(self.coeffs@) =~= views(before).update(1, q.inverse@).update(
                        2,
                        q.quotient@,
                    ));
                }
            }
        }
        Ok(())
    }

    /// Six floating-point numbers.
    pub open spec fn read_six(c: Cur) -> Got<Seq<Num>> {
        match read_float(c) {
            Err(f) => Err(f),
            Ok((x0, c0)) => {
                match read_float(c0) {
                    Err(f) => Err(f),
                    Ok((x1, c1)) => {
                        match read_float(c1) {
                            Err(f) => Err(f),
                            Ok((x2, c2)) => {
                                match read_float(c2) {
                                    Err(f) => Err(f),
                                    Ok((x3, c3)) => {
                                        match read_float(c3) {
                                            Err(f) => Err(f),
                                            Ok((x4, c4)) => {
                                                match read_float(c4) {
                                                    Err(f) => Err(f),
                                                    Ok((x5, c5)) => {
                                                        Ok((seq![x0, x1, x2, x3, x4, x5], c5))
                                                    },
                                                }
                                            },
                                        }
                                    },
                                }
                            },
                        }
                    },
                }
            },
        }
    }

    fn set_rational(&mut self, cur: &mut ParamCursor) -> (r: Result<()>)
        ensures
            match r {
                Ok(()) => {
                    &&& RationalCoeffs::read_rational(old(cur)@) == Ok::<_, Failure>(
                        (final(self)@, final(cur)@),
                    )
                    &&& 0 <= final(cur)@.left() < old(cur)@.left()
                },
                Err(e) => RationalCoeffs::read_rational(old(cur)@) == Err::<
                    (RationalCoeffsView, Cur),
                    _,
                >(e@),
            },
    {
        let x0 = cur.float()?;
        let t = cur.peek();
        let x1 = cur.float()?;
        let x2 = cur.float()?;
        let x3 = cur.float()?;
        let x4 = cur.float()?;
        let x5 = cur.float()?;
        if let Some(t) = t {
            let q = cur.joint(t)?;
            self.coeffs = [x0, x1, x2, x3, x4, x5];
            self.factor = q.inverse;
            self.offset = q.offset;
            proof {
                assert(views(self.coeffs@) =~= seq![x0@, x1@, x2@, x3@, x4@, x5@]);
            }
        }
        Ok(())
    }
}

/// `FORMULA`: a formula and its inverse.
#[derive(Debug, Clone, PartialEq, Eq)]
pub struct Formula {
    pub formula: String,
    pub formula_inv: Option<String>,
}

/// [`Formula`] as a mathematical value.
pub struct FormulaView {
    pub formula: Seq<char>,
    pub formula_inv: Option<Seq<char>>,
}

impl View for Formula {
    type V = FormulaView;

    open spec fn view(&self) -> FormulaView {
        FormulaView {
            formula: self.formula@,
            formula_inv: opt(self.formula_inv),
        }
    }
}

impl Formula {
    /// The node before anything is read.
    pub open spec fn blank() -> FormulaView {
        FormulaView {
            formula: Seq::empty(),
            formula_inv: None,
        }
    }
}

impl Default for Formula {
    fn default() -> (r: Self)
        ensures
            r@ == Formula::blank(),
    {
        Formula {
            formula: no_text(),
            formula_inv: None,
        }
    }
}

impl Node for Formula {
    open spec fn keyword_text() -> Seq<char> {
        "FORMULA"@
    }

    open spec fn parsed(tree: Tree) -> std::result::Result<FormulaView, Failure> {
        match read_ident(Cur::start(tree)) {
            Err(f) => Err(f),
            Ok((formula, c)) => if c.more() {
                match read_ident(c.step()) {
                    Err(f) => Err(f),
                    Ok((x, _)) => Ok(FormulaView { formula, formula_inv: Some(x) }),
                }
            } else {
                Ok(FormulaView { formula, formula_inv: None })
            },
        }
    }

    open spec fn body(v: FormulaView, p: Page) -> Written {
        let p = if v.formula.len() > 0 { p.line("\""@ + v.formula + "\""@) } else { p };
        let p = match v.formula_inv {
            Some(x) if x.len() > 0 => p.word("FORMULA_INV"@, "\""@ + x + "\""@),
            _ => p
        };
        Ok(p)
    }

    open spec fn block(v: FormulaView, p: Page) -> Written {
        enclosed("FORMULA"@, Self::body(v, p.begin("FORMULA"@)))
    }

    fn keyword() -> (r: &'static str) {
        "FORMULA"
    }

    fn parse(block: &Block) -> (r: Result<Self>) {
        let mut cur = ParamCursor::new(block);
        let formula = cur.ident()?;
        if cur.is_empty() {
            return Ok(Formula { formula, formula_inv: None });
        }
        let _ = cur.next_token()?;
        let inverse = cur.ident()?;
        Ok(Formula { formula, formula_inv: Some(inverse) })
    }

    fn write_body(&self, w: &mut Writer) -> (r: Result<()>) {
        if self.formula.as_str().unicode_len() > 0 {
            let mut s = "\"".to_string();
            s.append(self.formula.as_str());
            s.append("\"");
            w.line(s.as_str());
        }
        if let Some(x) = &self.formula_inv {
            if x.as_str().unicode_len() > 0 {
                let mut s = "\"".to_string();
                s.append(x.as_str());
                s.append("\"");
                w.word("FORMULA_INV", s.as_str());
            }
        }
        Ok(())
    }

    fn write_block(&self, w: &mut Writer) -> (r: Result<()>) {
        w.begin_block("FORMULA");
        self.write_body(w)?;
        w.end_block("FORMULA");
        Ok(())
    }
}

/// `COMPU_METHOD`: how values are converted.
#[derive(Debug, Clone, PartialEq, Eq)]
pub struct CompuMethod {
    pub name: String,
    pub description: Option<String>,
    pub conversion_type: ConversionType,
    pub format: String,
    pub unit: String,
    pub coeffs: RationalCoeffs,
    pub compu_tab_ref: Option<String>,
    /// `STATUS_STRING_REF`.
    pub status_string_ref: Option<String>,
    pub ref_unit: Option<String>,
    pub inline_formula: Option<Formula>,
}

/// [`CompuMethod`] as a mathematical value.
pub struct CompuMethodView {
    pub name: Seq<char>,
    pub description: Option<Seq<char>>,
    pub conversion_type: ConversionType,
    pub format: Seq<char>,
    pub unit: Seq<char>,
    pub coeffs: RationalCoeffsView,
    pub compu_tab_ref: Option<Seq<char>>,
    pub status_string_ref: Option<Seq<char>>,
    pub ref_unit: Option<Seq<char>>,
    pub inline_formula: Option<FormulaView>,
}

impl View for CompuMethod {
    type V = CompuMethodView;

    open spec fn view(&self) -> CompuMethodView {
        CompuMethodView {
            name: self.name@,
            description: opt(self.description),
            conversion_type: self.conversion_type,
            format: self.format@,
            unit: self.unit@,
            coeffs: self.coeffs@,
            compu_tab_ref: opt(self.compu_tab_ref),
            status_string_ref: opt(self.status_string_ref),
            ref_unit: opt(self.ref_unit),
            inline_formula: opt(self.inline_formula),
        }
    }
}

impl CompuMethod {
    /// The node before anything is read.
    pub open spec fn blank() -> CompuMethodView {
        CompuMethodView {
            name: Seq::empty(),
            description: None,
            conversion_type: ConversionType::IDENTICAL,
            format: Seq::empty(),
            unit: Seq::empty(),
            coeffs: RationalCoeffs::blank(),
            compu_tab_ref: None,
            status_string_ref: None,
            ref_unit: None,
            inline_formula: None,
        }
    }
}

impl Default for CompuMethod {
    fn default() -> (r: Self)
        ensures
            r@ == CompuMethod::blank(),
    {
        CompuMethod {
            name: no_text(),
            description: None,
            conversion_type: ConversionType::IDENTICAL,
            format: no_text(),
            unit: no_text(),
            coeffs: RationalCoeffs::default(),
            compu_tab_ref: None,
            status_string_ref: None,
            ref_unit: None,
            inline_formula: None,
        }
    }
}

impl CompuMethod {
    /// What the parameters at the start say, and where the next ones start.
    pub open spec fn head(c: Cur) -> Got<CompuMethodView> {
        let v = CompuMethod::blank();
        match read_ident(c) {
            Err(f) => Err(f),
            Ok((name, c0)) => {
                match read_string(c0) {
                    Err(f) => Err(f),
                    Ok((description, c1)) => {
                        match read_enum::<ConversionType>(c1, "unknown conversion type "@) {
                            Err(f) => Err(f),
                            Ok((conversion_type, c2)) => {
                                match read_ident(c2) {
                                    Err(f) => Err(f),
                                    Ok((format, c3)) => {
                                        match read_ident(c3) {
                                            Err(f) => Err(f),
                                            Ok((unit, c4)) => {
                                                Ok(
                                                    (
                                                        CompuMethodView {
                                                            name,
                                                            description: Some(description),
                                                            conversion_type,
                                                            format,
                                                            unit,
                                                            ..v
                                                        },
                                                        c4
                                                    )
                                                )
                                            },
                                        }
                                    },
                                }
                            },
                        }
                    },
                }
            },
        }
    }

    fn read_head(cur: &mut ParamCursor) -> (r: Result<Self>)
        ensures
            match r {
                Ok(v) => CompuMethod::head(old(cur)@) == Ok::<_, Failure>((v@, final(cur)@)),
                Err(e) => CompuMethod::head(old(cur)@) == Err::<(CompuMethodView, Cur), _>(e@),
            },
    {
        let name = cur.ident()?;
        let description = cur.string()?;
        let conversion_type = enum_value::<ConversionType>(cur, "unknown conversion type ")?;
        let format = cur.ident()?;
        let unit = cur.ident()?;
        let mut node = CompuMethod::default();
        node.name = name;
        node.description = Some(description);
        node.conversion_type = conversion_type;
        node.format = format;
        node.unit = unit;
        Ok(node)
    }
}

impl CompuMethod {
    /// What the parameters at the cursor set, and where the next ones start.
    pub open spec fn option(v: CompuMethodView, c: Cur) -> Got<CompuMethodView> {
        if c.at("COEFFS"@) {
            match RationalCoeffs::read_rational(c.step()) {
                Err(f) => Err(f),
                Ok((x, c0)) => {
                    Ok((CompuMethodView { coeffs: x, ..v }, c0))
                },
            }
        } else if c.at("COEFFS_LINEAR"@) {
            match RationalCoeffs::read_linear(v.coeffs, c.step()) {
                Err(f) => Err(f),
                Ok((x, c0)) => {
                    Ok((CompuMethodView { coeffs: x, ..v }, c0))
                },
            }
        } else if c.at("COMPU_TAB_REF"@) {
            match read_ident(c.step()) {
                Err(f) => Err(f),
                Ok((x, c0)) => {
                    Ok((CompuMethodView { compu_tab_ref: Some(x), ..v }, c0))
                },
            }
        } else if c.at("STATUS_STRING_REF"@) {
            match read_ident(c.step()) {
                Err(f) => Err(f),
                Ok((x, c0)) => {
                    Ok((CompuMethodView { status_string_ref: Some(x), ..v }, c0))
                },
            }
        } else if c.at("REF_UNIT"@) {
            match read_ident(c.step()) {
                Err(f) => Err(f),
                Ok((x, c0)) => {
                    Ok((CompuMethodView { ref_unit: Some(x), ..v }, c0))
                },
            }
        } else if c.at("FORMULA"@) {
            match read_ident(c.step()) {
                Err(f) => Err(f),
                Ok((x, c0)) => {
                    Ok(
                        (
                            CompuMethodView {
                                inline_formula: Some(FormulaView { formula: x, formula_inv: None }),
                                ..v
                            },
                            c0
                        )
                    )
                },
            }
        } else {
            match read_token(c) {
                Err(f) => Err(f),
                Ok((_t, c0)) => {
                    Ok((v, c0))
                },
            }
        }
    }

    /// What all the parameters from the cursor on set, and where reading them ends.
    pub open spec fn options(v: CompuMethodView, c: Cur) -> Got<CompuMethodView>
        decreases c.left(),
    {
        if !c.more() {
            Ok((v, c))
        } else {
            match CompuMethod::option(v, c) {
                Err(f) => Err(f),
                Ok((w, n)) => if 0 <= n.left() < c.left() {
                    CompuMethod::options(w, n)
                } else {
                    arbitrary()
                },
            }
        }
    }

    fn read_option(&mut self, cur: &mut ParamCursor) -> (r: Result<()>)
        requires
            old(cur)@.more(),
        ensures
            match r {
                Ok(()) => {
                    &&& CompuMethod::option(old(self)@, old(cur)@) == Ok::<_, Failure>(
                        (final(self)@, final(cur)@),
                    )
                    &&& 0 <= final(cur)@.left() < old(cur)@.left()
                },
                Err(e) => CompuMethod::option(old(self)@, old(cur)@) == Err::<(CompuMethodView, Cur), _>(e@),
            },
    {
        if cur.take_if("COEFFS") {
            self.coeffs.set_rational(cur)?;
            return Ok(());
        }
        if cur.take_if("COEFFS_LINEAR") {
            self.coeffs.set_linear(cur)?;
            return Ok(());
        }
        if cur.take_if("COMPU_TAB_REF") {
            let x = cur.ident()?;
            self.compu_tab_ref = Some(x);
            return Ok(());
        }
        if cur.take_if("STATUS_STRING_REF") {
            let x = cur.ident()?;
            self.status_string_ref = Some(x);
            return Ok(());
        }
        if cur.take_if("REF_UNIT") {
            let x = cur.ident()?;
            self.ref_unit = Some(x);
            return Ok(());
        }
        if cur.take_if("FORMULA") {
            let x = cur.ident()?;
            self.inline_formula = Some(Formula { formula: x, formula_inv: None });
            return Ok(());
        }
        let _t = cur.next_token()?;
        Ok(())
    }

    fn read_options(&mut self, cur: &mut ParamCursor) -> (r: Result<()>)
        ensures
            match r {
                Ok(()) => {
                    &&& CompuMethod::options(old(self)@, old(cur)@) == Ok::<_, Failure>(
                        (final(self)@, final(cur)@),
                    )
                    &&& final(cur)@.left() <= old(cur)@.left()
                    &&& final(cur)@ == old(cur)@ || final(cur)@.left() >= 0
                },
                Err(e) => CompuMethod::options(old(self)@, old(cur)@) == Err::<(CompuMethodView, Cur), _>(e@),
            },
    {
        let ghost whole = CompuMethod::options(self@, cur@);
        while !cur.is_empty()
            invariant
                whole == CompuMethod::options(self@, cur@),
                whole == CompuMethod::options(old(self)@, old(cur)@),
                cur@.left() <= old(cur)@.left(),
                cur@ == old(cur)@ || cur@.left() >= 0,
            decreases cur@.left(),
        {
            self.read_option(cur)?;
        }
        Ok(())
    }
}

impl CompuMethod {
    /// The formula: the one that is there, or else that of the first block from an index on
    /// that holds one.
    pub open spec fn formula_of(f: Option<FormulaView>, blocks: Seq<Tree>, i: int) -> std::result::Result<
        Option<FormulaView>,
        Failure,
    >
        decreases blocks.len() - i,
    {
        if i < 0 || i >= blocks.len() || f is Some {
            Ok(f)
        } else if same_ignore_case(blocks[i].keyword, "FORMULA"@) {
            match Formula::parsed(blocks[i]) {
                Err(f) => Err(f),
                Ok(x) => Ok(Some(x)),
            }
        } else {
            CompuMethod::formula_of(f, blocks, i + 1)
        }
    }

    fn read_formula(&mut self, block: &Block) -> (r: Result<()>)
        ensures
            match r {
                Ok(()) => CompuMethod::formula_of(
                    old(self)@.inline_formula,
                    children_of(block@.items),
                    0,
                ) matches Ok(f) && final(self)@ == (CompuMethodView {
                    inline_formula: f,
                    ..old(self)@
                }),
                Err(e) => CompuMethod::formula_of(
                    old(self)@.inline_formula,
                    children_of(block@.items),
                    0,
                ) == Err::<Option<FormulaView>, Failure>(e@),
            },
    {
        let blocks = block.children();
        let ghost all = children_of(block@.items);
        let mut i: usize = 0;
        while i < blocks.len() && self.inline_formula.is_none()
            invariant
                i <= blocks@.len(),
                all == block_views(blocks@),
                all == children_of(block@.items),
                self@ == old(self)@,
                CompuMethod::formula_of(self@.inline_formula, all, 0) == CompuMethod::formula_of(
                    self@.inline_formula,
                    all,
                    i as int,
                ),
            decreases blocks@.len() - i,
        {
            let b = blocks[i];
            proof {
                assert(all[i as int] == b@);
            }
            if eq_ignore_case(b.keyword.as_str(), "FORMULA") {
                let f = Formula::parse(b)?;
                self.inline_formula = Some(f);
                return Ok(());
            }
            i += 1;
        }
        Ok(())
    }

    /// The line for the numbers or the table of a conversion.
    pub open spec fn numbers(v: CompuMethodView, p: Page) -> Page {
        match v.conversion_type {
            ConversionType::LINEAR => p.word(
                "COEFFS_LINEAR"@,
                v.coeffs.factor.text + " "@ + v.coeffs.offset.text,
            ),
            ConversionType::RAT_FUNC => p.word(
                "COEFFS"@,
                v.coeffs.coeffs[0].text + " "@ + v.coeffs.coeffs[1].text + " "@
                    + v.coeffs.coeffs[2].text + " "@ + v.coeffs.coeffs[3].text + " "@
                    + v.coeffs.coeffs[4].text + " "@ + v.coeffs.coeffs[5].text,
            ),
            ConversionType::TAB_INTP | ConversionType::TAB_NOINTP | ConversionType::TAB_VERB =>
            match v.compu_tab_ref {
                Some(x) => p.word("COMPU_TAB_REF"@, x),
                None => p,
            },
            _ => p,
        }
    }

    fn write_numbers(&self, w: &mut Writer)
        ensures
            final(w)@ == CompuMethod::numbers(self@, old(w)@),
    {
        match self.conversion_type {
            ConversionType::LINEAR => {
                let mut s = self.coeffs.factor.text.clone();
                s.append(" ");
                s.append(self.coeffs.offset.text.as_str());
                w.word("COEFFS_LINEAR", s.as_str());
            },
            ConversionType::RAT_FUNC => {
                let c = &self.coeffs.coeffs;
                let mut s = c[0].text.clone();
                s.append(" ");
                s.append(c[1].text.as_str());
                s.append(" ");
                s.append(c[2].text.as_str());
                s.append(" ");
                s.append(c[3].text.as_str());
                s.append(" ");
                s.append(c[4].text.as_str());
                s.append(" ");
                s.append(c[5].text.as_str());
                w.word("COEFFS", s.as_str());
            },
            ConversionType::TAB_INTP | ConversionType::TAB_NOINTP | ConversionType::TAB_VERB => {
                if let Some(x) = &self.compu_tab_ref {
                    w.word("COMPU_TAB_REF", x.as_str());
                }
            },
            _ => {},
        }
    }
}

impl Node for CompuMethod {
    open spec fn keyword_text() -> Seq<char> {
        "COMPU_METHOD"@
    }

    open spec fn parsed(tree: Tree) -> std::result::Result<CompuMethodView, Failure> {
        match CompuMethod::head(Cur::start(tree)) {
            Err(f) => Err(f),
            Ok((v, c)) => match CompuMethod::options(v, c) {
                Err(f) => Err(f),
                Ok((v, _)) => match CompuMethod::formula_of(
                    v.inline_formula,
                    children_of(tree.items),
                    0,
                ) {
                    Err(f) => Err(f),
                    Ok(inline_formula) => Ok(CompuMethodView { inline_formula, ..v }),
                },
            },
        }
    }

    open spec fn body(v: CompuMethodView, p: Page) -> Written {
        let p = match v.description { Some(x) => p.quote_line(x), None => p.quote_line(""@) };
        let p = match v.conversion_type.word() { Some(kw) => p.line(kw), None => p };
        let p = p.line("\""@ + v.format + "\" \""@ + v.unit + "\""@);
        let p = CompuMethod::numbers(v, p);
        let p = match v.status_string_ref { Some(x) if x.len() > 0 => p.word("STATUS_STRING_REF"@, x), _ => p };
        let p = match v.ref_unit { Some(x) if x.len() > 0 => p.word("REF_UNIT"@, x), _ => p };
        match v.inline_formula { Some(f) => Formula::block(f, p), None => Ok(p) }
    }

    open spec fn block(v: CompuMethodView, p: Page) -> Written {
        enclosed("COMPU_METHOD"@, Self::body(v, p.begin("COMPU_METHOD "@ + v.name)))
    }

    fn keyword() -> (r: &'static str) {
        "COMPU_METHOD"
    }

    fn parse(block: &Block) -> (r: Result<Self>) {
        let mut cur = ParamCursor::new(block);
        let mut node = CompuMethod::read_head(&mut cur)?;
        node.read_options(&mut cur)?;
        node.read_formula(block)?;
        Ok(node)
    }

    fn write_body(&self, w: &mut Writer) -> (r: Result<()>) {
        match &self.description {
            Some(x) => w.quote_line(x.as_str()),
            None => w.quote_line(""),
        }
        if let Some(kw) = self.conversion_type.as_keyword() {
            w.line(kw);
        }
        {
            let mut s = "\"".to_string();
            s.append(self.format.as_str());
            s.append("\" \"");
            s.append(self.unit.as_str());
            s.append("\"");
            w.line(s.as_str());
        }
        self.write_numbers(w);
        if let Some(x) = &self.status_string_ref {
            if x.as_str().unicode_len() > 0 {
                w.word("STATUS_STRING_REF", x.as_str());
            }
        }
        if let Some(x) = &self.ref_unit {
            if x.as_str().unicode_len() > 0 {
                w.word("REF_UNIT", x.as_str());
            }
        }
        match &self.inline_formula {
            Some(f) => f.write_block(w),
            None => Ok(()),
        }
    }

    fn write_block(&self, w: &mut Writer) -> (r: Result<()>) {
        let mut s = "COMPU_METHOD ".to_string();
        s.append(self.name.as_str());
        w.begin_block(s.as_str());
        self.write_body(w)?;
        w.end_block("COMPU_METHOD");
        Ok(())
    }
}

/// What all conversion tables have.
#[derive(Debug, PartialEq, Eq)]
pub struct CompuTabBase {
    pub name: String,
    pub description: Option<String>,
    pub conversion_type: ConversionType,
    pub default_value: Option<String>,
}

/// [`CompuTabBase`] as a mathematical value.
pub struct CompuTabBaseView {
    pub name: Seq<char>,
    pub description: Option<Seq<char>>,
    pub conversion_type: ConversionType,
    pub default_value: Option<Seq<char>>,
}

impl View for CompuTabBase {
    type V = CompuTabBaseView;

    open spec fn view(&self) -> CompuTabBaseView {
        CompuTabBaseView {
            name: self.name@,
            description: opt(self.description),
            conversion_type: self.conversion_type,
            default_value: opt(self.default_value),
        }
    }
}

impl Clone for CompuTabBase {
    fn clone(&self) -> (r: Self)
        ensures
            r@ == self@,
    {
        CompuTabBase {
            name: self.name.clone(),
            description: copy_text(&self.description),
            conversion_type: self.conversion_type,
            default_value: copy_text(&self.default_value),
        }
    }
}

impl CompuTabBase {
    /// The node before anything is read.
    pub open spec fn blank() -> CompuTabBaseView {
        CompuTabBaseView {
            name: Seq::empty(),
            description: None,
            conversion_type: ConversionType::IDENTICAL,
            default_value: None,
        }
    }
}

impl Default for CompuTabBase {
    fn default() -> (r: Self)
        ensures
            r@ == CompuTabBase::blank(),
    {
        CompuTabBase {
            name: no_text(),
            description: None,
            conversion_type: ConversionType::IDENTICAL,
            default_value: None,
        }
    }
}

impl CompuTabBase {
    /// What the parameters at the start say, and where the next ones start.
    pub open spec fn head(c: Cur) -> Got<CompuTabBaseView> {
        let v = CompuTabBase::blank();
        match read_ident(c) {
            Err(f) => Err(f),
            Ok((name, c0)) => {
                match read_string(c0) {
                    Err(f) => Err(f),
                    Ok((description, c1)) => {
                        match read_enum::<ConversionType>(c1, "unknown conversion type "@) {
                            Err(f) => Err(f),
                            Ok((conversion_type, c2)) => {
                                Ok(
                                    (
                                        CompuTabBaseView {
                                            name,
                                            description: Some(description),
                                            conversion_type,
                                            ..v
                                        },
                                        c2
                                    )
                                )
                            },
                        }
                    },
                }
            },
        }
    }

    fn read_head(cur: &mut ParamCursor) -> (r: Result<Self>)
        ensures
            match r {
                Ok(v) => CompuTabBase::head(old(cur)@) == Ok::<_, Failure>((v@, final(cur)@)),
                Err(e) => CompuTabBase::head(old(cur)@) == Err::<(CompuTabBaseView, Cur), _>(e@),
            },
    {
        let name = cur.ident()?;
        let description = cur.string()?;
        let conversion_type = enum_value::<ConversionType>(cur, "unknown conversion type ")?;
        let mut node = CompuTabBase::default();
        node.name = name;
        node.description = Some(description);
        node.conversion_type = conversion_type;
        Ok(node)
    }
}

impl CompuTabBase {
    /// The description, and the kind of the conversion if it is wanted.
    pub open spec fn written(v: CompuTabBaseView, with_type: bool, p: Page) -> Page {
        let p = match v.description {
            Some(x) => p.quote_line(x),
            None => p.quote_line(""@),
        };
        if with_type {
            match v.conversion_type.word() {
                Some(kw) => p.line(kw),
                None => p,
            }
        } else {
            p
        }
    }

    fn write_base(&self, w: &mut Writer, with_conversion_type: bool)
        ensures
            final(w)@ == CompuTabBase::written(self@, with_conversion_type, old(w)@),
    {
        match &self.description {
            Some(x) => w.quote_line(x.as_str()),
            None => w.quote_line(""),
        }
        if with_conversion_type {
            if let Some(kw) = self.conversion_type.as_keyword() {
                w.line(kw);
            }
        }
    }

    /// The default value, if there is one.
    pub open spec fn default_written(v: CompuTabBaseView, p: Page) -> Page {
        match v.default_value {
            Some(x) if x.len() > 0 => p.quote("DEFAULT_VALUE"@, x),
            _ => p,
        }
    }

    fn write_default_value(&self, w: &mut Writer)
        ensures
            final(w)@ == CompuTabBase::default_written(self@, old(w)@),
    {
        if let Some(x) = &self.default_value {
            if x.as_str().unicode_len() > 0 {
                w.quote("DEFAULT_VALUE", x.as_str());
            }
        }
    }
}

/// A floating-point number; any other text fails with the message given and the text.
pub open spec fn read_number(c: Cur, message: Seq<char>) -> Got<Num> {
    match read_token(c) {
        Err(f) => Err(f),
        Ok((t, n)) => match t.number {
            Some(x) => Ok((x, n)),
            None => Err(Failure::Parse(t.line, message + debug_of(t.text))),
        },
    }
}

fn number(cur: &mut ParamCursor, message: &str) -> (r: Result<Number>)
    ensures
        match r {
            Ok(v) => {
                &&& read_number(old(cur)@, message@) == Ok::<_, Failure>((v@, final(cur)@))
                &&& 0 <= final(cur)@.left() < old(cur)@.left()
            },
            Err(e) => read_number(old(cur)@, message@) == Err::<(Num, Cur), _>(e@),
        },
{
    let t = cur.next_token()?;
    match &t.number {
        Some(x) => Ok(x.clone()),
        None => {
            let mut m = message.to_string();
            m.append(debug_text(t.text.as_str()).as_str());
            Err(Error::parse(t.line, m))
        },
    }
}

/// Pairs of a single and a number by their views.
pub open spec fn single_pairs(s: Seq<(Single, Number)>) -> Seq<(Sng, Num)> {
    Seq::new(s.len(), |i: int| (s[i].0@, s[i].1@))
}

/// Whether the numbers are the same as singles.
pub open spec fn same_single(a: Sng, b: Sng) -> bool {
    !a.nan && !b.nan && a.key == b.key
}

/// Whether a number comes after another one as a single.
pub open spec fn after_single(a: Sng, b: Sng) -> bool {
    !a.nan && !b.nan && a.key > b.key
}

/// Pairs with another one behind them, unless its first number is there.
pub open spec fn with_pair(s: Seq<(Sng, Num)>, key: Sng, value: Num) -> Seq<(Sng, Num)> {
    if exists|i: int| 0 <= i < s.len() && same_single(#[trigger] s[i].0, key) {
        s
    } else {
        s.push((key, value))
    }
}

/// Pairs with another one put before those at the end that come after it.
pub open spec fn pair_inserted(s: Seq<(Sng, Num)>, x: (Sng, Num)) -> Seq<(Sng, Num)>
    decreases s.len(),
{
    if s.len() > 0 && after_single(s.last().0, x.0) {
        pair_inserted(s.drop_last(), x).push(s.last())
    } else {
        s.push(x)
    }
}

/// Pairs in the order of their first numbers; those in the same place keep their order.
pub open spec fn pairs_sorted(s: Seq<(Sng, Num)>) -> Seq<(Sng, Num)>
    decreases s.len(),
{
    if s.len() == 0 {
        s
    } else {
        pair_inserted(pairs_sorted(s.drop_last()), s.last())
    }
}

proof fn lemma_pair_inserted(s: Seq<(Sng, Num)>, x: (Sng, Num), k: int)
    requires
        0 <= k <= s.len(),
        forall|j: int| k <= j < s.len() ==> after_single((#[trigger] s[j]).0, x.0),
        k == 0 || !after_single(s[k - 1].0, x.0),
    ensures
        pair_inserted(s, x) == s.insert(k, x),
    decreases s.len(),
{
    if k == s.len() {
        assert(s.insert(k, x) =~= s.push(x));
    } else {
        lemma_pair_inserted(s.drop_last(), x, k);
        assert(s.insert(k, x) =~= s.drop_last().insert(k, x).push(s.last()));
    }
}

/// Sorting changes nothing but the order, and where no first number is undefined the first
/// numbers ascend.
pub proof fn law_pairs_sorted(s: Seq<(Sng, Num)>)
    ensures
        pairs_sorted(s).to_multiset() == s.to_multiset(),
        (forall|i: int| 0 <= i < s.len() ==> !(#[trigger] s[i]).0.nan) ==> forall|i: int, j: int|
            0 <= i < j < s.len() ==> (#[trigger] pairs_sorted(s)[i]).0.key <= (
            #[trigger] pairs_sorted(s)[j]).0.key,
    decreases s.len(),
{
    if s.len() > 0 {
        let before = s.drop_last();
        law_pairs_sorted(before);
        lemma_pair_inserted_law(pairs_sorted(before), s.last());
        assert(s =~= before.push(s.last()));
        vstd::seq_lib::to_multiset_build(before, s.last());
        pairs_sorted(before).to_multiset_ensures();
        before.to_multiset_ensures();
        if forall|i: int| 0 <= i < s.len() ==> !(#[trigger] s[i]).0.nan {
            assert forall|i: int| 0 <= i < before.len() implies !(#[trigger] before[i]).0.nan by {
                assert(before[i] == s[i]);
            }
            let t = pairs_sorted(before);
            assert(t.len() == before.len());
            assert forall|i: int| 0 <= i < t.len() implies !(#[trigger] t[i]).0.nan by {
                assert(t.to_multiset().count(t[i]) > 0);
                assert(before.contains(t[i]));
            }
        }
    }
}

proof fn lemma_pair_inserted_law(s: Seq<(Sng, Num)>, x: (Sng, Num))
    ensures
        pair_inserted(s, x).len() == s.len() + 1,
        pair_inserted(s, x).to_multiset() == s.to_multiset().insert(x),
        forall|i: int|
            0 <= i < s.len() + 1 ==> (#[trigger] pair_inserted(s, x)[i] == x || s.contains(
                pair_inserted(s, x)[i],
            )),
        (!x.0.nan && (forall|i: int| 0 <= i < s.len() ==> !(#[trigger] s[i]).0.nan) && (forall|
            i: int,
            j: int,
        |
            0 <= i < j < s.len() ==> (#[trigger] s[i]).0.key <= (
            #[trigger] s[j]).0.key)) ==> forall|i: int, j: int|
            0 <= i < j < s.len() + 1 ==> (#[trigger] pair_inserted(s, x)[i]).0.key <= (
            #[trigger] pair_inserted(s, x)[j]).0.key,
    decreases s.len(),
{
    if s.len() > 0 && after_single(s.last().0, x.0) {
        let before = s.drop_last();
        lemma_pair_inserted_law(before, x);
        let t = pair_inserted(before, x);
        assert(s =~= before.push(s.last()));
        vstd::seq_lib::to_multiset_build(before, s.last());
        vstd::seq_lib::to_multiset_build(t, s.last());
        assert(t.push(s.last()).to_multiset() =~= s.to_multiset().insert(x));
        assert forall|i: int| 0 <= i < s.len() + 1 implies (#[trigger] pair_inserted(s, x)[i] == x
            || s.contains(pair_inserted(s, x)[i])) by {
            if i < s.len() {
                assert(t[i] == x || before.contains(t[i]));
                if before.contains(t[i]) {
                    let k = choose|k: int| 0 <= k < before.len() && before[k] == t[i];
                    assert(s[k] == t[i]);
                }
            } else {
                assert(s[s.len() - 1] == s.last());
            }
        }
        if !x.0.nan && (forall|i: int| 0 <= i < s.len() ==> !(#[trigger] s[i]).0.nan) && (forall|
            i: int,
            j: int,
        |
            0 <= i < j < s.len() ==> (#[trigger] s[i]).0.key <= (
            #[trigger] s[j]).0.key) {
            assert forall|i: int| 0 <= i < before.len() implies !(#[trigger] before[i]).0.nan by {
                assert(before[i] == s[i]);
            }
            assert forall|i: int, j: int| 0 <= i < j < before.len() implies (
            #[trigger] before[i]).0.key <= (#[trigger] before[j]).0.key by {
                assert(before[i] == s[i] && before[j] == s[j]);
            }
            assert forall|i: int, j: int| 0 <= i < j < s.len() + 1 implies (
            #[trigger] pair_inserted(s, x)[i]).0.key <= (
            #[trigger] pair_inserted(s, x)[j]).0.key by {
                if j == s.len() {
                    assert(t[i] == x || before.contains(t[i]));
                    if before.contains(t[i]) {
                        let k = choose|k: int| 0 <= k < before.len() && before[k] == t[i];
                        assert(s[k] == t[i]);
                        assert(s[k].0.key <= s[s.len() - 1].0.key);
                    }
                } else {
                    assert(t[i].0.key <= t[j].0.key);
                }
            }
        }
    } else {
        vstd::seq_lib::to_multiset_build(s, x);
        assert forall|i: int| 0 <= i < s.len() + 1 implies (#[trigger] pair_inserted(s, x)[i] == x
            || s.contains(pair_inserted(s, x)[i])) by {
            if i < s.len() {
                assert(s[i] == pair_inserted(s, x)[i]);
            }
        }
    }
}

/// Pairs in the order of their first numbers.
fn sort_pairs(v: Vec<(Single, Number)>) -> (r: Vec<(Single, Number)>)
    ensures
        single_pairs(r@) == pairs_sorted(single_pairs(v@)),
{
    let mut out: Vec<(Single, Number)> = Vec::new();
    let mut i: usize = 0;
    let ghost all = single_pairs(v@);
    proof {
        assert(single_pairs(out@) =~= pairs_sorted(all.subrange(0, 0)));
    }
    while i < v.len()
        invariant
            i <= v@.len(),
            all == single_pairs(v@),
            single_pairs(out@) == pairs_sorted(all.subrange(0, i as int)),
        decreases v@.len() - i,
    {
        let x = (v[i].0.clone(), v[i].1.clone());
        let ghost done = single_pairs(out@);
        let ghost xv = (x.0@, x.1@);
        let mut k: usize = out.len();
        while k > 0 && !out[k - 1].0.nan && !x.0.nan && out[k - 1].0.key > x.0.key
            invariant
                k <= out@.len(),
                done == single_pairs(out@),
                xv == (x.0@, x.1@),
                forall|j: int| k <= j < done.len() ==> after_single((#[trigger] done[j]).0, xv.0),
            decreases k,
        {
            k -= 1;
        }
        proof {
            if k > 0 {
                assert(done[k - 1].0 == out@[k - 1].0@);
            }
            lemma_pair_inserted(done, xv, k as int);
            let next = all.subrange(0, i + 1);
            assert(next.drop_last() =~= all.subrange(0, i as int));
            assert(next.last() == xv);
        }
        out.insert(k, x);
        proof {
            assert(single_pairs(out@) =~= done.insert(k as int, xv));
        }
        i += 1;
    }
    proof {
        assert(all.subrange(0, i as int) =~= all);
    }
    out
}

/// `COMPU_TAB`: a table of numbers, in the order of its keys, which are singles.
#[derive(Debug, Clone, PartialEq, Eq)]
pub struct CompuTab {
    pub base: CompuTabBase,
    pub values: Vec<(Single, Number)>,
    pub default_value_numeric: Option<Number>,
}

/// [`CompuTab`] as a mathematical value.
pub struct CompuTabView {
    pub base: CompuTabBaseView,
    pub values: Seq<(Sng, Num)>,
    pub default_value_numeric: Option<Num>,
}

impl View for CompuTab {
    type V = CompuTabView;

    open spec fn view(&self) -> CompuTabView {
        CompuTabView {
            base: self.base@,
            values: single_pairs(self.values@),
            default_value_numeric: opt(self.default_value_numeric),
        }
    }
}

impl CompuTab {
    /// The node before anything is read.
    pub open spec fn blank() -> CompuTabView {
        CompuTabView {
            base: CompuTabBase::blank(),
            values: Seq::empty(),
            default_value_numeric: None,
        }
    }
}

impl Default for CompuTab {
    fn default() -> (r: Self)
        ensures
            r@ == CompuTab::blank(),
    {
        let r = CompuTab {
            base: CompuTabBase::default(),
            values: Vec::new(),
            default_value_numeric: None,
        };
        proof {
            assert(single_pairs(r.values@) =~= Seq::empty());
        }
        r
    }
}

impl CompuTab {
    /// What the parameters at the start say, and where the next ones start.
    pub open spec fn head(c: Cur) -> Got<CompuTabView> {
        let v = CompuTab::blank();
        match CompuTabBase::head(c) {
            Err(f) => Err(f),
            Ok((base, c0)) => {
                match read_uint(c0, u64::MAX as int) {
                    Err(f) => Err(f),
                    Ok((_count, c1)) => {
                        Ok((CompuTabView { base, ..v }, c1))
                    },
                }
            },
        }
    }

    fn read_head(cur: &mut ParamCursor) -> (r: Result<Self>)
        ensures
            match r {
                Ok(v) => CompuTab::head(old(cur)@) == Ok::<_, Failure>((v@, final(cur)@)),
                Err(e) => CompuTab::head(old(cur)@) == Err::<(CompuTabView, Cur), _>(e@),
            },
    {
        let base = CompuTabBase::read_head(cur)?;
        let _count = cur.uint::<u64>()?;
        let mut node = CompuTab::default();
        node.base = base;
        Ok(node)
    }
}

impl CompuTab {
    fn put(&mut self, key: Single, value: Number)
        ensures
            final(self)@ == (CompuTabView {
                values: with_pair(old(self)@.values, key@, value@),
                ..old(self)@
            }),
    {
        let ghost s = single_pairs(self.values@);
        let mut i: usize = 0;
        while i < self.values.len()
            invariant
                i <= self.values@.len(),
                self@ == old(self)@,
                s == single_pairs(self.values@),
                forall|j: int| 0 <= j < i ==> !same_single(#[trigger] s[j].0, key@),
            decreases self.values@.len() - i,
        {
            let k = &self.values[i].0;
            proof {
                assert(s[i as int].0 == k@);
            }
            if !k.nan && !key.nan && k.key == key.key {
                return;
            }
            i += 1;
        }
        self.values.push((key, value));
        proof {
            assert(single_pairs(self.values@) =~= s.push((key@, value@)));
        }
    }

    /// A line for each of the first pairs.
    pub open spec fn lines(s: Seq<(Sng, Num)>, n: int, p: Page) -> Page
        decreases n,
    {
        if n <= 0 {
            p
        } else {
            CompuTab::lines(s, n - 1, p).word(s[n - 1].0.text, s[n - 1].1.text)
        }
    }

    fn write_values(&self, w: &mut Writer)
        ensures
            final(w)@ == CompuTab::lines(self@.values, self@.values.len() as int, old(w)@),
    {
        let mut i: usize = 0;
        while i < self.values.len()
            invariant
                i <= self.values@.len(),
                w@ == CompuTab::lines(self@.values, i as int, old(w)@),
            decreases self.values@.len() - i,
        {
            let (k, v) = &self.values[i];
            w.word(k.text.as_str(), v.text.as_str());
            i += 1;
        }
    }
}

impl CompuTab {
    /// What the parameters at the cursor set, and where the next ones start.
    pub open spec fn option(v: CompuTabView, c: Cur) -> Got<CompuTabView> {
        if c.at("DEFAULT_VALUE_NUMERIC"@) {
            match read_float(c.step()) {
                Err(f) => Err(f),
                Ok((x, c0)) => {
                    Ok((CompuTabView { default_value_numeric: Some(x), ..v }, c0))
                },
            }
        } else if c.at("DEFAULT_VALUE"@) {
            match read_ident(c.step()) {
                Err(f) => Err(f),
                Ok((x, c0)) => {
                    Ok((CompuTabView { base: CompuTabBaseView { default_value: Some(x), ..v.base }, ..v }, c0))
                },
            }
        } else {
            match read_number(c, "COMPU_TAB: expected number, got "@) {
                Err(f) => Err(f),
                Ok((key, c0)) => {
                    match read_float(c0) {
                        Err(f) => Err(f),
                        Ok((value, c1)) => {
                            Ok((CompuTabView { values: with_pair(v.values, key.single(), value), ..v }, c1))
                        },
                    }
                },
            }
        }
    }

    /// What all the parameters from the cursor on set, and where reading them ends.
    pub open spec fn options(v: CompuTabView, c: Cur) -> Got<CompuTabView>
        decreases c.left(),
    {
        if !c.more() {
            Ok((v, c))
        } else {
            match CompuTab::option(v, c) {
                Err(f) => Err(f),
                Ok((w, n)) => if 0 <= n.left() < c.left() {
                    CompuTab::options(w, n)
                } else {
                    arbitrary()
                },
            }
        }
    }

    fn read_option(&mut self, cur: &mut ParamCursor) -> (r: Result<()>)
        requires
            old(cur)@.more(),
        ensures
            match r {
                Ok(()) => {
                    &&& CompuTab::option(old(self)@, old(cur)@) == Ok::<_, Failure>(
                        (final(self)@, final(cur)@),
                    )
                    &&& 0 <= final(cur)@.left() < old(cur)@.left()
                },
                Err(e) => CompuTab::option(old(self)@, old(cur)@) == Err::<(CompuTabView, Cur), _>(e@),
            },
    {
        if cur.take_if("DEFAULT_VALUE_NUMERIC") {
            let x = cur.float()?;
            self.default_value_numeric = Some(x);
            return Ok(());
        }
        if cur.take_if("DEFAULT_VALUE") {
            let x = cur.ident()?;
            self.base.default_value = Some(x);
            return Ok(());
        }
        let key = number(cur, "COMPU_TAB: expected number, got ")?;
        let value = cur.float()?;
        self.put(key.single(), value);
        Ok(())
    }

    fn read_options(&mut self, cur: &mut ParamCursor) -> (r: Result<()>)
        ensures
            match r {
                Ok(()) => {
                    &&& CompuTab::options(old(self)@, old(cur)@) == Ok::<_, Failure>(
                        (final(self)@, final(cur)@),
                    )
                    &&& final(cur)@.left() <= old(cur)@.left()
                    &&& final(cur)@ == old(cur)@ || final(cur)@.left() >= 0
                },
                Err(e) => CompuTab::options(old(self)@, old(cur)@) == Err::<(CompuTabView, Cur), _>(e@),
            },
    {
        let ghost whole = CompuTab::options(self@, cur@);
        while !cur.is_empty()
            invariant
                whole == CompuTab::options(self@, cur@),
                whole == CompuTab::options(old(self)@, old(cur)@),
                cur@.left() <= old(cur)@.left(),
                cur@ == old(cur)@ || cur@.left() >= 0,
            decreases cur@.left(),
        {
            self.read_option(cur)?;
        }
        Ok(())
    }
}

impl Node for CompuTab {
    open spec fn keyword_text() -> Seq<char> {
        "COMPU_TAB"@
    }

    open spec fn parsed(tree: Tree) -> std::result::Result<CompuTabView, Failure> {
        match CompuTab::head(Cur::start(tree)) {
            Err(f) => Err(f),
            Ok((v, c)) => match CompuTab::options(v, c) {
                Err(f) => Err(f),
                Ok((v, _)) => Ok(CompuTabView { values: pairs_sorted(v.values), ..v }),
            },
        }
    }

    open spec fn body(v: CompuTabView, p: Page) -> Written {
        let p = CompuTabBase::written(v.base, true, p);
        let p = p.line(dec(v.values.len()));
        let p = CompuTab::lines(v.values, v.values.len() as int, p);
        let p = match v.default_value_numeric { Some(x) => p.word("DEFAULT_VALUE_NUMERIC"@, x.text), None => p };
        Ok(p)
    }

    open spec fn block(v: CompuTabView, p: Page) -> Written {
        enclosed("COMPU_TAB"@, Self::body(v, p.begin("COMPU_TAB "@ + v.base.name)))
    }

    fn keyword() -> (r: &'static str) {
        "COMPU_TAB"
    }

    fn parse(block: &Block) -> (r: Result<Self>) {
        let mut cur = ParamCursor::new(block);
        let mut node = CompuTab::read_head(&mut cur)?;
        node.read_options(&mut cur)?;
        let values = sort_pairs(node.values);
        Ok(
            CompuTab { base: node.base, values, default_value_numeric: node.default_value_numeric },
        )
    }

    fn write_body(&self, w: &mut Writer) -> (r: Result<()>) {
        self.base.write_base(w, true);
        w.line(dec_text(self.values.len() as u64).as_str());
        self.write_values(w);
        if let Some(x) = &self.default_value_numeric {
            w.word("DEFAULT_VALUE_NUMERIC", x.text.as_str());
        }
        Ok(())
    }

    fn write_block(&self, w: &mut Writer) -> (r: Result<()>) {
        let mut s = "COMPU_TAB ".to_string();
        s.append(self.base.name.as_str());
        w.begin_block(s.as_str());
        self.write_body(w)?;
        w.end_block("COMPU_TAB");
        Ok(())
    }
}

/// A map to texts by their characters.
pub open spec fn text_map(m: Map<i64, String>) -> Map<i64, Seq<char>> {
    m.map_values(|s: String| s@)
}

/// A map with a value for a key, unless the key is there.
pub open spec fn with_text(m: Map<i64, Seq<char>>, key: i64, text: Seq<char>) -> Map<
    i64,
    Seq<char>,
> {
    if m.dom().contains(key) {
        m
    } else {
        m.insert(key, text)
    }
}

/// Whether keys ascend.
pub open spec fn ascending(s: Seq<i64>) -> bool {
    forall|i: int, j: int| 0 <= i < j < s.len() ==> s[i] < s[j]
}

/// Whether the keys are those of a map, in ascending order.
pub open spec fn keys_in_order(s: Seq<i64>, m: Map<i64, Seq<char>>) -> bool {
    &&& ascending(s)
    &&& s.to_set() == m.dom()
}

/// The keys of a map in ascending order.
pub open spec fn keys_of(m: Map<i64, Seq<char>>) -> Seq<i64> {
    choose|s: Seq<i64>| keys_in_order(s, m)
}

/// There is one ascending order of a set.
proof fn lemma_ascending_unique(a: Seq<i64>, b: Seq<i64>)
    requires
        ascending(a),
        ascending(b),
        a.to_set() == b.to_set(),
    ensures
        a == b,
    decreases a.len(),
{
    if a.len() == 0 {
        if b.len() > 0 {
            assert(b.to_set().contains(b[0]));
            assert(a.contains(b[0]));
        }
        assert(a =~= b);
    } else {
        assert(a.to_set().contains(a.last()));
        assert(b.contains(a.last()));
        assert(b.to_set().contains(b.last()));
        assert(a.contains(b.last()));
        assert(a.last() == b.last());
        let a2 = a.drop_last();
        let b2 = b.drop_last();
        assert forall|x: i64| a2.to_set().contains(x) == b2.to_set().contains(x) by {
            if a2.contains(x) {
                let i = choose|i: int| 0 <= i < a2.len() && a2[i] == x;
                assert(a[i] == x);
                assert(a.to_set().contains(x));
                assert(b.contains(x));
                let j = choose|j: int| 0 <= j < b.len() && b[j] == x;
                assert(b2[j] == x);
            }
            if b2.contains(x) {
                let i = choose|i: int| 0 <= i < b2.len() && b2[i] == x;
                assert(b[i] == x);
                assert(b.to_set().contains(x));
                assert(a.contains(x));
                let j = choose|j: int| 0 <= j < a.len() && a[j] == x;
                assert(a2[j] == x);
            }
        }
        assert(a2.to_set() =~= b2.to_set());
        lemma_ascending_unique(a2, b2);
        assert(a =~= a2.push(a.last()));
        assert(b =~= b2.push(b.last()));
    }
}

/// The keys of entries.
spec fn keys_listed(s: Seq<(&i64, &String)>) -> Seq<i64> {
    s.map_values(|kv: (&i64, &String)| *kv.0)
}

/// 64-bit integers are ordered.
proof fn lemma_key_order()
    ensures
        vstd::std_specs::btree::key_obeys_cmp_spec::<i64>(),
        vstd::laws_cmp::obeys_cmp::<i64>(),
{
    broadcast use vstd::std_specs::btree::group_btree_axioms;
    broadcast use vstd::laws_cmp::group_laws_cmp;

}

/// What a map lists ascending and completely are its keys in order.
proof fn lemma_keys_listed(m: BTreeMap<i64, String>, all: Seq<(&i64, &String)>)
    requires
        vstd::std_specs::btree::increasing_seq(
            all.map_values(|kv: (&i64, &String)| *kv.0),
        ),
        forall|i: int|
            #![trigger m@.contains_key(*all[i].0)]
            0 <= i < all.len() ==> m@.contains_key(*all[i].0),
        forall|k: i64| #[trigger] m@.contains_key(k) ==> all.contains((&k, &m@[k])),
    ensures
        keys_of(text_map(m@)) == keys_listed(all),
{
    broadcast use vstd::std_specs::btree::group_btree_axioms;
    broadcast use vstd::laws_cmp::group_laws_cmp;

    let keys = keys_listed(all);
    assert(ascending(keys)) by {
        assert forall|i: int, j: int| 0 <= i < j < keys.len() implies keys[i] < keys[j] by {
            assert(vstd::std_specs::cmp::OrdSpec::cmp_spec(&keys[i], &keys[j]) is Less);
        }
    }
    assert forall|k: i64| keys.to_set().contains(k) == text_map(m@).dom().contains(k) by {
        if keys.contains(k) {
            let i = choose|i: int| 0 <= i < keys.len() && keys[i] == k;
            assert(m@.contains_key(*all[i].0));
        }
        if m@.contains_key(k) {
            let i = choose|i: int| 0 <= i < all.len() && all[i] == (&k, &m@[k]);
            assert(keys[i] == k);
        }
    }
    assert(keys.to_set() =~= text_map(m@).dom());
    assert(keys_in_order(keys, text_map(m@)));
    lemma_ascending_unique(keys, keys_of(text_map(m@)));
}

/// `COMPU_VTAB`: a table of texts.
#[derive(Debug, Clone, PartialEq, Eq)]
pub struct CompuVtab {
    pub base: CompuTabBase,
    pub verbs: BTreeMap<i64, String>,
}

/// [`CompuVtab`] as a mathematical value.
pub struct CompuVtabView {
    pub base: CompuTabBaseView,
    pub verbs: Map<i64, Seq<char>>,
}

impl View for CompuVtab {
    type V = CompuVtabView;

    open spec fn view(&self) -> CompuVtabView {
        CompuVtabView {
            base: self.base@,
            verbs: text_map(self.verbs@),
        }
    }
}

impl CompuVtab {
    /// The node before anything is read.
    pub open spec fn blank() -> CompuVtabView {
        CompuVtabView {
            base: CompuTabBase::blank(),
            verbs: Map::empty(),
        }
    }
}

impl Default for CompuVtab {
    fn default() -> (r: Self)
        ensures
            r@ == CompuVtab::blank(),
    {
        let r = CompuVtab {
            base: CompuTabBase::default(),
            verbs: BTreeMap::new(),
        };
        proof {
            assert(text_map(r.verbs@) =~= Map::empty());
        }
        r
    }
}

impl CompuVtab {
    /// What the parameters at the start say, and where the next ones start.
    pub open spec fn head(c: Cur) -> Got<CompuVtabView> {
        let v = CompuVtab::blank();
        match CompuTabBase::head(c) {
            Err(f) => Err(f),
            Ok((base, c0)) => {
                match read_uint(c0, u64::MAX as int) {
                    Err(f) => Err(f),
                    Ok((_count, c1)) => {
                        Ok((CompuVtabView { base, ..v }, c1))
                    },
                }
            },
        }
    }

    fn read_head(cur: &mut ParamCursor) -> (r: Result<Self>)
        ensures
            match r {
                Ok(v) => CompuVtab::head(old(cur)@) == Ok::<_, Failure>((v@, final(cur)@)),
                Err(e) => CompuVtab::head(old(cur)@) == Err::<(CompuVtabView, Cur), _>(e@),
            },
    {
        let base = CompuTabBase::read_head(cur)?;
        let _count = cur.uint::<u64>()?;
        let mut node = CompuVtab::default();
        node.base = base;
        Ok(node)
    }
}

impl CompuVtab {
    fn put(&mut self, key: i64, text: String)
        ensures
            final(self)@ == (CompuVtabView {
                verbs: with_text(old(self)@.verbs, key, text@),
                ..old(self)@
            }),
    {
        broadcast use vstd::std_specs::btree::group_btree_axioms;

        proof {
            lemma_key_order();
        }
        let ghost before = self.verbs@;
        if !self.verbs.contains_key(&key) {
            self.verbs.insert(key, text);
            proof {
                assert(text_map(self.verbs@) =~= text_map(before).insert(key, text@));
            }
        }
    }

    /// A line for each of the first keys.
    pub open spec fn lines(m: Map<i64, Seq<char>>, keys: Seq<i64>, n: int, p: Page) -> Page
        decreases n,
    {
        if n <= 0 {
            p
        } else {
            CompuVtab::lines(m, keys, n - 1, p).quote(
                dec_int(keys[n - 1] as int),
                m[keys[n - 1]],
            )
        }
    }

    fn write_verbs(&self, w: &mut Writer)
        ensures
            final(w)@ == CompuVtab::lines(
                self@.verbs,
                keys_of(self@.verbs),
                keys_of(self@.verbs).len() as int,
                old(w)@,
            ),
    {
        broadcast use vstd::std_specs::btree::group_btree_axioms;

        proof {
            lemma_key_order();
        }
        let ghost m = self@.verbs;
        let entries = self.verbs.iter();
        let ghost all = entries.remaining();
        let ghost keys = keys_listed(all);
        proof {
            lemma_keys_listed(self.verbs, all);
        }
        for (k, v) in it: entries
            invariant
                m == text_map(self.verbs@),
                it.seq() == all,
                keys == keys_listed(all),
                forall|i: int|
                    0 <= i < all.len() ==> m.contains_key(*(#[trigger] all[i]).0) && m[*all[i].0]
                        == all[i].1@,
                w@ == CompuVtab::lines(m, keys, it.index() as int, old(w)@),
        {
            w.quote(dec_int_text(*k).as_str(), v.as_str());
        }
    }

    fn count(&self) -> (r: usize)
        ensures
            r == self@.verbs.len(),
    {
        broadcast use vstd::std_specs::btree::group_btree_axioms;

        proof {
            lemma_key_order();
            assert(text_map(self.verbs@).dom() =~= self.verbs@.dom());
        }
        self.verbs.len()
    }
}

impl CompuVtab {
    /// What the parameters at the cursor set, and where the next ones start.
    pub open spec fn option(v: CompuVtabView, c: Cur) -> Got<CompuVtabView> {
        if c.at("DEFAULT_VALUE"@) {
            match read_string(c.step()) {
                Err(f) => Err(f),
                Ok((x, c0)) => {
                    Ok((CompuVtabView { base: CompuTabBaseView { default_value: Some(x), ..v.base }, ..v }, c0))
                },
            }
        } else {
            match read_number(c, "COMPU_VTAB: expected number, got "@) {
                Err(f) => Err(f),
                Ok((key, c0)) => {
                    match read_string(c0) {
                        Err(f) => Err(f),
                        Ok((value, c1)) => {
                            Ok((CompuVtabView { verbs: with_text(v.verbs, key.rounded as i64, value), ..v }, c1))
                        },
                    }
                },
            }
        }
    }

    /// What all the parameters from the cursor on set, and where reading them ends.
    pub open spec fn options(v: CompuVtabView, c: Cur) -> Got<CompuVtabView>
        decreases c.left(),
    {
        if !c.more() {
            Ok((v, c))
        } else {
            match CompuVtab::option(v, c) {
                Err(f) => Err(f),
                Ok((w, n)) => if 0 <= n.left() < c.left() {
                    CompuVtab::options(w, n)
                } else {
                    arbitrary()
                },
            }
        }
    }

    fn read_option(&mut self, cur: &mut ParamCursor) -> (r: Result<()>)
        requires
            old(cur)@.more(),
        ensures
            match r {
                Ok(()) => {
                    &&& CompuVtab::option(old(self)@, old(cur)@) == Ok::<_, Failure>(
                        (final(self)@, final(cur)@),
                    )
                    &&& 0 <= final(cur)@.left() < old(cur)@.left()
                },
                Err(e) => CompuVtab::option(old(self)@, old(cur)@) == Err::<(CompuVtabView, Cur), _>(e@),
            },
    {
        if cur.take_if("DEFAULT_VALUE") {
            let x = cur.string()?;
            self.base.default_value = Some(x);
            return Ok(());
        }
        let key = number(cur, "COMPU_VTAB: expected number, got ")?;
        let value = cur.string()?;
        self.put(key.rounded, value);
        Ok(())
    }

    fn read_options(&mut self, cur: &mut ParamCursor) -> (r: Result<()>)
        ensures
            match r {
                Ok(()) => {
                    &&& CompuVtab::options(old(self)@, old(cur)@) == Ok::<_, Failure>(
                        (final(self)@, final(cur)@),
                    )
                    &&& final(cur)@.left() <= old(cur)@.left()
                    &&& final(cur)@ == old(cur)@ || final(cur)@.left() >= 0
                },
                Err(e) => CompuVtab::options(old(self)@, old(cur)@) == Err::<(CompuVtabView, Cur), _>(e@),
            },
    {
        let ghost whole = CompuVtab::options(self@, cur@);
        while !cur.is_empty()
            invariant
                whole == CompuVtab::options(self@, cur@),
                whole == CompuVtab::options(old(self)@, old(cur)@),
                cur@.left() <= old(cur)@.left(),
                cur@ == old(cur)@ || cur@.left() >= 0,
            decreases cur@.left(),
        {
            self.read_option(cur)?;
        }
        Ok(())
    }
}

impl Node for CompuVtab {
    open spec fn keyword_text() -> Seq<char> {
        "COMPU_VTAB"@
    }

    open spec fn parsed(tree: Tree) -> std::result::Result<CompuVtabView, Failure> {
        match CompuVtab::head(Cur::start(tree)) {
            Err(f) => Err(f),
            Ok((v, c)) => match CompuVtab::options(v, c) {
                Err(f) => Err(f),
                Ok((v, _)) => Ok(v),
            },
        }
    }

    open spec fn body(v: CompuVtabView, p: Page) -> Written {
        let p = CompuTabBase::written(v.base, true, p);
        let p = p.line(dec(v.verbs.len()));
        let p = CompuVtab::lines(v.verbs, keys_of(v.verbs), keys_of(v.verbs).len() as int, p);
        let p = CompuTabBase::default_written(v.base, p);
        Ok(p)
    }

    open spec fn block(v: CompuVtabView, p: Page) -> Written {
        enclosed("COMPU_VTAB"@, Self::body(v, p.begin("COMPU_VTAB "@ + v.base.name)))
    }

    fn keyword() -> (r: &'static str) {
        "COMPU_VTAB"
    }

    fn parse(block: &Block) -> (r: Result<Self>) {
        let mut cur = ParamCursor::new(block);
        let mut node = CompuVtab::read_head(&mut cur)?;
        node.read_options(&mut cur)?;
        Ok(node)
    }

    fn write_body(&self, w: &mut Writer) -> (r: Result<()>) {
        self.base.write_base(w, true);
        w.line(dec_text(self.count() as u64).as_str());
        self.write_verbs(w);
        self.base.write_default_value(w);
        Ok(())
    }

    fn write_block(&self, w: &mut Writer) -> (r: Result<()>) {
        let mut s = "COMPU_VTAB ".to_string();
        s.append(self.base.name.as_str());
        w.begin_block(s.as_str());
        self.write_body(w)?;
        w.end_block("COMPU_VTAB");
        Ok(())
    }
}

/// `COMPU_VTAB_RANGE`: a table of texts for ranges of numbers.
#[derive(Debug, PartialEq, Eq)]
pub struct CompuVtabRange {
    pub base: CompuTabBase,
    pub verbs: IndexMap<String, Vec<(Number, Number)>>,
}

/// [`CompuVtabRange`] as a mathematical value.
pub struct CompuVtabRangeView {
    pub base: CompuTabBaseView,
    pub verbs: Seq<(Seq<char>, Seq<(Num, Num)>)>,
}

impl View for CompuVtabRange {
    type V = CompuVtabRangeView;

    open spec fn view(&self) -> CompuVtabRangeView {
        CompuVtabRangeView {
            base: self.base@,
            verbs: range_entries(self.verbs),
        }
    }
}

impl CompuVtabRange {
    /// The node before anything is read.
    pub open spec fn blank() -> CompuVtabRangeView {
        CompuVtabRangeView {
            base: CompuTabBase::blank(),
            verbs: Seq::empty(),
        }
    }
}

impl Default for CompuVtabRange {
    fn default() -> (r: Self)
        ensures
            r@ == CompuVtabRange::blank(),
    {
        CompuVtabRange {
            base: CompuTabBase::default(),
            verbs: new_ranges(),
        }
    }
}

impl Clone for CompuVtabRange {
    fn clone(&self) -> (r: Self)
        ensures
            r@ == self@,
    {
        CompuVtabRange { base: self.base.clone(), verbs: copy_ranges(&self.verbs) }
    }
}

impl CompuVtabRange {
    /// What the parameters at the start say, and where the next ones start.
    pub open spec fn head(c: Cur) -> Got<CompuVtabRangeView> {
        let v = CompuVtabRange::blank();
        match read_ident(c) {
            Err(f) => Err(f),
            Ok((name, c0)) => {
                match read_string(c0) {
                    Err(f) => Err(f),
                    Ok((description, c1)) => {
                        match read_uint(c1, u64::MAX as int) {
                            Err(f) => Err(f),
                            Ok((_count, c2)) => {
                                Ok(
                                    (
                                        CompuVtabRangeView {
                                            base: CompuTabBaseView {
                                                name,
                                                description: Some(description),
                                                ..v.base
                                            },
                                            ..v
                                        },
                                        c2
                                    )
                                )
                            },
                        }
                    },
                }
            },
        }
    }

    fn read_head(cur: &mut ParamCursor) -> (r: Result<Self>)
        ensures
            match r {
                Ok(v) => CompuVtabRange::head(old(cur)@) == Ok::<_, Failure>((v@, final(cur)@)),
                Err(e) => CompuVtabRange::head(old(cur)@) == Err::<(CompuVtabRangeView, Cur), _>(e@),
            },
    {
        let name = cur.ident()?;
        let description = cur.string()?;
        let _count = cur.uint::<u64>()?;
        let mut node = CompuVtabRange::default();
        node.base.name = name;
        node.base.description = Some(description);
        Ok(node)
    }
}

/// Entries with a range put behind those of a text, which comes last if it is new.
pub open spec fn with_range(
    s: Seq<(Seq<char>, Seq<(Num, Num)>)>,
    text: Seq<char>,
    min: Num,
    max: Num,
) -> Seq<(Seq<char>, Seq<(Num, Num)>)> {
    let known = if place(s, text) < s.len() {
        s[place(s, text)].1
    } else {
        Seq::empty()
    };
    with_entry(s, text, known.push((min, max)))
}

/// The number of ranges of the first entries.
pub open spec fn range_total(s: Seq<(Seq<char>, Seq<(Num, Num)>)>, n: int) -> nat
    decreases n,
{
    if n <= 0 {
        0
    } else {
        range_total(s, n - 1) + s[n - 1].1.len()
    }
}

impl CompuVtabRange {
    fn put(&mut self, text: String, min: Number, max: Number)
        ensures
            final(self)@ == (CompuVtabRangeView {
                verbs: with_range(old(self)@.verbs, text@, min@, max@),
                ..old(self)@
            }),
    {
        let mut known: Vec<(Number, Number)> = match ranges_of(&self.verbs, text.as_str()) {
            Some(v) => copy_pairs(v),
            None => {
                let none: Vec<(Number, Number)> = Vec::new();
                proof {
                    assert(pairs(none@) =~= Seq::<(Num, Num)>::empty());
                }
                none
            },
        };
        let ghost before = pairs(known@);
        known.push((min, max));
        proof {
            assert(pairs(known@) =~= before.push((min@, max@)));
        }
        insert_ranges(&mut self.verbs, text, known);
    }

    /// A line for each of the first ranges of a text.
    pub open spec fn range_lines(text: Seq<char>, s: Seq<(Num, Num)>, n: int, p: Page) -> Page
        decreases n,
    {
        if n <= 0 {
            p
        } else {
            CompuVtabRange::range_lines(text, s, n - 1, p).line(
                s[n - 1].0.text + " "@ + s[n - 1].1.text + " \""@ + escaped(text) + "\""@,
            )
        }
    }

    /// The lines of the first texts.
    pub open spec fn lines(s: Seq<(Seq<char>, Seq<(Num, Num)>)>, n: int, p: Page) -> Page
        decreases n,
    {
        if n <= 0 {
            p
        } else {
            CompuVtabRange::range_lines(
                s[n - 1].0,
                s[n - 1].1,
                s[n - 1].1.len() as int,
                CompuVtabRange::lines(s, n - 1, p),
            )
        }
    }

    fn write_ranges(text: &str, s: &Vec<(Number, Number)>, w: &mut Writer)
        ensures
            final(w)@ == CompuVtabRange::range_lines(
                text@,
                pairs(s@),
                s@.len() as int,
                old(w)@,
            ),
    {
        let mut i: usize = 0;
        while i < s.len()
            invariant
                i <= s@.len(),
                w@ == CompuVtabRange::range_lines(text@, pairs(s@), i as int, old(w)@),
            decreases s@.len() - i,
        {
            let (min, max) = &s[i];
            let mut line = min.text.clone();
            line.append(" ");
            line.append(max.text.as_str());
            line.append(" \"");
            line.append(escape_str(text).as_str());
            line.append("\"");
            w.line(line.as_str());
            i += 1;
        }
    }

    fn write_verbs(&self, w: &mut Writer)
        ensures
            final(w)@ == CompuVtabRange::lines(
                self@.verbs,
                self@.verbs.len() as int,
                old(w)@,
            ),
    {
        let n: usize = count_ranges(&self.verbs);
        let mut i: usize = 0;
        while i < n
            invariant
                i <= n,
                n == self@.verbs.len(),
                w@ == CompuVtabRange::lines(self@.verbs, i as int, old(w)@),
            decreases n - i,
        {
            if let Some((text, ranges)) = ranges_at(&self.verbs, i) {
                CompuVtabRange::write_ranges(text.as_str(), ranges, w);
            }
            i += 1;
        }
    }

    fn count(&self) -> (r: u128)
        ensures
            r == range_total(self@.verbs, self@.verbs.len() as int),
    {
        let n: usize = count_ranges(&self.verbs);
        let mut total: u128 = 0;
        let mut i: usize = 0;
        while i < n
            invariant
                i <= n,
                n == self@.verbs.len(),
                total == range_total(self@.verbs, i as int),
                total <= i * usize::MAX,
            decreases n - i,
        {
            if let Some((_, ranges)) = ranges_at(&self.verbs, i) {
                proof {
                    assert(i * usize::MAX + usize::MAX == (i + 1) * usize::MAX)
                        by (nonlinear_arith);
                    assert((i + 1) * usize::MAX <= u64::MAX * u64::MAX) by (nonlinear_arith)
                        requires
                            0 <= i < usize::MAX <= u64::MAX,
                    ;
                }
                total = total + ranges.len() as u128;
            }
            i += 1;
        }
        total
    }
}

fn copy_pairs(v: &Vec<(Number, Number)>) -> (r: Vec<(Number, Number)>)
    ensures
        pairs(r@) == pairs(v@),
{
    let mut out: Vec<(Number, Number)> = Vec::new();
    let mut i: usize = 0;
    proof {
        assert(pairs(out@) =~= pairs(v@).subrange(0, 0));
    }
    while i < v.len()
        invariant
            i <= v@.len(),
            pairs(out@) == pairs(v@).subrange(0, i as int),
        decreases v@.len() - i,
    {
        let ghost before = pairs(out@);
        let x = (v[i].0.clone(), v[i].1.clone());
        out.push(x);
        i += 1;
        proof {
            assert(pairs(out@) =~= before.push((x.0@, x.1@)));
            assert(pairs(out@) =~= pairs(v@).subrange(0, i as int));
        }
    }
    proof {
        assert(pairs(v@).subrange(0, i as int) =~= pairs(v@));
    }
    out
}

impl CompuVtabRange {
    /// What the parameters at the cursor set, and where the next ones start.
    pub open spec fn option(v: CompuVtabRangeView, c: Cur) -> Got<CompuVtabRangeView> {
        if c.at("DEFAULT_VALUE"@) {
            match read_string(c.step()) {
                Err(f) => Err(f),
                Ok((x, c0)) => {
                    Ok(
                        (
                            CompuVtabRangeView {
                                base: CompuTabBaseView { default_value: Some(x), ..v.base },
                                ..v
                            },
                            c0
                        )
                    )
                },
            }
        } else {
            match read_number(c, "COMPU_VTAB_RANGE: expected number, got "@) {
                Err(f) => Err(f),
                Ok((min, c0)) => {
                    match read_float(c0) {
                        Err(f) => Err(f),
                        Ok((max, c1)) => {
                            match read_string(c1) {
                                Err(f) => Err(f),
                                Ok((text, c2)) => {
                                    Ok(
                                        (
                                            CompuVtabRangeView {
                                                verbs: with_range(v.verbs, text, min, max),
                                                ..v
                                            },
                                            c2
                                        )
                                    )
                                },
                            }
                        },
                    }
                },
            }
        }
    }

    /// What all the parameters from the cursor on set, and where reading them ends.
    pub open spec fn options(v: CompuVtabRangeView, c: Cur) -> Got<CompuVtabRangeView>
        decreases c.left(),
    {
        if !c.more() {
            Ok((v, c))
        } else {
            match CompuVtabRange::option(v, c) {
                Err(f) => Err(f),
                Ok((w, n)) => if 0 <= n.left() < c.left() {
                    CompuVtabRange::options(w, n)
                } else {
                    arbitrary()
                },
            }
        }
    }

    fn read_option(&mut self, cur: &mut ParamCursor) -> (r: Result<()>)
        requires
            old(cur)@.more(),
        ensures
            match r {
                Ok(()) => {
                    &&& CompuVtabRange::option(old(self)@, old(cur)@) == Ok::<_, Failure>(
                        (final(self)@, final(cur)@),
                    )
                    &&& 0 <= final(cur)@.left() < old(cur)@.left()
                },
                Err(e) => CompuVtabRange::option(old(self)@, old(cur)@) == Err::<(CompuVtabRangeView, Cur), _>(e@),
            },
    {
        if cur.take_if("DEFAULT_VALUE") {
            let x = cur.string()?;
            self.base.default_value = Some(x);
            return Ok(());
        }
        let min = number(cur, "COMPU_VTAB_RANGE: expected number, got ")?;
        let max = cur.float()?;
        let text = cur.string()?;
        self.put(text, min, max);
        Ok(())
    }

    fn read_options(&mut self, cur: &mut ParamCursor) -> (r: Result<()>)
        ensures
            match r {
                Ok(()) => {
                    &&& CompuVtabRange::options(old(self)@, old(cur)@) == Ok::<_, Failure>(
                        (final(self)@, final(cur)@),
                    )
                    &&& final(cur)@.left() <= old(cur)@.left()
                    &&& final(cur)@ == old(cur)@ || final(cur)@.left() >= 0
                },
                Err(e) => CompuVtabRange::options(old(self)@, old(cur)@) == Err::<(CompuVtabRangeView, Cur), _>(e@),
            },
    {
        let ghost whole = CompuVtabRange::options(self@, cur@);
        while !cur.is_empty()
            invariant
                whole == CompuVtabRange::options(self@, cur@),
                whole == CompuVtabRange::options(old(self)@, old(cur)@),
                cur@.left() <= old(cur)@.left(),
                cur@ == old(cur)@ || cur@.left() >= 0,
            decreases cur@.left(),
        {
            self.read_option(cur)?;
        }
        Ok(())
    }
}

impl Node for CompuVtabRange {
    open spec fn keyword_text() -> Seq<char> {
        "COMPU_VTAB_RANGE"@
    }

    open spec fn parsed(tree: Tree) -> std::result::Result<CompuVtabRangeView, Failure> {
        match CompuVtabRange::head(Cur::start(tree)) {
            Err(f) => Err(f),
            Ok((v, c)) => match CompuVtabRange::options(v, c) {
                Err(f) => Err(f),
                Ok((v, _)) => Ok(v),
            },
        }
    }

    open spec fn body(v: CompuVtabRangeView, p: Page) -> Written {
        let p = CompuTabBase::written(v.base, false, p);
        let p = p.line(dec(range_total(v.verbs, v.verbs.len() as int)));
        let p = CompuVtabRange::lines(v.verbs, v.verbs.len() as int, p);
        let p = CompuTabBase::default_written(v.base, p);
        Ok(p)
    }

    open spec fn block(v: CompuVtabRangeView, p: Page) -> Written {
        enclosed("COMPU_VTAB_RANGE"@, Self::body(v, p.begin("COMPU_VTAB_RANGE "@ + v.base.name)))
    }

    fn keyword() -> (r: &'static str) {
        "COMPU_VTAB_RANGE"
    }

    fn parse(block: &Block) -> (r: Result<Self>) {
        let mut cur = ParamCursor::new(block);
        let mut node = CompuVtabRange::read_head(&mut cur)?;
        node.read_options(&mut cur)?;
        Ok(node)
    }

    fn write_body(&self, w: &mut Writer) -> (r: Result<()>) {
        self.base.write_base(w, false);
        w.line(dec_wide_text(self.count()).as_str());
        self.write_verbs(w);
        self.base.write_default_value(w);
        Ok(())
    }

    fn write_block(&self, w: &mut Writer) -> (r: Result<()>) {
        let mut s = "COMPU_VTAB_RANGE ".to_string();
        s.append(self.base.name.as_str());
        w.begin_block(s.as_str());
        self.write_body(w)?;
        w.end_block("COMPU_VTAB_RANGE");
        Ok(())
    }
}

/// `BIT_OPERATION`: a shift.
#[derive(Debug, Clone, PartialEq, Eq)]
pub struct BitOperation {
    pub bit_operation: BitOperationType,
    pub count: i32,
    /// `SIGN_EXTEND`.
    pub sign_extend: bool,
}

/// [`BitOperation`] as a mathematical value.
pub struct BitOperationView {
    pub bit_operation: BitOperationType,
    pub count: i32,
    pub sign_extend: bool,
}

impl View for BitOperation {
    type V = BitOperationView;

    open spec fn view(&self) -> BitOperationView {
        BitOperationView {
            bit_operation: self.bit_operation,
            count: self.count,
            sign_extend: self.sign_extend,
        }
    }
}

impl BitOperation {
    /// The node before anything is read.
    pub open spec fn blank() -> BitOperationView {
        BitOperationView {
            bit_operation: BitOperationType::blank(),
            count: 0,
            sign_extend: false,
        }
    }
}

impl Default for BitOperation {
    fn default() -> (r: Self)
        ensures
            r@ == BitOperation::blank(),
    {
        BitOperation {
            bit_operation: BitOperationType::default(),
            count: 0,
            sign_extend: false,
        }
    }
}

impl BitOperation {
    /// What the parameters at the cursor set, and where the next ones start.
    pub open spec fn option(v: BitOperationView, c: Cur) -> Got<BitOperationView> {
        if c.at("LEFT_SHIFT"@) {
            match read_int(c.step(), i32::MIN as int, i32::MAX as int) {
                Err(f) => Err(f),
                Ok((x, c0)) => {
                    Ok(
                        (
                            BitOperationView {
                                bit_operation: BitOperationType::LEFT_SHIFT,
                                count: (x as i32),
                                ..v
                            },
                            c0
                        )
                    )
                },
            }
        } else if c.at("RIGHT_SHIFT"@) {
            match read_int(c.step(), i32::MIN as int, i32::MAX as int) {
                Err(f) => Err(f),
                Ok((x, c0)) => {
                    Ok(
                        (
                            BitOperationView {
                                bit_operation: BitOperationType::RIGHT_SHIFT,
                                count: (x as i32),
                                ..v
                            },
                            c0
                        )
                    )
                },
            }
        } else if c.at("SIGN_EXTEND"@) {
            Ok((BitOperationView { sign_extend: true, ..v }, c.step()))
        } else {
            match read_token(c) {
                Err(f) => Err(f),
                Ok((_t, c0)) => {
                    Ok((v, c0))
                },
            }
        }
    }

    /// What all the parameters from the cursor on set, and where reading them ends.
    pub open spec fn options(v: BitOperationView, c: Cur) -> Got<BitOperationView>
        decreases c.left(),
    {
        if !c.more() {
            Ok((v, c))
        } else {
            match BitOperation::option(v, c) {
                Err(f) => Err(f),
                Ok((w, n)) => if 0 <= n.left() < c.left() {
                    BitOperation::options(w, n)
                } else {
                    arbitrary()
                },
            }
        }
    }

    fn read_option(&mut self, cur: &mut ParamCursor) -> (r: Result<()>)
        requires
            old(cur)@.more(),
        ensures
            match r {
                Ok(()) => {
                    &&& BitOperation::option(old(self)@, old(cur)@) == Ok::<_, Failure>(
                        (final(self)@, final(cur)@),
                    )
                    &&& 0 <= final(cur)@.left() < old(cur)@.left()
                },
                Err(e) => BitOperation::option(old(self)@, old(cur)@) == Err::<(BitOperationView, Cur), _>(e@),
            },
    {
        if cur.take_if("LEFT_SHIFT") {
            let x = cur.sint::<i32>()?;
            self.bit_operation = BitOperationType::LEFT_SHIFT;
            self.count = x;
            return Ok(());
        }
        if cur.take_if("RIGHT_SHIFT") {
            let x = cur.sint::<i32>()?;
            self.bit_operation = BitOperationType::RIGHT_SHIFT;
            self.count = x;
            return Ok(());
        }
        if cur.take_if("SIGN_EXTEND") {
            self.sign_extend = true;
            return Ok(());
        }
        let _t = cur.next_token()?;
        Ok(())
    }

    fn read_options(&mut self, cur: &mut ParamCursor) -> (r: Result<()>)
        ensures
            match r {
                Ok(()) => {
                    &&& BitOperation::options(old(self)@, old(cur)@) == Ok::<_, Failure>(
                        (final(self)@, final(cur)@),
                    )
                    &&& final(cur)@.left() <= old(cur)@.left()
                    &&& final(cur)@ == old(cur)@ || final(cur)@.left() >= 0
                },
                Err(e) => BitOperation::options(old(self)@, old(cur)@) == Err::<(BitOperationView, Cur), _>(e@),
            },
    {
        let ghost whole = BitOperation::options(self@, cur@);
        while !cur.is_empty()
            invariant
                whole == BitOperation::options(self@, cur@),
                whole == BitOperation::options(old(self)@, old(cur)@),
                cur@.left() <= old(cur)@.left(),
                cur@ == old(cur)@ || cur@.left() >= 0,
            decreases cur@.left(),
        {
            self.read_option(cur)?;
        }
        Ok(())
    }
}

impl Node for BitOperation {
    open spec fn keyword_text() -> Seq<char> {
        "BIT_OPERATION"@
    }

    open spec fn parsed(tree: Tree) -> std::result::Result<BitOperationView, Failure> {
        match BitOperation::options(BitOperation::blank(), Cur::start(tree)) {
            Err(f) => Err(f),
            Ok((v, _)) => Ok(v),
        }
    }

    open spec fn body(v: BitOperationView, p: Page) -> Written {
        let p = match v.bit_operation.word() { Some(kw) => p.word(kw, dec_int(v.count as int)), None => p };
        let p = if v.sign_extend { p.line("SIGN_EXTEND"@) } else { p };
        Ok(p)
    }

    open spec fn block(v: BitOperationView, p: Page) -> Written {
        enclosed("BIT_OPERATION"@, Self::body(v, p.begin("BIT_OPERATION"@)))
    }

    fn keyword() -> (r: &'static str) {
        "BIT_OPERATION"
    }

    fn parse(block: &Block) -> (r: Result<Self>) {
        let mut cur = ParamCursor::new(block);
        let mut node = BitOperation::default();
        node.read_options(&mut cur)?;
        Ok(node)
    }

    fn write_body(&self, w: &mut Writer) -> (r: Result<()>) {
        if let Some(kw) = self.bit_operation.as_keyword() {
            w.word(kw, dec_int_text(self.count as i64).as_str());
        }
        if self.sign_extend {
            w.line("SIGN_EXTEND");
        }
        Ok(())
    }

    fn write_block(&self, w: &mut Writer) -> (r: Result<()>) {
        w.begin_block("BIT_OPERATION");
        self.write_body(w)?;
        w.end_block("BIT_OPERATION");
        Ok(())
    }
}

/// `FIX_AXIS_PAR_LIST`: the points of an axis.
#[derive(Debug, Clone, PartialEq, Eq)]
pub struct FixAxisParList {
    pub values: Vec<Number>,
}

/// [`FixAxisParList`] as a mathematical value.
pub struct FixAxisParListView {
    pub values: Seq<Num>,
}

impl View for FixAxisParList {
    type V = FixAxisParListView;

    open spec fn view(&self) -> FixAxisParListView {
        FixAxisParListView {
            values: views(self.values@),
        }
    }
}

impl FixAxisParList {
    /// The node before anything is read.
    pub open spec fn blank() -> FixAxisParListView {
        FixAxisParListView {
            values: Seq::empty(),
        }
    }
}

impl Default for FixAxisParList {
    fn default() -> (r: Self)
        ensures
            r@ == FixAxisParList::blank(),
    {
        FixAxisParList {
            values: none_yet(),
        }
    }
}

impl FixAxisParList {
    /// What the parameters at the cursor set, and where the next ones start.
    pub open spec fn option(v: FixAxisParListView, c: Cur) -> Got<FixAxisParListView> {
        match read_float(c) {
            Err(f) => Err(f),
            Ok((x, c0)) => {
                Ok((FixAxisParListView { values: v.values.push(x) }, c0))
            },
        }
    }

    /// What all the parameters from the cursor on set, and where reading them ends.
    pub open spec fn options(v: FixAxisParListView, c: Cur) -> Got<FixAxisParListView>
        decreases c.left(),
    {
        if !c.more() {
            Ok((v, c))
        } else {
            match FixAxisParList::option(v, c) {
                Err(f) => Err(f),
                Ok((w, n)) => if 0 <= n.left() < c.left() {
                    FixAxisParList::options(w, n)
                } else {
                    arbitrary()
                },
            }
        }
    }

    fn read_option(&mut self, cur: &mut ParamCursor) -> (r: Result<()>)
        requires
            old(cur)@.more(),
        ensures
            match r {
                Ok(()) => {
                    &&& FixAxisParList::option(old(self)@, old(cur)@) == Ok::<_, Failure>(
                        (final(self)@, final(cur)@),
                    )
                    &&& 0 <= final(cur)@.left() < old(cur)@.left()
                },
                Err(e) => FixAxisParList::option(old(self)@, old(cur)@) == Err::<(FixAxisParListView, Cur), _>(e@),
            },
    {
        let x = cur.float()?;
        append(&mut self.values, x);
        Ok(())
    }

    fn read_options(&mut self, cur: &mut ParamCursor) -> (r: Result<()>)
        ensures
            match r {
                Ok(()) => {
                    &&& FixAxisParList::options(old(self)@, old(cur)@) == Ok::<_, Failure>(
                        (final(self)@, final(cur)@),
                    )
                    &&& final(cur)@.left() <= old(cur)@.left()
                    &&& final(cur)@ == old(cur)@ || final(cur)@.left() >= 0
                },
                Err(e) => FixAxisParList::options(old(self)@, old(cur)@) == Err::<(FixAxisParListView, Cur), _>(e@),
            },
    {
        let ghost whole = FixAxisParList::options(self@, cur@);
        while !cur.is_empty()
            invariant
                whole == FixAxisParList::options(self@, cur@),
                whole == FixAxisParList::options(old(self)@, old(cur)@),
                cur@.left() <= old(cur)@.left(),
                cur@ == old(cur)@ || cur@.left() >= 0,
            decreases cur@.left(),
        {
            self.read_option(cur)?;
        }
        Ok(())
    }
}

impl FixAxisParList {
    /// A line for each of the first numbers.
    pub open spec fn lines(s: Seq<Num>, n: int, p: Page) -> Page
        decreases n,
    {
        if n <= 0 {
            p
        } else {
            FixAxisParList::lines(s, n - 1, p).line(s[n - 1].text)
        }
    }

    fn write_values(&self, w: &mut Writer)
        ensures
            final(w)@ == FixAxisParList::lines(self@.values, self@.values.len() as int, old(w)@),
    {
        let mut i: usize = 0;
        while i < self.values.len()
            invariant
                i <= self.values@.len(),
                w@ == FixAxisParList::lines(self@.values, i as int, old(w)@),
            decreases self.values@.len() - i,
        {
            w.line(self.values[i].text.as_str());
            i += 1;
        }
    }
}

impl Node for FixAxisParList {
    open spec fn keyword_text() -> Seq<char> {
        "FIX_AXIS_PAR_LIST"@
    }

    open spec fn parsed(tree: Tree) -> std::result::Result<FixAxisParListView, Failure> {
        match FixAxisParList::options(FixAxisParList::blank(), Cur::start(tree)) {
            Err(f) => Err(f),
            Ok((v, _)) => Ok(v),
        }
    }

    open spec fn body(v: FixAxisParListView, p: Page) -> Written {
        let p = FixAxisParList::lines(v.values, v.values.len() as int, p);
        Ok(p)
    }

    open spec fn block(v: FixAxisParListView, p: Page) -> Written {
        enclosed("FIX_AXIS_PAR_LIST"@, Self::body(v, p.begin("FIX_AXIS_PAR_LIST"@)))
    }

    fn keyword() -> (r: &'static str) {
        "FIX_AXIS_PAR_LIST"
    }

    fn parse(block: &Block) -> (r: Result<Self>) {
        let mut cur = ParamCursor::new(block);
        let mut node = FixAxisParList::default();
        node.read_options(&mut cur)?;
        Ok(node)
    }

    fn write_body(&self, w: &mut Writer) -> (r: Result<()>) {
        self.write_values(w);
        Ok(())
    }

    fn write_block(&self, w: &mut Writer) -> (r: Result<()>) {
        w.begin_block("FIX_AXIS_PAR_LIST");
        self.write_body(w)?;
        w.end_block("FIX_AXIS_PAR_LIST");
        Ok(())
    }
}

} // verus!
