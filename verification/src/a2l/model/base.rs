//! Groups of parameters that several nodes share: name and description, address, conversion,
//! record layout, and references.

use crate::a2l::error::{Error, Failure, Result};
use crate::a2l::model::enums::{A2lKeyword, CalibrationAccess, ScalingUnits};
use crate::a2l::model::parts::{enum_value, float_pair, read_enum, read_pair};
use crate::a2l::number::{Num, Number, num_zero};
use crate::a2l::params::{
    A2lUint, Cur, Got, ParamCursor, read_float, read_ident, read_int, read_string, read_token,
    uint_in,
};
use crate::a2l::writer::{Page, Writer, quote};
use crate::text::{
    debug_of, debug_text, dec, dec_int, dec_int_text, dec_text, eq_ignore_case, lemma_differ,
    lemma_same, same_ignore_case,
};
use crate::views::{append, no_text, none_yet, opt, opt_pair, views};
use vstd::prelude::*;

verus! {

/// Order of the bytes of a value.
#[allow(non_camel_case_types)]
#[derive(Debug, Clone, Copy, PartialEq, Eq, Hash, Structural)]
pub enum ByteOrder {
    NotSet,
    MSB_FIRST,
    MSB_LAST,
}

impl Default for ByteOrder {
    fn default() -> (r: Self)
        ensures
            r == ByteOrder::NotSet,
    {
        ByteOrder::NotSet
    }
}

impl ByteOrder {
    /// The value that is taken where none is given.
    pub open spec fn blank() -> ByteOrder {
        ByteOrder::NotSet
    }
}

impl A2lKeyword for ByteOrder {
    open spec fn word(self) -> Option<Seq<char>> {
        match self {
            ByteOrder::MSB_FIRST => Some("MSB_FIRST"@),
            ByteOrder::MSB_LAST => Some("MSB_LAST"@),
            ByteOrder::NotSet => None,
        }
    }

    open spec fn named(kw: Seq<char>) -> Option<Self> {
        if same_ignore_case(kw, "MSB_FIRST"@) {
            Some(ByteOrder::MSB_FIRST)
        } else if same_ignore_case(kw, "MSB_LAST"@) {
            Some(ByteOrder::MSB_LAST)
        } else {
            None
        }
    }

    fn as_keyword(self) -> (r: Option<&'static str>) {
        match self {
            ByteOrder::MSB_FIRST => Some("MSB_FIRST"),
            ByteOrder::MSB_LAST => Some("MSB_LAST"),
            ByteOrder::NotSet => None,
        }
    }

    fn from_keyword(kw: &str) -> (r: Option<Self>) {
        if eq_ignore_case(kw, "MSB_FIRST") {
            Some(ByteOrder::MSB_FIRST)
        } else if eq_ignore_case(kw, "MSB_LAST") {
            Some(ByteOrder::MSB_LAST)
        } else {
            None
        }
    }

    proof fn law_named_of_word(self) {
        reveal_strlit("MSB_FIRST");
        reveal_strlit("MSB_LAST");
        match self {
            ByteOrder::MSB_FIRST => {
                lemma_same("MSB_FIRST"@);
            },
            ByteOrder::MSB_LAST => {
                lemma_same("MSB_LAST"@);
                lemma_differ("MSB_LAST"@, "MSB_FIRST"@, 0);
            },
            ByteOrder::NotSet => {},
        }
    }

    proof fn law_word_of_named(kw: Seq<char>) {
    }
}

/// The unit that a number stands for.
fn scaling_unit_from_u32(v: u32) -> (r: Option<ScalingUnits>)
    ensures
        match r {
            Some(u) => u.number() == v,
            None => forall|u: ScalingUnits| #[trigger] u.number() != v,
        },
{
    match v {
        0 => Some(ScalingUnits::Time_1uSec),
        1 => Some(ScalingUnits::Time_10uSec),
        2 => Some(ScalingUnits::Time_100uSec),
        3 => Some(ScalingUnits::Time_1mSec),
        4 => Some(ScalingUnits::Time_10mSec),
        5 => Some(ScalingUnits::Time_100mSec),
        6 => Some(ScalingUnits::Time_1Sec),
        7 => Some(ScalingUnits::Time_10Sec),
        8 => Some(ScalingUnits::Time_1Min),
        9 => Some(ScalingUnits::Time_1Hour),
        10 => Some(ScalingUnits::Time_1Day),
        100 => Some(ScalingUnits::AngularDegrees),
        101 => Some(ScalingUnits::Revolutions),
        102 => Some(ScalingUnits::Cycle),
        103 => Some(ScalingUnits::CylinderSegmentCombustion),
        998 => Some(ScalingUnits::FrameAvailableEvent),
        999 => Some(ScalingUnits::AlwaysOnNewValue),
        1000 => Some(ScalingUnits::NonDeternministic),
        _ => None,
    }
}

/// The unit of a refresh rate: one that is not set, or one given by its number.
pub open spec fn is_refresh_unit(v: int, unit: Option<ScalingUnits>) -> bool {
    match unit {
        Some(u) => v != 2147483647 && u.number() == v,
        None => v == 2147483647,
    }
}

/// The unit of a refresh rate.
pub open spec fn read_refresh_unit(c: Cur) -> Got<Option<ScalingUnits>> {
    match read_token(c) {
        Err(f) => Err(f),
        Ok((t, n)) => match uint_in(t.text, u32::MAX as int) {
            None => Err(
                Failure::Parse(t.line, "MAX_REFRESH: expected integer, got "@ + debug_of(t.text)),
            ),
            Some(v) => if exists|unit: Option<ScalingUnits>| is_refresh_unit(v, unit) {
                Ok((choose|unit: Option<ScalingUnits>| is_refresh_unit(v, unit), n))
            } else {
                Err(Failure::Parse(t.line, "MAX_REFRESH: unknown scaling unit "@ + dec(v as nat)))
            },
        },
    }
}

/// A unit is known by its number.
pub(crate) proof fn lemma_refresh_unit(v: int, a: Option<ScalingUnits>, b: Option<ScalingUnits>)
    requires
        is_refresh_unit(v, a),
        is_refresh_unit(v, b),
    ensures
        a == b,
{
}

fn refresh_unit(cur: &mut ParamCursor) -> (r: Result<Option<ScalingUnits>>)
    ensures
        match r {
            Ok(v) => {
                &&& read_refresh_unit(old(cur)@) == Ok::<_, Failure>((v, final(cur)@))
                &&& 0 <= final(cur)@.left() < old(cur)@.left()
            },
            Err(e) => read_refresh_unit(old(cur)@) == Err::<(Option<ScalingUnits>, Cur), _>(e@),
        },
{
    let t = cur.next_token()?;
    let v: u32 = match <u32 as A2lUint>::parse_a2l(t.text.as_str()) {
        Some(v) => v,
        None => {
            let mut m = "MAX_REFRESH: expected integer, got ".to_string();
            m.append(debug_text(t.text.as_str()).as_str());
            return Err(Error::parse(t.line, m));
        },
    };
    let unit: Option<ScalingUnits> = if v == 2147483647 {
        None
    } else {
        match scaling_unit_from_u32(v) {
            Some(u) => Some(u),
            None => {
                let mut m = "MAX_REFRESH: unknown scaling unit ".to_string();
                m.append(dec_text(v as u64).as_str());
                return Err(Error::parse(t.line, m));
            },
        }
    };
    proof {
        let other = choose|unit: Option<ScalingUnits>| is_refresh_unit(v as int, unit);
        assert(is_refresh_unit(v as int, unit));
        lemma_refresh_unit(v as int, unit, other);
    }
    Ok(unit)
}

/// Name and description of a node.
#[derive(Debug, Clone, PartialEq, Eq)]
pub struct NamedFields {
    pub name: String,
    pub description: Option<String>,
}

/// [`NamedFields`] as a mathematical value.
pub struct NamedFieldsView {
    pub name: Seq<char>,
    pub description: Option<Seq<char>>,
}

impl View for NamedFields {
    type V = NamedFieldsView;

    open spec fn view(&self) -> NamedFieldsView {
        NamedFieldsView {
            name: self.name@,
            description: opt(self.description),
        }
    }
}

impl NamedFields {
    /// The node before anything is read.
    pub open spec fn blank() -> NamedFieldsView {
        NamedFieldsView {
            name: Seq::empty(),
            description: None,
        }
    }
}

impl Default for NamedFields {
    fn default() -> (r: Self)
        ensures
            r@ == NamedFields::blank(),
    {
        NamedFields {
            name: no_text(),
            description: None,
        }
    }
}

impl NamedFields {
    /// A name and a description.
    pub open spec fn head(c: Cur) -> Got<NamedFieldsView> {
        match read_ident(c) {
            Err(f) => Err(f),
            Ok((name, m)) => match read_string(m) {
                Err(f) => Err(f),
                Ok((text, n)) => Ok((NamedFieldsView { name, description: Some(text) }, n)),
            },
        }
    }

    pub fn read_header(cur: &mut ParamCursor) -> (r: Result<Self>)
        ensures
            match r {
                Ok(v) => {
                    &&& NamedFields::head(old(cur)@) == Ok::<_, Failure>((v@, final(cur)@))
                    &&& 0 <= final(cur)@.left() < old(cur)@.left()
                },
                Err(e) => NamedFields::head(old(cur)@) == Err::<(NamedFieldsView, Cur), _>(e@),
            },
    {
        let name = cur.ident()?;
        let description = Some(cur.string()?);
        Ok(NamedFields { name, description })
    }

    /// Nothing but the name and the description belongs to this group.
    pub fn take(&mut self, _cur: &mut ParamCursor) -> (r: Result<bool>)
        ensures
            r matches Ok(used) && !used,
            final(self)@ == old(self)@,
            final(_cur)@ == old(_cur)@,
    {
        Ok(false)
    }

    /// What is written for the group: the description, as an empty string if there is none.
    pub open spec fn written(v: NamedFieldsView, p: Page) -> Page {
        match v.description {
            Some(x) => p.quote_line(x),
            None => p.quote_line(""@),
        }
    }

    /// Writes the description.
    pub fn write(&self, w: &mut Writer) -> (r: Result<()>)
        ensures
            r is Ok,
            final(w)@ == NamedFields::written(self@, old(w)@),
    {
        match &self.description {
            Some(x) => w.quote_line(x.as_str()),
            None => w.quote_line(""),
        }
        Ok(())
    }
}

/// Where an object is, and how it is accessed.
#[derive(Debug, Clone, PartialEq, Eq)]
pub struct AddressFields {
    pub address: Option<u32>,
    pub address_extension: Option<i32>,
    pub display_name: Option<String>,
    pub calib_access: CalibrationAccess,
    pub max_refresh_unit: Option<ScalingUnits>,
    pub max_refresh_rate: i32,
    pub symbol_link: Option<String>,
    pub symbol_offset: i32,
    pub model_link: Option<String>,
}

/// [`AddressFields`] as a mathematical value.
pub struct AddressFieldsView {
    pub address: Option<u32>,
    pub address_extension: Option<i32>,
    pub display_name: Option<Seq<char>>,
    pub calib_access: CalibrationAccess,
    pub max_refresh_unit: Option<ScalingUnits>,
    pub max_refresh_rate: i32,
    pub symbol_link: Option<Seq<char>>,
    pub symbol_offset: i32,
    pub model_link: Option<Seq<char>>,
}

impl View for AddressFields {
    type V = AddressFieldsView;

    open spec fn view(&self) -> AddressFieldsView {
        AddressFieldsView {
            address: self.address,
            address_extension: self.address_extension,
            display_name: opt(self.display_name),
            calib_access: self.calib_access,
            max_refresh_unit: self.max_refresh_unit,
            max_refresh_rate: self.max_refresh_rate,
            symbol_link: opt(self.symbol_link),
            symbol_offset: self.symbol_offset,
            model_link: opt(self.model_link),
        }
    }
}

impl AddressFields {
    /// The node before anything is read.
    pub open spec fn blank() -> AddressFieldsView {
        AddressFieldsView {
            address: None,
            address_extension: None,
            display_name: None,
            calib_access: CalibrationAccess::blank(),
            max_refresh_unit: None,
            max_refresh_rate: 0,
            symbol_link: None,
            symbol_offset: 0,
            model_link: None,
        }
    }
}

impl Default for AddressFields {
    fn default() -> (r: Self)
        ensures
            r@ == AddressFields::blank(),
    {
        AddressFields {
            address: None,
            address_extension: None,
            display_name: None,
            calib_access: CalibrationAccess::default(),
            max_refresh_unit: None,
            max_refresh_rate: 0,
            symbol_link: None,
            symbol_offset: 0,
            model_link: None,
        }
    }
}

impl AddressFields {
    /// What the parameters at the cursor set, if they are of this group, and where the next
    /// ones start.
    pub open spec fn taken(v: AddressFieldsView, c: Cur) -> std::result::Result<
        Option<(AddressFieldsView, Cur)>,
        Failure,
    > {
        if c.at("ECU_ADDRESS_EXTENSION"@) {
            match read_int(c.step(), i32::MIN as int, i32::MAX as int) {
                Err(f) => Err(f),
                Ok((x, c0)) => {
                    Ok(Some((AddressFieldsView { address_extension: Some((x as i32)), ..v }, c0)))
                },
            }
        } else if c.at("DISPLAY_IDENTIFIER"@) {
            match read_ident(c.step()) {
                Err(f) => Err(f),
                Ok((x, c0)) => {
                    Ok(Some((AddressFieldsView { display_name: Some(x), ..v }, c0)))
                },
            }
        } else if c.at("CALIBRATION_ACCESS"@) {
            match read_enum::<CalibrationAccess>(c.step(), "CALIBRATION_ACCESS: unknown value "@) {
                Err(f) => Err(f),
                Ok((x, c0)) => {
                    Ok(Some((AddressFieldsView { calib_access: x, ..v }, c0)))
                },
            }
        } else if c.at("MAX_REFRESH"@) {
            match read_refresh_unit(c.step()) {
                Err(f) => Err(f),
                Ok((unit, c0)) => {
                    match read_int(c0, i32::MIN as int, i32::MAX as int) {
                        Err(f) => Err(f),
                        Ok((rate, c1)) => {
                            Ok(
                                Some(
                                    (
                                        AddressFieldsView {
                                            max_refresh_unit: unit,
                                            max_refresh_rate: (rate as i32),
                                            ..v
                                        },
                                        c1
                                    )
                                )
                            )
                        },
                    }
                },
            }
        } else if c.at("SYMBOL_LINK"@) {
            match read_ident(c.step()) {
                Err(f) => Err(f),
                Ok((link, c0)) => {
                    match read_int(c0, i32::MIN as int, i32::MAX as int) {
                        Err(f) => Err(f),
                        Ok((offset, c1)) => {
                            Ok(
                                Some(
                                    (
                                        AddressFieldsView {
                                            symbol_link: Some(link),
                                            symbol_offset: (offset as i32),
                                            ..v
                                        },
                                        c1
                                    )
                                )
                            )
                        },
                    }
                },
            }
        } else if c.at("MODEL_LINK"@) {
            match read_string(c.step()) {
                Err(f) => Err(f),
                Ok((x, c0)) => {
                    Ok(Some((AddressFieldsView { model_link: Some(x), ..v }, c0)))
                },
            }
        } else {
            Ok(None)
        }
    }

    /// Reads a parameter of this group, if one is next.
    pub fn take(&mut self, cur: &mut ParamCursor) -> (r: Result<bool>)
        ensures
            match r {
                Ok(true) => {
                    &&& AddressFields::taken(old(self)@, old(cur)@) == Ok::<_, Failure>(
                        Some((final(self)@, final(cur)@)),
                    )
                    &&& 0 <= final(cur)@.left() < old(cur)@.left()
                },
                Ok(false) => {
                    &&& AddressFields::taken(old(self)@, old(cur)@) == Ok::<
                        Option<(AddressFieldsView, Cur)>,
                        Failure,
                    >(None)
                    &&& final(self)@ == old(self)@
                    &&& final(cur)@ == old(cur)@
                },
                Err(e) => AddressFields::taken(old(self)@, old(cur)@) == Err::<
                    Option<(AddressFieldsView, Cur)>,
                    _,
                >(e@),
            },
    {
        if cur.take_if("ECU_ADDRESS_EXTENSION") {
            let x = cur.sint::<i32>()?;
            self.address_extension = Some(x);
            return Ok(true);
        }
        if cur.take_if("DISPLAY_IDENTIFIER") {
            let x = cur.ident()?;
            self.display_name = Some(x);
            return Ok(true);
        }
        if cur.take_if("CALIBRATION_ACCESS") {
            let x = enum_value::<CalibrationAccess>(cur, "CALIBRATION_ACCESS: unknown value ")?;
            self.calib_access = x;
            return Ok(true);
        }
        if cur.take_if("MAX_REFRESH") {
            let unit = refresh_unit(cur)?;
            let rate = cur.sint::<i32>()?;
            self.max_refresh_unit = unit;
            self.max_refresh_rate = rate;
            return Ok(true);
        }
        if cur.take_if("SYMBOL_LINK") {
            let link = cur.ident()?;
            let offset = cur.sint::<i32>()?;
            self.symbol_link = Some(link);
            self.symbol_offset = offset;
            return Ok(true);
        }
        if cur.take_if("MODEL_LINK") {
            let x = cur.string()?;
            self.model_link = Some(x);
            return Ok(true);
        }
        Ok(false)
    }
}

impl AddressFields {
    /// What is written for the group.
    pub open spec fn written(v: AddressFieldsView, p: Page) -> Page {
        let p = match v.address_extension {
            Some(x) => p.word("ECU_ADDRESS_EXTENSION"@, dec_int(x as int)),
            None => p
        };
        let p = match v.display_name { Some(x) if x.len() > 0 => p.word("DISPLAY_IDENTIFIER"@, x), _ => p };
        let p = match v.calib_access.word() { Some(kw) => p.word("CALIBRATION_ACCESS"@, kw), None => p };
        let p = match v.max_refresh_unit {
            Some(x) => p.word(
                "MAX_REFRESH"@,
                dec(x.number() as nat) + " "@ + dec_int(v.max_refresh_rate as int)
            ),
            None => p
        };
        let p = match v.symbol_link {
            Some(x) if x.len() > 0 => p.word(
                "SYMBOL_LINK"@,
                "\""@ + x + "\" "@ + dec_int(v.symbol_offset as int)
            ),
            _ => p
        };
        match v.model_link { Some(x) if x.len() > 0 => p.quote("MODEL_LINK"@, x), _ => p }
    }

    pub fn write(&self, w: &mut Writer) -> (r: Result<()>)
        ensures
            r is Ok,
            final(w)@ == AddressFields::written(self@, old(w)@),
    {
        if let Some(x) = &self.address_extension {
            w.word("ECU_ADDRESS_EXTENSION", dec_int_text(*x as i64).as_str());
        }
        if let Some(x) = &self.display_name {
            if x.as_str().unicode_len() > 0 {
                w.word("DISPLAY_IDENTIFIER", x.as_str());
            }
        }
        if let Some(kw) = self.calib_access.as_keyword() {
            w.word("CALIBRATION_ACCESS", kw);
        }
        if let Some(x) = &self.max_refresh_unit {
            let mut s = dec_text(x.to_raw() as u64);
            s.append(" ");
            s.append(dec_int_text(self.max_refresh_rate as i64).as_str());
            w.word("MAX_REFRESH", s.as_str());
        }
        if let Some(x) = &self.symbol_link {
            if x.as_str().unicode_len() > 0 {
                let mut s = "\"".to_string();
                s.append(x.as_str());
                s.append("\" ");
                s.append(dec_int_text(self.symbol_offset as i64).as_str());
                w.word("SYMBOL_LINK", s.as_str());
            }
        }
        if let Some(x) = &self.model_link {
            if x.as_str().unicode_len() > 0 {
                w.quote("MODEL_LINK", x.as_str());
            }
        }
        Ok(())
    }
}

/// How a value is converted and shown.
#[derive(Debug, Clone, PartialEq, Eq)]
pub struct ConversionRefFields {
    pub conversion: String,
    pub lower_limit: Number,
    pub upper_limit: Number,
    pub format: Option<String>,
    pub phys_unit: Option<String>,
    pub byte_order: ByteOrder,
    pub memory_segment_ref: Option<String>,
}

/// [`ConversionRefFields`] as a mathematical value.
pub struct ConversionRefFieldsView {
    pub conversion: Seq<char>,
    pub lower_limit: Num,
    pub upper_limit: Num,
    pub format: Option<Seq<char>>,
    pub phys_unit: Option<Seq<char>>,
    pub byte_order: ByteOrder,
    pub memory_segment_ref: Option<Seq<char>>,
}

impl View for ConversionRefFields {
    type V = ConversionRefFieldsView;

    open spec fn view(&self) -> ConversionRefFieldsView {
        ConversionRefFieldsView {
            conversion: self.conversion@,
            lower_limit: self.lower_limit@,
            upper_limit: self.upper_limit@,
            format: opt(self.format),
            phys_unit: opt(self.phys_unit),
            byte_order: self.byte_order,
            memory_segment_ref: opt(self.memory_segment_ref),
        }
    }
}

impl ConversionRefFields {
    /// The node before anything is read.
    pub open spec fn blank() -> ConversionRefFieldsView {
        ConversionRefFieldsView {
            conversion: Seq::empty(),
            lower_limit: num_zero(),
            upper_limit: num_zero(),
            format: None,
            phys_unit: None,
            byte_order: ByteOrder::blank(),
            memory_segment_ref: None,
        }
    }
}

impl Default for ConversionRefFields {
    fn default() -> (r: Self)
        ensures
            r@ == ConversionRefFields::blank(),
    {
        ConversionRefFields {
            conversion: no_text(),
            lower_limit: Number::default(),
            upper_limit: Number::default(),
            format: None,
            phys_unit: None,
            byte_order: ByteOrder::default(),
            memory_segment_ref: None,
        }
    }
}

impl ConversionRefFields {
    /// What the parameters at the cursor set, if they are of this group, and where the next
    /// ones start.
    pub open spec fn taken(v: ConversionRefFieldsView, c: Cur) -> std::result::Result<
        Option<(ConversionRefFieldsView, Cur)>,
        Failure,
    > {
        if c.at("FORMAT"@) {
            match read_string(c.step()) {
                Err(f) => Err(f),
                Ok((x, c0)) => {
                    Ok(Some((ConversionRefFieldsView { format: Some(x), ..v }, c0)))
                },
            }
        } else if c.at("PHYS_UNIT"@) {
            match read_string(c.step()) {
                Err(f) => Err(f),
                Ok((x, c0)) => {
                    Ok(Some((ConversionRefFieldsView { phys_unit: Some(x), ..v }, c0)))
                },
            }
        } else if c.at("BYTE_ORDER"@) {
            match read_enum::<ByteOrder>(c.step(), "BYTE_ORDER: unknown value "@) {
                Err(f) => Err(f),
                Ok((x, c0)) => {
                    Ok(Some((ConversionRefFieldsView { byte_order: x, ..v }, c0)))
                },
            }
        } else if c.at("REF_MEMORY_SEGMENT"@) {
            match read_ident(c.step()) {
                Err(f) => Err(f),
                Ok((x, c0)) => {
                    Ok(Some((ConversionRefFieldsView { memory_segment_ref: Some(x), ..v }, c0)))
                },
            }
        } else {
            Ok(None)
        }
    }

    /// Reads a parameter of this group, if one is next.
    pub fn take(&mut self, cur: &mut ParamCursor) -> (r: Result<bool>)
        ensures
            match r {
                Ok(true) => {
                    &&& ConversionRefFields::taken(old(self)@, old(cur)@) == Ok::<_, Failure>(
                        Some((final(self)@, final(cur)@)),
                    )
                    &&& 0 <= final(cur)@.left() < old(cur)@.left()
                },
                Ok(false) => {
                    &&& ConversionRefFields::taken(old(self)@, old(cur)@) == Ok::<
                        Option<(ConversionRefFieldsView, Cur)>,
                        Failure,
                    >(None)
                    &&& final(self)@ == old(self)@
                    &&& final(cur)@ == old(cur)@
                },
                Err(e) => ConversionRefFields::taken(old(self)@, old(cur)@) == Err::<
                    Option<(ConversionRefFieldsView, Cur)>,
                    _,
                >(e@),
            },
    {
        if cur.take_if("FORMAT") {
            let x = cur.string()?;
            self.format = Some(x);
            return Ok(true);
        }
        if cur.take_if("PHYS_UNIT") {
            let x = cur.string()?;
            self.phys_unit = Some(x);
            return Ok(true);
        }
        if cur.take_if("BYTE_ORDER") {
            let x = enum_value::<ByteOrder>(cur, "BYTE_ORDER: unknown value ")?;
            self.byte_order = x;
            return Ok(true);
        }
        if cur.take_if("REF_MEMORY_SEGMENT") {
            let x = cur.ident()?;
            self.memory_segment_ref = Some(x);
            return Ok(true);
        }
        Ok(false)
    }
}

impl ConversionRefFields {
    /// What is written for the limits.
    pub open spec fn limits_written(v: ConversionRefFieldsView, p: Page) -> Page {
        p.line(v.lower_limit.text + " "@ + v.upper_limit.text)
    }

    pub fn write_limits(&self, w: &mut Writer) -> (r: Result<()>)
        ensures
            r is Ok,
            final(w)@ == ConversionRefFields::limits_written(self@, old(w)@),
    {
        {
            let mut s = self.lower_limit.text.clone();
            s.append(" ");
            s.append(self.upper_limit.text.as_str());
            w.line(s.as_str());
        }
        Ok(())
    }
}

impl ConversionRefFields {
    /// What is written for the group.
    pub open spec fn written(v: ConversionRefFieldsView, p: Page) -> Page {
        let p = match v.format { Some(x) if x.len() > 0 => p.quote("FORMAT"@, x), _ => p };
        let p = match v.phys_unit { Some(x) if x.len() > 0 => p.quote("PHYS_UNIT"@, x), _ => p };
        let p = match v.byte_order.word() { Some(kw) => p.word("BYTE_ORDER"@, kw), None => p };
        match v.memory_segment_ref { Some(x) if x.len() > 0 => p.word("REF_MEMORY_SEGMENT"@, x), _ => p }
    }

    pub fn write(&self, w: &mut Writer) -> (r: Result<()>)
        ensures
            r is Ok,
            final(w)@ == ConversionRefFields::written(self@, old(w)@),
    {
        if let Some(x) = &self.format {
            if x.as_str().unicode_len() > 0 {
                w.quote("FORMAT", x.as_str());
            }
        }
        if let Some(x) = &self.phys_unit {
            if x.as_str().unicode_len() > 0 {
                w.quote("PHYS_UNIT", x.as_str());
            }
        }
        if let Some(kw) = self.byte_order.as_keyword() {
            w.word("BYTE_ORDER", kw);
        }
        if let Some(x) = &self.memory_segment_ref {
            if x.as_str().unicode_len() > 0 {
                w.word("REF_MEMORY_SEGMENT", x.as_str());
            }
        }
        Ok(())
    }
}

/// How a value is laid out and limited.
#[derive(Debug, Clone, PartialEq, Eq)]
pub struct RecordLayoutRefFields {
    pub record_layout: String,
    pub max_diff: Number,
    pub read_only: bool,
    pub guard_rails: bool,
    pub extended_limits: Option<(Number, Number)>,
    pub step_size: Option<Number>,
}

/// [`RecordLayoutRefFields`] as a mathematical value.
pub struct RecordLayoutRefFieldsView {
    pub record_layout: Seq<char>,
    pub max_diff: Num,
    pub read_only: bool,
    pub guard_rails: bool,
    pub extended_limits: Option<(Num, Num)>,
    pub step_size: Option<Num>,
}

impl View for RecordLayoutRefFields {
    type V = RecordLayoutRefFieldsView;

    open spec fn view(&self) -> RecordLayoutRefFieldsView {
        RecordLayoutRefFieldsView {
            record_layout: self.record_layout@,
            max_diff: self.max_diff@,
            read_only: self.read_only,
            guard_rails: self.guard_rails,
            extended_limits: opt_pair(self.extended_limits),
            step_size: opt(self.step_size),
        }
    }
}

impl RecordLayoutRefFields {
    /// The node before anything is read.
    pub open spec fn blank() -> RecordLayoutRefFieldsView {
        RecordLayoutRefFieldsView {
            record_layout: Seq::empty(),
            max_diff: num_zero(),
            read_only: false,
            guard_rails: false,
            extended_limits: None,
            step_size: None,
        }
    }
}

impl Default for RecordLayoutRefFields {
    fn default() -> (r: Self)
        ensures
            r@ == RecordLayoutRefFields::blank(),
    {
        RecordLayoutRefFields {
            record_layout: no_text(),
            max_diff: Number::default(),
            read_only: false,
            guard_rails: false,
            extended_limits: None,
            step_size: None,
        }
    }
}

impl RecordLayoutRefFields {
    /// What the parameters at the cursor set, if they are of this group, and where the next
    /// ones start.
    pub open spec fn taken(v: RecordLayoutRefFieldsView, c: Cur) -> std::result::Result<
        Option<(RecordLayoutRefFieldsView, Cur)>,
        Failure,
    > {
        if c.at("READ_ONLY"@) {
            Ok(Some((RecordLayoutRefFieldsView { read_only: true, ..v }, c.step())))
        } else if c.at("EXTENDED_LIMITS"@) {
            match read_pair(c.step()) {
                Err(f) => Err(f),
                Ok((x, c0)) => {
                    Ok(Some((RecordLayoutRefFieldsView { extended_limits: Some(x), ..v }, c0)))
                },
            }
        } else if c.at("STEP_SIZE"@) {
            match read_float(c.step()) {
                Err(f) => Err(f),
                Ok((x, c0)) => {
                    Ok(Some((RecordLayoutRefFieldsView { step_size: Some(x), ..v }, c0)))
                },
            }
        } else if c.at("GUARD_RAILS"@) {
            Ok(Some((RecordLayoutRefFieldsView { guard_rails: true, ..v }, c.step())))
        } else {
            Ok(None)
        }
    }

    /// Reads a parameter of this group, if one is next.
    pub fn take(&mut self, cur: &mut ParamCursor) -> (r: Result<bool>)
        ensures
            match r {
                Ok(true) => {
                    &&& RecordLayoutRefFields::taken(old(self)@, old(cur)@) == Ok::<_, Failure>(
                        Some((final(self)@, final(cur)@)),
                    )
                    &&& 0 <= final(cur)@.left() < old(cur)@.left()
                },
                Ok(false) => {
                    &&& RecordLayoutRefFields::taken(old(self)@, old(cur)@) == Ok::<
                        Option<(RecordLayoutRefFieldsView, Cur)>,
                        Failure,
                    >(None)
                    &&& final(self)@ == old(self)@
                    &&& final(cur)@ == old(cur)@
                },
                Err(e) => RecordLayoutRefFields::taken(old(self)@, old(cur)@) == Err::<
                    Option<(RecordLayoutRefFieldsView, Cur)>,
                    _,
                >(e@),
            },
    {
        if cur.take_if("READ_ONLY") {
            self.read_only = true;
            return Ok(true);
        }
        if cur.take_if("EXTENDED_LIMITS") {
            let x = float_pair(cur)?;
            self.extended_limits = Some(x);
            return Ok(true);
        }
        if cur.take_if("STEP_SIZE") {
            let x = cur.float()?;
            self.step_size = Some(x);
            return Ok(true);
        }
        if cur.take_if("GUARD_RAILS") {
            self.guard_rails = true;
            return Ok(true);
        }
        Ok(false)
    }
}

impl RecordLayoutRefFields {
    /// What is written for the group.
    pub open spec fn written(v: RecordLayoutRefFieldsView, p: Page) -> Page {
        let p = if v.read_only { p.line("READ_ONLY"@) } else { p };
        let p = match v.extended_limits {
            Some((lo, hi)) => p.line("EXTENDED_LIMITS "@ + lo.text + " "@ + hi.text),
            None => p
        };
        let p = match v.step_size { Some(x) => p.word("STEP_SIZE"@, x.text), None => p };
        if v.guard_rails { p.line("GUARD_RAILS"@) } else { p }
    }

    pub fn write(&self, w: &mut Writer) -> (r: Result<()>)
        ensures
            r is Ok,
            final(w)@ == RecordLayoutRefFields::written(self@, old(w)@),
    {
        if self.read_only {
            w.line("READ_ONLY");
        }
        if let Some((lo, hi)) = &self.extended_limits {
            let mut s = "EXTENDED_LIMITS ".to_string();
            s.append(lo.text.as_str());
            s.append(" ");
            s.append(hi.text.as_str());
            w.line(s.as_str());
        }
        if let Some(x) = &self.step_size {
            w.word("STEP_SIZE", x.text.as_str());
        }
        if self.guard_rails {
            w.line("GUARD_RAILS");
        }
        Ok(())
    }
}

/// Names of other objects.
#[derive(Debug, Clone, PartialEq, Eq)]
pub struct ReferenceFields {
    pub references: Vec<String>,
}

/// [`ReferenceFields`] as a mathematical value.
pub struct ReferenceFieldsView {
    pub references: Seq<Seq<char>>,
}

impl View for ReferenceFields {
    type V = ReferenceFieldsView;

    open spec fn view(&self) -> ReferenceFieldsView {
        ReferenceFieldsView {
            references: views(self.references@),
        }
    }
}

impl ReferenceFields {
    /// The node before anything is read.
    pub open spec fn blank() -> ReferenceFieldsView {
        ReferenceFieldsView {
            references: Seq::empty(),
        }
    }
}

impl Default for ReferenceFields {
    fn default() -> (r: Self)
        ensures
            r@ == ReferenceFields::blank(),
    {
        ReferenceFields {
            references: none_yet(),
        }
    }
}

impl ReferenceFields {
    /// Reads a reference, if a parameter is left.
    pub fn take(&mut self, cur: &mut ParamCursor) -> (r: Result<bool>)
        ensures
            r matches Ok(used) && used == old(cur)@.more(),
            old(cur)@.more() ==> {
                &&& final(self)@.references == old(self)@.references.push(old(cur)@.here().text)
                &&& final(cur)@ == old(cur)@.step()
            },
            !old(cur)@.more() ==> final(self)@ == old(self)@ && final(cur)@ == old(cur)@,
    {
        if cur.is_empty() {
            return Ok(false);
        }
        let x = cur.ident()?;
        append(&mut self.references, x);
        Ok(true)
    }

    /// The references that all parameters from the cursor on are.
    pub open spec fn rest(v: ReferenceFieldsView, c: Cur) -> ReferenceFieldsView
        decreases c.left(),
    {
        if !c.more() {
            v
        } else {
            ReferenceFields::rest(
                ReferenceFieldsView { references: v.references.push(c.here().text) },
                c.step(),
            )
        }
    }

    /// Reads all parameters that are left.
    pub(crate) fn take_rest(cur: &mut ParamCursor) -> (r: Self)
        ensures
            r@ == ReferenceFields::rest(ReferenceFields::blank(), old(cur)@),
            final(cur)@ == old(cur)@.behind(),
    {
        let mut out = ReferenceFields::default();
        while !cur.is_empty()
            invariant
                ReferenceFields::rest(ReferenceFields::blank(), old(cur)@)
                    == ReferenceFields::rest(out@, cur@),
                cur@.behind() == old(cur)@.behind(),
            decreases cur@.left(),
        {
            let _ = out.take(cur);
        }
        out
    }

    /// What is written for the group.
    pub open spec fn written(v: ReferenceFieldsView, p: Page) -> Page {
        p.references(v.references)
    }

    pub fn write(&self, w: &mut Writer) -> (r: Result<()>)
        ensures
            r is Ok,
            final(w)@ == ReferenceFields::written(self@, old(w)@),
    {
        w.references(&self.references);
        Ok(())
    }
}

} // verus!
