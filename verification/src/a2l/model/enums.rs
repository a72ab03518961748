//! Enumerations of the A2L model, with their keywords.

use crate::text::{eq_ignore_case, lemma_differ, lemma_same, same_ignore_case};
use vstd::prelude::*;

verus! {

/// Enumerations whose values are written as keywords.
pub trait A2lKeyword: Sized + Copy {
    /// The keyword of the value, if it has one.
    spec fn word(self) -> Option<Seq<char>>;

    /// The value that a keyword stands for, in either case.
    spec fn named(kw: Seq<char>) -> Option<Self>;

    fn as_keyword(self) -> (r: Option<&'static str>)
        ensures
            match r {
                Some(w) => self.word() == Some(w@),
                None => self.word() is None,
            },
    ;

    fn from_keyword(kw: &str) -> (r: Option<Self>)
        ensures
            r == Self::named(kw@),
    ;

    /// The keyword of a value stands for that value.
    proof fn law_named_of_word(self)
        ensures
            self.word() matches Some(w) ==> Self::named(w) == Some(self),
    ;

    /// What a text stands for has that text as its keyword, but for the case of letters.
    proof fn law_word_of_named(kw: Seq<char>)
        ensures
            Self::named(kw) matches Some(e) ==> (e.word() matches Some(w) && same_ignore_case(kw, w)),
    ;
}

/// How an object differs from another version of it.
#[allow(non_camel_case_types)]
#[derive(Debug, Clone, Copy, PartialEq, Eq, Hash, Structural)]
pub enum ChangedType {
    Unchanged,
    Added,
    Changed,
    Removed,
}

/// How an address is given.
#[allow(non_camel_case_types)]
#[derive(Debug, Clone, Copy, PartialEq, Eq, Hash, Structural)]
pub enum AddrType {
    DIRECT,
    PBYTE,
    PWORD,
    PLONG,
    PLONGLONG,
}

impl A2lKeyword for AddrType {
    open spec fn word(self) -> Option<Seq<char>> {
        match self {
            AddrType::DIRECT => Some("DIRECT"@),
            AddrType::PBYTE => Some("PBYTE"@),
            AddrType::PWORD => Some("PWORD"@),
            AddrType::PLONG => Some("PLONG"@),
            AddrType::PLONGLONG => Some("PLONGLONG"@),
        }
    }

    open spec fn named(kw: Seq<char>) -> Option<Self> {
        if same_ignore_case(kw, "DIRECT"@) {
            Some(AddrType::DIRECT)
        } else if same_ignore_case(kw, "PBYTE"@) {
            Some(AddrType::PBYTE)
        } else if same_ignore_case(kw, "PWORD"@) {
            Some(AddrType::PWORD)
        } else if same_ignore_case(kw, "PLONG"@) {
            Some(AddrType::PLONG)
        } else if same_ignore_case(kw, "PLONGLONG"@) {
            Some(AddrType::PLONGLONG)
        } else {
            None
        }
    }

    fn as_keyword(self) -> (r: Option<&'static str>) {
        match self {
            AddrType::DIRECT => Some("DIRECT"),
            AddrType::PBYTE => Some("PBYTE"),
            AddrType::PWORD => Some("PWORD"),
            AddrType::PLONG => Some("PLONG"),
            AddrType::PLONGLONG => Some("PLONGLONG"),
        }
    }

    fn from_keyword(kw: &str) -> (r: Option<Self>) {
        if eq_ignore_case(kw, "DIRECT") {
            Some(AddrType::DIRECT)
        } else if eq_ignore_case(kw, "PBYTE") {
            Some(AddrType::PBYTE)
        } else if eq_ignore_case(kw, "PWORD") {
            Some(AddrType::PWORD)
        } else if eq_ignore_case(kw, "PLONG") {
            Some(AddrType::PLONG)
        } else if eq_ignore_case(kw, "PLONGLONG") {
            Some(AddrType::PLONGLONG)
        } else {
            None
        }
    }

    proof fn law_named_of_word(self) {
        reveal_strlit("DIRECT");
        reveal_strlit("PBYTE");
        reveal_strlit("PWORD");
        reveal_strlit("PLONG");
        reveal_strlit("PLONGLONG");
        match self {
            AddrType::DIRECT => {
                lemma_same("DIRECT"@);
            },
            AddrType::PBYTE => {
                lemma_same("PBYTE"@);
                lemma_differ("PBYTE"@, "DIRECT"@, 0);
            },
            AddrType::PWORD => {
                lemma_same("PWORD"@);
                lemma_differ("PWORD"@, "DIRECT"@, 0);
                lemma_differ("PWORD"@, "PBYTE"@, 1);
            },
            AddrType::PLONG => {
                lemma_same("PLONG"@);
                lemma_differ("PLONG"@, "DIRECT"@, 0);
                lemma_differ("PLONG"@, "PBYTE"@, 1);
                lemma_differ("PLONG"@, "PWORD"@, 1);
            },
            AddrType::PLONGLONG => {
                lemma_same("PLONGLONG"@);
                lemma_differ("PLONGLONG"@, "DIRECT"@, 0);
                lemma_differ("PLONGLONG"@, "PBYTE"@, 0);
                lemma_differ("PLONGLONG"@, "PWORD"@, 0);
                lemma_differ("PLONGLONG"@, "PLONG"@, 0);
            },
        }
    }

    proof fn law_word_of_named(kw: Seq<char>) {
    }
}

/// Kinds of axes.
#[allow(non_camel_case_types)]
#[derive(Debug, Clone, Copy, PartialEq, Eq, Hash, Structural)]
pub enum AxisType {
    STD_AXIS,
    FIX_AXIS,
    COM_AXIS,
    RES_AXIS,
    CURVE_AXIS,
}

impl A2lKeyword for AxisType {
    open spec fn word(self) -> Option<Seq<char>> {
        match self {
            AxisType::STD_AXIS => Some("STD_AXIS"@),
            AxisType::FIX_AXIS => Some("FIX_AXIS"@),
            AxisType::COM_AXIS => Some("COM_AXIS"@),
            AxisType::RES_AXIS => Some("RES_AXIS"@),
            AxisType::CURVE_AXIS => Some("CURVE_AXIS"@),
        }
    }

    open spec fn named(kw: Seq<char>) -> Option<Self> {
        if same_ignore_case(kw, "STD_AXIS"@) {
            Some(AxisType::STD_AXIS)
        } else if same_ignore_case(kw, "FIX_AXIS"@) {
            Some(AxisType::FIX_AXIS)
        } else if same_ignore_case(kw, "COM_AXIS"@) {
            Some(AxisType::COM_AXIS)
        } else if same_ignore_case(kw, "RES_AXIS"@) {
            Some(AxisType::RES_AXIS)
        } else if same_ignore_case(kw, "CURVE_AXIS"@) {
            Some(AxisType::CURVE_AXIS)
        } else {
            None
        }
    }

    fn as_keyword(self) -> (r: Option<&'static str>) {
        match self {
            AxisType::STD_AXIS => Some("STD_AXIS"),
            AxisType::FIX_AXIS => Some("FIX_AXIS"),
            AxisType::COM_AXIS => Some("COM_AXIS"),
            AxisType::RES_AXIS => Some("RES_AXIS"),
            AxisType::CURVE_AXIS => Some("CURVE_AXIS"),
        }
    }

    fn from_keyword(kw: &str) -> (r: Option<Self>) {
        if eq_ignore_case(kw, "STD_AXIS") {
            Some(AxisType::STD_AXIS)
        } else if eq_ignore_case(kw, "FIX_AXIS") {
            Some(AxisType::FIX_AXIS)
        } else if eq_ignore_case(kw, "COM_AXIS") {
            Some(AxisType::COM_AXIS)
        } else if eq_ignore_case(kw, "RES_AXIS") {
            Some(AxisType::RES_AXIS)
        } else if eq_ignore_case(kw, "CURVE_AXIS") {
            Some(AxisType::CURVE_AXIS)
        } else {
            None
        }
    }

    proof fn law_named_of_word(self) {
        reveal_strlit("STD_AXIS");
        reveal_strlit("FIX_AXIS");
        reveal_strlit("COM_AXIS");
        reveal_strlit("RES_AXIS");
        reveal_strlit("CURVE_AXIS");
        match self {
            AxisType::STD_AXIS => {
                lemma_same("STD_AXIS"@);
            },
            AxisType::FIX_AXIS => {
                lemma_same("FIX_AXIS"@);
                lemma_differ("FIX_AXIS"@, "STD_AXIS"@, 0);
            },
            AxisType::COM_AXIS => {
                lemma_same("COM_AXIS"@);
                lemma_differ("COM_AXIS"@, "STD_AXIS"@, 0);
                lemma_differ("COM_AXIS"@, "FIX_AXIS"@, 0);
            },
            AxisType::RES_AXIS => {
                lemma_same("RES_AXIS"@);
                lemma_differ("RES_AXIS"@, "STD_AXIS"@, 0);
                lemma_differ("RES_AXIS"@, "FIX_AXIS"@, 0);
                lemma_differ("RES_AXIS"@, "COM_AXIS"@, 0);
            },
            AxisType::CURVE_AXIS => {
                lemma_same("CURVE_AXIS"@);
                lemma_differ("CURVE_AXIS"@, "STD_AXIS"@, 0);
                lemma_differ("CURVE_AXIS"@, "FIX_AXIS"@, 0);
                lemma_differ("CURVE_AXIS"@, "COM_AXIS"@, 0);
                lemma_differ("CURVE_AXIS"@, "RES_AXIS"@, 0);
            },
        }
    }

    proof fn law_word_of_named(kw: Seq<char>) {
    }
}

/// Which axis values belong to.
#[allow(non_camel_case_types)]
#[derive(Debug, Clone, Copy, PartialEq, Eq, Hash, Structural)]
pub enum AxisValueType {
    XAxis,
    YAxis,
    ZAxis,
    _4Axis,
    _5Axis,
}

/// Shifts.
#[allow(non_camel_case_types)]
#[derive(Debug, Clone, Copy, PartialEq, Eq, Hash, Structural)]
pub enum BitOperationType {
    NotSet,
    RIGHT_SHIFT,
    LEFT_SHIFT,
}

impl Default for BitOperationType {
    fn default() -> (r: Self)
        ensures
            r == BitOperationType::NotSet,
    {
        BitOperationType::NotSet
    }
}

impl BitOperationType {
    /// The value that is taken where none is given.
    pub open spec fn blank() -> BitOperationType {
        BitOperationType::NotSet
    }
}

impl A2lKeyword for BitOperationType {
    open spec fn word(self) -> Option<Seq<char>> {
        match self {
            BitOperationType::RIGHT_SHIFT => Some("RIGHT_SHIFT"@),
            BitOperationType::LEFT_SHIFT => Some("LEFT_SHIFT"@),
            BitOperationType::NotSet => None,
        }
    }

    open spec fn named(kw: Seq<char>) -> Option<Self> {
        if same_ignore_case(kw, "RIGHT_SHIFT"@) {
            Some(BitOperationType::RIGHT_SHIFT)
        } else if same_ignore_case(kw, "LEFT_SHIFT"@) {
            Some(BitOperationType::LEFT_SHIFT)
        } else {
            None
        }
    }

    fn as_keyword(self) -> (r: Option<&'static str>) {
        match self {
            BitOperationType::RIGHT_SHIFT => Some("RIGHT_SHIFT"),
            BitOperationType::LEFT_SHIFT => Some("LEFT_SHIFT"),
            BitOperationType::NotSet => None,
        }
    }

    fn from_keyword(kw: &str) -> (r: Option<Self>) {
        if eq_ignore_case(kw, "RIGHT_SHIFT") {
            Some(BitOperationType::RIGHT_SHIFT)
        } else if eq_ignore_case(kw, "LEFT_SHIFT") {
            Some(BitOperationType::LEFT_SHIFT)
        } else {
            None
        }
    }

    proof fn law_named_of_word(self) {
        reveal_strlit("RIGHT_SHIFT");
        reveal_strlit("LEFT_SHIFT");
        match self {
            BitOperationType::RIGHT_SHIFT => {
                lemma_same("RIGHT_SHIFT"@);
            },
            BitOperationType::LEFT_SHIFT => {
                lemma_same("LEFT_SHIFT"@);
                lemma_differ("LEFT_SHIFT"@, "RIGHT_SHIFT"@, 0);
            },
            BitOperationType::NotSet => {},
        }
    }

    proof fn law_word_of_named(kw: Seq<char>) {
    }
}

/// Who may calibrate.
#[allow(non_camel_case_types)]
#[derive(Debug, Clone, Copy, PartialEq, Eq, Hash, Structural)]
pub enum CalibrationAccess {
    NotSet,
    CALIBRATION,
    NO_CALIBRATION,
    NOT_IN_MCD_SYSTEM,
    OFFLINE_CALIBRATION,
}

impl Default for CalibrationAccess {
    fn default() -> (r: Self)
        ensures
            r == CalibrationAccess::NotSet,
    {
        CalibrationAccess::NotSet
    }
}

impl CalibrationAccess {
    /// The value that is taken where none is given.
    pub open spec fn blank() -> CalibrationAccess {
        CalibrationAccess::NotSet
    }
}

impl A2lKeyword for CalibrationAccess {
    open spec fn word(self) -> Option<Seq<char>> {
        match self {
            CalibrationAccess::CALIBRATION => Some("CALIBRATION"@),
            CalibrationAccess::NO_CALIBRATION => Some("NO_CALIBRATION"@),
            CalibrationAccess::NOT_IN_MCD_SYSTEM => Some("NOT_IN_MCD_SYSTEM"@),
            CalibrationAccess::OFFLINE_CALIBRATION => Some("OFFLINE_CALIBRATION"@),
            CalibrationAccess::NotSet => None,
        }
    }

    open spec fn named(kw: Seq<char>) -> Option<Self> {
        if same_ignore_case(kw, "CALIBRATION"@) {
            Some(CalibrationAccess::CALIBRATION)
        } else if same_ignore_case(kw, "NO_CALIBRATION"@) {
            Some(CalibrationAccess::NO_CALIBRATION)
        } else if same_ignore_case(kw, "NOT_IN_MCD_SYSTEM"@) {
            Some(CalibrationAccess::NOT_IN_MCD_SYSTEM)
        } else if same_ignore_case(kw, "OFFLINE_CALIBRATION"@) {
            Some(CalibrationAccess::OFFLINE_CALIBRATION)
        } else {
            None
        }
    }

    fn as_keyword(self) -> (r: Option<&'static str>) {
        match self {
            CalibrationAccess::CALIBRATION => Some("CALIBRATION"),
            CalibrationAccess::NO_CALIBRATION => Some("NO_CALIBRATION"),
            CalibrationAccess::NOT_IN_MCD_SYSTEM => Some("NOT_IN_MCD_SYSTEM"),
            CalibrationAccess::OFFLINE_CALIBRATION => Some("OFFLINE_CALIBRATION"),
            CalibrationAccess::NotSet => None,
        }
    }

    fn from_keyword(kw: &str) -> (r: Option<Self>) {
        if eq_ignore_case(kw, "CALIBRATION") {
            Some(CalibrationAccess::CALIBRATION)
        } else if eq_ignore_case(kw, "NO_CALIBRATION") {
            Some(CalibrationAccess::NO_CALIBRATION)
        } else if eq_ignore_case(kw, "NOT_IN_MCD_SYSTEM") {
            Some(CalibrationAccess::NOT_IN_MCD_SYSTEM)
        } else if eq_ignore_case(kw, "OFFLINE_CALIBRATION") {
            Some(CalibrationAccess::OFFLINE_CALIBRATION)
        } else {
            None
        }
    }

    proof fn law_named_of_word(self) {
        reveal_strlit("CALIBRATION");
        reveal_strlit("NO_CALIBRATION");
        reveal_strlit("NOT_IN_MCD_SYSTEM");
        reveal_strlit("OFFLINE_CALIBRATION");
        match self {
            CalibrationAccess::CALIBRATION => {
                lemma_same("CALIBRATION"@);
            },
            CalibrationAccess::NO_CALIBRATION => {
                lemma_same("NO_CALIBRATION"@);
                lemma_differ("NO_CALIBRATION"@, "CALIBRATION"@, 0);
            },
            CalibrationAccess::NOT_IN_MCD_SYSTEM => {
                lemma_same("NOT_IN_MCD_SYSTEM"@);
                lemma_differ("NOT_IN_MCD_SYSTEM"@, "CALIBRATION"@, 0);
                lemma_differ("NOT_IN_MCD_SYSTEM"@, "NO_CALIBRATION"@, 0);
            },
            CalibrationAccess::OFFLINE_CALIBRATION => {
                lemma_same("OFFLINE_CALIBRATION"@);
                lemma_differ("OFFLINE_CALIBRATION"@, "CALIBRATION"@, 0);
                lemma_differ("OFFLINE_CALIBRATION"@, "NO_CALIBRATION"@, 0);
                lemma_differ("OFFLINE_CALIBRATION"@, "NOT_IN_MCD_SYSTEM"@, 0);
            },
            CalibrationAccess::NotSet => {},
        }
    }

    proof fn law_word_of_named(kw: Seq<char>) {
    }
}

/// Checksum algorithms.
#[allow(non_camel_case_types)]
#[derive(Debug, Clone, Copy, PartialEq, Eq, Hash, Structural)]
pub enum ChecksumType {
    NotSet,
    ADD_11,
    ADD_12,
    ADD_14,
    CRC_8,
    CRC_16,
    CRC_32,
    CRC_2_16,
    ADD_22,
    ADD_24,
    ADD_44,
    USER_DEFINED,
    CRC_16_CITT,
}

impl Default for ChecksumType {
    fn default() -> (r: Self)
        ensures
            r == ChecksumType::NotSet,
    {
        ChecksumType::NotSet
    }
}

impl ChecksumType {
    /// The value that is taken where none is given.
    pub open spec fn blank() -> ChecksumType {
        ChecksumType::NotSet
    }
}

impl A2lKeyword for ChecksumType {
    open spec fn word(self) -> Option<Seq<char>> {
        match self {
            ChecksumType::ADD_11 => Some("ADD_11"@),
            ChecksumType::ADD_12 => Some("ADD_12"@),
            ChecksumType::ADD_14 => Some("ADD_14"@),
            ChecksumType::CRC_8 => Some("CRC_8"@),
            ChecksumType::CRC_16 => Some("CRC_16"@),
            ChecksumType::CRC_32 => Some("CRC_32"@),
            ChecksumType::CRC_2_16 => Some("CRC_2_16"@),
            ChecksumType::ADD_22 => Some("ADD_22"@),
            ChecksumType::ADD_24 => Some("ADD_24"@),
            ChecksumType::ADD_44 => Some("ADD_44"@),
            ChecksumType::USER_DEFINED => Some("USER_DEFINED"@),
            ChecksumType::CRC_16_CITT => Some("CRC_16_CITT"@),
            ChecksumType::NotSet => None,
        }
    }

    open spec fn named(kw: Seq<char>) -> Option<Self> {
        if same_ignore_case(kw, "ADD_11"@) {
            Some(ChecksumType::ADD_11)
        } else if same_ignore_case(kw, "ADD_12"@) {
            Some(ChecksumType::ADD_12)
        } else if same_ignore_case(kw, "ADD_14"@) {
            Some(ChecksumType::ADD_14)
        } else if same_ignore_case(kw, "CRC_8"@) {
            Some(ChecksumType::CRC_8)
        } else if same_ignore_case(kw, "CRC_16"@) {
            Some(ChecksumType::CRC_16)
        } else if same_ignore_case(kw, "CRC_32"@) {
            Some(ChecksumType::CRC_32)
        } else if same_ignore_case(kw, "CRC_2_16"@) {
            Some(ChecksumType::CRC_2_16)
        } else if same_ignore_case(kw, "ADD_22"@) {
            Some(ChecksumType::ADD_22)
        } else if same_ignore_case(kw, "ADD_24"@) {
            Some(ChecksumType::ADD_24)
        } else if same_ignore_case(kw, "ADD_44"@) {
            Some(ChecksumType::ADD_44)
        } else if same_ignore_case(kw, "USER_DEFINED"@) {
            Some(ChecksumType::USER_DEFINED)
        } else if same_ignore_case(kw, "CRC_16_CITT"@) {
            Some(ChecksumType::CRC_16_CITT)
        } else {
            None
        }
    }

    fn as_keyword(self) -> (r: Option<&'static str>) {
        match self {
            ChecksumType::ADD_11 => Some("ADD_11"),
            ChecksumType::ADD_12 => Some("ADD_12"),
            ChecksumType::ADD_14 => Some("ADD_14"),
            ChecksumType::CRC_8 => Some("CRC_8"),
            ChecksumType::CRC_16 => Some("CRC_16"),
            ChecksumType::CRC_32 => Some("CRC_32"),
            ChecksumType::CRC_2_16 => Some("CRC_2_16"),
            ChecksumType::ADD_22 => Some("ADD_22"),
            ChecksumType::ADD_24 => Some("ADD_24"),
            ChecksumType::ADD_44 => Some("ADD_44"),
            ChecksumType::USER_DEFINED => Some("USER_DEFINED"),
            ChecksumType::CRC_16_CITT => Some("CRC_16_CITT"),
            ChecksumType::NotSet => None,
        }
    }

    fn from_keyword(kw: &str) -> (r: Option<Self>) {
        if eq_ignore_case(kw, "ADD_11") {
            Some(ChecksumType::ADD_11)
        } else if eq_ignore_case(kw, "ADD_12") {
            Some(ChecksumType::ADD_12)
        } else if eq_ignore_case(kw, "ADD_14") {
            Some(ChecksumType::ADD_14)
        } else if eq_ignore_case(kw, "CRC_8") {
            Some(ChecksumType::CRC_8)
        } else if eq_ignore_case(kw, "CRC_16") {
            Some(ChecksumType::CRC_16)
        } else if eq_ignore_case(kw, "CRC_32") {
            Some(ChecksumType::CRC_32)
        } else if eq_ignore_case(kw, "CRC_2_16") {
            Some(ChecksumType::CRC_2_16)
        } else if eq_ignore_case(kw, "ADD_22") {
            Some(ChecksumType::ADD_22)
        } else if eq_ignore_case(kw, "ADD_24") {
            Some(ChecksumType::ADD_24)
        } else if eq_ignore_case(kw, "ADD_44") {
            Some(ChecksumType::ADD_44)
        } else if eq_ignore_case(kw, "USER_DEFINED") {
            Some(ChecksumType::USER_DEFINED)
        } else if eq_ignore_case(kw, "CRC_16_CITT") {
            Some(ChecksumType::CRC_16_CITT)
        } else {
            None
        }
    }

    proof fn law_named_of_word(self) {
        reveal_strlit("ADD_11");
        reveal_strlit("ADD_12");
        reveal_strlit("ADD_14");
        reveal_strlit("CRC_8");
        reveal_strlit("CRC_16");
        reveal_strlit("CRC_32");
        reveal_strlit("CRC_2_16");
        reveal_strlit("ADD_22");
        reveal_strlit("ADD_24");
        reveal_strlit("ADD_44");
        reveal_strlit("USER_DEFINED");
        reveal_strlit("CRC_16_CITT");
        match self {
            ChecksumType::ADD_11 => {
                lemma_same("ADD_11"@);
            },
            ChecksumType::ADD_12 => {
                lemma_same("ADD_12"@);
                lemma_differ("ADD_12"@, "ADD_11"@, 5);
            },
            ChecksumType::ADD_14 => {
                lemma_same("ADD_14"@);
                lemma_differ("ADD_14"@, "ADD_11"@, 5);
                lemma_differ("ADD_14"@, "ADD_12"@, 5);
            },
            ChecksumType::CRC_8 => {
                lemma_same("CRC_8"@);
                lemma_differ("CRC_8"@, "ADD_11"@, 0);
                lemma_differ("CRC_8"@, "ADD_12"@, 0);
                lemma_differ("CRC_8"@, "ADD_14"@, 0);
            },
            ChecksumType::CRC_16 => {
                lemma_same("CRC_16"@);
                lemma_differ("CRC_16"@, "ADD_11"@, 0);
                lemma_differ("CRC_16"@, "ADD_12"@, 0);
                lemma_differ("CRC_16"@, "ADD_14"@, 0);
                lemma_differ("CRC_16"@, "CRC_8"@, 0);
            },
            ChecksumType::CRC_32 => {
                lemma_same("CRC_32"@);
                lemma_differ("CRC_32"@, "ADD_11"@, 0);
                lemma_differ("CRC_32"@, "ADD_12"@, 0);
                lemma_differ("CRC_32"@, "ADD_14"@, 0);
                lemma_differ("CRC_32"@, "CRC_8"@, 0);
                lemma_differ("CRC_32"@, "CRC_16"@, 4);
            },
            ChecksumType::CRC_2_16 => {
                lemma_same("CRC_2_16"@);
                lemma_differ("CRC_2_16"@, "ADD_11"@, 0);
                lemma_differ("CRC_2_16"@, "ADD_12"@, 0);
                lemma_differ("CRC_2_16"@, "ADD_14"@, 0);
                lemma_differ("CRC_2_16"@, "CRC_8"@, 0);
                lemma_differ("CRC_2_16"@, "CRC_16"@, 0);
                lemma_differ("CRC_2_16"@, "CRC_32"@, 0);
            },
            ChecksumType::ADD_22 => {
                lemma_same("ADD_22"@);
                lemma_differ("ADD_22"@, "ADD_11"@, 4);
                lemma_differ("ADD_22"@, "ADD_12"@, 4);
                lemma_differ("ADD_22"@, "ADD_14"@, 4);
                lemma_differ("ADD_22"@, "CRC_8"@, 0);
                lemma_differ("ADD_22"@, "CRC_16"@, 0);
                lemma_differ("ADD_22"@, "CRC_32"@, 0);
                lemma_differ("ADD_22"@, "CRC_2_16"@, 0);
            },
            ChecksumType::ADD_24 => {
                lemma_same("ADD_24"@);
                lemma_differ("ADD_24"@, "ADD_11"@, 4);
                lemma_differ("ADD_24"@, "ADD_12"@, 4);
                lemma_differ("ADD_24"@, "ADD_14"@, 4);
                lemma_differ("ADD_24"@, "CRC_8"@, 0);
                lemma_differ("ADD_24"@, "CRC_16"@, 0);
                lemma_differ("ADD_24"@, "CRC_32"@, 0);
                lemma_differ("ADD_24"@, "CRC_2_16"@, 0);
                lemma_differ("ADD_24"@, "ADD_22"@, 5);
            },
            ChecksumType::ADD_44 => {
                lemma_same("ADD_44"@);
                lemma_differ("ADD_44"@, "ADD_11"@, 4);
                lemma_differ("ADD_44"@, "ADD_12"@, 4);
                lemma_differ("ADD_44"@, "ADD_14"@, 4);
                lemma_differ("ADD_44"@, "CRC_8"@, 0);
                lemma_differ("ADD_44"@, "CRC_16"@, 0);
                lemma_differ("ADD_44"@, "CRC_32"@, 0);
                lemma_differ("ADD_44"@, "CRC_2_16"@, 0);
                lemma_differ("ADD_44"@, "ADD_22"@, 4);
                lemma_differ("ADD_44"@, "ADD_24"@, 4);
            },
            ChecksumType::USER_DEFINED => {
                lemma_same("USER_DEFINED"@);
                lemma_differ("USER_DEFINED"@, "ADD_11"@, 0);
                lemma_differ("USER_DEFINED"@, "ADD_12"@, 0);
                lemma_differ("USER_DEFINED"@, "ADD_14"@, 0);
                lemma_differ("USER_DEFINED"@, "CRC_8"@, 0);
                lemma_differ("USER_DEFINED"@, "CRC_16"@, 0);
                lemma_differ("USER_DEFINED"@, "CRC_32"@, 0);
                lemma_differ("USER_DEFINED"@, "CRC_2_16"@, 0);
                lemma_differ("USER_DEFINED"@, "ADD_22"@, 0);
                lemma_differ("USER_DEFINED"@, "ADD_24"@, 0);
                lemma_differ("USER_DEFINED"@, "ADD_44"@, 0);
            },
            ChecksumType::CRC_16_CITT => {
                lemma_same("CRC_16_CITT"@);
                lemma_differ("CRC_16_CITT"@, "ADD_11"@, 0);
                lemma_differ("CRC_16_CITT"@, "ADD_12"@, 0);
                lemma_differ("CRC_16_CITT"@, "ADD_14"@, 0);
                lemma_differ("CRC_16_CITT"@, "CRC_8"@, 0);
                lemma_differ("CRC_16_CITT"@, "CRC_16"@, 0);
                lemma_differ("CRC_16_CITT"@, "CRC_32"@, 0);
                lemma_differ("CRC_16_CITT"@, "CRC_2_16"@, 0);
                lemma_differ("CRC_16_CITT"@, "ADD_22"@, 0);
                lemma_differ("CRC_16_CITT"@, "ADD_24"@, 0);
                lemma_differ("CRC_16_CITT"@, "ADD_44"@, 0);
                lemma_differ("CRC_16_CITT"@, "USER_DEFINED"@, 0);
            },
            ChecksumType::NotSet => {},
        }
    }

    proof fn law_word_of_named(kw: Seq<char>) {
    }
}

/// Kinds of conversion methods.
#[allow(non_camel_case_types)]
#[derive(Debug, Clone, Copy, PartialEq, Eq, Hash, Structural)]
pub enum ConversionType {
    IDENTICAL,
    FORM,
    LINEAR,
    RAT_FUNC,
    TAB_INTP,
    TAB_NOINTP,
    TAB_VERB,
}

impl A2lKeyword for ConversionType {
    open spec fn word(self) -> Option<Seq<char>> {
        match self {
            ConversionType::IDENTICAL => Some("IDENTICAL"@),
            ConversionType::FORM => Some("FORM"@),
            ConversionType::LINEAR => Some("LINEAR"@),
            ConversionType::RAT_FUNC => Some("RAT_FUNC"@),
            ConversionType::TAB_INTP => Some("TAB_INTP"@),
            ConversionType::TAB_NOINTP => Some("TAB_NOINTP"@),
            ConversionType::TAB_VERB => Some("TAB_VERB"@),
        }
    }

    open spec fn named(kw: Seq<char>) -> Option<Self> {
        if same_ignore_case(kw, "IDENTICAL"@) {
            Some(ConversionType::IDENTICAL)
        } else if same_ignore_case(kw, "FORM"@) {
            Some(ConversionType::FORM)
        } else if same_ignore_case(kw, "LINEAR"@) {
            Some(ConversionType::LINEAR)
        } else if same_ignore_case(kw, "RAT_FUNC"@) {
            Some(ConversionType::RAT_FUNC)
        } else if same_ignore_case(kw, "TAB_INTP"@) {
            Some(ConversionType::TAB_INTP)
        } else if same_ignore_case(kw, "TAB_NOINTP"@) {
            Some(ConversionType::TAB_NOINTP)
        } else if same_ignore_case(kw, "TAB_VERB"@) {
            Some(ConversionType::TAB_VERB)
        } else {
            None
        }
    }

    fn as_keyword(self) -> (r: Option<&'static str>) {
        match self {
            ConversionType::IDENTICAL => Some("IDENTICAL"),
            ConversionType::FORM => Some("FORM"),
            ConversionType::LINEAR => Some("LINEAR"),
            ConversionType::RAT_FUNC => Some("RAT_FUNC"),
            ConversionType::TAB_INTP => Some("TAB_INTP"),
            ConversionType::TAB_NOINTP => Some("TAB_NOINTP"),
            ConversionType::TAB_VERB => Some("TAB_VERB"),
        }
    }

    fn from_keyword(kw: &str) -> (r: Option<Self>) {
        if eq_ignore_case(kw, "IDENTICAL") {
            Some(ConversionType::IDENTICAL)
        } else if eq_ignore_case(kw, "FORM") {
            Some(ConversionType::FORM)
        } else if eq_ignore_case(kw, "LINEAR") {
            Some(ConversionType::LINEAR)
        } else if eq_ignore_case(kw, "RAT_FUNC") {
            Some(ConversionType::RAT_FUNC)
        } else if eq_ignore_case(kw, "TAB_INTP") {
            Some(ConversionType::TAB_INTP)
        } else if eq_ignore_case(kw, "TAB_NOINTP") {
            Some(ConversionType::TAB_NOINTP)
        } else if eq_ignore_case(kw, "TAB_VERB") {
            Some(ConversionType::TAB_VERB)
        } else {
            None
        }
    }

    proof fn law_named_of_word(self) {
        reveal_strlit("IDENTICAL");
        reveal_strlit("FORM");
        reveal_strlit("LINEAR");
        reveal_strlit("RAT_FUNC");
        reveal_strlit("TAB_INTP");
        reveal_strlit("TAB_NOINTP");
        reveal_strlit("TAB_VERB");
        match self {
            ConversionType::IDENTICAL => {
                lemma_same("IDENTICAL"@);
            },
            ConversionType::FORM => {
                lemma_same("FORM"@);
                lemma_differ("FORM"@, "IDENTICAL"@, 0);
            },
            ConversionType::LINEAR => {
                lemma_same("LINEAR"@);
                lemma_differ("LINEAR"@, "IDENTICAL"@, 0);
                lemma_differ("LINEAR"@, "FORM"@, 0);
            },
            ConversionType::RAT_FUNC => {
                lemma_same("RAT_FUNC"@);
                lemma_differ("RAT_FUNC"@, "IDENTICAL"@, 0);
                lemma_differ("RAT_FUNC"@, "FORM"@, 0);
                lemma_differ("RAT_FUNC"@, "LINEAR"@, 0);
            },
            ConversionType::TAB_INTP => {
                lemma_same("TAB_INTP"@);
                lemma_differ("TAB_INTP"@, "IDENTICAL"@, 0);
                lemma_differ("TAB_INTP"@, "FORM"@, 0);
                lemma_differ("TAB_INTP"@, "LINEAR"@, 0);
                lemma_differ("TAB_INTP"@, "RAT_FUNC"@, 0);
            },
            ConversionType::TAB_NOINTP => {
                lemma_same("TAB_NOINTP"@);
                lemma_differ("TAB_NOINTP"@, "IDENTICAL"@, 0);
                lemma_differ("TAB_NOINTP"@, "FORM"@, 0);
                lemma_differ("TAB_NOINTP"@, "LINEAR"@, 0);
                lemma_differ("TAB_NOINTP"@, "RAT_FUNC"@, 0);
                lemma_differ("TAB_NOINTP"@, "TAB_INTP"@, 0);
            },
            ConversionType::TAB_VERB => {
                lemma_same("TAB_VERB"@);
                lemma_differ("TAB_VERB"@, "IDENTICAL"@, 0);
                lemma_differ("TAB_VERB"@, "FORM"@, 0);
                lemma_differ("TAB_VERB"@, "LINEAR"@, 0);
                lemma_differ("TAB_VERB"@, "RAT_FUNC"@, 0);
                lemma_differ("TAB_VERB"@, "TAB_INTP"@, 4);
                lemma_differ("TAB_VERB"@, "TAB_NOINTP"@, 0);
            },
        }
    }

    proof fn law_word_of_named(kw: Seq<char>) {
    }
}

/// Protocols of events.
#[allow(non_camel_case_types)]
#[derive(Debug, Clone, Copy, PartialEq, Eq, Hash, Structural)]
pub enum DaqEventType {
    NoEvent,
    XCP,
    CCP,
}

/// Sizes of reserved memory.
#[allow(non_camel_case_types)]
#[derive(Debug, Clone, Copy, PartialEq, Eq, Hash, Structural)]
pub enum DataSize {
    BYTE,
    WORD,
    LONG,
}

impl A2lKeyword for DataSize {
    open spec fn word(self) -> Option<Seq<char>> {
        match self {
            DataSize::BYTE => Some("BYTE"@),
            DataSize::WORD => Some("WORD"@),
            DataSize::LONG => Some("LONG"@),
        }
    }

    open spec fn named(kw: Seq<char>) -> Option<Self> {
        if same_ignore_case(kw, "BYTE"@) {
            Some(DataSize::BYTE)
        } else if same_ignore_case(kw, "WORD"@) {
            Some(DataSize::WORD)
        } else if same_ignore_case(kw, "LONG"@) {
            Some(DataSize::LONG)
        } else {
            None
        }
    }

    fn as_keyword(self) -> (r: Option<&'static str>) {
        match self {
            DataSize::BYTE => Some("BYTE"),
            DataSize::WORD => Some("WORD"),
            DataSize::LONG => Some("LONG"),
        }
    }

    fn from_keyword(kw: &str) -> (r: Option<Self>) {
        if eq_ignore_case(kw, "BYTE") {
            Some(DataSize::BYTE)
        } else if eq_ignore_case(kw, "WORD") {
            Some(DataSize::WORD)
        } else if eq_ignore_case(kw, "LONG") {
            Some(DataSize::LONG)
        } else {
            None
        }
    }

    proof fn law_named_of_word(self) {
        reveal_strlit("BYTE");
        reveal_strlit("WORD");
        reveal_strlit("LONG");
        match self {
            DataSize::BYTE => {
                lemma_same("BYTE"@);
            },
            DataSize::WORD => {
                lemma_same("WORD"@);
                lemma_differ("WORD"@, "BYTE"@, 0);
            },
            DataSize::LONG => {
                lemma_same("LONG"@);
                lemma_differ("LONG"@, "BYTE"@, 0);
                lemma_differ("LONG"@, "WORD"@, 0);
            },
        }
    }

    proof fn law_word_of_named(kw: Seq<char>) {
    }
}

/// How axis points are deposited.
#[allow(non_camel_case_types)]
#[derive(Debug, Clone, Copy, PartialEq, Eq, Hash, Structural)]
pub enum DepositType {
    NotSet,
    ABSOLUTE,
    DIFFERENCE,
}

impl Default for DepositType {
    fn default() -> (r: Self)
        ensures
            r == DepositType::NotSet,
    {
        DepositType::NotSet
    }
}

impl DepositType {
    /// The value that is taken where none is given.
    pub open spec fn blank() -> DepositType {
        DepositType::NotSet
    }
}

impl A2lKeyword for DepositType {
    open spec fn word(self) -> Option<Seq<char>> {
        match self {
            DepositType::ABSOLUTE => Some("ABSOLUTE"@),
            DepositType::DIFFERENCE => Some("DIFFERENCE"@),
            DepositType::NotSet => None,
        }
    }

    open spec fn named(kw: Seq<char>) -> Option<Self> {
        if same_ignore_case(kw, "ABSOLUTE"@) {
            Some(DepositType::ABSOLUTE)
        } else if same_ignore_case(kw, "DIFFERENCE"@) {
            Some(DepositType::DIFFERENCE)
        } else {
            None
        }
    }

    fn as_keyword(self) -> (r: Option<&'static str>) {
        match self {
            DepositType::ABSOLUTE => Some("ABSOLUTE"),
            DepositType::DIFFERENCE => Some("DIFFERENCE"),
            DepositType::NotSet => None,
        }
    }

    fn from_keyword(kw: &str) -> (r: Option<Self>) {
        if eq_ignore_case(kw, "ABSOLUTE") {
            Some(DepositType::ABSOLUTE)
        } else if eq_ignore_case(kw, "DIFFERENCE") {
            Some(DepositType::DIFFERENCE)
        } else {
            None
        }
    }

    proof fn law_named_of_word(self) {
        reveal_strlit("ABSOLUTE");
        reveal_strlit("DIFFERENCE");
        match self {
            DepositType::ABSOLUTE => {
                lemma_same("ABSOLUTE"@);
            },
            DepositType::DIFFERENCE => {
                lemma_same("DIFFERENCE"@);
                lemma_differ("DIFFERENCE"@, "ABSOLUTE"@, 0);
            },
            DepositType::NotSet => {},
        }
    }

    proof fn law_word_of_named(kw: Seq<char>) {
    }
}

/// Memory pages of an ECU.
#[allow(non_camel_case_types)]
#[derive(Debug, Clone, Copy, PartialEq, Eq, Hash, Structural)]
pub enum EcuPage {
    Flash,
    RAM,
}

impl EcuPage {
    /// The number of the value.
    pub open spec fn number(self) -> u32 {
        match self {
            EcuPage::Flash => 0,
            EcuPage::RAM => 1,
        }
    }

    /// The number of the value.
    pub fn to_raw(self) -> (r: u32)
        ensures
            r == self.number(),
    {
        match self {
            EcuPage::Flash => 0,
            EcuPage::RAM => 1,
        }
    }
}

/// Encodings of texts.
#[allow(non_camel_case_types)]
#[derive(Debug, Clone, Copy, PartialEq, Eq, Hash, Structural)]
pub enum EncodingType {
    ASCII,
    UTF8,
    UTF16,
    UTF32,
}

impl A2lKeyword for EncodingType {
    open spec fn word(self) -> Option<Seq<char>> {
        match self {
            EncodingType::ASCII => Some("ASCII"@),
            EncodingType::UTF8 => Some("UTF8"@),
            EncodingType::UTF16 => Some("UTF16"@),
            EncodingType::UTF32 => Some("UTF32"@),
        }
    }

    open spec fn named(kw: Seq<char>) -> Option<Self> {
        if same_ignore_case(kw, "ASCII"@) {
            Some(EncodingType::ASCII)
        } else if same_ignore_case(kw, "UTF8"@) {
            Some(EncodingType::UTF8)
        } else if same_ignore_case(kw, "UTF16"@) {
            Some(EncodingType::UTF16)
        } else if same_ignore_case(kw, "UTF32"@) {
            Some(EncodingType::UTF32)
        } else {
            None
        }
    }

    fn as_keyword(self) -> (r: Option<&'static str>) {
        match self {
            EncodingType::ASCII => Some("ASCII"),
            EncodingType::UTF8 => Some("UTF8"),
            EncodingType::UTF16 => Some("UTF16"),
            EncodingType::UTF32 => Some("UTF32"),
        }
    }

    fn from_keyword(kw: &str) -> (r: Option<Self>) {
        if eq_ignore_case(kw, "ASCII") {
            Some(EncodingType::ASCII)
        } else if eq_ignore_case(kw, "UTF8") {
            Some(EncodingType::UTF8)
        } else if eq_ignore_case(kw, "UTF16") {
            Some(EncodingType::UTF16)
        } else if eq_ignore_case(kw, "UTF32") {
            Some(EncodingType::UTF32)
        } else {
            None
        }
    }

    proof fn law_named_of_word(self) {
        reveal_strlit("ASCII");
        reveal_strlit("UTF8");
        reveal_strlit("UTF16");
        reveal_strlit("UTF32");
        match self {
            EncodingType::ASCII => {
                lemma_same("ASCII"@);
            },
            EncodingType::UTF8 => {
                lemma_same("UTF8"@);
                lemma_differ("UTF8"@, "ASCII"@, 0);
            },
            EncodingType::UTF16 => {
                lemma_same("UTF16"@);
                lemma_differ("UTF16"@, "ASCII"@, 0);
                lemma_differ("UTF16"@, "UTF8"@, 0);
            },
            EncodingType::UTF32 => {
                lemma_same("UTF32"@);
                lemma_differ("UTF32"@, "ASCII"@, 0);
                lemma_differ("UTF32"@, "UTF8"@, 0);
                lemma_differ("UTF32"@, "UTF16"@, 3);
            },
        }
    }

    proof fn law_word_of_named(kw: Seq<char>) {
    }
}

/// How values are arranged in memory.
#[allow(non_camel_case_types)]
#[derive(Debug, Clone, Copy, PartialEq, Eq, Hash, Structural)]
pub enum IndexMode {
    NotSet,
    ROW_DIR,
    COLUMN_DIR,
    ALTERNATE_WITH_X,
    ALTERNATE_WITH_Y,
    ALTERNATE_CURVES,
}

impl Default for IndexMode {
    fn default() -> (r: Self)
        ensures
            r == IndexMode::NotSet,
    {
        IndexMode::NotSet
    }
}

impl IndexMode {
    /// The value that is taken where none is given.
    pub open spec fn blank() -> IndexMode {
        IndexMode::NotSet
    }
}

impl A2lKeyword for IndexMode {
    open spec fn word(self) -> Option<Seq<char>> {
        match self {
            IndexMode::ROW_DIR => Some("ROW_DIR"@),
            IndexMode::COLUMN_DIR => Some("COLUMN_DIR"@),
            IndexMode::ALTERNATE_WITH_X => Some("ALTERNATE_WITH_X"@),
            IndexMode::ALTERNATE_WITH_Y => Some("ALTERNATE_WITH_Y"@),
            IndexMode::ALTERNATE_CURVES => Some("ALTERNATE_CURVES"@),
            IndexMode::NotSet => None,
        }
    }

    open spec fn named(kw: Seq<char>) -> Option<Self> {
        if same_ignore_case(kw, "ROW_DIR"@) {
            Some(IndexMode::ROW_DIR)
        } else if same_ignore_case(kw, "COLUMN_DIR"@) {
            Some(IndexMode::COLUMN_DIR)
        } else if same_ignore_case(kw, "ALTERNATE_WITH_X"@) {
            Some(IndexMode::ALTERNATE_WITH_X)
        } else if same_ignore_case(kw, "ALTERNATE_WITH_Y"@) {
            Some(IndexMode::ALTERNATE_WITH_Y)
        } else if same_ignore_case(kw, "ALTERNATE_CURVES"@) {
            Some(IndexMode::ALTERNATE_CURVES)
        } else {
            None
        }
    }

    fn as_keyword(self) -> (r: Option<&'static str>) {
        match self {
            IndexMode::ROW_DIR => Some("ROW_DIR"),
            IndexMode::COLUMN_DIR => Some("COLUMN_DIR"),
            IndexMode::ALTERNATE_WITH_X => Some("ALTERNATE_WITH_X"),
            IndexMode::ALTERNATE_WITH_Y => Some("ALTERNATE_WITH_Y"),
            IndexMode::ALTERNATE_CURVES => Some("ALTERNATE_CURVES"),
            IndexMode::NotSet => None,
        }
    }

    fn from_keyword(kw: &str) -> (r: Option<Self>) {
        if eq_ignore_case(kw, "ROW_DIR") {
            Some(IndexMode::ROW_DIR)
        } else if eq_ignore_case(kw, "COLUMN_DIR") {
            Some(IndexMode::COLUMN_DIR)
        } else if eq_ignore_case(kw, "ALTERNATE_WITH_X") {
            Some(IndexMode::ALTERNATE_WITH_X)
        } else if eq_ignore_case(kw, "ALTERNATE_WITH_Y") {
            Some(IndexMode::ALTERNATE_WITH_Y)
        } else if eq_ignore_case(kw, "ALTERNATE_CURVES") {
            Some(IndexMode::ALTERNATE_CURVES)
        } else {
            None
        }
    }

    proof fn law_named_of_word(self) {
        reveal_strlit("ROW_DIR");
        reveal_strlit("COLUMN_DIR");
        reveal_strlit("ALTERNATE_WITH_X");
        reveal_strlit("ALTERNATE_WITH_Y");
        reveal_strlit("ALTERNATE_CURVES");
        match self {
            IndexMode::ROW_DIR => {
                lemma_same("ROW_DIR"@);
            },
            IndexMode::COLUMN_DIR => {
                lemma_same("COLUMN_DIR"@);
                lemma_differ("COLUMN_DIR"@, "ROW_DIR"@, 0);
            },
            IndexMode::ALTERNATE_WITH_X => {
                lemma_same("ALTERNATE_WITH_X"@);
                lemma_differ("ALTERNATE_WITH_X"@, "ROW_DIR"@, 0);
                lemma_differ("ALTERNATE_WITH_X"@, "COLUMN_DIR"@, 0);
            },
            IndexMode::ALTERNATE_WITH_Y => {
                lemma_same("ALTERNATE_WITH_Y"@);
                lemma_differ("ALTERNATE_WITH_Y"@, "ROW_DIR"@, 0);
                lemma_differ("ALTERNATE_WITH_Y"@, "COLUMN_DIR"@, 0);
                lemma_differ("ALTERNATE_WITH_Y"@, "ALTERNATE_WITH_X"@, 15);
            },
            IndexMode::ALTERNATE_CURVES => {
                lemma_same("ALTERNATE_CURVES"@);
                lemma_differ("ALTERNATE_CURVES"@, "ROW_DIR"@, 0);
                lemma_differ("ALTERNATE_CURVES"@, "COLUMN_DIR"@, 0);
                lemma_differ("ALTERNATE_CURVES"@, "ALTERNATE_WITH_X"@, 10);
                lemma_differ("ALTERNATE_CURVES"@, "ALTERNATE_WITH_Y"@, 10);
            },
            IndexMode::NotSet => {},
        }
    }

    proof fn law_word_of_named(kw: Seq<char>) {
    }
}

/// Order of indices in memory.
#[allow(non_camel_case_types)]
#[derive(Debug, Clone, Copy, PartialEq, Eq, Hash, Structural)]
pub enum IndexOrder {
    INDEX_INCR,
    INDEX_DECR,
}

impl A2lKeyword for IndexOrder {
    open spec fn word(self) -> Option<Seq<char>> {
        match self {
            IndexOrder::INDEX_INCR => Some("INDEX_INCR"@),
            IndexOrder::INDEX_DECR => Some("INDEX_DECR"@),
        }
    }

    open spec fn named(kw: Seq<char>) -> Option<Self> {
        if same_ignore_case(kw, "INDEX_INCR"@) {
            Some(IndexOrder::INDEX_INCR)
        } else if same_ignore_case(kw, "INDEX_DECR"@) {
            Some(IndexOrder::INDEX_DECR)
        } else {
            None
        }
    }

    fn as_keyword(self) -> (r: Option<&'static str>) {
        match self {
            IndexOrder::INDEX_INCR => Some("INDEX_INCR"),
            IndexOrder::INDEX_DECR => Some("INDEX_DECR"),
        }
    }

    fn from_keyword(kw: &str) -> (r: Option<Self>) {
        if eq_ignore_case(kw, "INDEX_INCR") {
            Some(IndexOrder::INDEX_INCR)
        } else if eq_ignore_case(kw, "INDEX_DECR") {
            Some(IndexOrder::INDEX_DECR)
        } else {
            None
        }
    }

    proof fn law_named_of_word(self) {
        reveal_strlit("INDEX_INCR");
        reveal_strlit("INDEX_DECR");
        match self {
            IndexOrder::INDEX_INCR => {
                lemma_same("INDEX_INCR"@);
            },
            IndexOrder::INDEX_DECR => {
                lemma_same("INDEX_DECR"@);
                lemma_differ("INDEX_DECR"@, "INDEX_INCR"@, 6);
            },
        }
    }

    proof fn law_word_of_named(kw: Seq<char>) {
    }
}

/// Where memory is.
#[allow(non_camel_case_types)]
#[derive(Debug, Clone, Copy, PartialEq, Eq, Hash, Structural)]
pub enum MemoryAttribute {
    INTERN,
    EXTERN,
}

impl A2lKeyword for MemoryAttribute {
    open spec fn word(self) -> Option<Seq<char>> {
        match self {
            MemoryAttribute::INTERN => Some("INTERN"@),
            MemoryAttribute::EXTERN => Some("EXTERN"@),
        }
    }

    open spec fn named(kw: Seq<char>) -> Option<Self> {
        if same_ignore_case(kw, "INTERN"@) {
            Some(MemoryAttribute::INTERN)
        } else if same_ignore_case(kw, "EXTERN"@) {
            Some(MemoryAttribute::EXTERN)
        } else {
            None
        }
    }

    fn as_keyword(self) -> (r: Option<&'static str>) {
        match self {
            MemoryAttribute::INTERN => Some("INTERN"),
            MemoryAttribute::EXTERN => Some("EXTERN"),
        }
    }

    fn from_keyword(kw: &str) -> (r: Option<Self>) {
        if eq_ignore_case(kw, "INTERN") {
            Some(MemoryAttribute::INTERN)
        } else if eq_ignore_case(kw, "EXTERN") {
            Some(MemoryAttribute::EXTERN)
        } else {
            None
        }
    }

    proof fn law_named_of_word(self) {
        reveal_strlit("INTERN");
        reveal_strlit("EXTERN");
        match self {
            MemoryAttribute::INTERN => {
                lemma_same("INTERN"@);
            },
            MemoryAttribute::EXTERN => {
                lemma_same("EXTERN"@);
                lemma_differ("EXTERN"@, "INTERN"@, 0);
            },
        }
    }

    proof fn law_word_of_named(kw: Seq<char>) {
    }
}

/// Kinds of memory.
#[allow(non_camel_case_types)]
#[derive(Debug, Clone, Copy, PartialEq, Eq, Hash, Structural)]
pub enum MemoryType {
    RAM,
    EEPROM,
    EPROM,
    ROM,
    REGISTER,
    FLASH,
    NOT_IN_ECU,
}

impl A2lKeyword for MemoryType {
    open spec fn word(self) -> Option<Seq<char>> {
        match self {
            MemoryType::RAM => Some("RAM"@),
            MemoryType::EEPROM => Some("EEPROM"@),
            MemoryType::EPROM => Some("EPROM"@),
            MemoryType::ROM => Some("ROM"@),
            MemoryType::REGISTER => Some("REGISTER"@),
            MemoryType::FLASH => Some("FLASH"@),
            MemoryType::NOT_IN_ECU => Some("NOT_IN_ECU"@),
        }
    }

    open spec fn named(kw: Seq<char>) -> Option<Self> {
        if same_ignore_case(kw, "RAM"@) {
            Some(MemoryType::RAM)
        } else if same_ignore_case(kw, "EEPROM"@) {
            Some(MemoryType::EEPROM)
        } else if same_ignore_case(kw, "EPROM"@) {
            Some(MemoryType::EPROM)
        } else if same_ignore_case(kw, "ROM"@) {
            Some(MemoryType::ROM)
        } else if same_ignore_case(kw, "REGISTER"@) {
            Some(MemoryType::REGISTER)
        } else if same_ignore_case(kw, "FLASH"@) {
            Some(MemoryType::FLASH)
        } else if same_ignore_case(kw, "NOT_IN_ECU"@) {
            Some(MemoryType::NOT_IN_ECU)
        } else {
            None
        }
    }

    fn as_keyword(self) -> (r: Option<&'static str>) {
        match self {
            MemoryType::RAM => Some("RAM"),
            MemoryType::EEPROM => Some("EEPROM"),
            MemoryType::EPROM => Some("EPROM"),
            MemoryType::ROM => Some("ROM"),
            MemoryType::REGISTER => Some("REGISTER"),
            MemoryType::FLASH => Some("FLASH"),
            MemoryType::NOT_IN_ECU => Some("NOT_IN_ECU"),
        }
    }

    fn from_keyword(kw: &str) -> (r: Option<Self>) {
        if eq_ignore_case(kw, "RAM") {
            Some(MemoryType::RAM)
        } else if eq_ignore_case(kw, "EEPROM") {
            Some(MemoryType::EEPROM)
        } else if eq_ignore_case(kw, "EPROM") {
            Some(MemoryType::EPROM)
        } else if eq_ignore_case(kw, "ROM") {
            Some(MemoryType::ROM)
        } else if eq_ignore_case(kw, "REGISTER") {
            Some(MemoryType::REGISTER)
        } else if eq_ignore_case(kw, "FLASH") {
            Some(MemoryType::FLASH)
        } else if eq_ignore_case(kw, "NOT_IN_ECU") {
            Some(MemoryType::NOT_IN_ECU)
        } else {
            None
        }
    }

    proof fn law_named_of_word(self) {
        reveal_strlit("RAM");
        reveal_strlit("EEPROM");
        reveal_strlit("EPROM");
        reveal_strlit("ROM");
        reveal_strlit("REGISTER");
        reveal_strlit("FLASH");
        reveal_strlit("NOT_IN_ECU");
        match self {
            MemoryType::RAM => {
                lemma_same("RAM"@);
            },
            MemoryType::EEPROM => {
                lemma_same("EEPROM"@);
                lemma_differ("EEPROM"@, "RAM"@, 0);
            },
            MemoryType::EPROM => {
                lemma_same("EPROM"@);
                lemma_differ("EPROM"@, "RAM"@, 0);
                lemma_differ("EPROM"@, "EEPROM"@, 0);
            },
            MemoryType::ROM => {
                lemma_same("ROM"@);
                lemma_differ("ROM"@, "RAM"@, 1);
                lemma_differ("ROM"@, "EEPROM"@, 0);
                lemma_differ("ROM"@, "EPROM"@, 0);
            },
            MemoryType::REGISTER => {
                lemma_same("REGISTER"@);
                lemma_differ("REGISTER"@, "RAM"@, 0);
                lemma_differ("REGISTER"@, "EEPROM"@, 0);
                lemma_differ("REGISTER"@, "EPROM"@, 0);
                lemma_differ("REGISTER"@, "ROM"@, 0);
            },
            MemoryType::FLASH => {
                lemma_same("FLASH"@);
                lemma_differ("FLASH"@, "RAM"@, 0);
                lemma_differ("FLASH"@, "EEPROM"@, 0);
                lemma_differ("FLASH"@, "EPROM"@, 0);
                lemma_differ("FLASH"@, "ROM"@, 0);
                lemma_differ("FLASH"@, "REGISTER"@, 0);
            },
            MemoryType::NOT_IN_ECU => {
                lemma_same("NOT_IN_ECU"@);
                lemma_differ("NOT_IN_ECU"@, "RAM"@, 0);
                lemma_differ("NOT_IN_ECU"@, "EEPROM"@, 0);
                lemma_differ("NOT_IN_ECU"@, "EPROM"@, 0);
                lemma_differ("NOT_IN_ECU"@, "ROM"@, 0);
                lemma_differ("NOT_IN_ECU"@, "REGISTER"@, 0);
                lemma_differ("NOT_IN_ECU"@, "FLASH"@, 0);
            },
        }
    }

    proof fn law_word_of_named(kw: Seq<char>) {
    }
}

/// What a memory segment holds.
#[allow(non_camel_case_types)]
#[derive(Debug, Clone, Copy, PartialEq, Eq, Hash, Structural)]
pub enum MemoryPrgType {
    UNKNOWN,
    CODE,
    DATA,
    OFFLINE_DATA,
    VARIABLES,
    SERAM,
    RESERVED,
    CALIBRATION_VARIABLES,
    EXCLUDE_FROM_FLASH,
}

impl A2lKeyword for MemoryPrgType {
    open spec fn word(self) -> Option<Seq<char>> {
        match self {
            MemoryPrgType::UNKNOWN => Some("UNKNOWN"@),
            MemoryPrgType::CODE => Some("CODE"@),
            MemoryPrgType::DATA => Some("DATA"@),
            MemoryPrgType::OFFLINE_DATA => Some("OFFLINE_DATA"@),
            MemoryPrgType::VARIABLES => Some("VARIABLES"@),
            MemoryPrgType::SERAM => Some("SERAM"@),
            MemoryPrgType::RESERVED => Some("RESERVED"@),
            MemoryPrgType::CALIBRATION_VARIABLES => Some("CALIBRATION_VARIABLES"@),
            MemoryPrgType::EXCLUDE_FROM_FLASH => Some("EXCLUDE_FROM_FLASH"@),
        }
    }

    open spec fn named(kw: Seq<char>) -> Option<Self> {
        if same_ignore_case(kw, "UNKNOWN"@) {
            Some(MemoryPrgType::UNKNOWN)
        } else if same_ignore_case(kw, "CODE"@) {
            Some(MemoryPrgType::CODE)
        } else if same_ignore_case(kw, "DATA"@) {
            Some(MemoryPrgType::DATA)
        } else if same_ignore_case(kw, "OFFLINE_DATA"@) {
            Some(MemoryPrgType::OFFLINE_DATA)
        } else if same_ignore_case(kw, "VARIABLES"@) {
            Some(MemoryPrgType::VARIABLES)
        } else if same_ignore_case(kw, "SERAM"@) {
            Some(MemoryPrgType::SERAM)
        } else if same_ignore_case(kw, "RESERVED"@) {
            Some(MemoryPrgType::RESERVED)
        } else if same_ignore_case(kw, "CALIBRATION_VARIABLES"@) {
            Some(MemoryPrgType::CALIBRATION_VARIABLES)
        } else if same_ignore_case(kw, "EXCLUDE_FROM_FLASH"@) {
            Some(MemoryPrgType::EXCLUDE_FROM_FLASH)
        } else {
            None
        }
    }

    fn as_keyword(self) -> (r: Option<&'static str>) {
        match self {
            MemoryPrgType::UNKNOWN => Some("UNKNOWN"),
            MemoryPrgType::CODE => Some("CODE"),
            MemoryPrgType::DATA => Some("DATA"),
            MemoryPrgType::OFFLINE_DATA => Some("OFFLINE_DATA"),
            MemoryPrgType::VARIABLES => Some("VARIABLES"),
            MemoryPrgType::SERAM => Some("SERAM"),
            MemoryPrgType::RESERVED => Some("RESERVED"),
            MemoryPrgType::CALIBRATION_VARIABLES => Some("CALIBRATION_VARIABLES"),
            MemoryPrgType::EXCLUDE_FROM_FLASH => Some("EXCLUDE_FROM_FLASH"),
        }
    }

    fn from_keyword(kw: &str) -> (r: Option<Self>) {
        if eq_ignore_case(kw, "UNKNOWN") {
            Some(MemoryPrgType::UNKNOWN)
        } else if eq_ignore_case(kw, "CODE") {
            Some(MemoryPrgType::CODE)
        } else if eq_ignore_case(kw, "DATA") {
            Some(MemoryPrgType::DATA)
        } else if eq_ignore_case(kw, "OFFLINE_DATA") {
            Some(MemoryPrgType::OFFLINE_DATA)
        } else if eq_ignore_case(kw, "VARIABLES") {
            Some(MemoryPrgType::VARIABLES)
        } else if eq_ignore_case(kw, "SERAM") {
            Some(MemoryPrgType::SERAM)
        } else if eq_ignore_case(kw, "RESERVED") {
            Some(MemoryPrgType::RESERVED)
        } else if eq_ignore_case(kw, "CALIBRATION_VARIABLES") {
            Some(MemoryPrgType::CALIBRATION_VARIABLES)
        } else if eq_ignore_case(kw, "EXCLUDE_FROM_FLASH") {
            Some(MemoryPrgType::EXCLUDE_FROM_FLASH)
        } else {
            None
        }
    }

    proof fn law_named_of_word(self) {
        reveal_strlit("UNKNOWN");
        reveal_strlit("CODE");
        reveal_strlit("DATA");
        reveal_strlit("OFFLINE_DATA");
        reveal_strlit("VARIABLES");
        reveal_strlit("SERAM");
        reveal_strlit("RESERVED");
        reveal_strlit("CALIBRATION_VARIABLES");
        reveal_strlit("EXCLUDE_FROM_FLASH");
        match self {
            MemoryPrgType::UNKNOWN => {
                lemma_same("UNKNOWN"@);
            },
            MemoryPrgType::CODE => {
                lemma_same("CODE"@);
                lemma_differ("CODE"@, "UNKNOWN"@, 0);
            },
            MemoryPrgType::DATA => {
                lemma_same("DATA"@);
                lemma_differ("DATA"@, "UNKNOWN"@, 0);
                lemma_differ("DATA"@, "CODE"@, 0);
            },
            MemoryPrgType::OFFLINE_DATA => {
                lemma_same("OFFLINE_DATA"@);
                lemma_differ("OFFLINE_DATA"@, "UNKNOWN"@, 0);
                lemma_differ("OFFLINE_DATA"@, "CODE"@, 0);
                lemma_differ("OFFLINE_DATA"@, "DATA"@, 0);
            },
            MemoryPrgType::VARIABLES => {
                lemma_same("VARIABLES"@);
                lemma_differ("VARIABLES"@, "UNKNOWN"@, 0);
                lemma_differ("VARIABLES"@, "CODE"@, 0);
                lemma_differ("VARIABLES"@, "DATA"@, 0);
                lemma_differ("VARIABLES"@, "OFFLINE_DATA"@, 0);
            },
            MemoryPrgType::SERAM => {
                lemma_same("SERAM"@);
                lemma_differ("SERAM"@, "UNKNOWN"@, 0);
                lemma_differ("SERAM"@, "CODE"@, 0);
                lemma_differ("SERAM"@, "DATA"@, 0);
                lemma_differ("SERAM"@, "OFFLINE_DATA"@, 0);
                lemma_differ("SERAM"@, "VARIABLES"@, 0);
            },
            MemoryPrgType::RESERVED => {
                lemma_same("RESERVED"@);
                lemma_differ("RESERVED"@, "UNKNOWN"@, 0);
                lemma_differ("RESERVED"@, "CODE"@, 0);
                lemma_differ("RESERVED"@, "DATA"@, 0);
                lemma_differ("RESERVED"@, "OFFLINE_DATA"@, 0);
                lemma_differ("RESERVED"@, "VARIABLES"@, 0);
                lemma_differ("RESERVED"@, "SERAM"@, 0);
            },
            MemoryPrgType::CALIBRATION_VARIABLES => {
                lemma_same("CALIBRATION_VARIABLES"@);
                lemma_differ("CALIBRATION_VARIABLES"@, "UNKNOWN"@, 0);
                lemma_differ("CALIBRATION_VARIABLES"@, "CODE"@, 0);
                lemma_differ("CALIBRATION_VARIABLES"@, "DATA"@, 0);
                lemma_differ("CALIBRATION_VARIABLES"@, "OFFLINE_DATA"@, 0);
                lemma_differ("CALIBRATION_VARIABLES"@, "VARIABLES"@, 0);
                lemma_differ("CALIBRATION_VARIABLES"@, "SERAM"@, 0);
                lemma_differ("CALIBRATION_VARIABLES"@, "RESERVED"@, 0);
            },
            MemoryPrgType::EXCLUDE_FROM_FLASH => {
                lemma_same("EXCLUDE_FROM_FLASH"@);
                lemma_differ("EXCLUDE_FROM_FLASH"@, "UNKNOWN"@, 0);
                lemma_differ("EXCLUDE_FROM_FLASH"@, "CODE"@, 0);
                lemma_differ("EXCLUDE_FROM_FLASH"@, "DATA"@, 0);
                lemma_differ("EXCLUDE_FROM_FLASH"@, "OFFLINE_DATA"@, 0);
                lemma_differ("EXCLUDE_FROM_FLASH"@, "VARIABLES"@, 0);
                lemma_differ("EXCLUDE_FROM_FLASH"@, "SERAM"@, 0);
                lemma_differ("EXCLUDE_FROM_FLASH"@, "RESERVED"@, 0);
                lemma_differ("EXCLUDE_FROM_FLASH"@, "CALIBRATION_VARIABLES"@, 0);
            },
        }
    }

    proof fn law_word_of_named(kw: Seq<char>) {
    }
}

/// How axis points ascend or descend.
#[allow(non_camel_case_types)]
#[derive(Debug, Clone, Copy, PartialEq, Eq, Hash, Structural)]
pub enum MonotonyType {
    NotSet,
    NOT_MON,
    MON_DECREASE,
    MON_INCREASE,
    STRICT_DECREASE,
    STRICT_INCREASE,
    MONOTONOUS,
    STRICT_MON,
}

impl Default for MonotonyType {
    fn default() -> (r: Self)
        ensures
            r == MonotonyType::NotSet,
    {
        MonotonyType::NotSet
    }
}

impl MonotonyType {
    /// The value that is taken where none is given.
    pub open spec fn blank() -> MonotonyType {
        MonotonyType::NotSet
    }
}

impl A2lKeyword for MonotonyType {
    open spec fn word(self) -> Option<Seq<char>> {
        match self {
            MonotonyType::NOT_MON => Some("NOT_MON"@),
            MonotonyType::MON_DECREASE => Some("MON_DECREASE"@),
            MonotonyType::MON_INCREASE => Some("MON_INCREASE"@),
            MonotonyType::STRICT_DECREASE => Some("STRICT_DECREASE"@),
            MonotonyType::STRICT_INCREASE => Some("STRICT_INCREASE"@),
            MonotonyType::MONOTONOUS => Some("MONOTONOUS"@),
            MonotonyType::STRICT_MON => Some("STRICT_MON"@),
            MonotonyType::NotSet => None,
        }
    }

    open spec fn named(kw: Seq<char>) -> Option<Self> {
        if same_ignore_case(kw, "NOT_MON"@) {
            Some(MonotonyType::NOT_MON)
        } else if same_ignore_case(kw, "MON_DECREASE"@) {
            Some(MonotonyType::MON_DECREASE)
        } else if same_ignore_case(kw, "MON_INCREASE"@) {
            Some(MonotonyType::MON_INCREASE)
        } else if same_ignore_case(kw, "STRICT_DECREASE"@) {
            Some(MonotonyType::STRICT_DECREASE)
        } else if same_ignore_case(kw, "STRICT_INCREASE"@) {
            Some(MonotonyType::STRICT_INCREASE)
        } else if same_ignore_case(kw, "MONOTONOUS"@) {
            Some(MonotonyType::MONOTONOUS)
        } else if same_ignore_case(kw, "STRICT_MON"@) {
            Some(MonotonyType::STRICT_MON)
        } else {
            None
        }
    }

    fn as_keyword(self) -> (r: Option<&'static str>) {
        match self {
            MonotonyType::NOT_MON => Some("NOT_MON"),
            MonotonyType::MON_DECREASE => Some("MON_DECREASE"),
            MonotonyType::MON_INCREASE => Some("MON_INCREASE"),
            MonotonyType::STRICT_DECREASE => Some("STRICT_DECREASE"),
            MonotonyType::STRICT_INCREASE => Some("STRICT_INCREASE"),
            MonotonyType::MONOTONOUS => Some("MONOTONOUS"),
            MonotonyType::STRICT_MON => Some("STRICT_MON"),
            MonotonyType::NotSet => None,
        }
    }

    fn from_keyword(kw: &str) -> (r: Option<Self>) {
        if eq_ignore_case(kw, "NOT_MON") {
            Some(MonotonyType::NOT_MON)
        } else if eq_ignore_case(kw, "MON_DECREASE") {
            Some(MonotonyType::MON_DECREASE)
        } else if eq_ignore_case(kw, "MON_INCREASE") {
            Some(MonotonyType::MON_INCREASE)
        } else if eq_ignore_case(kw, "STRICT_DECREASE") {
            Some(MonotonyType::STRICT_DECREASE)
        } else if eq_ignore_case(kw, "STRICT_INCREASE") {
            Some(MonotonyType::STRICT_INCREASE)
        } else if eq_ignore_case(kw, "MONOTONOUS") {
            Some(MonotonyType::MONOTONOUS)
        } else if eq_ignore_case(kw, "STRICT_MON") {
            Some(MonotonyType::STRICT_MON)
        } else {
            None
        }
    }

    proof fn law_named_of_word(self) {
        reveal_strlit("NOT_MON");
        reveal_strlit("MON_DECREASE");
        reveal_strlit("MON_INCREASE");
        reveal_strlit("STRICT_DECREASE");
        reveal_strlit("STRICT_INCREASE");
        reveal_strlit("MONOTONOUS");
        reveal_strlit("STRICT_MON");
        match self {
            MonotonyType::NOT_MON => {
                lemma_same("NOT_MON"@);
            },
            MonotonyType::MON_DECREASE => {
                lemma_same("MON_DECREASE"@);
                lemma_differ("MON_DECREASE"@, "NOT_MON"@, 0);
            },
            MonotonyType::MON_INCREASE => {
                lemma_same("MON_INCREASE"@);
                lemma_differ("MON_INCREASE"@, "NOT_MON"@, 0);
                lemma_differ("MON_INCREASE"@, "MON_DECREASE"@, 4);
            },
            MonotonyType::STRICT_DECREASE => {
                lemma_same("STRICT_DECREASE"@);
                lemma_differ("STRICT_DECREASE"@, "NOT_MON"@, 0);
                lemma_differ("STRICT_DECREASE"@, "MON_DECREASE"@, 0);
                lemma_differ("STRICT_DECREASE"@, "MON_INCREASE"@, 0);
            },
            MonotonyType::STRICT_INCREASE => {
                lemma_same("STRICT_INCREASE"@);
                lemma_differ("STRICT_INCREASE"@, "NOT_MON"@, 0);
                lemma_differ("STRICT_INCREASE"@, "MON_DECREASE"@, 0);
                lemma_differ("STRICT_INCREASE"@, "MON_INCREASE"@, 0);
                lemma_differ("STRICT_INCREASE"@, "STRICT_DECREASE"@, 7);
            },
            MonotonyType::MONOTONOUS => {
                lemma_same("MONOTONOUS"@);
                lemma_differ("MONOTONOUS"@, "NOT_MON"@, 0);
                lemma_differ("MONOTONOUS"@, "MON_DECREASE"@, 0);
                lemma_differ("MONOTONOUS"@, "MON_INCREASE"@, 0);
                lemma_differ("MONOTONOUS"@, "STRICT_DECREASE"@, 0);
                lemma_differ("MONOTONOUS"@, "STRICT_INCREASE"@, 0);
            },
            MonotonyType::STRICT_MON => {
                lemma_same("STRICT_MON"@);
                lemma_differ("STRICT_MON"@, "NOT_MON"@, 0);
                lemma_differ("STRICT_MON"@, "MON_DECREASE"@, 0);
                lemma_differ("STRICT_MON"@, "MON_INCREASE"@, 0);
                lemma_differ("STRICT_MON"@, "STRICT_DECREASE"@, 0);
                lemma_differ("STRICT_MON"@, "STRICT_INCREASE"@, 0);
                lemma_differ("STRICT_MON"@, "MONOTONOUS"@, 0);
            },
            MonotonyType::NotSet => {},
        }
    }

    proof fn law_word_of_named(kw: Seq<char>) {
    }
}

/// What a memory layout holds.
#[allow(non_camel_case_types)]
#[derive(Debug, Clone, Copy, PartialEq, Eq, Hash, Structural)]
pub enum PrgType {
    PRG_CODE,
    PRG_DATA,
    PRG_RESERVED,
}

impl A2lKeyword for PrgType {
    open spec fn word(self) -> Option<Seq<char>> {
        match self {
            PrgType::PRG_CODE => Some("PRG_CODE"@),
            PrgType::PRG_DATA => Some("PRG_DATA"@),
            PrgType::PRG_RESERVED => Some("PRG_RESERVED"@),
        }
    }

    open spec fn named(kw: Seq<char>) -> Option<Self> {
        if same_ignore_case(kw, "PRG_CODE"@) {
            Some(PrgType::PRG_CODE)
        } else if same_ignore_case(kw, "PRG_DATA"@) {
            Some(PrgType::PRG_DATA)
        } else if same_ignore_case(kw, "PRG_RESERVED"@) {
            Some(PrgType::PRG_RESERVED)
        } else {
            None
        }
    }

    fn as_keyword(self) -> (r: Option<&'static str>) {
        match self {
            PrgType::PRG_CODE => Some("PRG_CODE"),
            PrgType::PRG_DATA => Some("PRG_DATA"),
            PrgType::PRG_RESERVED => Some("PRG_RESERVED"),
        }
    }

    fn from_keyword(kw: &str) -> (r: Option<Self>) {
        if eq_ignore_case(kw, "PRG_CODE") {
            Some(PrgType::PRG_CODE)
        } else if eq_ignore_case(kw, "PRG_DATA") {
            Some(PrgType::PRG_DATA)
        } else if eq_ignore_case(kw, "PRG_RESERVED") {
            Some(PrgType::PRG_RESERVED)
        } else {
            None
        }
    }

    proof fn law_named_of_word(self) {
        reveal_strlit("PRG_CODE");
        reveal_strlit("PRG_DATA");
        reveal_strlit("PRG_RESERVED");
        match self {
            PrgType::PRG_CODE => {
                lemma_same("PRG_CODE"@);
            },
            PrgType::PRG_DATA => {
                lemma_same("PRG_DATA"@);
                lemma_differ("PRG_DATA"@, "PRG_CODE"@, 4);
            },
            PrgType::PRG_RESERVED => {
                lemma_same("PRG_RESERVED"@);
                lemma_differ("PRG_RESERVED"@, "PRG_CODE"@, 0);
                lemma_differ("PRG_RESERVED"@, "PRG_DATA"@, 0);
            },
        }
    }

    proof fn law_word_of_named(kw: Seq<char>) {
    }
}

/// Units of refresh rates.
#[allow(non_camel_case_types)]
#[derive(Debug, Clone, Copy, PartialEq, Eq, Hash, Structural)]
pub enum ScalingUnits {
    Time_1uSec,
    Time_10uSec,
    Time_100uSec,
    Time_1mSec,
    Time_10mSec,
    Time_100mSec,
    Time_1Sec,
    Time_10Sec,
    Time_1Min,
    Time_1Hour,
    Time_1Day,
    AngularDegrees,
    Revolutions,
    Cycle,
    CylinderSegmentCombustion,
    FrameAvailableEvent,
    AlwaysOnNewValue,
    NonDeternministic,
}

impl ScalingUnits {
    /// The number of the value.
    pub open spec fn number(self) -> u32 {
        match self {
            ScalingUnits::Time_1uSec => 0,
            ScalingUnits::Time_10uSec => 1,
            ScalingUnits::Time_100uSec => 2,
            ScalingUnits::Time_1mSec => 3,
            ScalingUnits::Time_10mSec => 4,
            ScalingUnits::Time_100mSec => 5,
            ScalingUnits::Time_1Sec => 6,
            ScalingUnits::Time_10Sec => 7,
            ScalingUnits::Time_1Min => 8,
            ScalingUnits::Time_1Hour => 9,
            ScalingUnits::Time_1Day => 10,
            ScalingUnits::AngularDegrees => 100,
            ScalingUnits::Revolutions => 101,
            ScalingUnits::Cycle => 102,
            ScalingUnits::CylinderSegmentCombustion => 103,
            ScalingUnits::FrameAvailableEvent => 998,
            ScalingUnits::AlwaysOnNewValue => 999,
            ScalingUnits::NonDeternministic => 1000,
        }
    }

    /// The number of the value.
    pub fn to_raw(self) -> (r: u32)
        ensures
            r == self.number(),
    {
        match self {
            ScalingUnits::Time_1uSec => 0,
            ScalingUnits::Time_10uSec => 1,
            ScalingUnits::Time_100uSec => 2,
            ScalingUnits::Time_1mSec => 3,
            ScalingUnits::Time_10mSec => 4,
            ScalingUnits::Time_100mSec => 5,
            ScalingUnits::Time_1Sec => 6,
            ScalingUnits::Time_10Sec => 7,
            ScalingUnits::Time_1Min => 8,
            ScalingUnits::Time_1Hour => 9,
            ScalingUnits::Time_1Day => 10,
            ScalingUnits::AngularDegrees => 100,
            ScalingUnits::Revolutions => 101,
            ScalingUnits::Cycle => 102,
            ScalingUnits::CylinderSegmentCombustion => 103,
            ScalingUnits::FrameAvailableEvent => 998,
            ScalingUnits::AlwaysOnNewValue => 999,
            ScalingUnits::NonDeternministic => 1000,
        }
    }
}

/// What starts a transformer.
#[allow(non_camel_case_types)]
#[derive(Debug, Clone, Copy, PartialEq, Eq, Hash, Structural)]
pub enum TriggerType {
    ON_CHANGE,
    ON_USER_REQUEST,
}

impl A2lKeyword for TriggerType {
    open spec fn word(self) -> Option<Seq<char>> {
        match self {
            TriggerType::ON_CHANGE => Some("ON_CHANGE"@),
            TriggerType::ON_USER_REQUEST => Some("ON_USER_REQUEST"@),
        }
    }

    open spec fn named(kw: Seq<char>) -> Option<Self> {
        if same_ignore_case(kw, "ON_CHANGE"@) {
            Some(TriggerType::ON_CHANGE)
        } else if same_ignore_case(kw, "ON_USER_REQUEST"@) {
            Some(TriggerType::ON_USER_REQUEST)
        } else {
            None
        }
    }

    fn as_keyword(self) -> (r: Option<&'static str>) {
        match self {
            TriggerType::ON_CHANGE => Some("ON_CHANGE"),
            TriggerType::ON_USER_REQUEST => Some("ON_USER_REQUEST"),
        }
    }

    fn from_keyword(kw: &str) -> (r: Option<Self>) {
        if eq_ignore_case(kw, "ON_CHANGE") {
            Some(TriggerType::ON_CHANGE)
        } else if eq_ignore_case(kw, "ON_USER_REQUEST") {
            Some(TriggerType::ON_USER_REQUEST)
        } else {
            None
        }
    }

    proof fn law_named_of_word(self) {
        reveal_strlit("ON_CHANGE");
        reveal_strlit("ON_USER_REQUEST");
        match self {
            TriggerType::ON_CHANGE => {
                lemma_same("ON_CHANGE"@);
            },
            TriggerType::ON_USER_REQUEST => {
                lemma_same("ON_USER_REQUEST"@);
                lemma_differ("ON_USER_REQUEST"@, "ON_CHANGE"@, 0);
            },
        }
    }

    proof fn law_word_of_named(kw: Seq<char>) {
    }
}

/// Kinds of units.
#[allow(non_camel_case_types)]
#[derive(Debug, Clone, Copy, PartialEq, Eq, Hash, Structural)]
pub enum UnitType {
    DERIVED,
    EXTENDED_SI,
}

impl A2lKeyword for UnitType {
    open spec fn word(self) -> Option<Seq<char>> {
        match self {
            UnitType::DERIVED => Some("DERIVED"@),
            UnitType::EXTENDED_SI => Some("EXTENDED_SI"@),
        }
    }

    open spec fn named(kw: Seq<char>) -> Option<Self> {
        if same_ignore_case(kw, "DERIVED"@) {
            Some(UnitType::DERIVED)
        } else if same_ignore_case(kw, "EXTENDED_SI"@) {
            Some(UnitType::EXTENDED_SI)
        } else {
            None
        }
    }

    fn as_keyword(self) -> (r: Option<&'static str>) {
        match self {
            UnitType::DERIVED => Some("DERIVED"),
            UnitType::EXTENDED_SI => Some("EXTENDED_SI"),
        }
    }

    fn from_keyword(kw: &str) -> (r: Option<Self>) {
        if eq_ignore_case(kw, "DERIVED") {
            Some(UnitType::DERIVED)
        } else if eq_ignore_case(kw, "EXTENDED_SI") {
            Some(UnitType::EXTENDED_SI)
        } else {
            None
        }
    }

    proof fn law_named_of_word(self) {
        reveal_strlit("DERIVED");
        reveal_strlit("EXTENDED_SI");
        match self {
            UnitType::DERIVED => {
                lemma_same("DERIVED"@);
            },
            UnitType::EXTENDED_SI => {
                lemma_same("EXTENDED_SI"@);
                lemma_differ("EXTENDED_SI"@, "DERIVED"@, 0);
            },
        }
    }

    proof fn law_word_of_named(kw: Seq<char>) {
    }
}

/// How variants are named.
#[allow(non_camel_case_types)]
#[derive(Debug, Clone, Copy, PartialEq, Eq, Hash, Structural)]
pub enum VarNamingType {
    NotSet,
    NUMERIC,
}

impl Default for VarNamingType {
    fn default() -> (r: Self)
        ensures
            r == VarNamingType::NotSet,
    {
        VarNamingType::NotSet
    }
}

impl VarNamingType {
    /// The value that is taken where none is given.
    pub open spec fn blank() -> VarNamingType {
        VarNamingType::NotSet
    }
}

impl A2lKeyword for VarNamingType {
    open spec fn word(self) -> Option<Seq<char>> {
        match self {
            VarNamingType::NUMERIC => Some("NUMERIC"@),
            VarNamingType::NotSet => None,
        }
    }

    open spec fn named(kw: Seq<char>) -> Option<Self> {
        if same_ignore_case(kw, "NUMERIC"@) {
            Some(VarNamingType::NUMERIC)
        } else {
            None
        }
    }

    fn as_keyword(self) -> (r: Option<&'static str>) {
        match self {
            VarNamingType::NUMERIC => Some("NUMERIC"),
            VarNamingType::NotSet => None,
        }
    }

    fn from_keyword(kw: &str) -> (r: Option<Self>) {
        if eq_ignore_case(kw, "NUMERIC") {
            Some(VarNamingType::NUMERIC)
        } else {
            None
        }
    }

    proof fn law_named_of_word(self) {
        reveal_strlit("NUMERIC");
        match self {
            VarNamingType::NUMERIC => {
                lemma_same("NUMERIC"@);
            },
            VarNamingType::NotSet => {},
        }
    }

    proof fn law_word_of_named(kw: Seq<char>) {
    }
}

/// What indents lines.
#[allow(non_camel_case_types)]
#[derive(Debug, Clone, Copy, PartialEq, Eq, Hash, Structural)]
pub enum WriterIndent {
    Space,
    Tab,
}

/// Orders of written objects.
#[allow(non_camel_case_types)]
#[derive(Debug, Clone, Copy, PartialEq, Eq, Hash, Structural)]
pub enum WriterSortMode {
    ByName,
    ByTypeAndName,
    ByAddressAndName,
}

/// CANape kinds of characteristics.
#[allow(non_camel_case_types)]
#[derive(Debug, Clone, Copy, PartialEq, Eq, Hash, Structural)]
pub enum CanapeCharType {
    Kw,
    Kwb,
    Kl,
    Gkl,
    Kf,
    Gkf,
    Fkl,
    Fkf,
    GSst,
}

/// CANape kinds of conversions.
#[allow(non_camel_case_types)]
#[derive(Debug, Clone, Copy, PartialEq, Eq, Hash, Structural)]
pub enum CanapeCompuType {
    Poly,
    TabInt,
    TabNint,
    Verbal,
}

/// CANape sizes of data.
#[allow(non_camel_case_types)]
#[derive(Debug, Clone, Copy, PartialEq, Eq, Hash, Structural)]
pub enum CanapeDataBaseType {
    Unsupported,
    B,
    W,
    L,
    Ll,
}

impl Default for CanapeDataBaseType {
    fn default() -> (r: Self)
        ensures
            r == CanapeDataBaseType::Unsupported,
    {
        CanapeDataBaseType::Unsupported
    }
}

impl CanapeDataBaseType {
    /// The value that is taken where none is given.
    pub open spec fn blank() -> CanapeDataBaseType {
        CanapeDataBaseType::Unsupported
    }
}

/// CANape types of data.
#[allow(non_camel_case_types)]
#[derive(Debug, Clone, Copy, PartialEq, Eq, Hash, Structural)]
pub enum CanapeDataType {
    Unsupported,
    Ub,
    Sb,
    Uw,
    Sw,
    Ul,
    Sl,
    Fl,
    Ull,
    Sll,
    Fl64,
    Fl16,
    Ubit,
}

impl Default for CanapeDataType {
    fn default() -> (r: Self)
        ensures
            r == CanapeDataType::Unsupported,
    {
        CanapeDataType::Unsupported
    }
}

impl CanapeDataType {
    /// The value that is taken where none is given.
    pub open spec fn blank() -> CanapeDataType {
        CanapeDataType::Unsupported
    }
}

/// CANape kinds of objects.
#[allow(non_camel_case_types)]
#[derive(Debug, Clone, Copy, PartialEq, Eq, Hash, Structural)]
pub enum CanapeObjectType {
    Unsupported,
    OSp,
    Umr,
    Kgs,
    Abl,
    Ram,
    Fkt,
    LokRam,
    RefRam,
    RefKgs,
    AdL,
    Bez,
    Datum,
}

impl Default for CanapeObjectType {
    fn default() -> (r: Self)
        ensures
            r == CanapeObjectType::Unsupported,
    {
        CanapeObjectType::Unsupported
    }
}

impl CanapeObjectType {
    /// The value that is taken where none is given.
    pub open spec fn blank() -> CanapeObjectType {
        CanapeObjectType::Unsupported
    }
}

/// Data types.
#[allow(non_camel_case_types)]
#[derive(Debug, Clone, Copy, PartialEq, Eq, Hash, Structural)]
pub enum DataType {
    Unsupported,
    UByte,
    SByte,
    UWord,
    SWord,
    ULong,
    SLong,
    AUInt64,
    AInt64,
    Float16Ieee,
    Float32Ieee,
    Float64Ieee,
}

impl Default for DataType {
    fn default() -> (r: Self)
        ensures
            r == DataType::Unsupported,
    {
        DataType::Unsupported
    }
}

impl DataType {
    /// The value that is taken where none is given.
    pub open spec fn blank() -> DataType {
        DataType::Unsupported
    }
}

impl A2lKeyword for DataType {
    open spec fn word(self) -> Option<Seq<char>> {
        match self {
            DataType::UByte => Some("UBYTE"@),
            DataType::SByte => Some("SBYTE"@),
            DataType::UWord => Some("UWORD"@),
            DataType::SWord => Some("SWORD"@),
            DataType::ULong => Some("ULONG"@),
            DataType::SLong => Some("SLONG"@),
            DataType::AUInt64 => Some("A_UINT64"@),
            DataType::AInt64 => Some("A_INT64"@),
            DataType::Float16Ieee => Some("FLOAT16_IEEE"@),
            DataType::Float32Ieee => Some("FLOAT32_IEEE"@),
            DataType::Float64Ieee => Some("FLOAT64_IEEE"@),
            DataType::Unsupported => None,
        }
    }

    open spec fn named(kw: Seq<char>) -> Option<Self> {
        if same_ignore_case(kw, "UBYTE"@) {
            Some(DataType::UByte)
        } else if same_ignore_case(kw, "SBYTE"@) {
            Some(DataType::SByte)
        } else if same_ignore_case(kw, "UWORD"@) {
            Some(DataType::UWord)
        } else if same_ignore_case(kw, "SWORD"@) {
            Some(DataType::SWord)
        } else if same_ignore_case(kw, "ULONG"@) {
            Some(DataType::ULong)
        } else if same_ignore_case(kw, "SLONG"@) {
            Some(DataType::SLong)
        } else if same_ignore_case(kw, "A_UINT64"@) {
            Some(DataType::AUInt64)
        } else if same_ignore_case(kw, "A_INT64"@) {
            Some(DataType::AInt64)
        } else if same_ignore_case(kw, "FLOAT16_IEEE"@) {
            Some(DataType::Float16Ieee)
        } else if same_ignore_case(kw, "FLOAT32_IEEE"@) {
            Some(DataType::Float32Ieee)
        } else if same_ignore_case(kw, "FLOAT64_IEEE"@) {
            Some(DataType::Float64Ieee)
        } else {
            None
        }
    }

    fn as_keyword(self) -> (r: Option<&'static str>) {
        match self {
            DataType::UByte => Some("UBYTE"),
            DataType::SByte => Some("SBYTE"),
            DataType::UWord => Some("UWORD"),
            DataType::SWord => Some("SWORD"),
            DataType::ULong => Some("ULONG"),
            DataType::SLong => Some("SLONG"),
            DataType::AUInt64 => Some("A_UINT64"),
            DataType::AInt64 => Some("A_INT64"),
            DataType::Float16Ieee => Some("FLOAT16_IEEE"),
            DataType::Float32Ieee => Some("FLOAT32_IEEE"),
            DataType::Float64Ieee => Some("FLOAT64_IEEE"),
            DataType::Unsupported => None,
        }
    }

    fn from_keyword(kw: &str) -> (r: Option<Self>) {
        if eq_ignore_case(kw, "UBYTE") {
            Some(DataType::UByte)
        } else if eq_ignore_case(kw, "SBYTE") {
            Some(DataType::SByte)
        } else if eq_ignore_case(kw, "UWORD") {
            Some(DataType::UWord)
        } else if eq_ignore_case(kw, "SWORD") {
            Some(DataType::SWord)
        } else if eq_ignore_case(kw, "ULONG") {
            Some(DataType::ULong)
        } else if eq_ignore_case(kw, "SLONG") {
            Some(DataType::SLong)
        } else if eq_ignore_case(kw, "A_UINT64") {
            Some(DataType::AUInt64)
        } else if eq_ignore_case(kw, "A_INT64") {
            Some(DataType::AInt64)
        } else if eq_ignore_case(kw, "FLOAT16_IEEE") {
            Some(DataType::Float16Ieee)
        } else if eq_ignore_case(kw, "FLOAT32_IEEE") {
            Some(DataType::Float32Ieee)
        } else if eq_ignore_case(kw, "FLOAT64_IEEE") {
            Some(DataType::Float64Ieee)
        } else {
            None
        }
    }

    proof fn law_named_of_word(self) {
        reveal_strlit("UBYTE");
        reveal_strlit("SBYTE");
        reveal_strlit("UWORD");
        reveal_strlit("SWORD");
        reveal_strlit("ULONG");
        reveal_strlit("SLONG");
        reveal_strlit("A_UINT64");
        reveal_strlit("A_INT64");
        reveal_strlit("FLOAT16_IEEE");
        reveal_strlit("FLOAT32_IEEE");
        reveal_strlit("FLOAT64_IEEE");
        match self {
            DataType::UByte => {
                lemma_same("UBYTE"@);
            },
            DataType::SByte => {
                lemma_same("SBYTE"@);
                lemma_differ("SBYTE"@, "UBYTE"@, 0);
            },
            DataType::UWord => {
                lemma_same("UWORD"@);
                lemma_differ("UWORD"@, "UBYTE"@, 1);
                lemma_differ("UWORD"@, "SBYTE"@, 0);
            },
            DataType::SWord => {
                lemma_same("SWORD"@);
                lemma_differ("SWORD"@, "UBYTE"@, 0);
                lemma_differ("SWORD"@, "SBYTE"@, 1);
                lemma_differ("SWORD"@, "UWORD"@, 0);
            },
            DataType::ULong => {
                lemma_same("ULONG"@);
                lemma_differ("ULONG"@, "UBYTE"@, 1);
                lemma_differ("ULONG"@, "SBYTE"@, 0);
                lemma_differ("ULONG"@, "UWORD"@, 1);
                lemma_differ("ULONG"@, "SWORD"@, 0);
            },
            DataType::SLong => {
                lemma_same("SLONG"@);
                lemma_differ("SLONG"@, "UBYTE"@, 0);
                lemma_differ("SLONG"@, "SBYTE"@, 1);
                lemma_differ("SLONG"@, "UWORD"@, 0);
                lemma_differ("SLONG"@, "SWORD"@, 1);
                lemma_differ("SLONG"@, "ULONG"@, 0);
            },
            DataType::AUInt64 => {
                lemma_same("A_UINT64"@);
                lemma_differ("A_UINT64"@, "UBYTE"@, 0);
                lemma_differ("A_UINT64"@, "SBYTE"@, 0);
                lemma_differ("A_UINT64"@, "UWORD"@, 0);
                lemma_differ("A_UINT64"@, "SWORD"@, 0);
                lemma_differ("A_UINT64"@, "ULONG"@, 0);
                lemma_differ("A_UINT64"@, "SLONG"@, 0);
            },
            DataType::AInt64 => {
                lemma_same("A_INT64"@);
                lemma_differ("A_INT64"@, "UBYTE"@, 0);
                lemma_differ("A_INT64"@, "SBYTE"@, 0);
                lemma_differ("A_INT64"@, "UWORD"@, 0);
                lemma_differ("A_INT64"@, "SWORD"@, 0);
                lemma_differ("A_INT64"@, "ULONG"@, 0);
                lemma_differ("A_INT64"@, "SLONG"@, 0);
                lemma_differ("A_INT64"@, "A_UINT64"@, 0);
            },
            DataType::Float16Ieee => {
                lemma_same("FLOAT16_IEEE"@);
                lemma_differ("FLOAT16_IEEE"@, "UBYTE"@, 0);
                lemma_differ("FLOAT16_IEEE"@, "SBYTE"@, 0);
                lemma_differ("FLOAT16_IEEE"@, "UWORD"@, 0);
                lemma_differ("FLOAT16_IEEE"@, "SWORD"@, 0);
                lemma_differ("FLOAT16_IEEE"@, "ULONG"@, 0);
                lemma_differ("FLOAT16_IEEE"@, "SLONG"@, 0);
                lemma_differ("FLOAT16_IEEE"@, "A_UINT64"@, 0);
                lemma_differ("FLOAT16_IEEE"@, "A_INT64"@, 0);
            },
            DataType::Float32Ieee => {
                lemma_same("FLOAT32_IEEE"@);
                lemma_differ("FLOAT32_IEEE"@, "UBYTE"@, 0);
                lemma_differ("FLOAT32_IEEE"@, "SBYTE"@, 0);
                lemma_differ("FLOAT32_IEEE"@, "UWORD"@, 0);
                lemma_differ("FLOAT32_IEEE"@, "SWORD"@, 0);
                lemma_differ("FLOAT32_IEEE"@, "ULONG"@, 0);
                lemma_differ("FLOAT32_IEEE"@, "SLONG"@, 0);
                lemma_differ("FLOAT32_IEEE"@, "A_UINT64"@, 0);
                lemma_differ("FLOAT32_IEEE"@, "A_INT64"@, 0);
                lemma_differ("FLOAT32_IEEE"@, "FLOAT16_IEEE"@, 5);
            },
            DataType::Float64Ieee => {
                lemma_same("FLOAT64_IEEE"@);
                lemma_differ("FLOAT64_IEEE"@, "UBYTE"@, 0);
                lemma_differ("FLOAT64_IEEE"@, "SBYTE"@, 0);
                lemma_differ("FLOAT64_IEEE"@, "UWORD"@, 0);
                lemma_differ("FLOAT64_IEEE"@, "SWORD"@, 0);
                lemma_differ("FLOAT64_IEEE"@, "ULONG"@, 0);
                lemma_differ("FLOAT64_IEEE"@, "SLONG"@, 0);
                lemma_differ("FLOAT64_IEEE"@, "A_UINT64"@, 0);
                lemma_differ("FLOAT64_IEEE"@, "A_INT64"@, 0);
                lemma_differ("FLOAT64_IEEE"@, "FLOAT16_IEEE"@, 5);
                lemma_differ("FLOAT64_IEEE"@, "FLOAT32_IEEE"@, 5);
            },
            DataType::Unsupported => {},
        }
    }

    proof fn law_word_of_named(kw: Seq<char>) {
    }
}

/// Kinds of characteristics.
#[allow(non_camel_case_types)]
#[derive(Debug, Clone, Copy, PartialEq, Eq, Hash, Structural)]
pub enum CharacteristicType {
    NotSet,
    VALUE,
    ASCII,
    VAL_BLK,
    CURVE,
    MAP,
    CUBOID,
    CUBE_4,
    CUBE_5,
}

impl Default for CharacteristicType {
    fn default() -> (r: Self)
        ensures
            r == CharacteristicType::NotSet,
    {
        CharacteristicType::NotSet
    }
}

impl CharacteristicType {
    /// The value that is taken where none is given.
    pub open spec fn blank() -> CharacteristicType {
        CharacteristicType::NotSet
    }
}

impl A2lKeyword for CharacteristicType {
    open spec fn word(self) -> Option<Seq<char>> {
        match self {
            CharacteristicType::VALUE => Some("VALUE"@),
            CharacteristicType::ASCII => Some("ASCII"@),
            CharacteristicType::VAL_BLK => Some("VAL_BLK"@),
            CharacteristicType::CURVE => Some("CURVE"@),
            CharacteristicType::MAP => Some("MAP"@),
            CharacteristicType::CUBOID => Some("CUBOID"@),
            CharacteristicType::CUBE_4 => Some("CUBE_4"@),
            CharacteristicType::CUBE_5 => Some("CUBE_5"@),
            CharacteristicType::NotSet => None,
        }
    }

    open spec fn named(kw: Seq<char>) -> Option<Self> {
        if same_ignore_case(kw, "VALUE"@) {
            Some(CharacteristicType::VALUE)
        } else if same_ignore_case(kw, "ASCII"@) {
            Some(CharacteristicType::ASCII)
        } else if same_ignore_case(kw, "VAL_BLK"@) {
            Some(CharacteristicType::VAL_BLK)
        } else if same_ignore_case(kw, "CURVE"@) {
            Some(CharacteristicType::CURVE)
        } else if same_ignore_case(kw, "MAP"@) {
            Some(CharacteristicType::MAP)
        } else if same_ignore_case(kw, "CUBOID"@) {
            Some(CharacteristicType::CUBOID)
        } else if same_ignore_case(kw, "CUBE_4"@) {
            Some(CharacteristicType::CUBE_4)
        } else if same_ignore_case(kw, "CUBE_5"@) {
            Some(CharacteristicType::CUBE_5)
        } else {
            None
        }
    }

    fn as_keyword(self) -> (r: Option<&'static str>) {
        match self {
            CharacteristicType::VALUE => Some("VALUE"),
            CharacteristicType::ASCII => Some("ASCII"),
            CharacteristicType::VAL_BLK => Some("VAL_BLK"),
            CharacteristicType::CURVE => Some("CURVE"),
            CharacteristicType::MAP => Some("MAP"),
            CharacteristicType::CUBOID => Some("CUBOID"),
            CharacteristicType::CUBE_4 => Some("CUBE_4"),
            CharacteristicType::CUBE_5 => Some("CUBE_5"),
            CharacteristicType::NotSet => None,
        }
    }

    fn from_keyword(kw: &str) -> (r: Option<Self>) {
        if eq_ignore_case(kw, "VALUE") {
            Some(CharacteristicType::VALUE)
        } else if eq_ignore_case(kw, "ASCII") {
            Some(CharacteristicType::ASCII)
        } else if eq_ignore_case(kw, "VAL_BLK") {
            Some(CharacteristicType::VAL_BLK)
        } else if eq_ignore_case(kw, "CURVE") {
            Some(CharacteristicType::CURVE)
        } else if eq_ignore_case(kw, "MAP") {
            Some(CharacteristicType::MAP)
        } else if eq_ignore_case(kw, "CUBOID") {
            Some(CharacteristicType::CUBOID)
        } else if eq_ignore_case(kw, "CUBE_4") {
            Some(CharacteristicType::CUBE_4)
        } else if eq_ignore_case(kw, "CUBE_5") {
            Some(CharacteristicType::CUBE_5)
        } else {
            None
        }
    }

    proof fn law_named_of_word(self) {
        reveal_strlit("VALUE");
        reveal_strlit("ASCII");
        reveal_strlit("VAL_BLK");
        reveal_strlit("CURVE");
        reveal_strlit("MAP");
        reveal_strlit("CUBOID");
        reveal_strlit("CUBE_4");
        reveal_strlit("CUBE_5");
        match self {
            CharacteristicType::VALUE => {
                lemma_same("VALUE"@);
            },
            CharacteristicType::ASCII => {
                lemma_same("ASCII"@);
                lemma_differ("ASCII"@, "VALUE"@, 0);
            },
            CharacteristicType::VAL_BLK => {
                lemma_same("VAL_BLK"@);
                lemma_differ("VAL_BLK"@, "VALUE"@, 0);
                lemma_differ("VAL_BLK"@, "ASCII"@, 0);
            },
            CharacteristicType::CURVE => {
                lemma_same("CURVE"@);
                lemma_differ("CURVE"@, "VALUE"@, 0);
                lemma_differ("CURVE"@, "ASCII"@, 0);
                lemma_differ("CURVE"@, "VAL_BLK"@, 0);
            },
            CharacteristicType::MAP => {
                lemma_same("MAP"@);
                lemma_differ("MAP"@, "VALUE"@, 0);
                lemma_differ("MAP"@, "ASCII"@, 0);
                lemma_differ("MAP"@, "VAL_BLK"@, 0);
                lemma_differ("MAP"@, "CURVE"@, 0);
            },
            CharacteristicType::CUBOID => {
                lemma_same("CUBOID"@);
                lemma_differ("CUBOID"@, "VALUE"@, 0);
                lemma_differ("CUBOID"@, "ASCII"@, 0);
                lemma_differ("CUBOID"@, "VAL_BLK"@, 0);
                lemma_differ("CUBOID"@, "CURVE"@, 0);
                lemma_differ("CUBOID"@, "MAP"@, 0);
            },
            CharacteristicType::CUBE_4 => {
                lemma_same("CUBE_4"@);
                lemma_differ("CUBE_4"@, "VALUE"@, 0);
                lemma_differ("CUBE_4"@, "ASCII"@, 0);
                lemma_differ("CUBE_4"@, "VAL_BLK"@, 0);
                lemma_differ("CUBE_4"@, "CURVE"@, 0);
                lemma_differ("CUBE_4"@, "MAP"@, 0);
                lemma_differ("CUBE_4"@, "CUBOID"@, 3);
            },
            CharacteristicType::CUBE_5 => {
                lemma_same("CUBE_5"@);
                lemma_differ("CUBE_5"@, "VALUE"@, 0);
                lemma_differ("CUBE_5"@, "ASCII"@, 0);
                lemma_differ("CUBE_5"@, "VAL_BLK"@, 0);
                lemma_differ("CUBE_5"@, "CURVE"@, 0);
                lemma_differ("CUBE_5"@, "MAP"@, 0);
                lemma_differ("CUBE_5"@, "CUBOID"@, 3);
                lemma_differ("CUBE_5"@, "CUBE_4"@, 5);
            },
            CharacteristicType::NotSet => {},
        }
    }

    proof fn law_word_of_named(kw: Seq<char>) {
    }
}

} // verus!
