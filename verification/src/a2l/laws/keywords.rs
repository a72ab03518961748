//! Keywords are parameters.

use crate::a2l::faithful::{KeywordText, lemma_keyword_param};
use crate::a2l::model::base::ByteOrder;
use crate::a2l::model::enums::{
    AddrType, AxisType, BitOperationType, CalibrationAccess, CharacteristicType, ChecksumType,
    ConversionType, DataSize, DataType, DepositType, EncodingType, IndexMode, IndexOrder,
    MemoryAttribute, MemoryPrgType, MemoryType, MonotonyType, PrgType, TriggerType, UnitType,
    VarNamingType,
};
use vstd::prelude::*;

verus! {

impl KeywordText for AddrType {
    proof fn lemma_word(self) {
        match self {
            AddrType::DIRECT => {
                reveal_strlit("DIRECT");
                lemma_keyword_param("DIRECT"@);
            },
            AddrType::PBYTE => {
                reveal_strlit("PBYTE");
                lemma_keyword_param("PBYTE"@);
            },
            AddrType::PWORD => {
                reveal_strlit("PWORD");
                lemma_keyword_param("PWORD"@);
            },
            AddrType::PLONG => {
                reveal_strlit("PLONG");
                lemma_keyword_param("PLONG"@);
            },
            AddrType::PLONGLONG => {
                reveal_strlit("PLONGLONG");
                lemma_keyword_param("PLONGLONG"@);
            },
        }
    }
}

impl KeywordText for AxisType {
    proof fn lemma_word(self) {
        match self {
            AxisType::STD_AXIS => {
                reveal_strlit("STD_AXIS");
                lemma_keyword_param("STD_AXIS"@);
            },
            AxisType::FIX_AXIS => {
                reveal_strlit("FIX_AXIS");
                lemma_keyword_param("FIX_AXIS"@);
            },
            AxisType::COM_AXIS => {
                reveal_strlit("COM_AXIS");
                lemma_keyword_param("COM_AXIS"@);
            },
            AxisType::RES_AXIS => {
                reveal_strlit("RES_AXIS");
                lemma_keyword_param("RES_AXIS"@);
            },
            AxisType::CURVE_AXIS => {
                reveal_strlit("CURVE_AXIS");
                lemma_keyword_param("CURVE_AXIS"@);
            },
        }
    }
}

impl KeywordText for BitOperationType {
    proof fn lemma_word(self) {
        match self {
            BitOperationType::RIGHT_SHIFT => {
                reveal_strlit("RIGHT_SHIFT");
                lemma_keyword_param("RIGHT_SHIFT"@);
            },
            BitOperationType::LEFT_SHIFT => {
                reveal_strlit("LEFT_SHIFT");
                lemma_keyword_param("LEFT_SHIFT"@);
            },
            BitOperationType::NotSet => {},
        }
    }
}

impl KeywordText for CalibrationAccess {
    proof fn lemma_word(self) {
        match self {
            CalibrationAccess::CALIBRATION => {
                reveal_strlit("CALIBRATION");
                lemma_keyword_param("CALIBRATION"@);
            },
            CalibrationAccess::NO_CALIBRATION => {
                reveal_strlit("NO_CALIBRATION");
                lemma_keyword_param("NO_CALIBRATION"@);
            },
            CalibrationAccess::NOT_IN_MCD_SYSTEM => {
                reveal_strlit("NOT_IN_MCD_SYSTEM");
                lemma_keyword_param("NOT_IN_MCD_SYSTEM"@);
            },
            CalibrationAccess::OFFLINE_CALIBRATION => {
                reveal_strlit("OFFLINE_CALIBRATION");
                lemma_keyword_param("OFFLINE_CALIBRATION"@);
            },
            CalibrationAccess::NotSet => {},
        }
    }
}

impl KeywordText for ChecksumType {
    proof fn lemma_word(self) {
        match self {
            ChecksumType::ADD_11 => {
                reveal_strlit("ADD_11");
                lemma_keyword_param("ADD_11"@);
            },
            ChecksumType::ADD_12 => {
                reveal_strlit("ADD_12");
                lemma_keyword_param("ADD_12"@);
            },
            ChecksumType::ADD_14 => {
                reveal_strlit("ADD_14");
                lemma_keyword_param("ADD_14"@);
            },
            ChecksumType::CRC_8 => {
                reveal_strlit("CRC_8");
                lemma_keyword_param("CRC_8"@);
            },
            ChecksumType::CRC_16 => {
                reveal_strlit("CRC_16");
                lemma_keyword_param("CRC_16"@);
            },
            ChecksumType::CRC_32 => {
                reveal_strlit("CRC_32");
                lemma_keyword_param("CRC_32"@);
            },
            ChecksumType::CRC_2_16 => {
                reveal_strlit("CRC_2_16");
                lemma_keyword_param("CRC_2_16"@);
            },
            ChecksumType::ADD_22 => {
                reveal_strlit("ADD_22");
                lemma_keyword_param("ADD_22"@);
            },
            ChecksumType::ADD_24 => {
                reveal_strlit("ADD_24");
                lemma_keyword_param("ADD_24"@);
            },
            ChecksumType::ADD_44 => {
                reveal_strlit("ADD_44");
                lemma_keyword_param("ADD_44"@);
            },
            ChecksumType::USER_DEFINED => {
                reveal_strlit("USER_DEFINED");
                lemma_keyword_param("USER_DEFINED"@);
            },
            ChecksumType::CRC_16_CITT => {
                reveal_strlit("CRC_16_CITT");
                lemma_keyword_param("CRC_16_CITT"@);
            },
            ChecksumType::NotSet => {},
        }
    }
}

impl KeywordText for ConversionType {
    proof fn lemma_word(self) {
        match self {
            ConversionType::IDENTICAL => {
                reveal_strlit("IDENTICAL");
                lemma_keyword_param("IDENTICAL"@);
            },
            ConversionType::FORM => {
                reveal_strlit("FORM");
                lemma_keyword_param("FORM"@);
            },
            ConversionType::LINEAR => {
                reveal_strlit("LINEAR");
                lemma_keyword_param("LINEAR"@);
            },
            ConversionType::RAT_FUNC => {
                reveal_strlit("RAT_FUNC");
                lemma_keyword_param("RAT_FUNC"@);
            },
            ConversionType::TAB_INTP => {
                reveal_strlit("TAB_INTP");
                lemma_keyword_param("TAB_INTP"@);
            },
            ConversionType::TAB_NOINTP => {
                reveal_strlit("TAB_NOINTP");
                lemma_keyword_param("TAB_NOINTP"@);
            },
            ConversionType::TAB_VERB => {
                reveal_strlit("TAB_VERB");
                lemma_keyword_param("TAB_VERB"@);
            },
        }
    }
}

impl KeywordText for DataSize {
    proof fn lemma_word(self) {
        match self {
            DataSize::BYTE => {
                reveal_strlit("BYTE");
                lemma_keyword_param("BYTE"@);
            },
            DataSize::WORD => {
                reveal_strlit("WORD");
                lemma_keyword_param("WORD"@);
            },
            DataSize::LONG => {
                reveal_strlit("LONG");
                lemma_keyword_param("LONG"@);
            },
        }
    }
}

impl KeywordText for DepositType {
    proof fn lemma_word(self) {
        match self {
            DepositType::ABSOLUTE => {
                reveal_strlit("ABSOLUTE");
                lemma_keyword_param("ABSOLUTE"@);
            },
            DepositType::DIFFERENCE => {
                reveal_strlit("DIFFERENCE");
                lemma_keyword_param("DIFFERENCE"@);
            },
            DepositType::NotSet => {},
        }
    }
}

impl KeywordText for EncodingType {
    proof fn lemma_word(self) {
        match self {
            EncodingType::ASCII => {
                reveal_strlit("ASCII");
                lemma_keyword_param("ASCII"@);
            },
            EncodingType::UTF8 => {
                reveal_strlit("UTF8");
                lemma_keyword_param("UTF8"@);
            },
            EncodingType::UTF16 => {
                reveal_strlit("UTF16");
                lemma_keyword_param("UTF16"@);
            },
            EncodingType::UTF32 => {
                reveal_strlit("UTF32");
                lemma_keyword_param("UTF32"@);
            },
        }
    }
}

impl KeywordText for IndexMode {
    proof fn lemma_word(self) {
        match self {
            IndexMode::ROW_DIR => {
                reveal_strlit("ROW_DIR");
                lemma_keyword_param("ROW_DIR"@);
            },
            IndexMode::COLUMN_DIR => {
                reveal_strlit("COLUMN_DIR");
                lemma_keyword_param("COLUMN_DIR"@);
            },
            IndexMode::ALTERNATE_WITH_X => {
                reveal_strlit("ALTERNATE_WITH_X");
                lemma_keyword_param("ALTERNATE_WITH_X"@);
            },
            IndexMode::ALTERNATE_WITH_Y => {
                reveal_strlit("ALTERNATE_WITH_Y");
                lemma_keyword_param("ALTERNATE_WITH_Y"@);
            },
            IndexMode::ALTERNATE_CURVES => {
                reveal_strlit("ALTERNATE_CURVES");
                lemma_keyword_param("ALTERNATE_CURVES"@);
            },
            IndexMode::NotSet => {},
        }
    }
}

impl KeywordText for IndexOrder {
    proof fn lemma_word(self) {
        match self {
            IndexOrder::INDEX_INCR => {
                reveal_strlit("INDEX_INCR");
                lemma_keyword_param("INDEX_INCR"@);
            },
            IndexOrder::INDEX_DECR => {
                reveal_strlit("INDEX_DECR");
                lemma_keyword_param("INDEX_DECR"@);
            },
        }
    }
}

impl KeywordText for MemoryAttribute {
    proof fn lemma_word(self) {
        match self {
            MemoryAttribute::INTERN => {
                reveal_strlit("INTERN");
                lemma_keyword_param("INTERN"@);
            },
            MemoryAttribute::EXTERN => {
                reveal_strlit("EXTERN");
                lemma_keyword_param("EXTERN"@);
            },
        }
    }
}

impl KeywordText for MemoryType {
    proof fn lemma_word(self) {
        match self {
            MemoryType::RAM => {
                reveal_strlit("RAM");
                lemma_keyword_param("RAM"@);
            },
            MemoryType::EEPROM => {
                reveal_strlit("EEPROM");
                lemma_keyword_param("EEPROM"@);
            },
            MemoryType::EPROM => {
                reveal_strlit("EPROM");
                lemma_keyword_param("EPROM"@);
            },
            MemoryType::ROM => {
                reveal_strlit("ROM");
                lemma_keyword_param("ROM"@);
            },
            MemoryType::REGISTER => {
                reveal_strlit("REGISTER");
                lemma_keyword_param("REGISTER"@);
            },
            MemoryType::FLASH => {
                reveal_strlit("FLASH");
                lemma_keyword_param("FLASH"@);
            },
            MemoryType::NOT_IN_ECU => {
                reveal_strlit("NOT_IN_ECU");
                lemma_keyword_param("NOT_IN_ECU"@);
            },
        }
    }
}

impl KeywordText for MemoryPrgType {
    proof fn lemma_word(self) {
        match self {
            MemoryPrgType::UNKNOWN => {
                reveal_strlit("UNKNOWN");
                lemma_keyword_param("UNKNOWN"@);
            },
            MemoryPrgType::CODE => {
                reveal_strlit("CODE");
                lemma_keyword_param("CODE"@);
            },
            MemoryPrgType::DATA => {
                reveal_strlit("DATA");
                lemma_keyword_param("DATA"@);
            },
            MemoryPrgType::OFFLINE_DATA => {
                reveal_strlit("OFFLINE_DATA");
                lemma_keyword_param("OFFLINE_DATA"@);
            },
            MemoryPrgType::VARIABLES => {
                reveal_strlit("VARIABLES");
                lemma_keyword_param("VARIABLES"@);
            },
            MemoryPrgType::SERAM => {
                reveal_strlit("SERAM");
                lemma_keyword_param("SERAM"@);
            },
            MemoryPrgType::RESERVED => {
                reveal_strlit("RESERVED");
                lemma_keyword_param("RESERVED"@);
            },
            MemoryPrgType::CALIBRATION_VARIABLES => {
                reveal_strlit("CALIBRATION_VARIABLES");
                lemma_keyword_param("CALIBRATION_VARIABLES"@);
            },
            MemoryPrgType::EXCLUDE_FROM_FLASH => {
                reveal_strlit("EXCLUDE_FROM_FLASH");
                lemma_keyword_param("EXCLUDE_FROM_FLASH"@);
            },
        }
    }
}

impl KeywordText for MonotonyType {
    proof fn lemma_word(self) {
        match self {
            MonotonyType::NOT_MON => {
                reveal_strlit("NOT_MON");
                lemma_keyword_param("NOT_MON"@);
            },
            MonotonyType::MON_DECREASE => {
                reveal_strlit("MON_DECREASE");
                lemma_keyword_param("MON_DECREASE"@);
            },
            MonotonyType::MON_INCREASE => {
                reveal_strlit("MON_INCREASE");
                lemma_keyword_param("MON_INCREASE"@);
            },
            MonotonyType::STRICT_DECREASE => {
                reveal_strlit("STRICT_DECREASE");
                lemma_keyword_param("STRICT_DECREASE"@);
            },
            MonotonyType::STRICT_INCREASE => {
                reveal_strlit("STRICT_INCREASE");
                lemma_keyword_param("STRICT_INCREASE"@);
            },
            MonotonyType::MONOTONOUS => {
                reveal_strlit("MONOTONOUS");
                lemma_keyword_param("MONOTONOUS"@);
            },
            MonotonyType::STRICT_MON => {
                reveal_strlit("STRICT_MON");
                lemma_keyword_param("STRICT_MON"@);
            },
            MonotonyType::NotSet => {},
        }
    }
}

impl KeywordText for PrgType {
    proof fn lemma_word(self) {
        match self {
            PrgType::PRG_CODE => {
                reveal_strlit("PRG_CODE");
                lemma_keyword_param("PRG_CODE"@);
            },
            PrgType::PRG_DATA => {
                reveal_strlit("PRG_DATA");
                lemma_keyword_param("PRG_DATA"@);
            },
            PrgType::PRG_RESERVED => {
                reveal_strlit("PRG_RESERVED");
                lemma_keyword_param("PRG_RESERVED"@);
            },
        }
    }
}

impl KeywordText for TriggerType {
    proof fn lemma_word(self) {
        match self {
            TriggerType::ON_CHANGE => {
                reveal_strlit("ON_CHANGE");
                lemma_keyword_param("ON_CHANGE"@);
            },
            TriggerType::ON_USER_REQUEST => {
                reveal_strlit("ON_USER_REQUEST");
                lemma_keyword_param("ON_USER_REQUEST"@);
            },
        }
    }
}

impl KeywordText for UnitType {
    proof fn lemma_word(self) {
        match self {
            UnitType::DERIVED => {
                reveal_strlit("DERIVED");
                lemma_keyword_param("DERIVED"@);
            },
            UnitType::EXTENDED_SI => {
                reveal_strlit("EXTENDED_SI");
                lemma_keyword_param("EXTENDED_SI"@);
            },
        }
    }
}

impl KeywordText for VarNamingType {
    proof fn lemma_word(self) {
        match self {
            VarNamingType::NUMERIC => {
                reveal_strlit("NUMERIC");
                lemma_keyword_param("NUMERIC"@);
            },
            VarNamingType::NotSet => {},
        }
    }
}

impl KeywordText for DataType {
    proof fn lemma_word(self) {
        match self {
            DataType::UByte => {
                reveal_strlit("UBYTE");
                lemma_keyword_param("UBYTE"@);
            },
            DataType::SByte => {
                reveal_strlit("SBYTE");
                lemma_keyword_param("SBYTE"@);
            },
            DataType::UWord => {
                reveal_strlit("UWORD");
                lemma_keyword_param("UWORD"@);
            },
            DataType::SWord => {
                reveal_strlit("SWORD");
                lemma_keyword_param("SWORD"@);
            },
            DataType::ULong => {
                reveal_strlit("ULONG");
                lemma_keyword_param("ULONG"@);
            },
            DataType::SLong => {
                reveal_strlit("SLONG");
                lemma_keyword_param("SLONG"@);
            },
            DataType::AUInt64 => {
                reveal_strlit("A_UINT64");
                lemma_keyword_param("A_UINT64"@);
            },
            DataType::AInt64 => {
                reveal_strlit("A_INT64");
                lemma_keyword_param("A_INT64"@);
            },
            DataType::Float16Ieee => {
                reveal_strlit("FLOAT16_IEEE");
                lemma_keyword_param("FLOAT16_IEEE"@);
            },
            DataType::Float32Ieee => {
                reveal_strlit("FLOAT32_IEEE");
                lemma_keyword_param("FLOAT32_IEEE"@);
            },
            DataType::Float64Ieee => {
                reveal_strlit("FLOAT64_IEEE");
                lemma_keyword_param("FLOAT64_IEEE"@);
            },
            DataType::Unsupported => {},
        }
    }
}

impl KeywordText for CharacteristicType {
    proof fn lemma_word(self) {
        match self {
            CharacteristicType::VALUE => {
                reveal_strlit("VALUE");
                lemma_keyword_param("VALUE"@);
            },
            CharacteristicType::ASCII => {
                reveal_strlit("ASCII");
                lemma_keyword_param("ASCII"@);
            },
            CharacteristicType::VAL_BLK => {
                reveal_strlit("VAL_BLK");
                lemma_keyword_param("VAL_BLK"@);
            },
            CharacteristicType::CURVE => {
                reveal_strlit("CURVE");
                lemma_keyword_param("CURVE"@);
            },
            CharacteristicType::MAP => {
                reveal_strlit("MAP");
                lemma_keyword_param("MAP"@);
            },
            CharacteristicType::CUBOID => {
                reveal_strlit("CUBOID");
                lemma_keyword_param("CUBOID"@);
            },
            CharacteristicType::CUBE_4 => {
                reveal_strlit("CUBE_4");
                lemma_keyword_param("CUBE_4"@);
            },
            CharacteristicType::CUBE_5 => {
                reveal_strlit("CUBE_5");
                lemma_keyword_param("CUBE_5"@);
            },
            CharacteristicType::NotSet => {},
        }
    }
}

impl KeywordText for ByteOrder {
    proof fn lemma_word(self) {
        match self {
            ByteOrder::MSB_FIRST => {
                reveal_strlit("MSB_FIRST");
                lemma_keyword_param("MSB_FIRST"@);
            },
            ByteOrder::MSB_LAST => {
                reveal_strlit("MSB_LAST");
                lemma_keyword_param("MSB_LAST"@);
            },
            ByteOrder::NotSet => {},
        }
    }
}

} // verus!
