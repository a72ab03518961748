//! The keywords and the numbers of the values of enumerations.

use crate::a2l::model::base::ByteOrder;
use crate::a2l::model::enums::{A2lKeyword, AddrType, AxisType, BitOperationType, CalibrationAccess, CharacteristicType, ChecksumType, ConversionType, DataSize, DataType, DepositType, EcuPage, EncodingType, IndexMode, IndexOrder, MemoryAttribute, MemoryPrgType, MemoryType, MonotonyType, PrgType, ScalingUnits, TriggerType, UnitType, VarNamingType};
use vstd::prelude::*;

verus! {

/// The keywords of [`ByteOrder`].
pub proof fn law_byte_order_keywords()
    ensures
        ByteOrder::MSB_FIRST.word() == Some("MSB_FIRST"@),
        ByteOrder::MSB_LAST.word() == Some("MSB_LAST"@),
        ByteOrder::NotSet.word() == None::<Seq<char>>,
{
}

/// The keywords of [`AddrType`].
pub proof fn law_addr_type_keywords()
    ensures
        AddrType::DIRECT.word() == Some("DIRECT"@),
        AddrType::PBYTE.word() == Some("PBYTE"@),
        AddrType::PWORD.word() == Some("PWORD"@),
        AddrType::PLONG.word() == Some("PLONG"@),
        AddrType::PLONGLONG.word() == Some("PLONGLONG"@),
{
}

/// The keywords of [`AxisType`].
pub proof fn law_axis_type_keywords()
    ensures
        AxisType::STD_AXIS.word() == Some("STD_AXIS"@),
        AxisType::FIX_AXIS.word() == Some("FIX_AXIS"@),
        AxisType::COM_AXIS.word() == Some("COM_AXIS"@),
        AxisType::RES_AXIS.word() == Some("RES_AXIS"@),
        AxisType::CURVE_AXIS.word() == Some("CURVE_AXIS"@),
{
}

/// The keywords of [`BitOperationType`].
pub proof fn law_bit_operation_type_keywords()
    ensures
        BitOperationType::RIGHT_SHIFT.word() == Some("RIGHT_SHIFT"@),
        BitOperationType::LEFT_SHIFT.word() == Some("LEFT_SHIFT"@),
        BitOperationType::NotSet.word() == None::<Seq<char>>,
{
}

/// The keywords of [`CalibrationAccess`].
pub proof fn law_calibration_access_keywords()
    ensures
        CalibrationAccess::CALIBRATION.word() == Some("CALIBRATION"@),
        CalibrationAccess::NO_CALIBRATION.word() == Some("NO_CALIBRATION"@),
        CalibrationAccess::NOT_IN_MCD_SYSTEM.word() == Some("NOT_IN_MCD_SYSTEM"@),
        CalibrationAccess::OFFLINE_CALIBRATION.word() == Some("OFFLINE_CALIBRATION"@),
        CalibrationAccess::NotSet.word() == None::<Seq<char>>,
{
}

/// The keywords of [`ChecksumType`].
pub proof fn law_checksum_type_keywords()
    ensures
        ChecksumType::ADD_11.word() == Some("ADD_11"@),
        ChecksumType::ADD_12.word() == Some("ADD_12"@),
        ChecksumType::ADD_14.word() == Some("ADD_14"@),
        ChecksumType::CRC_8.word() == Some("CRC_8"@),
        ChecksumType::CRC_16.word() == Some("CRC_16"@),
        ChecksumType::CRC_32.word() == Some("CRC_32"@),
        ChecksumType::CRC_2_16.word() == Some("CRC_2_16"@),
        ChecksumType::ADD_22.word() == Some("ADD_22"@),
        ChecksumType::ADD_24.word() == Some("ADD_24"@),
        ChecksumType::ADD_44.word() == Some("ADD_44"@),
        ChecksumType::USER_DEFINED.word() == Some("USER_DEFINED"@),
        ChecksumType::CRC_16_CITT.word() == Some("CRC_16_CITT"@),
        ChecksumType::NotSet.word() == None::<Seq<char>>,
{
}

/// The keywords of [`ConversionType`].
pub proof fn law_conversion_type_keywords()
    ensures
        ConversionType::IDENTICAL.word() == Some("IDENTICAL"@),
        ConversionType::FORM.word() == Some("FORM"@),
        ConversionType::LINEAR.word() == Some("LINEAR"@),
        ConversionType::RAT_FUNC.word() == Some("RAT_FUNC"@),
        ConversionType::TAB_INTP.word() == Some("TAB_INTP"@),
        ConversionType::TAB_NOINTP.word() == Some("TAB_NOINTP"@),
        ConversionType::TAB_VERB.word() == Some("TAB_VERB"@),
{
}

/// The keywords of [`DataSize`].
pub proof fn law_data_size_keywords()
    ensures
        DataSize::BYTE.word() == Some("BYTE"@),
        DataSize::WORD.word() == Some("WORD"@),
        DataSize::LONG.word() == Some("LONG"@),
{
}

/// The keywords of [`DepositType`].
pub proof fn law_deposit_type_keywords()
    ensures
        DepositType::ABSOLUTE.word() == Some("ABSOLUTE"@),
        DepositType::DIFFERENCE.word() == Some("DIFFERENCE"@),
        DepositType::NotSet.word() == None::<Seq<char>>,
{
}

/// The keywords of [`EncodingType`].
pub proof fn law_encoding_type_keywords()
    ensures
        EncodingType::ASCII.word() == Some("ASCII"@),
        EncodingType::UTF8.word() == Some("UTF8"@),
        EncodingType::UTF16.word() == Some("UTF16"@),
        EncodingType::UTF32.word() == Some("UTF32"@),
{
}

/// The keywords of [`IndexMode`].
pub proof fn law_index_mode_keywords()
    ensures
        IndexMode::ROW_DIR.word() == Some("ROW_DIR"@),
        IndexMode::COLUMN_DIR.word() == Some("COLUMN_DIR"@),
        IndexMode::ALTERNATE_WITH_X.word() == Some("ALTERNATE_WITH_X"@),
        IndexMode::ALTERNATE_WITH_Y.word() == Some("ALTERNATE_WITH_Y"@),
        IndexMode::ALTERNATE_CURVES.word() == Some("ALTERNATE_CURVES"@),
        IndexMode::NotSet.word() == None::<Seq<char>>,
{
}

/// The keywords of [`IndexOrder`].
pub proof fn law_index_order_keywords()
    ensures
        IndexOrder::INDEX_INCR.word() == Some("INDEX_INCR"@),
        IndexOrder::INDEX_DECR.word() == Some("INDEX_DECR"@),
{
}

/// The keywords of [`MemoryAttribute`].
pub proof fn law_memory_attribute_keywords()
    ensures
        MemoryAttribute::INTERN.word() == Some("INTERN"@),
        MemoryAttribute::EXTERN.word() == Some("EXTERN"@),
{
}

/// The keywords of [`MemoryType`].
pub proof fn law_memory_type_keywords()
    ensures
        MemoryType::RAM.word() == Some("RAM"@),
        MemoryType::EEPROM.word() == Some("EEPROM"@),
        MemoryType::EPROM.word() == Some("EPROM"@),
        MemoryType::ROM.word() == Some("ROM"@),
        MemoryType::REGISTER.word() == Some("REGISTER"@),
        MemoryType::FLASH.word() == Some("FLASH"@),
        MemoryType::NOT_IN_ECU.word() == Some("NOT_IN_ECU"@),
{
}

/// The keywords of [`MemoryPrgType`].
pub proof fn law_memory_prg_type_keywords()
    ensures
        MemoryPrgType::UNKNOWN.word() == Some("UNKNOWN"@),
        MemoryPrgType::CODE.word() == Some("CODE"@),
        MemoryPrgType::DATA.word() == Some("DATA"@),
        MemoryPrgType::OFFLINE_DATA.word() == Some("OFFLINE_DATA"@),
        MemoryPrgType::VARIABLES.word() == Some("VARIABLES"@),
        MemoryPrgType::SERAM.word() == Some("SERAM"@),
        MemoryPrgType::RESERVED.word() == Some("RESERVED"@),
        MemoryPrgType::CALIBRATION_VARIABLES.word() == Some("CALIBRATION_VARIABLES"@),
        MemoryPrgType::EXCLUDE_FROM_FLASH.word() == Some("EXCLUDE_FROM_FLASH"@),
{
}

/// The keywords of [`MonotonyType`].
pub proof fn law_monotony_type_keywords()
    ensures
        MonotonyType::NOT_MON.word() == Some("NOT_MON"@),
        MonotonyType::MON_DECREASE.word() == Some("MON_DECREASE"@),
        MonotonyType::MON_INCREASE.word() == Some("MON_INCREASE"@),
        MonotonyType::STRICT_DECREASE.word() == Some("STRICT_DECREASE"@),
        MonotonyType::STRICT_INCREASE.word() == Some("STRICT_INCREASE"@),
        MonotonyType::MONOTONOUS.word() == Some("MONOTONOUS"@),
        MonotonyType::STRICT_MON.word() == Some("STRICT_MON"@),
        MonotonyType::NotSet.word() == None::<Seq<char>>,
{
}

/// The keywords of [`PrgType`].
pub proof fn law_prg_type_keywords()
    ensures
        PrgType::PRG_CODE.word() == Some("PRG_CODE"@),
        PrgType::PRG_DATA.word() == Some("PRG_DATA"@),
        PrgType::PRG_RESERVED.word() == Some("PRG_RESERVED"@),
{
}

/// The keywords of [`TriggerType`].
pub proof fn law_trigger_type_keywords()
    ensures
        TriggerType::ON_CHANGE.word() == Some("ON_CHANGE"@),
        TriggerType::ON_USER_REQUEST.word() == Some("ON_USER_REQUEST"@),
{
}

/// The keywords of [`UnitType`].
pub proof fn law_unit_type_keywords()
    ensures
        UnitType::DERIVED.word() == Some("DERIVED"@),
        UnitType::EXTENDED_SI.word() == Some("EXTENDED_SI"@),
{
}

/// The keywords of [`VarNamingType`].
pub proof fn law_var_naming_type_keywords()
    ensures
        VarNamingType::NUMERIC.word() == Some("NUMERIC"@),
        VarNamingType::NotSet.word() == None::<Seq<char>>,
{
}

/// The keywords of [`DataType`].
pub proof fn law_data_type_keywords()
    ensures
        DataType::UByte.word() == Some("UBYTE"@),
        DataType::SByte.word() == Some("SBYTE"@),
        DataType::UWord.word() == Some("UWORD"@),
        DataType::SWord.word() == Some("SWORD"@),
        DataType::ULong.word() == Some("ULONG"@),
        DataType::SLong.word() == Some("SLONG"@),
        DataType::AUInt64.word() == Some("A_UINT64"@),
        DataType::AInt64.word() == Some("A_INT64"@),
        DataType::Float16Ieee.word() == Some("FLOAT16_IEEE"@),
        DataType::Float32Ieee.word() == Some("FLOAT32_IEEE"@),
        DataType::Float64Ieee.word() == Some("FLOAT64_IEEE"@),
        DataType::Unsupported.word() == None::<Seq<char>>,
{
}

/// The keywords of [`CharacteristicType`].
pub proof fn law_characteristic_type_keywords()
    ensures
        CharacteristicType::VALUE.word() == Some("VALUE"@),
        CharacteristicType::ASCII.word() == Some("ASCII"@),
        CharacteristicType::VAL_BLK.word() == Some("VAL_BLK"@),
        CharacteristicType::CURVE.word() == Some("CURVE"@),
        CharacteristicType::MAP.word() == Some("MAP"@),
        CharacteristicType::CUBOID.word() == Some("CUBOID"@),
        CharacteristicType::CUBE_4.word() == Some("CUBE_4"@),
        CharacteristicType::CUBE_5.word() == Some("CUBE_5"@),
        CharacteristicType::NotSet.word() == None::<Seq<char>>,
{
}

/// The numbers of [`EcuPage`].
pub proof fn law_ecu_page_numbers()
    ensures
        EcuPage::Flash.number() == 0,
        EcuPage::RAM.number() == 1,
{
}

/// The numbers of [`ScalingUnits`].
pub proof fn law_scaling_units_numbers()
    ensures
        ScalingUnits::Time_1uSec.number() == 0,
        ScalingUnits::Time_10uSec.number() == 1,
        ScalingUnits::Time_100uSec.number() == 2,
        ScalingUnits::Time_1mSec.number() == 3,
        ScalingUnits::Time_10mSec.number() == 4,
        ScalingUnits::Time_100mSec.number() == 5,
        ScalingUnits::Time_1Sec.number() == 6,
        ScalingUnits::Time_10Sec.number() == 7,
        ScalingUnits::Time_1Min.number() == 8,
        ScalingUnits::Time_1Hour.number() == 9,
        ScalingUnits::Time_1Day.number() == 10,
        ScalingUnits::AngularDegrees.number() == 100,
        ScalingUnits::Revolutions.number() == 101,
        ScalingUnits::Cycle.number() == 102,
        ScalingUnits::CylinderSegmentCombustion.number() == 103,
        ScalingUnits::FrameAvailableEvent.number() == 998,
        ScalingUnits::AlwaysOnNewValue.number() == 999,
        ScalingUnits::NonDeternministic.number() == 1000,
{
}

} // verus!
