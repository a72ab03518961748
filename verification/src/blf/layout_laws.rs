//! Where the fields of objects stand in their bytes.

use crate::blf::app::{AppText, AppTextManaged, RestorePointContainer, RestorePointContainerManaged, SysVariable, SysVariableManaged};
use crate::blf::can::{CanDriverError, CanDriverErrorExt, CanDriverSync, CanError, CanFdMessage, CanFdMessage64, CanMessage, CanMessage2, CanOverload, CanStatistic};
use crate::blf::can_ext::{CanErrorExt, CanFdError64, CanFdManaged, CanSettingChanged};
use crate::blf::ethernet::{EthernetFrame, EthernetFrameEx, EthernetRxError, EthernetStatistic, EthernetStatus};
use crate::blf::file_header::{Header};
use crate::blf::general::{AppTrigger, AttributeEvent, DataLostBegin, DataLostEnd, DiagRequestInterpretation, DistributedObjectMember, DriverOverrun, EnvironmentVariable, EventComment, FunctionBus, GlobalMarker, GpsEvent, RealtimeClock, TriggerCondition, WaterMarkEvent};
use crate::blf::header::{LObj, ObjBase};
use crate::blf::lin::{LinMessage, LinMessage2};
use crate::blf::log_container::{LogContainer};
use crate::blf::bytes::{u16_at, u32_at, u64_at};
use vstd::prelude::*;

verus! {

/// A 16-bit field has its low byte first.
pub proof fn law_little_endian_16(s: Seq<u8>, i: int)
    ensures
        u16_at(s, i) == s[i] + 256 * s[i + 1],
{
    reveal(u16_at);
}

/// A 32-bit field has its low byte first.
pub proof fn law_little_endian_32(s: Seq<u8>, i: int)
    ensures
        u32_at(s, i) == s[i] + 256 * s[i + 1] + 65536 * s[i + 2] + 16777216 * s[i + 3],
{
    reveal(u32_at);
}

/// A 64-bit field has its low byte first.
pub proof fn law_little_endian_64(s: Seq<u8>, i: int)
    ensures
        u64_at(s, i) == s[i] + 256 * s[i + 1] + 65536 * s[i + 2] + 16777216 * s[i + 3] + 4294967296
            * s[i + 4] + 1099511627776 * s[i + 5] + 281474976710656 * s[i + 6] + 72057594037927936
            * s[i + 7],
{
    reveal(u64_at);
    law_little_endian_32(s, i);
    law_little_endian_32(s, i + 4);
}

/// Where the fields of [`AppText`] stand in its bytes.
pub proof fn law_app_text_layout(v: AppText, s: Seq<u8>)
    requires
        v.reads(s),
    ensures
        v.source == s[32] + 256 * s[33] + 65536 * s[34] + 16777216 * s[35],
        v.reserved == s[36] + 256 * s[37] + 65536 * s[38] + 16777216 * s[39],
        v.length == s[40] + 256 * s[41] + 65536 * s[42] + 16777216 * s[43],
        v.reserved2 == s[44] + 256 * s[45] + 65536 * s[46] + 16777216 * s[47],
{
    law_little_endian_32(s, 32);
    law_little_endian_32(s, 36);
    law_little_endian_32(s, 40);
    law_little_endian_32(s, 44);
}

/// Where the fields of [`AppTextManaged`] stand in its bytes.
pub proof fn law_app_text_managed_layout(v: AppTextManaged, s: Seq<u8>)
    requires
        v.reads(s),
    ensures
        v.source == s[32] + 256 * s[33] + 65536 * s[34] + 16777216 * s[35],
        v.reserved == s[36] + 256 * s[37] + 65536 * s[38] + 16777216 * s[39],
        v.reserved2 == s[44] + 256 * s[45] + 65536 * s[46] + 16777216 * s[47],
{
    law_little_endian_32(s, 32);
    law_little_endian_32(s, 36);
    law_little_endian_32(s, 44);
}

/// Where the fields of [`SysVariable`] stand in its bytes.
pub proof fn law_sys_variable_layout(v: SysVariable, s: Seq<u8>)
    requires
        v.reads(s),
    ensures
        v.data_type.raw() == ((s[32] + 256 * s[33] + 65536 * s[34] + 16777216 * s[35]) as u32),
        v.representation == s[36] + 256 * s[37] + 65536 * s[38] + 16777216 * s[39],
        v.reserved == s[40] + 256 * s[41] + 65536 * s[42] + 16777216 * s[43] + 4294967296 * s[44] + 1099511627776 * s[45] + 281474976710656 * s[46] + 72057594037927936 * s[47],
        v.name_length == s[48] + 256 * s[49] + 65536 * s[50] + 16777216 * s[51],
        v.data_length == s[52] + 256 * s[53] + 65536 * s[54] + 16777216 * s[55],
        v.reserved2 == s[56] + 256 * s[57] + 65536 * s[58] + 16777216 * s[59] + 4294967296 * s[60] + 1099511627776 * s[61] + 281474976710656 * s[62] + 72057594037927936 * s[63],
{
    law_little_endian_32(s, 32);
    law_little_endian_32(s, 36);
    law_little_endian_64(s, 40);
    law_little_endian_32(s, 48);
    law_little_endian_32(s, 52);
    law_little_endian_64(s, 56);
}

/// Where the fields of [`SysVariableManaged`] stand in its bytes.
pub proof fn law_sys_variable_managed_layout(v: SysVariableManaged, s: Seq<u8>)
    requires
        v.reads(s),
    ensures
        v.data_type.raw() == ((s[32] + 256 * s[33] + 65536 * s[34] + 16777216 * s[35]) as u32),
        v.representation == s[36] + 256 * s[37] + 65536 * s[38] + 16777216 * s[39],
        v.reserved == s[40] + 256 * s[41] + 65536 * s[42] + 16777216 * s[43] + 4294967296 * s[44] + 1099511627776 * s[45] + 281474976710656 * s[46] + 72057594037927936 * s[47],
        v.reserved2 == s[56] + 256 * s[57] + 65536 * s[58] + 16777216 * s[59] + 4294967296 * s[60] + 1099511627776 * s[61] + 281474976710656 * s[62] + 72057594037927936 * s[63],
        v.data@ == s.subrange(
            (64 + ((s[48] + 256 * s[49] + 65536 * s[50] + 16777216 * s[51]) as u32)),
            (
                64 + ((s[48] + 256 * s[49] + 65536 * s[50] + 16777216 * s[51]) as u32)
            ) + ((s[52] + 256 * s[53] + 65536 * s[54] + 16777216 * s[55]) as u32)
        ),
{
    law_little_endian_32(s, 32);
    law_little_endian_32(s, 36);
    law_little_endian_64(s, 40);
    law_little_endian_64(s, 56);
    law_little_endian_32(s, 48);
    law_little_endian_32(s, 52);
}

/// Where the fields of [`RestorePointContainer`] stand in its bytes.
pub proof fn law_restore_point_container_layout(v: RestorePointContainer, s: Seq<u8>)
    requires
        v.reads(s),
        s.len() >= 46,
    ensures
        v.reserved@.len() == 14,
        forall|i: int| 0 <= i < 14 ==> #[trigger] v.reserved@[i] == s[32 + i],
        v.data_length == s[46] + 256 * s[47],
{
    law_little_endian_16(s, 46);
}

/// Where the fields of [`RestorePointContainerManaged`] stand in its bytes.
pub proof fn law_restore_point_container_managed_layout(v: RestorePointContainerManaged, s: Seq<u8>)
    requires
        v.reads(s),
        s.len() >= 46,
    ensures
        v.reserved@.len() == 14,
        forall|i: int| 0 <= i < 14 ==> #[trigger] v.reserved@[i] == s[32 + i],
        v.data@ == s.subrange(48, 48 + ((s[46] + 256 * s[47]) as u16)),
{
    law_little_endian_16(s, 46);
}

/// Where the fields of [`CanMessage`] stand in its bytes.
pub proof fn law_can_message_layout(v: CanMessage, s: Seq<u8>)
    requires
        v.reads(s),
        s.len() >= 48,
    ensures
        v.channel == s[32] + 256 * s[33],
        v.flags.0 == s[34],
        v.dlc == s[35],
        v.id == s[36] + 256 * s[37] + 65536 * s[38] + 16777216 * s[39],
        v.data@.len() == 8,
        forall|i: int| 0 <= i < 8 ==> #[trigger] v.data@[i] == s[40 + i],
{
    law_little_endian_16(s, 32);
    law_little_endian_32(s, 36);
}

/// Where the fields of [`CanMessage2`] stand in its bytes.
pub proof fn law_can_message2_layout(v: CanMessage2, s: Seq<u8>)
    requires
        v.reads(s),
        s.len() >= 48,
    ensures
        v.channel == s[32] + 256 * s[33],
        v.flags.0 == s[34],
        v.dlc == s[35],
        v.id == s[36] + 256 * s[37] + 65536 * s[38] + 16777216 * s[39],
        v.data@.len() == 8,
        forall|i: int| 0 <= i < 8 ==> #[trigger] v.data@[i] == s[40 + i],
        v.frame_length == s[48] + 256 * s[49] + 65536 * s[50] + 16777216 * s[51],
        v.bit_count == s[52],
        v.reserved == s[53],
        v.reserved2 == s[54] + 256 * s[55],
{
    law_little_endian_16(s, 32);
    law_little_endian_32(s, 36);
    law_little_endian_32(s, 48);
    law_little_endian_16(s, 54);
}

/// Where the fields of [`CanError`] stand in its bytes.
pub proof fn law_can_error_layout(v: CanError, s: Seq<u8>)
    requires
        v.reads(s),
    ensures
        v.channel == s[32] + 256 * s[33],
        v.length == s[34] + 256 * s[35],
        v.reserved == s[36] + 256 * s[37] + 65536 * s[38] + 16777216 * s[39],
{
    law_little_endian_16(s, 32);
    law_little_endian_16(s, 34);
    law_little_endian_32(s, 36);
}

/// Where the fields of [`CanFdMessage`] stand in its bytes.
pub proof fn law_can_fd_message_layout(v: CanFdMessage, s: Seq<u8>)
    requires
        v.reads(s),
        s.len() >= 116,
    ensures
        v.channel == s[32] + 256 * s[33],
        v.flags.0 == s[34],
        v.dlc == s[35],
        v.id == s[36] + 256 * s[37] + 65536 * s[38] + 16777216 * s[39],
        v.frame_length == s[40] + 256 * s[41] + 65536 * s[42] + 16777216 * s[43],
        v.arb_bit_count == s[44],
        v.fd_flags.0 == s[45],
        v.valid_data_bytes == s[46],
        v.reserved == s[47],
        v.reserved2 == s[48] + 256 * s[49] + 65536 * s[50] + 16777216 * s[51],
        v.data@.len() == 64,
        forall|i: int| 0 <= i < 64 ==> #[trigger] v.data@[i] == s[52 + i],
        v.reserved3 == s[116] + 256 * s[117] + 65536 * s[118] + 16777216 * s[119],
{
    law_little_endian_16(s, 32);
    law_little_endian_32(s, 36);
    law_little_endian_32(s, 40);
    law_little_endian_32(s, 48);
    law_little_endian_32(s, 116);
}

/// Where the fields of [`CanFdMessage64`] stand in its bytes.
pub proof fn law_can_fd_message64_layout(v: CanFdMessage64, s: Seq<u8>)
    requires
        v.reads(s),
    ensures
        v.channel == s[32],
        v.dlc == s[33],
        v.valid_data_bytes == s[34],
        v.tx_count == s[35],
        v.id == s[36] + 256 * s[37] + 65536 * s[38] + 16777216 * s[39],
        v.frame_length == s[40] + 256 * s[41] + 65536 * s[42] + 16777216 * s[43],
        v.fd_flags.0 == s[44] + 256 * s[45] + 65536 * s[46] + 16777216 * s[47],
        v.btr_cfg_arb == s[48] + 256 * s[49] + 65536 * s[50] + 16777216 * s[51],
        v.btr_cfg_data == s[52] + 256 * s[53] + 65536 * s[54] + 16777216 * s[55],
        v.time_offset_brs_ns == s[56] + 256 * s[57] + 65536 * s[58] + 16777216 * s[59],
        v.time_offset_crc_del_ns == s[60] + 256 * s[61] + 65536 * s[62] + 16777216 * s[63],
        v.bit_count == s[64] + 256 * s[65],
        v.dir == s[66],
        v.ext_data_offset == s[67],
        v.crc == s[68] + 256 * s[69] + 65536 * s[70] + 16777216 * s[71],
{
    law_little_endian_32(s, 36);
    law_little_endian_32(s, 40);
    law_little_endian_32(s, 44);
    law_little_endian_32(s, 48);
    law_little_endian_32(s, 52);
    law_little_endian_32(s, 56);
    law_little_endian_32(s, 60);
    law_little_endian_16(s, 64);
    law_little_endian_32(s, 68);
}

/// Where the fields of [`CanStatistic`] stand in its bytes.
pub proof fn law_can_statistic_layout(v: CanStatistic, s: Seq<u8>)
    requires
        v.reads(s),
    ensures
        v.channel == s[32] + 256 * s[33],
        v.bus_load == s[34] + 256 * s[35],
        v.data_frames == s[36] + 256 * s[37] + 65536 * s[38] + 16777216 * s[39],
        v.ex_data_frames == s[40] + 256 * s[41] + 65536 * s[42] + 16777216 * s[43],
        v.remote_frames == s[44] + 256 * s[45] + 65536 * s[46] + 16777216 * s[47],
        v.ex_remote_frames == s[48] + 256 * s[49] + 65536 * s[50] + 16777216 * s[51],
        v.error_frames == s[52] + 256 * s[53] + 65536 * s[54] + 16777216 * s[55],
        v.overload_frames == s[56] + 256 * s[57] + 65536 * s[58] + 16777216 * s[59],
        v.reserved == s[60] + 256 * s[61] + 65536 * s[62] + 16777216 * s[63],
{
    law_little_endian_16(s, 32);
    law_little_endian_16(s, 34);
    law_little_endian_32(s, 36);
    law_little_endian_32(s, 40);
    law_little_endian_32(s, 44);
    law_little_endian_32(s, 48);
    law_little_endian_32(s, 52);
    law_little_endian_32(s, 56);
    law_little_endian_32(s, 60);
}

/// Where the fields of [`CanDriverError`] stand in its bytes.
pub proof fn law_can_driver_error_layout(v: CanDriverError, s: Seq<u8>)
    requires
        v.reads(s),
    ensures
        v.channel == s[32] + 256 * s[33],
        v.tx_errors == s[34],
        v.rx_errors == s[35],
        v.error_code == s[36] + 256 * s[37] + 65536 * s[38] + 16777216 * s[39],
{
    law_little_endian_16(s, 32);
    law_little_endian_32(s, 36);
}

/// Where the fields of [`CanOverload`] stand in its bytes.
pub proof fn law_can_overload_layout(v: CanOverload, s: Seq<u8>)
    requires
        v.reads(s),
    ensures
        v.channel == s[32] + 256 * s[33],
        v.reserved1 == s[34] + 256 * s[35],
        v.reserved2 == s[36] + 256 * s[37] + 65536 * s[38] + 16777216 * s[39],
{
    law_little_endian_16(s, 32);
    law_little_endian_16(s, 34);
    law_little_endian_32(s, 36);
}

/// Where the fields of [`CanDriverSync`] stand in its bytes.
pub proof fn law_can_driver_sync_layout(v: CanDriverSync, s: Seq<u8>)
    requires
        v.reads(s),
    ensures
        v.channel == s[32] + 256 * s[33],
        v.flags == s[34],
        v.reserved1 == s[35],
        v.reserved2 == s[36] + 256 * s[37] + 65536 * s[38] + 16777216 * s[39],
{
    law_little_endian_16(s, 32);
    law_little_endian_32(s, 36);
}

/// Where the fields of [`CanDriverErrorExt`] stand in its bytes.
pub proof fn law_can_driver_error_ext_layout(v: CanDriverErrorExt, s: Seq<u8>)
    requires
        v.reads(s),
    ensures
        v.channel == s[32] + 256 * s[33],
        v.tx_errors == s[34],
        v.rx_errors == s[35],
        v.error_code == s[36] + 256 * s[37] + 65536 * s[38] + 16777216 * s[39],
        v.flags == s[40] + 256 * s[41] + 65536 * s[42] + 16777216 * s[43],
        v.state == s[44],
        v.reserved1 == s[45],
        v.reserved2 == s[46] + 256 * s[47],
        v.reserved3@ == seq![
            ((s[48] + 256 * s[49] + 65536 * s[50] + 16777216 * s[51]) as u32),
            ((s[52] + 256 * s[53] + 65536 * s[54] + 16777216 * s[55]) as u32),
            ((s[56] + 256 * s[57] + 65536 * s[58] + 16777216 * s[59]) as u32),
            ((s[60] + 256 * s[61] + 65536 * s[62] + 16777216 * s[63]) as u32)
        ],
{
    law_little_endian_16(s, 32);
    law_little_endian_32(s, 36);
    law_little_endian_32(s, 40);
    law_little_endian_16(s, 46);
    law_little_endian_32(s, 48);
    law_little_endian_32(s, 52);
    law_little_endian_32(s, 56);
    law_little_endian_32(s, 60);
}

/// Where the fields of [`CanErrorExt`] stand in its bytes.
pub proof fn law_can_error_ext_layout(v: CanErrorExt, s: Seq<u8>)
    requires
        v.reads(s),
    ensures
        v.channel == s[32] + 256 * s[33],
        v.length == s[34] + 256 * s[35],
        v.valid_flags.0 == s[36] + 256 * s[37] + 65536 * s[38] + 16777216 * s[39],
        v.ecc.0 == s[40],
        v.position == s[41],
        v.dlc == s[42],
        v.reserved == s[43],
        v.frame_length_ns == s[44] + 256 * s[45] + 65536 * s[46] + 16777216 * s[47],
        v.id == s[48] + 256 * s[49] + 65536 * s[50] + 16777216 * s[51],
        v.flags.0 == s[52] + 256 * s[53],
        v.reserved2 == s[54] + 256 * s[55],
        v.data@ == s.subrange(56, ((s[8] + 256 * s[9] + 65536 * s[10] + 16777216 * s[11]) as u32) as int),
{
    law_little_endian_16(s, 32);
    law_little_endian_16(s, 34);
    law_little_endian_32(s, 36);
    law_little_endian_32(s, 44);
    law_little_endian_32(s, 48);
    law_little_endian_16(s, 52);
    law_little_endian_16(s, 54);
    law_little_endian_32(s, 8);
}

/// Where the fields of [`CanFdManaged`] stand in its bytes.
pub proof fn law_can_fd_managed_layout(v: CanFdManaged, s: Seq<u8>)
    requires
        v.reads(s),
    ensures
        v.channel == s[32],
        v.dlc == s[33],
        v.valid_data_bytes == s[34],
        v.tx_count == s[35],
        v.id == s[36] + 256 * s[37] + 65536 * s[38] + 16777216 * s[39],
        v.frame_length == s[40] + 256 * s[41] + 65536 * s[42] + 16777216 * s[43],
        v.fd_flags.0 == s[44] + 256 * s[45] + 65536 * s[46] + 16777216 * s[47],
        v.btr_cfg_arb == s[48] + 256 * s[49] + 65536 * s[50] + 16777216 * s[51],
        v.btr_cfg_data == s[52] + 256 * s[53] + 65536 * s[54] + 16777216 * s[55],
        v.time_offset_brs_ns == s[56] + 256 * s[57] + 65536 * s[58] + 16777216 * s[59],
        v.time_offset_crc_del_ns == s[60] + 256 * s[61] + 65536 * s[62] + 16777216 * s[63],
        v.bit_count == s[64] + 256 * s[65],
        v.dir == s[66],
        v.ext_data_offset == s[67],
        v.crc == s[68] + 256 * s[69] + 65536 * s[70] + 16777216 * s[71],
        v.data@ == s.subrange(72, (72 + s[34])),
        v.ext_data@ == s.subrange(
            (72 + s[34]),
            (((s[8] + 256 * s[9] + 65536 * s[10] + 16777216 * s[11]) as u32)) as int
        ),
{
    law_little_endian_32(s, 36);
    law_little_endian_32(s, 40);
    law_little_endian_32(s, 44);
    law_little_endian_32(s, 48);
    law_little_endian_32(s, 52);
    law_little_endian_32(s, 56);
    law_little_endian_32(s, 60);
    law_little_endian_16(s, 64);
    law_little_endian_32(s, 68);
    law_little_endian_32(s, 8);
}

/// Where the fields of [`CanFdError64`] stand in its bytes.
pub proof fn law_can_fd_error64_layout(v: CanFdError64, s: Seq<u8>)
    requires
        v.reads(s),
    ensures
        v.channel == s[32],
        v.dlc == s[33],
        v.valid_data_bytes == s[34],
        v.ecc == s[35],
        v.flags == s[36] + 256 * s[37],
        v.error_code_ext == s[38] + 256 * s[39],
        v.ext_flags == s[40] + 256 * s[41],
        v.ext_data_offset == s[42],
        v.reserved1 == s[43],
        v.id == s[44] + 256 * s[45] + 65536 * s[46] + 16777216 * s[47],
        v.frame_length == s[48] + 256 * s[49] + 65536 * s[50] + 16777216 * s[51],
        v.btr_cfg_arb == s[52] + 256 * s[53] + 65536 * s[54] + 16777216 * s[55],
        v.btr_cfg_data == s[56] + 256 * s[57] + 65536 * s[58] + 16777216 * s[59],
        v.time_offset_brs_ns == s[60] + 256 * s[61] + 65536 * s[62] + 16777216 * s[63],
        v.time_offset_crc_del_ns == s[64] + 256 * s[65] + 65536 * s[66] + 16777216 * s[67],
        v.crc == s[68] + 256 * s[69] + 65536 * s[70] + 16777216 * s[71],
        v.error_position == s[72] + 256 * s[73],
        v.reserved2 == s[74] + 256 * s[75],
        v.data@ == s.subrange(76, (76 + s[34])),
        v.ext_data is Some == CanFdManaged::timed(
            s[42],
            (((s[8] + 256 * s[9] + 65536 * s[10] + 16777216 * s[11]) as u32) as int)
        ),
{
    law_little_endian_16(s, 36);
    law_little_endian_16(s, 38);
    law_little_endian_16(s, 40);
    law_little_endian_32(s, 44);
    law_little_endian_32(s, 48);
    law_little_endian_32(s, 52);
    law_little_endian_32(s, 56);
    law_little_endian_32(s, 60);
    law_little_endian_32(s, 64);
    law_little_endian_32(s, 68);
    law_little_endian_16(s, 72);
    law_little_endian_16(s, 74);
    law_little_endian_32(s, 8);
}

/// Where the fields of [`CanSettingChanged`] stand in its bytes.
pub proof fn law_can_setting_changed_layout(v: CanSettingChanged, s: Seq<u8>)
    requires
        v.reads(s),
    ensures
        v.channel == s[32] + 256 * s[33],
        v.changed_type == s[34],
{
    law_little_endian_16(s, 32);
}

/// Where the fields of [`EthernetFrame`] stand in its bytes.
pub proof fn law_ethernet_frame_layout(v: EthernetFrame, s: Seq<u8>)
    requires
        v.reads(s),
        s.len() >= 46,
    ensures
        v.source_address@.len() == 6,
        forall|i: int| 0 <= i < 6 ==> #[trigger] v.source_address@[i] == s[32 + i],
        v.channel == s[38] + 256 * s[39],
        v.destination_address@.len() == 6,
        forall|i: int| 0 <= i < 6 ==> #[trigger] v.destination_address@[i] == s[40 + i],
        v.dir == s[46] + 256 * s[47],
        v.ether_type == s[48] + 256 * s[49],
        v.tpid == s[50] + 256 * s[51],
        v.tci == s[52] + 256 * s[53],
        v.reserved == s[56] + 256 * s[57] + 65536 * s[58] + 16777216 * s[59] + 4294967296 * s[60] + 1099511627776 * s[61] + 281474976710656 * s[62] + 72057594037927936 * s[63],
        v.payload@ == s.subrange(64, (64 + ((s[54] + 256 * s[55]) as u16))),
        v.trailing@ == s.subrange(
            (64 + ((s[54] + 256 * s[55]) as u16)),
            ((s[8] + 256 * s[9] + 65536 * s[10] + 16777216 * s[11]) as u32) as int
        ),
{
    law_little_endian_16(s, 38);
    law_little_endian_16(s, 46);
    law_little_endian_16(s, 48);
    law_little_endian_16(s, 50);
    law_little_endian_16(s, 52);
    law_little_endian_64(s, 56);
    law_little_endian_16(s, 54);
    law_little_endian_32(s, 8);
}

/// Where the fields of [`EthernetRxError`] stand in its bytes.
pub proof fn law_ethernet_rx_error_layout(v: EthernetRxError, s: Seq<u8>)
    requires
        v.reads(s),
    ensures
        v.struct_length == s[32] + 256 * s[33],
        v.channel == s[34] + 256 * s[35],
        v.dir == s[36] + 256 * s[37],
        v.hardware_channel == s[38] + 256 * s[39],
        v.fcs == s[40] + 256 * s[41] + 65536 * s[42] + 16777216 * s[43],
        v.reserved == s[46] + 256 * s[47],
        v.error == s[48] + 256 * s[49] + 65536 * s[50] + 16777216 * s[51],
        v.frame_data@ == s.subrange(52, (52 + ((s[44] + 256 * s[45]) as u16))),
        v.trailing@ == s.subrange(
            (52 + ((s[44] + 256 * s[45]) as u16)),
            ((s[8] + 256 * s[9] + 65536 * s[10] + 16777216 * s[11]) as u32) as int
        ),
{
    law_little_endian_16(s, 32);
    law_little_endian_16(s, 34);
    law_little_endian_16(s, 36);
    law_little_endian_16(s, 38);
    law_little_endian_32(s, 40);
    law_little_endian_16(s, 46);
    law_little_endian_32(s, 48);
    law_little_endian_16(s, 44);
    law_little_endian_32(s, 8);
}

/// Where the fields of [`EthernetStatus`] stand in its bytes.
pub proof fn law_ethernet_status_layout(v: EthernetStatus, s: Seq<u8>)
    requires
        v.reads(s),
    ensures
        v.channel == s[32] + 256 * s[33],
        v.flags == s[34] + 256 * s[35],
        v.link_status == s[36],
        v.ethernet_phy == s[37],
        v.duplex == s[38],
        v.mdi == s[39],
        v.connector == s[40],
        v.clock_mode == s[41],
        v.pairs == s[42],
        v.hardware_channel == s[43],
        v.bitrate == s[44] + 256 * s[45] + 65536 * s[46] + 16777216 * s[47],
        v.reserved1 == (
            if (((s[8] + 256 * s[9] + 65536 * s[10] + 16777216 * s[11]) as u32)) >= 56 {
                Some(((s[48] + 256 * s[49] + 65536 * s[50] + 16777216 * s[51]) as u32))
            } else { None }
        ),
        v.reserved2 == (
            if (((s[8] + 256 * s[9] + 65536 * s[10] + 16777216 * s[11]) as u32)) >= 56 {
                Some(((s[52] + 256 * s[53] + 65536 * s[54] + 16777216 * s[55]) as u32))
            } else { None }
        ),
        v.trailing@ == s.subrange(
            (
                if (
                    ((s[8] + 256 * s[9] + 65536 * s[10] + 16777216 * s[11]) as u32)
                ) >= 56 { 56 } else { 48 }
            ),
            (((s[8] + 256 * s[9] + 65536 * s[10] + 16777216 * s[11]) as u32)) as int
        ),
{
    law_little_endian_16(s, 32);
    law_little_endian_16(s, 34);
    law_little_endian_32(s, 44);
    law_little_endian_32(s, 8);
    law_little_endian_32(s, 48);
    law_little_endian_32(s, 52);
}

/// Where the fields of [`EthernetStatistic`] stand in its bytes.
pub proof fn law_ethernet_statistic_layout(v: EthernetStatistic, s: Seq<u8>)
    requires
        v.reads(s),
    ensures
        v.channel == s[32] + 256 * s[33],
        v.reserved1 == s[34] + 256 * s[35],
        v.reserved2 == s[36] + 256 * s[37] + 65536 * s[38] + 16777216 * s[39],
        v.receive_ok == s[40] + 256 * s[41] + 65536 * s[42] + 16777216 * s[43] + 4294967296 * s[44] + 1099511627776 * s[45] + 281474976710656 * s[46] + 72057594037927936 * s[47],
        v.transmit_ok == s[48] + 256 * s[49] + 65536 * s[50] + 16777216 * s[51] + 4294967296 * s[52] + 1099511627776 * s[53] + 281474976710656 * s[54] + 72057594037927936 * s[55],
        v.receive_error == s[56] + 256 * s[57] + 65536 * s[58] + 16777216 * s[59] + 4294967296 * s[60] + 1099511627776 * s[61] + 281474976710656 * s[62] + 72057594037927936 * s[63],
        v.transmit_error == s[64] + 256 * s[65] + 65536 * s[66] + 16777216 * s[67] + 4294967296 * s[68] + 1099511627776 * s[69] + 281474976710656 * s[70] + 72057594037927936 * s[71],
        v.receive_bytes == s[72] + 256 * s[73] + 65536 * s[74] + 16777216 * s[75] + 4294967296 * s[76] + 1099511627776 * s[77] + 281474976710656 * s[78] + 72057594037927936 * s[79],
        v.transmit_bytes == s[80] + 256 * s[81] + 65536 * s[82] + 16777216 * s[83] + 4294967296 * s[84] + 1099511627776 * s[85] + 281474976710656 * s[86] + 72057594037927936 * s[87],
        v.receive_no_buffer == s[88] + 256 * s[89] + 65536 * s[90] + 16777216 * s[91] + 4294967296 * s[92] + 1099511627776 * s[93] + 281474976710656 * s[94] + 72057594037927936 * s[95],
        v.sqi == s[96] + 256 * s[97] || v.sqi + 65536 == s[96] + 256 * s[97],
        v.hardware_channel == s[98] + 256 * s[99],
        v.reserved3 == s[100] + 256 * s[101] + 65536 * s[102] + 16777216 * s[103],
{
    law_little_endian_16(s, 32);
    law_little_endian_16(s, 34);
    law_little_endian_32(s, 36);
    law_little_endian_64(s, 40);
    law_little_endian_64(s, 48);
    law_little_endian_64(s, 56);
    law_little_endian_64(s, 64);
    law_little_endian_64(s, 72);
    law_little_endian_64(s, 80);
    law_little_endian_64(s, 88);
    law_little_endian_16(s, 96);
    law_little_endian_16(s, 98);
    law_little_endian_32(s, 100);
}

/// Where the fields of [`EthernetFrameEx`] stand in its bytes.
pub proof fn law_ethernet_frame_ex_layout(v: EthernetFrameEx, s: Seq<u8>)
    requires
        v.reads(s),
    ensures
        v.struct_length == s[32] + 256 * s[33],
        v.flags == s[34] + 256 * s[35],
        v.channel == s[36] + 256 * s[37],
        v.hardware_channel == s[38] + 256 * s[39],
        v.frame_duration == s[40] + 256 * s[41] + 65536 * s[42] + 16777216 * s[43] + 4294967296 * s[44] + 1099511627776 * s[45] + 281474976710656 * s[46] + 72057594037927936 * s[47],
        v.frame_checksum == s[48] + 256 * s[49] + 65536 * s[50] + 16777216 * s[51],
        v.dir == s[52] + 256 * s[53],
        v.frame_handle == s[56] + 256 * s[57] + 65536 * s[58] + 16777216 * s[59],
        v.status == s[60] + 256 * s[61] + 65536 * s[62] + 16777216 * s[63],
        v.frame_data@ == s.subrange(64, (64 + ((s[54] + 256 * s[55]) as u16))),
        v.trailing@ == s.subrange(
            (64 + ((s[54] + 256 * s[55]) as u16)),
            ((s[8] + 256 * s[9] + 65536 * s[10] + 16777216 * s[11]) as u32) as int
        ),
{
    law_little_endian_16(s, 32);
    law_little_endian_16(s, 34);
    law_little_endian_16(s, 36);
    law_little_endian_16(s, 38);
    law_little_endian_64(s, 40);
    law_little_endian_32(s, 48);
    law_little_endian_16(s, 52);
    law_little_endian_32(s, 56);
    law_little_endian_32(s, 60);
    law_little_endian_16(s, 54);
    law_little_endian_32(s, 8);
}

/// Where the fields of [`Header`] stand in its bytes.
pub proof fn law_header_layout(v: Header, s: Seq<u8>)
    requires
        v.reads(s),
    ensures
        v.reads_fixed(s),
        v.restore_point_offset == (
            if (((s[4] + 256 * s[5] + 65536 * s[6] + 16777216 * s[7]) as u32)) >= 80 {
                Some(
                    (
                        (
                            s[72] + 256 * s[73] + 65536 * s[74] + 16777216 * s[75] + 4294967296 * s[76] + 1099511627776 * s[77] + 281474976710656 * s[78] + 72057594037927936 * s[79]
                        ) as u64
                    )
                )
            } else { None }
        ),
        v.reserved3@ == s.subrange(
            (
                if (
                    ((s[4] + 256 * s[5] + 65536 * s[6] + 16777216 * s[7]) as u32)
                ) >= 80 { 80 } else { 72 }
            ),
            (((s[4] + 256 * s[5] + 65536 * s[6] + 16777216 * s[7]) as u32)) as int
        ),
{
    law_little_endian_32(s, 4);
    law_little_endian_64(s, 72);
}

/// Where the fields of [`AppTrigger`] stand in its bytes.
pub proof fn law_app_trigger_layout(v: AppTrigger, s: Seq<u8>)
    requires
        v.reads(s),
    ensures
        v.pre_trigger_time == s[32] + 256 * s[33] + 65536 * s[34] + 16777216 * s[35] + 4294967296 * s[36] + 1099511627776 * s[37] + 281474976710656 * s[38] + 72057594037927936 * s[39],
        v.post_trigger_time == s[40] + 256 * s[41] + 65536 * s[42] + 16777216 * s[43] + 4294967296 * s[44] + 1099511627776 * s[45] + 281474976710656 * s[46] + 72057594037927936 * s[47],
        v.channel == s[48] + 256 * s[49],
        v.flags == s[50] + 256 * s[51],
        v.app_specific == s[52] + 256 * s[53] + 65536 * s[54] + 16777216 * s[55],
{
    law_little_endian_64(s, 32);
    law_little_endian_64(s, 40);
    law_little_endian_16(s, 48);
    law_little_endian_16(s, 50);
    law_little_endian_32(s, 52);
}

/// Where the fields of [`EnvironmentVariable`] stand in its bytes.
pub proof fn law_environment_variable_layout(v: EnvironmentVariable, s: Seq<u8>)
    requires
        v.reads(s),
    ensures
        v.reserved == s[40] + 256 * s[41] + 65536 * s[42] + 16777216 * s[43] + 4294967296 * s[44] + 1099511627776 * s[45] + 281474976710656 * s[46] + 72057594037927936 * s[47],
        v.name@ == s.subrange(48, (48 + ((s[32] + 256 * s[33] + 65536 * s[34] + 16777216 * s[35]) as u32))),
        v.data@ == s.subrange(
            (48 + ((s[32] + 256 * s[33] + 65536 * s[34] + 16777216 * s[35]) as u32)),
            (
                (
                    48 + ((s[32] + 256 * s[33] + 65536 * s[34] + 16777216 * s[35]) as u32)
                ) + ((s[36] + 256 * s[37] + 65536 * s[38] + 16777216 * s[39]) as u32)
            )
        ),
        v.trailing@ == s.subrange(
            (
                (
                    48 + ((s[32] + 256 * s[33] + 65536 * s[34] + 16777216 * s[35]) as u32)
                ) + ((s[36] + 256 * s[37] + 65536 * s[38] + 16777216 * s[39]) as u32)
            ),
            ((s[8] + 256 * s[9] + 65536 * s[10] + 16777216 * s[11]) as u32) as int
        ),
{
    law_little_endian_64(s, 40);
    law_little_endian_32(s, 32);
    law_little_endian_32(s, 36);
    law_little_endian_32(s, 8);
}

/// Where the fields of [`RealtimeClock`] stand in its bytes.
pub proof fn law_realtime_clock_layout(v: RealtimeClock, s: Seq<u8>)
    requires
        v.reads(s),
    ensures
        v.time == s[32] + 256 * s[33] + 65536 * s[34] + 16777216 * s[35] + 4294967296 * s[36] + 1099511627776 * s[37] + 281474976710656 * s[38] + 72057594037927936 * s[39],
        v.logging_offset == s[40] + 256 * s[41] + 65536 * s[42] + 16777216 * s[43] + 4294967296 * s[44] + 1099511627776 * s[45] + 281474976710656 * s[46] + 72057594037927936 * s[47],
{
    law_little_endian_64(s, 32);
    law_little_endian_64(s, 40);
}

/// Where the fields of [`DriverOverrun`] stand in its bytes.
pub proof fn law_driver_overrun_layout(v: DriverOverrun, s: Seq<u8>)
    requires
        v.reads(s),
    ensures
        v.bus_type == s[32] + 256 * s[33] + 65536 * s[34] + 16777216 * s[35],
        v.channel == s[36] + 256 * s[37],
        v.reserved == s[38] + 256 * s[39],
{
    law_little_endian_32(s, 32);
    law_little_endian_16(s, 36);
    law_little_endian_16(s, 38);
}

/// Where the fields of [`EventComment`] stand in its bytes.
pub proof fn law_event_comment_layout(v: EventComment, s: Seq<u8>)
    requires
        v.reads(s),
    ensures
        v.commented_event_type == s[32] + 256 * s[33] + 65536 * s[34] + 16777216 * s[35],
        v.reserved == s[40] + 256 * s[41] + 65536 * s[42] + 16777216 * s[43] + 4294967296 * s[44] + 1099511627776 * s[45] + 281474976710656 * s[46] + 72057594037927936 * s[47],
        v.text@ == s.subrange(48, (48 + ((s[36] + 256 * s[37] + 65536 * s[38] + 16777216 * s[39]) as u32))),
        v.trailing@ == s.subrange(
            (48 + ((s[36] + 256 * s[37] + 65536 * s[38] + 16777216 * s[39]) as u32)),
            ((s[8] + 256 * s[9] + 65536 * s[10] + 16777216 * s[11]) as u32) as int
        ),
{
    law_little_endian_32(s, 32);
    law_little_endian_64(s, 40);
    law_little_endian_32(s, 36);
    law_little_endian_32(s, 8);
}

/// Where the fields of [`GlobalMarker`] stand in its bytes.
pub proof fn law_global_marker_layout(v: GlobalMarker, s: Seq<u8>)
    requires
        v.reads(s),
    ensures
        v.commented_event_type == s[32] + 256 * s[33] + 65536 * s[34] + 16777216 * s[35],
        v.foreground_color == s[36] + 256 * s[37] + 65536 * s[38] + 16777216 * s[39],
        v.background_color == s[40] + 256 * s[41] + 65536 * s[42] + 16777216 * s[43],
        v.is_relocatable == s[44],
        v.reserved1 == s[45],
        v.reserved2 == s[46] + 256 * s[47],
        v.reserved3 == s[60] + 256 * s[61] + 65536 * s[62] + 16777216 * s[63],
        v.reserved4 == s[64] + 256 * s[65] + 65536 * s[66] + 16777216 * s[67] + 4294967296 * s[68] + 1099511627776 * s[69] + 281474976710656 * s[70] + 72057594037927936 * s[71],
        v.group_name@ == s.subrange(72, (72 + ((s[48] + 256 * s[49] + 65536 * s[50] + 16777216 * s[51]) as u32))),
        v.marker_name@ == s.subrange(
            (72 + ((s[48] + 256 * s[49] + 65536 * s[50] + 16777216 * s[51]) as u32)),
            (
                (
                    72 + ((s[48] + 256 * s[49] + 65536 * s[50] + 16777216 * s[51]) as u32)
                ) + ((s[52] + 256 * s[53] + 65536 * s[54] + 16777216 * s[55]) as u32)
            )
        ),
        v.description@ == s.subrange(
            (
                (
                    72 + ((s[48] + 256 * s[49] + 65536 * s[50] + 16777216 * s[51]) as u32)
                ) + ((s[52] + 256 * s[53] + 65536 * s[54] + 16777216 * s[55]) as u32)
            ),
            (
                (
                    (
                        72 + ((s[48] + 256 * s[49] + 65536 * s[50] + 16777216 * s[51]) as u32)
                    ) + ((s[52] + 256 * s[53] + 65536 * s[54] + 16777216 * s[55]) as u32)
                ) + ((s[56] + 256 * s[57] + 65536 * s[58] + 16777216 * s[59]) as u32)
            )
        ),
        v.trailing@ == s.subrange(
            (
                (
                    (
                        72 + ((s[48] + 256 * s[49] + 65536 * s[50] + 16777216 * s[51]) as u32)
                    ) + ((s[52] + 256 * s[53] + 65536 * s[54] + 16777216 * s[55]) as u32)
                ) + ((s[56] + 256 * s[57] + 65536 * s[58] + 16777216 * s[59]) as u32)
            ),
            ((s[8] + 256 * s[9] + 65536 * s[10] + 16777216 * s[11]) as u32) as int
        ),
{
    law_little_endian_32(s, 32);
    law_little_endian_32(s, 36);
    law_little_endian_32(s, 40);
    law_little_endian_16(s, 46);
    law_little_endian_32(s, 60);
    law_little_endian_64(s, 64);
    law_little_endian_32(s, 48);
    law_little_endian_32(s, 52);
    law_little_endian_32(s, 56);
    law_little_endian_32(s, 8);
}

/// Where the fields of [`GpsEvent`] stand in its bytes.
pub proof fn law_gps_event_layout(v: GpsEvent, s: Seq<u8>)
    requires
        v.reads(s),
    ensures
        v.flags == s[32] + 256 * s[33] + 65536 * s[34] + 16777216 * s[35],
        v.channel == s[36] + 256 * s[37],
        v.reserved == s[38] + 256 * s[39],
        v.latitude.0 == s[40] + 256 * s[41] + 65536 * s[42] + 16777216 * s[43] + 4294967296 * s[44] + 1099511627776 * s[45] + 281474976710656 * s[46] + 72057594037927936 * s[47],
        v.longitude.0 == s[48] + 256 * s[49] + 65536 * s[50] + 16777216 * s[51] + 4294967296 * s[52] + 1099511627776 * s[53] + 281474976710656 * s[54] + 72057594037927936 * s[55],
        v.altitude.0 == s[56] + 256 * s[57] + 65536 * s[58] + 16777216 * s[59] + 4294967296 * s[60] + 1099511627776 * s[61] + 281474976710656 * s[62] + 72057594037927936 * s[63],
        v.speed.0 == s[64] + 256 * s[65] + 65536 * s[66] + 16777216 * s[67] + 4294967296 * s[68] + 1099511627776 * s[69] + 281474976710656 * s[70] + 72057594037927936 * s[71],
        v.course.0 == s[72] + 256 * s[73] + 65536 * s[74] + 16777216 * s[75] + 4294967296 * s[76] + 1099511627776 * s[77] + 281474976710656 * s[78] + 72057594037927936 * s[79],
{
    law_little_endian_32(s, 32);
    law_little_endian_16(s, 36);
    law_little_endian_16(s, 38);
    law_little_endian_64(s, 40);
    law_little_endian_64(s, 48);
    law_little_endian_64(s, 56);
    law_little_endian_64(s, 64);
    law_little_endian_64(s, 72);
}

/// Where the fields of [`DataLostBegin`] stand in its bytes.
pub proof fn law_data_lost_begin_layout(v: DataLostBegin, s: Seq<u8>)
    requires
        v.reads(s),
    ensures
        v.queue_identifier == s[32] + 256 * s[33] + 65536 * s[34] + 16777216 * s[35],
{
    law_little_endian_32(s, 32);
}

/// Where the fields of [`DataLostEnd`] stand in its bytes.
pub proof fn law_data_lost_end_layout(v: DataLostEnd, s: Seq<u8>)
    requires
        v.reads(s),
    ensures
        v.queue_identifier == s[32] + 256 * s[33] + 65536 * s[34] + 16777216 * s[35],
        v.first_object_lost_timestamp == s[36] + 256 * s[37] + 65536 * s[38] + 16777216 * s[39] + 4294967296 * s[40] + 1099511627776 * s[41] + 281474976710656 * s[42] + 72057594037927936 * s[43],
        v.number_of_lost_events == s[44] + 256 * s[45] + 65536 * s[46] + 16777216 * s[47],
{
    law_little_endian_32(s, 32);
    law_little_endian_64(s, 36);
    law_little_endian_32(s, 44);
}

/// Where the fields of [`WaterMarkEvent`] stand in its bytes.
pub proof fn law_water_mark_event_layout(v: WaterMarkEvent, s: Seq<u8>)
    requires
        v.reads(s),
    ensures
        v.queue_state == s[32] + 256 * s[33] + 65536 * s[34] + 16777216 * s[35],
        v.reserved == s[36] + 256 * s[37] + 65536 * s[38] + 16777216 * s[39],
{
    law_little_endian_32(s, 32);
    law_little_endian_32(s, 36);
}

/// Where the fields of [`TriggerCondition`] stand in its bytes.
pub proof fn law_trigger_condition_layout(v: TriggerCondition, s: Seq<u8>)
    requires
        v.reads(s),
    ensures
        v.state == s[32] + 256 * s[33] + 65536 * s[34] + 16777216 * s[35],
        v.trigger_block_name@ == s.subrange(
            44,
            (44 + ((s[36] + 256 * s[37] + 65536 * s[38] + 16777216 * s[39]) as u32))
        ),
        v.trigger_condition@ == s.subrange(
            (44 + ((s[36] + 256 * s[37] + 65536 * s[38] + 16777216 * s[39]) as u32)),
            (
                (
                    44 + ((s[36] + 256 * s[37] + 65536 * s[38] + 16777216 * s[39]) as u32)
                ) + ((s[40] + 256 * s[41] + 65536 * s[42] + 16777216 * s[43]) as u32)
            )
        ),
        v.trailing@ == s.subrange(
            (
                (
                    44 + ((s[36] + 256 * s[37] + 65536 * s[38] + 16777216 * s[39]) as u32)
                ) + ((s[40] + 256 * s[41] + 65536 * s[42] + 16777216 * s[43]) as u32)
            ),
            ((s[8] + 256 * s[9] + 65536 * s[10] + 16777216 * s[11]) as u32) as int
        ),
{
    law_little_endian_32(s, 32);
    law_little_endian_32(s, 36);
    law_little_endian_32(s, 40);
    law_little_endian_32(s, 8);
}

/// Where the fields of [`DistributedObjectMember`] stand in its bytes.
pub proof fn law_distributed_object_member_layout(v: DistributedObjectMember, s: Seq<u8>)
    requires
        v.reads(s),
    ensures
        v.member_type == s[32] + 256 * s[33] + 65536 * s[34] + 16777216 * s[35],
        v.detail_type == s[36] + 256 * s[37] + 65536 * s[38] + 16777216 * s[39],
        v.path@ == s.subrange(48, (48 + ((s[40] + 256 * s[41] + 65536 * s[42] + 16777216 * s[43]) as u32))),
        v.data@ == s.subrange(
            (48 + ((s[40] + 256 * s[41] + 65536 * s[42] + 16777216 * s[43]) as u32)),
            (
                (
                    48 + ((s[40] + 256 * s[41] + 65536 * s[42] + 16777216 * s[43]) as u32)
                ) + ((s[44] + 256 * s[45] + 65536 * s[46] + 16777216 * s[47]) as u32)
            )
        ),
        v.trailing@ == s.subrange(
            (
                (
                    48 + ((s[40] + 256 * s[41] + 65536 * s[42] + 16777216 * s[43]) as u32)
                ) + ((s[44] + 256 * s[45] + 65536 * s[46] + 16777216 * s[47]) as u32)
            ),
            ((s[8] + 256 * s[9] + 65536 * s[10] + 16777216 * s[11]) as u32) as int
        ),
{
    law_little_endian_32(s, 32);
    law_little_endian_32(s, 36);
    law_little_endian_32(s, 40);
    law_little_endian_32(s, 44);
    law_little_endian_32(s, 8);
}

/// Where the fields of [`AttributeEvent`] stand in its bytes.
pub proof fn law_attribute_event_layout(v: AttributeEvent, s: Seq<u8>)
    requires
        v.reads(s),
    ensures
        v.main_object_path@ == s.subrange(
            48,
            (48 + ((s[32] + 256 * s[33] + 65536 * s[34] + 16777216 * s[35]) as u32))
        ),
        v.member_path@ == s.subrange(
            (48 + ((s[32] + 256 * s[33] + 65536 * s[34] + 16777216 * s[35]) as u32)),
            (
                (
                    48 + ((s[32] + 256 * s[33] + 65536 * s[34] + 16777216 * s[35]) as u32)
                ) + ((s[36] + 256 * s[37] + 65536 * s[38] + 16777216 * s[39]) as u32)
            )
        ),
        v.attribute_definition_path@ == s.subrange(
            (
                (
                    48 + ((s[32] + 256 * s[33] + 65536 * s[34] + 16777216 * s[35]) as u32)
                ) + ((s[36] + 256 * s[37] + 65536 * s[38] + 16777216 * s[39]) as u32)
            ),
            (
                (
                    (
                        48 + ((s[32] + 256 * s[33] + 65536 * s[34] + 16777216 * s[35]) as u32)
                    ) + ((s[36] + 256 * s[37] + 65536 * s[38] + 16777216 * s[39]) as u32)
                ) + ((s[40] + 256 * s[41] + 65536 * s[42] + 16777216 * s[43]) as u32)
            )
        ),
        v.data@ == s.subrange(
            (
                (
                    (
                        48 + ((s[32] + 256 * s[33] + 65536 * s[34] + 16777216 * s[35]) as u32)
                    ) + ((s[36] + 256 * s[37] + 65536 * s[38] + 16777216 * s[39]) as u32)
                ) + ((s[40] + 256 * s[41] + 65536 * s[42] + 16777216 * s[43]) as u32)
            ),
            (
                (
                    (
                        (
                            48 + ((s[32] + 256 * s[33] + 65536 * s[34] + 16777216 * s[35]) as u32)
                        ) + ((s[36] + 256 * s[37] + 65536 * s[38] + 16777216 * s[39]) as u32)
                    ) + ((s[40] + 256 * s[41] + 65536 * s[42] + 16777216 * s[43]) as u32)
                ) + ((s[44] + 256 * s[45] + 65536 * s[46] + 16777216 * s[47]) as u32)
            )
        ),
        v.trailing@ == s.subrange(
            (
                (
                    (
                        (
                            48 + ((s[32] + 256 * s[33] + 65536 * s[34] + 16777216 * s[35]) as u32)
                        ) + ((s[36] + 256 * s[37] + 65536 * s[38] + 16777216 * s[39]) as u32)
                    ) + ((s[40] + 256 * s[41] + 65536 * s[42] + 16777216 * s[43]) as u32)
                ) + ((s[44] + 256 * s[45] + 65536 * s[46] + 16777216 * s[47]) as u32)
            ),
            ((s[8] + 256 * s[9] + 65536 * s[10] + 16777216 * s[11]) as u32) as int
        ),
{
    law_little_endian_32(s, 32);
    law_little_endian_32(s, 36);
    law_little_endian_32(s, 40);
    law_little_endian_32(s, 44);
    law_little_endian_32(s, 8);
}

/// Where the fields of [`FunctionBus`] stand in its bytes.
pub proof fn law_function_bus_layout(v: FunctionBus, s: Seq<u8>)
    requires
        v.reads(s),
    ensures
        v.function_bus_object_type == s[32] + 256 * s[33] + 65536 * s[34] + 16777216 * s[35],
        v.value_entity_type == s[36] + 256 * s[37] + 65536 * s[38] + 16777216 * s[39],
        v.name@ == s.subrange(48, (48 + ((s[40] + 256 * s[41] + 65536 * s[42] + 16777216 * s[43]) as u32))),
        v.data@ == s.subrange(
            (48 + ((s[40] + 256 * s[41] + 65536 * s[42] + 16777216 * s[43]) as u32)),
            (
                (
                    48 + ((s[40] + 256 * s[41] + 65536 * s[42] + 16777216 * s[43]) as u32)
                ) + ((s[44] + 256 * s[45] + 65536 * s[46] + 16777216 * s[47]) as u32)
            )
        ),
        v.trailing@ == s.subrange(
            (
                (
                    48 + ((s[40] + 256 * s[41] + 65536 * s[42] + 16777216 * s[43]) as u32)
                ) + ((s[44] + 256 * s[45] + 65536 * s[46] + 16777216 * s[47]) as u32)
            ),
            ((s[8] + 256 * s[9] + 65536 * s[10] + 16777216 * s[11]) as u32) as int
        ),
{
    law_little_endian_32(s, 32);
    law_little_endian_32(s, 36);
    law_little_endian_32(s, 40);
    law_little_endian_32(s, 44);
    law_little_endian_32(s, 8);
}

/// Where the fields of [`DiagRequestInterpretation`] stand in its bytes.
pub proof fn law_diag_request_interpretation_layout(v: DiagRequestInterpretation, s: Seq<u8>)
    requires
        v.reads(s),
    ensures
        v.description_handle == s[32] + 256 * s[33] + 65536 * s[34] + 16777216 * s[35],
        v.variant_handle == s[36] + 256 * s[37] + 65536 * s[38] + 16777216 * s[39],
        v.service_handle == s[40] + 256 * s[41] + 65536 * s[42] + 16777216 * s[43],
        v.ecu_qualifier@ == s.subrange(
            56,
            (56 + ((s[44] + 256 * s[45] + 65536 * s[46] + 16777216 * s[47]) as u32))
        ),
        v.variant_qualifier@ == s.subrange(
            (56 + ((s[44] + 256 * s[45] + 65536 * s[46] + 16777216 * s[47]) as u32)),
            (
                (
                    56 + ((s[44] + 256 * s[45] + 65536 * s[46] + 16777216 * s[47]) as u32)
                ) + ((s[48] + 256 * s[49] + 65536 * s[50] + 16777216 * s[51]) as u32)
            )
        ),
        v.service_qualifier@ == s.subrange(
            (
                (
                    56 + ((s[44] + 256 * s[45] + 65536 * s[46] + 16777216 * s[47]) as u32)
                ) + ((s[48] + 256 * s[49] + 65536 * s[50] + 16777216 * s[51]) as u32)
            ),
            (
                (
                    (
                        56 + ((s[44] + 256 * s[45] + 65536 * s[46] + 16777216 * s[47]) as u32)
                    ) + ((s[48] + 256 * s[49] + 65536 * s[50] + 16777216 * s[51]) as u32)
                ) + ((s[52] + 256 * s[53] + 65536 * s[54] + 16777216 * s[55]) as u32)
            )
        ),
        v.trailing@ == s.subrange(
            (
                (
                    (
                        56 + ((s[44] + 256 * s[45] + 65536 * s[46] + 16777216 * s[47]) as u32)
                    ) + ((s[48] + 256 * s[49] + 65536 * s[50] + 16777216 * s[51]) as u32)
                ) + ((s[52] + 256 * s[53] + 65536 * s[54] + 16777216 * s[55]) as u32)
            ),
            ((s[8] + 256 * s[9] + 65536 * s[10] + 16777216 * s[11]) as u32) as int
        ),
{
    law_little_endian_32(s, 32);
    law_little_endian_32(s, 36);
    law_little_endian_32(s, 40);
    law_little_endian_32(s, 44);
    law_little_endian_32(s, 48);
    law_little_endian_32(s, 52);
    law_little_endian_32(s, 8);
}

/// Where the fields of [`ObjBase`] stand in its bytes.
pub proof fn law_obj_base_layout(v: ObjBase, s: Seq<u8>)
    requires
        v.reads(s),
        s.len() >= 4,
    ensures
        v.signature@.len() == 4,
        forall|i: int| 0 <= i < 4 ==> #[trigger] v.signature@[i] == s[0 + i],
        v.header_size == s[4] + 256 * s[5],
        v.header_version == s[6] + 256 * s[7],
        v.object_size == s[8] + 256 * s[9] + 65536 * s[10] + 16777216 * s[11],
        v.object_type == s[12] + 256 * s[13] + 65536 * s[14] + 16777216 * s[15],
{
    law_little_endian_16(s, 4);
    law_little_endian_16(s, 6);
    law_little_endian_32(s, 8);
    law_little_endian_32(s, 12);
}

/// Where the fields of [`LObj`] stand in its bytes.
pub proof fn law_l_obj_layout(v: LObj, s: Seq<u8>)
    requires
        v.reads(s),
    ensures
        v.object_flags.0 == (
            if (v.base.header_version) == 0 { 0 } else {
                ((s[16] + 256 * s[17] + 65536 * s[18] + 16777216 * s[19]) as u32)
            }
        ),
        v.client_index == (if (v.base.header_version) == 1 { ((s[20] + 256 * s[21]) as u16) } else { 0 }),
        v.object_version == (if (v.base.header_version) == 0 { 0 } else { ((s[22] + 256 * s[23]) as u16) }),
        v.timestamp == (
            if (v.base.header_version) == 0 { 0 } else {
                (
                    (
                        s[24] + 256 * s[25] + 65536 * s[26] + 16777216 * s[27] + 4294967296 * s[28] + 1099511627776 * s[29] + 281474976710656 * s[30] + 72057594037927936 * s[31]
                    ) as u64
                )
            }
        ),
        v.timestamp_status == (if (v.base.header_version) == 2 { Some(s[20]) } else { None }),
        v.reserved_header == (if (v.base.header_version) == 2 { Some(s[21]) } else { None }),
        v.original_timestamp == (
            if (v.base.header_version) == 2 {
                Some(
                    (
                        (
                            s[32] + 256 * s[33] + 65536 * s[34] + 16777216 * s[35] + 4294967296 * s[36] + 1099511627776 * s[37] + 281474976710656 * s[38] + 72057594037927936 * s[39]
                        ) as u64
                    )
                )
            } else { None }
        ),
{
    law_little_endian_32(s, 16);
    law_little_endian_16(s, 20);
    law_little_endian_16(s, 22);
    law_little_endian_64(s, 24);
    law_little_endian_64(s, 32);
}

/// Where the fields of [`LinMessage`] stand in its bytes.
pub proof fn law_lin_message_layout(v: LinMessage, s: Seq<u8>)
    requires
        v.reads(s),
        s.len() >= 44,
    ensures
        v.channel == s[32] + 256 * s[33],
        v.id == s[34],
        v.dlc == s[35],
        v.data@.len() == 8,
        forall|i: int| 0 <= i < 8 ==> #[trigger] v.data@[i] == s[36 + i],
        v.fsm_id == s[44],
        v.fsm_state == s[45],
        v.header_time == s[46],
        v.full_time == s[47],
        v.crc == s[48] + 256 * s[49],
        v.dir == s[50],
        v.reserved1 == s[51],
        v.reserved2 == (
            if (((s[8] + 256 * s[9] + 65536 * s[10] + 16777216 * s[11]) as u32)) >= 56 {
                Some(((s[52] + 256 * s[53] + 65536 * s[54] + 16777216 * s[55]) as u32))
            } else { None }
        ),
        v.trailing@ == s.subrange(
            (
                if (
                    ((s[8] + 256 * s[9] + 65536 * s[10] + 16777216 * s[11]) as u32)
                ) >= 56 { 56 } else { 52 }
            ),
            (((s[8] + 256 * s[9] + 65536 * s[10] + 16777216 * s[11]) as u32)) as int
        ),
{
    law_little_endian_16(s, 32);
    law_little_endian_16(s, 48);
    law_little_endian_32(s, 8);
    law_little_endian_32(s, 52);
}

/// Where the fields of [`LinMessage2`] stand in its bytes.
pub proof fn law_lin_message2_layout(v: LinMessage2, s: Seq<u8>)
    requires
        v.reads(s),
        s.len() >= 152,
    ensures
        v.sof == s[32] + 256 * s[33] + 65536 * s[34] + 16777216 * s[35] + 4294967296 * s[36] + 1099511627776 * s[37] + 281474976710656 * s[38] + 72057594037927936 * s[39],
        v.event_baudrate == s[40] + 256 * s[41] + 65536 * s[42] + 16777216 * s[43],
        v.channel == s[44] + 256 * s[45],
        v.reserved_bus_event == s[46] + 256 * s[47],
        v.sync_break_length == s[48] + 256 * s[49] + 65536 * s[50] + 16777216 * s[51] + 4294967296 * s[52] + 1099511627776 * s[53] + 281474976710656 * s[54] + 72057594037927936 * s[55],
        v.sync_delimiter_length == s[56] + 256 * s[57] + 65536 * s[58] + 16777216 * s[59] + 4294967296 * s[60] + 1099511627776 * s[61] + 281474976710656 * s[62] + 72057594037927936 * s[63],
        v.supplier_id == s[64] + 256 * s[65],
        v.message_id == s[66] + 256 * s[67],
        v.nad == s[68],
        v.id == s[69],
        v.dlc == s[70],
        v.checksum_model == s[71],
        v.databyte_timestamps@ == seq![
            (
                (
                    s[72] + 256 * s[73] + 65536 * s[74] + 16777216 * s[75] + 4294967296 * s[76] + 1099511627776 * s[77] + 281474976710656 * s[78] + 72057594037927936 * s[79]
                ) as u64
            ),
            (
                (
                    s[80] + 256 * s[81] + 65536 * s[82] + 16777216 * s[83] + 4294967296 * s[84] + 1099511627776 * s[85] + 281474976710656 * s[86] + 72057594037927936 * s[87]
                ) as u64
            ),
            (
                (
                    s[88] + 256 * s[89] + 65536 * s[90] + 16777216 * s[91] + 4294967296 * s[92] + 1099511627776 * s[93] + 281474976710656 * s[94] + 72057594037927936 * s[95]
                ) as u64
            ),
            (
                (
                    s[96] + 256 * s[97] + 65536 * s[98] + 16777216 * s[99] + 4294967296 * s[100] + 1099511627776 * s[101] + 281474976710656 * s[102] + 72057594037927936 * s[103]
                ) as u64
            ),
            (
                (
                    s[104] + 256 * s[105] + 65536 * s[106] + 16777216 * s[107] + 4294967296 * s[108] + 1099511627776 * s[109] + 281474976710656 * s[110] + 72057594037927936 * s[111]
                ) as u64
            ),
            (
                (
                    s[112] + 256 * s[113] + 65536 * s[114] + 16777216 * s[115] + 4294967296 * s[116] + 1099511627776 * s[117] + 281474976710656 * s[118] + 72057594037927936 * s[119]
                ) as u64
            ),
            (
                (
                    s[120] + 256 * s[121] + 65536 * s[122] + 16777216 * s[123] + 4294967296 * s[124] + 1099511627776 * s[125] + 281474976710656 * s[126] + 72057594037927936 * s[127]
                ) as u64
            ),
            (
                (
                    s[128] + 256 * s[129] + 65536 * s[130] + 16777216 * s[131] + 4294967296 * s[132] + 1099511627776 * s[133] + 281474976710656 * s[134] + 72057594037927936 * s[135]
                ) as u64
            ),
            (
                (
                    s[136] + 256 * s[137] + 65536 * s[138] + 16777216 * s[139] + 4294967296 * s[140] + 1099511627776 * s[141] + 281474976710656 * s[142] + 72057594037927936 * s[143]
                ) as u64
            )
        ],
        v.data@.len() == 8,
        forall|i: int| 0 <= i < 8 ==> #[trigger] v.data@[i] == s[144 + i],
        v.crc == s[152] + 256 * s[153],
        v.dir == s[154],
        v.simulated == s[155],
        v.is_event_triggered == s[156],
        v.event_triggered_associated_index == s[157],
        v.event_triggered_associated_id == s[158],
        v.fsm_id == s[159],
        v.fsm_state == s[160],
        v.reserved1 == s[161],
        v.reserved2 == s[162] + 256 * s[163],
{
    law_little_endian_64(s, 32);
    law_little_endian_32(s, 40);
    law_little_endian_16(s, 44);
    law_little_endian_16(s, 46);
    law_little_endian_64(s, 48);
    law_little_endian_64(s, 56);
    law_little_endian_16(s, 64);
    law_little_endian_16(s, 66);
    law_little_endian_64(s, 72);
    law_little_endian_64(s, 80);
    law_little_endian_64(s, 88);
    law_little_endian_64(s, 96);
    law_little_endian_64(s, 104);
    law_little_endian_64(s, 112);
    law_little_endian_64(s, 120);
    law_little_endian_64(s, 128);
    law_little_endian_64(s, 136);
    law_little_endian_16(s, 152);
    law_little_endian_16(s, 162);
}

/// Where the fields of [`LogContainer`] stand in its bytes.
pub proof fn law_log_container_layout(v: LogContainer, s: Seq<u8>)
    requires
        v.reads(s),
    ensures
        v.compression_method == s[16] + 256 * s[17],
        v.reserved == s[18] + 256 * s[19],
        v.reserved2 == s[20] + 256 * s[21] + 65536 * s[22] + 16777216 * s[23],
        v.uncompressed_size == s[24] + 256 * s[25] + 65536 * s[26] + 16777216 * s[27],
        v.reserved3 == s[28] + 256 * s[29] + 65536 * s[30] + 16777216 * s[31],
{
    law_little_endian_16(s, 16);
    law_little_endian_16(s, 18);
    law_little_endian_32(s, 20);
    law_little_endian_32(s, 24);
    law_little_endian_32(s, 28);
}

} // verus!
