use autors::blf::app::{APP_TEXT_SIZE, AppText, AppTextManaged, RESTORE_POINT_CONTAINER_SIZE, RestorePointContainerManaged, SYS_VARIABLE_SIZE, SysVariable, SysVariableManaged};
use autors::blf::can::{CAN_DRIVER_ERROR_SIZE, CAN_ERROR_SIZE, CAN_FD_MESSAGE64_SIZE, CAN_FD_MESSAGE_SIZE, CAN_MESSAGE2_SIZE, CAN_MESSAGE_SIZE, CAN_STATISTIC_SIZE, CanDriverError, CanDriverErrorExt, CanDriverSync, CanError, CanFdMessage, CanFdMessage64, CanMessage, CanMessage2, CanOverload, CanStatistic, dlc_to_length, length_to_dlc};
use autors::blf::can_ext::{CAN_ERROR_EXT_SIZE, CAN_FD_ERROR64_SIZE, CanErrorExt, CanFdError64, CanFdExtFrameData, CanFdManaged, CanSettingChanged};
use autors::blf::error::{Error, Result};
use autors::blf::ethernet::{EthernetFrame, EthernetFrameEx, EthernetStatus};
use autors::blf::file_header::{HEADER_CORE_SIZE, HEADER_SIZE, Header};
use autors::blf::flags::{AppId, CanErrorExtFlags, CanErrorExtValidFlags, CanFd64Flags, CanFdFlags, CanFlags, EccFlags, ObjectFlags};
use autors::blf::float64::{Float64};
use autors::blf::general::{AppTrigger, AttributeEvent, EnvironmentVariable, GlobalMarker};
use autors::blf::header::{LOBJ_SIZE, LObj, OBJ_BASE_SIZE, ObjBase};
use autors::blf::lin::{LIN_MESSAGE2_V1_SIZE, LIN_MESSAGE2_V2_SIZE, LIN_MESSAGE2_V3_SIZE, LIN_MESSAGE_EXTENDED_SIZE, LinMessage, LinMessage2};
use autors::blf::log_container::{LOG_CONTAINER_SIZE, LogContainer};
use autors::blf::object::{BlfObject, ObjectRepresentation};
use autors::blf::object_type::{ObjectType, SysVarDataType};
use autors::blf::stream::{header_size};
use autors::blf::time::{Time, UnixTime};
use autors::span::{Span};

const NS: ObjectFlags = ObjectFlags(ObjectFlags::TIME_ONE_NANS);

fn roundtrip<T, W, P>(obj: &T, write: W, parse: P, size: usize) -> T
where
    W: Fn(&T, &mut Vec<u8>),
    P: Fn(&[u8], u64) -> Result<T>,
{
    let mut buf = Vec::new();
    write(obj, &mut buf);
    assert_eq!(buf.len(), size, "serialized size");
    parse(&buf, 0).expect("re-parse")
}

#[test]
fn obj_base_layout() {
    let ob = ObjBase::new(10, 16, 132);
    let mut buf = Vec::new();
    ob.write_to(&mut buf);
    assert_eq!(buf.len(), OBJ_BASE_SIZE);
    assert_eq!(&buf[0..4], b"LOBJ");
    assert_eq!(u16::from_le_bytes([buf[4], buf[5]]), 16);
    assert_eq!(u16::from_le_bytes([buf[6], buf[7]]), 0);
    assert_eq!(u32::from_le_bytes([buf[8], buf[9], buf[10], buf[11]]), 132);
    assert_eq!(u32::from_le_bytes([buf[12], buf[13], buf[14], buf[15]]), 10);
    let back = ObjBase::parse(&buf, 0).unwrap();
    assert_eq!(back, ob);
    assert_eq!(back.object_type(), Some(ObjectType::LogContainer));
}

#[test]
fn lobj_signature_checked() {
    let mut buf = vec![0u8; LOBJ_SIZE];
    buf[0..4].copy_from_slice(b"XXXX");
    assert!(LObj::parse(&buf, 0).is_err());
}

#[test]
fn lobj_padding_rules() {
    let h = LObj::new(ObjectType::LogContainer, NS, 0, 33);
    assert_eq!(h.padding(), 1);
    let h = LObj::new(ObjectType::AppText, NS, 0, 53);
    assert_eq!(h.padding(), 1);
    let h = LObj::new(ObjectType::SysVariable, NS, 0, 66);
    assert_eq!(h.padding(), 2);
    let h = LObj::new(ObjectType::CanMessage, NS, 0, 49);
    assert_eq!(h.padding(), 0);
    let mut h = LObj::new(ObjectType::CanMessage, NS, 0, 48);
    h.base.object_type = 117;
    assert_eq!(h.padding(), 0);
}

#[test]
fn can_message_layout_and_roundtrip() {
    let msg = CanMessage::new(NS, 123_456, 2, 0x1AB, &[1, 2, 3, 4, 5], true);
    assert_eq!(msg.dlc, 5);
    assert_eq!(msg.flags, CanFlags(CanFlags::TX));
    let mut buf = Vec::new();
    msg.write_to(&mut buf);
    assert_eq!(buf.len(), CAN_MESSAGE_SIZE);
    assert_eq!(&buf[0..4], b"LOBJ");
    assert_eq!(u16::from_le_bytes([buf[4], buf[5]]), 32, "header_size");
    assert_eq!(
        u32::from_le_bytes([buf[8], buf[9], buf[10], buf[11]]),
        48,
        "object_size"
    );
    assert_eq!(
        u32::from_le_bytes([buf[12], buf[13], buf[14], buf[15]]),
        1,
        "type"
    );
    assert_eq!(
        u32::from_le_bytes([buf[16], buf[17], buf[18], buf[19]]),
        2,
        "object_flags"
    );
    assert_eq!(u64::from_le_bytes(buf[24..32].try_into().unwrap()), 123_456);
    assert_eq!(u16::from_le_bytes([buf[32], buf[33]]), 2, "channel");
    assert_eq!(buf[34], 1, "flags TX");
    assert_eq!(buf[35], 5, "dlc");
    assert_eq!(u32::from_le_bytes(buf[36..40].try_into().unwrap()), 0x1AB);
    assert_eq!(&buf[40..45], &[1, 2, 3, 4, 5]);
    assert_eq!(&buf[45..48], &[0, 0, 0], "data padded to 8");
    let back = CanMessage::parse(&buf, 0).unwrap();
    assert_eq!(back, msg);
}

#[test]
fn can_message2_layout_and_roundtrip() {
    let msg = CanMessage2::new(NS, 7, 1, 0x55, &[0xAA; 8], false);
    assert_eq!(msg.flags, CanFlags(CanFlags::RX));
    assert_eq!(msg.frame_length, 8);
    assert_eq!(msg.bit_count, 64);
    let back = roundtrip(
        &msg,
        CanMessage2::write_to,
        CanMessage2::parse,
        CAN_MESSAGE2_SIZE,
    );
    assert_eq!(back, msg);
    let mut buf = Vec::new();
    msg.write_to(&mut buf);
    assert_eq!(u32::from_le_bytes(buf[48..52].try_into().unwrap()), 8);
    assert_eq!(buf[52], 64);
    assert_eq!(buf[53], 0);
    assert_eq!(u16::from_le_bytes([buf[54], buf[55]]), 0);
}

#[test]
fn can_error_roundtrip() {
    let mut e = CanError::new(NS, 42);
    e.channel = 3;
    e.length = 6;
    let back = roundtrip(&e, CanError::write_to, CanError::parse, CAN_ERROR_SIZE);
    assert_eq!(back, e);
    assert_eq!(back.header.base.object_type(), Some(ObjectType::CanError));
}

#[test]
fn can_error_ext_roundtrip() {
    let mut e = CanErrorExt::new(NS, 99);
    e.channel = 1;
    e.length = 8;
    e.valid_flags = CanErrorExtValidFlags(CanErrorExtValidFlags::ECC) | CanErrorExtValidFlags(CanErrorExtValidFlags::POSITION);
    e.ecc = EccFlags(EccFlags::BIT_ERROR) | EccFlags(EccFlags::RX_ERROR);
    e.position = 17;
    e.dlc = 8;
    e.frame_length_ns = 123_000;
    e.id = 0x7FF;
    e.flags = CanErrorExtFlags(CanErrorExtFlags::RX);
    let back = roundtrip(
        &e,
        CanErrorExt::write_to,
        CanErrorExt::parse,
        CAN_ERROR_EXT_SIZE,
    );
    assert_eq!(back, e);
    assert!(back.valid_flags.contains(CanErrorExtValidFlags(CanErrorExtValidFlags::ECC)));
    assert!(back.ecc.contains(EccFlags(EccFlags::RX_ERROR)));
}

#[test]
fn can_fd_message_layout_and_roundtrip() {
    let data = [0x11u8; 12];
    let msg = CanFdMessage::new(NS, 1_000, 4, 0x12345678, &data, true, true, true);
    assert_eq!(msg.dlc, 9, "12 bytes -> DLC 9");
    assert_eq!(msg.valid_data_bytes, 12);
    assert!(msg.fd_flags.contains(CanFdFlags(CanFdFlags::EDL)));
    assert!(msg.fd_flags.contains(CanFdFlags(CanFdFlags::BRS)));
    let back = roundtrip(
        &msg,
        CanFdMessage::write_to,
        CanFdMessage::parse,
        CAN_FD_MESSAGE_SIZE,
    );
    assert_eq!(back, msg);
    let mut buf = Vec::new();
    msg.write_to(&mut buf);
    assert_eq!(&buf[52..64], &[0x11u8; 12]);
    assert_eq!(&buf[116..120], &[0, 0, 0, 0]);
}

#[test]
fn can_fd_managed_roundtrip_with_ext_data() {
    let mut m = CanFdManaged::new(NS, 2_000);
    m.channel = 1;
    m.dlc = 9;
    m.tx_count = 2;
    m.id = 0x321;
    m.frame_length = 55_000;
    m.fd_flags = CanFd64Flags(CanFd64Flags::EDL) | CanFd64Flags(CanFd64Flags::BRS);
    m.btr_cfg_arb = 500_000;
    m.btr_cfg_data = 2_000_000;
    m.bit_count = 100;
    m.dir = 1;
    m.crc = 0xBEEF;
    m.data = vec![9u8; 12];
    m.ext_data = vec![1, 0, 0, 0, 2, 0, 0, 0];
    m.btr_ext_arb = 1;
    m.btr_ext_data = 2;
    let mut buf = Vec::new();
    m.write_to(&mut buf);
    assert_eq!(buf.len(), CAN_FD_MESSAGE64_SIZE + 12 + 8);
    assert_eq!(buf[67], 84);
    let back = CanFdManaged::parse(&buf, 0).unwrap();
    assert_eq!(back.data, vec![9u8; 12]);
    assert_eq!(back.ext_data, vec![1, 0, 0, 0, 2, 0, 0, 0]);
    assert!(back.has_ext_data);
    assert_eq!(back.btr_ext_arb, 1);
    assert_eq!(back.btr_ext_data, 2);
    assert_eq!(back.fd_flags, CanFd64Flags(CanFd64Flags::EDL) | CanFd64Flags(CanFd64Flags::BRS));
    assert_eq!(back.id, 0x321);
    assert!(back.header.base.object_size == 92);
}

#[test]
fn can_fd_managed_preserves_reserved_tail_without_ext_offset() {
    let mut message = CanFdManaged::new(NS, 3_000);
    message.data = vec![1, 2];
    message.ext_data = vec![0; 8];
    message.header.base.object_size = (CAN_FD_MESSAGE64_SIZE + 10) as u32;
    let mut bytes = Vec::new();
    message.write_to(&mut bytes);
    assert_eq!(bytes[67], 0);
    let parsed = CanFdManaged::parse(&bytes, 0).unwrap();
    assert!(!parsed.has_ext_data);
    assert_eq!(parsed.ext_data, vec![0; 8]);
}

#[test]
fn can_fd_managed_fd_flags_cs_quirk() {
    let mut m = CanFdManaged::new(NS, 0);
    m.fd_flags = CanFd64Flags(CanFd64Flags::EDL);
    assert_eq!(m.fd_flags_cs(), CanFd64Flags(0));
    m.fd_flags = CanFd64Flags(0x0010_0000);
    assert_eq!(m.fd_flags_cs(), CanFd64Flags(CanFd64Flags::EDL));
}

#[test]
fn can_statistic_roundtrip() {
    let mut s = CanStatistic::new(NS, 5);
    s.channel = 1;
    s.bus_load = 37;
    s.data_frames = 100;
    s.ex_data_frames = 200;
    s.remote_frames = 3;
    s.ex_remote_frames = 4;
    s.error_frames = 5;
    s.overload_frames = 6;
    let back = roundtrip(
        &s,
        CanStatistic::write_to,
        CanStatistic::parse,
        CAN_STATISTIC_SIZE,
    );
    assert_eq!(back, s);
}

#[test]
fn can_driver_error_roundtrip() {
    let mut d = CanDriverError::new(NS, 8);
    d.channel = 2;
    d.tx_errors = 10;
    d.rx_errors = 20;
    d.error_code = 0xDEAD;
    let back = roundtrip(
        &d,
        CanDriverError::write_to,
        CanDriverError::parse,
        CAN_DRIVER_ERROR_SIZE,
    );
    assert_eq!(back, d);
}

#[test]
fn app_text_roundtrip_and_trim() {
    let t = AppTextManaged::new(NS, 11, 7, "hello BLF");
    let mut buf = Vec::new();
    t.write_to(&mut buf);
    assert_eq!(buf.len(), APP_TEXT_SIZE + 9);
    assert_eq!(u32::from_le_bytes(buf[40..44].try_into().unwrap()), 9);
    let back = AppTextManaged::parse(&buf, 0).unwrap();
    assert_eq!(back, t);

    let mut t2 = AppTextManaged::new(NS, 11, 0, "abc\0\0");
    t2.header.base.object_size = (APP_TEXT_SIZE + 5) as u32;
    let mut buf2 = Vec::new();
    let fixed = AppText {
        header: t2.header.clone(),
        source: 0,
        reserved: 0,
        length: 5,
        reserved2: 0,
    };
    fixed.write_to(&mut buf2);
    buf2.extend_from_slice(b"abc\0\0");
    let back2 = AppTextManaged::parse(&buf2, 0).unwrap();
    assert_eq!(back2.text, "abc");
}

#[test]
fn sys_variable_roundtrip() {
    let v = SysVariableManaged::new(NS, 3, SysVarDataType::Double, 1, "var1", vec![0xAB; 8]);
    let mut buf = Vec::new();
    v.write_to(&mut buf);
    assert_eq!(buf.len(), SYS_VARIABLE_SIZE + 4 + 8);
    // data_type @32,representation @36,name_length @48,data_length @52
    assert_eq!(u32::from_le_bytes(buf[32..36].try_into().unwrap()), 1);
    assert_eq!(u32::from_le_bytes(buf[48..52].try_into().unwrap()), 4);
    assert_eq!(u32::from_le_bytes(buf[52..56].try_into().unwrap()), 8);
    let back = SysVariableManaged::parse(&buf, 0).unwrap();
    assert_eq!(back, v);
    assert_eq!(
        back.header.base.object_type(),
        Some(ObjectType::SysVariable)
    );
}

#[test]
fn sys_variable_unknown_data_type_rejected() {
    let mut buf = Vec::new();
    let v = SysVariableManaged::new(NS, 3, SysVarDataType::Double, 1, "v", vec![]);
    v.write_to(&mut buf);
    buf[32] = 99;
    assert!(SysVariableManaged::parse(&buf, 0).is_err());
}

#[test]
fn restore_point_container_roundtrip() {
    let r = RestorePointContainerManaged::new(NS, 1, vec![7u8; 6]);
    let back = roundtrip(
        &r,
        RestorePointContainerManaged::write_to,
        RestorePointContainerManaged::parse,
        RESTORE_POINT_CONTAINER_SIZE + 6,
    );
    assert_eq!(back, r);
}

#[test]
fn log_container_layout() {
    let lc = LogContainer::new(100, 200);
    assert_eq!(lc.compression_method, 2);
    assert_eq!(lc.uncompressed_size, 200);
    assert_eq!(lc.base.header_size, 16);
    assert_eq!(lc.base.object_size, 132);
    let back = roundtrip(
        &lc,
        LogContainer::write_to,
        LogContainer::parse,
        LOG_CONTAINER_SIZE,
    );
    assert_eq!(back, lc);
    let lc2 = LogContainer::new(50, 0);
    assert_eq!(lc2.compression_method, 0);
}

#[test]
fn header_layout_and_roundtrip() {
    let mut h = Header::new(true, AppId(AppId::CANOE), 8, 5, 3);
    h.file_size = 1234;
    h.uncompressed_file_size = 5678;
    h.object_count = 42;
    h.start = Time {
        year: 2024,
        month: 3,
        day_of_week: 2,
        day: 5,
        hour: 12,
        minute: 30,
        second: 45,
        milliseconds: 123,
    };
    h.end = Time {
        second: 46,
        ..h.start
    };
    let mut buf = Vec::new();
    h.write_to(&mut buf);
    assert_eq!(buf.len(), HEADER_SIZE);
    assert_eq!(&buf[0..4], b"LOGG");
    assert_eq!(u32::from_le_bytes(buf[4..8].try_into().unwrap()), 144);
    assert_eq!(buf[12], 2, "app_id CANoe");
    assert_eq!(buf[13], 1, "compression");
    assert_eq!(buf[14], 8);
    assert_eq!(buf[15], 5);
    assert_eq!(u64::from_le_bytes(buf[16..24].try_into().unwrap()), 1234);
    assert_eq!(u64::from_le_bytes(buf[24..32].try_into().unwrap()), 5678);
    assert_eq!(u32::from_le_bytes(buf[32..36].try_into().unwrap()), 42);
    assert_eq!(buf[36], 3, "app_build");
    assert_eq!(u16::from_le_bytes([buf[40], buf[41]]), 2024, "start.year");
    assert_eq!(u16::from_le_bytes([buf[58], buf[59]]), 3, "end.month");
    let back = Header::parse(&buf, 0).unwrap();
    assert_eq!(back, h);
    // duration = 1s
    assert_eq!(h.duration(), Some(Span { secs: 1, nanos: 0 }));
}

#[test]
fn header_rejects_bad_signature_and_size() {
    let mut buf = vec![0u8; HEADER_SIZE];
    buf[0..4].copy_from_slice(b"XXXX");
    buf[4..8].copy_from_slice(&144u32.to_le_bytes());
    assert!(Header::parse(&buf, 0).is_err());
    buf[0..4].copy_from_slice(b"LOGG");
    buf[4..8].copy_from_slice(&(HEADER_CORE_SIZE as u32 - 1).to_le_bytes());
    assert!(Header::parse(&buf, 0).is_err());
    buf[4..8].copy_from_slice(&(HEADER_SIZE as u32).to_le_bytes());
    assert!(Header::parse(&buf[..100], 0).is_err());
}

#[test]
fn header_variable_size_roundtrip() {
    let mut original = Header::new(false, AppId(AppId::CANOE), 1, 2, 0x1234_5678);
    original.header_size = 100;
    original.reserved3.truncate(20);
    let mut bytes = Vec::new();
    original.write_to(&mut bytes);
    assert_eq!(bytes.len(), 100);
    assert_eq!(Header::parse(&bytes, 0).unwrap(), original);

    original.header_size = HEADER_CORE_SIZE as u32;
    original.restore_point_offset = None;
    original.reserved3.clear();
    bytes.clear();
    original.write_to(&mut bytes);
    assert_eq!(bytes.len(), HEADER_CORE_SIZE);
    assert_eq!(Header::parse(&bytes, 0).unwrap(), original);
}

#[test]
fn time_system_time_conversion() {
    let t0 = Time::from_system_time(UnixTime { secs: 0, nanos: 0 }).unwrap();
    assert_eq!(
        t0,
        Time {
            year: 1970,
            month: 1,
            day_of_week: 4,
            day: 1,
            hour: 0,
            minute: 0,
            second: 0,
            milliseconds: 0
        }
    );
    let t = Time {
        year: 2024,
        month: 3,
        day_of_week: 2,
        day: 5,
        hour: 12,
        minute: 30,
        second: 45,
        milliseconds: 123,
    };
    let st = t.to_system_time().unwrap();
    let back = Time::from_system_time(st).unwrap();
    assert_eq!(back, t);
    assert!(Time { month: 13, ..t }.to_system_time().is_none());
    assert!(Time {
        month: 2,
        day: 30,
        ..t
    }
    .to_system_time()
    .is_none());
}

#[test]
fn enum_raw_conversions() {
    assert_eq!(ObjectType::registered().len(), 132);
    assert!(ObjectType::Reserved117.is_reserved());
    assert!(!ObjectType::CanMessage.is_reserved());
    assert_eq!(ObjectType::from_raw(1), Some(ObjectType::CanMessage));
    assert_eq!(ObjectType::from_raw(101), Some(ObjectType::CanFdMessage64));
    assert_eq!(
        ObjectType::from_raw(115),
        Some(ObjectType::RestorepointContainer)
    );
    assert_eq!(ObjectType::from_raw(131), Some(ObjectType::AttributeEvent));
    assert_eq!(ObjectType::from_raw(0), Some(ObjectType::Unknown));
    assert_eq!(ObjectType::from_raw(26), Some(ObjectType::Reserved26));
    assert_eq!(ObjectType::from_raw(108), Some(ObjectType::Reserved108));
    assert_eq!(ObjectType::from_raw(117), Some(ObjectType::Reserved117));
    assert_eq!(ObjectType::from_raw(200), None);
    assert_eq!(ObjectType::CanFdMessage.to_raw(), 100);
    assert_eq!(SysVarDataType::from_raw(7), Some(SysVarDataType::ByteArray));
    assert_eq!(SysVarDataType::from_raw(0), None);
    assert_eq!(CanFd64Flags(CanFd64Flags::EDL).bits(), 0x1000);
    assert_eq!(EccFlags(EccFlags::TX_ERROR).bits(), 192);
    assert_eq!(CanErrorExtFlags(CanErrorExtFlags::TX_ERROR).bits(), 6144);
    assert!(ObjectFlags(ObjectFlags::TIME_ONE_NANS).contains(ObjectFlags(ObjectFlags::TIME_ONE_NANS)));
    assert_eq!(AppId(AppId::PIKETEC), AppId(205));
}

#[test]
fn dlc_tables() {
    assert_eq!(length_to_dlc(0), 0);
    assert_eq!(length_to_dlc(8), 8);
    assert_eq!(length_to_dlc(12), 9);
    assert_eq!(length_to_dlc(16), 10);
    assert_eq!(length_to_dlc(20), 11);
    assert_eq!(length_to_dlc(24), 12);
    assert_eq!(length_to_dlc(32), 13);
    assert_eq!(length_to_dlc(48), 14);
    assert_eq!(length_to_dlc(64), 15);
    assert_eq!(dlc_to_length(8), 8);
    assert_eq!(dlc_to_length(9), 12);
    assert_eq!(dlc_to_length(15), 64);
}

#[test]
fn lin_message_layout_and_roundtrip() {
    let mut message = LinMessage::new(NS, 123, 2, 0x22, &[1, 2, 3], 0xF9, true);
    message.fsm_id = 4;
    message.header_time = 5;
    let back = roundtrip(
        &message,
        LinMessage::write_to,
        LinMessage::parse,
        LIN_MESSAGE_EXTENDED_SIZE,
    );
    assert_eq!(back, message);
    assert_eq!(back.header.base.object_type(), Some(ObjectType::LinMessage));
}

#[test]
fn lin_message2_layout_versions_and_roundtrip() {
    let mut message = LinMessage2::new(NS, 456, 3, 0x2A, &[0x11; 8], 0x77, 1, false);
    message.sof = 100;
    message.event_baudrate = 19_200;
    message.databyte_timestamps = [1, 2, 3, 4, 5, 6, 7, 8, 9];
    let back = roundtrip(
        &message,
        LinMessage2::write_to,
        LinMessage2::parse,
        LIN_MESSAGE2_V1_SIZE,
    );
    assert_eq!(back, message);

    message.api_major = 2;
    message.response_baudrate = 19_150;
    message.header.base.object_size = LIN_MESSAGE2_V2_SIZE as u32;
    let back = roundtrip(
        &message,
        LinMessage2::write_to,
        LinMessage2::parse,
        LIN_MESSAGE2_V2_SIZE,
    );
    assert_eq!(back, message);

    message.api_major = 3;
    message.exact_header_baudrate = Float64::from_bits(19_199.5f64.to_bits());
    message.early_stop_bit_offset = 10;
    message.early_stop_bit_offset_response = 20;
    message.header.base.object_size = LIN_MESSAGE2_V3_SIZE as u32;
    let back = roundtrip(
        &message,
        LinMessage2::write_to,
        LinMessage2::parse,
        LIN_MESSAGE2_V3_SIZE,
    );
    assert_eq!(back, message);
    assert_eq!(f64::from_bits(back.exact_header_baudrate.bits()), 19_199.5);
}

#[test]
fn blf_object_dispatch_and_unknown() {
    let msg = CanMessage::new(NS, 1, 1, 0x100, &[1, 2], true);
    let mut buf = Vec::new();
    msg.write_to(&mut buf);
    let obj = BlfObject::parse(&buf, 0).unwrap();
    assert!(matches!(obj, BlfObject::CanMessage(_)));
    assert_eq!(obj.object_type(), 1);
    assert_eq!(obj.timestamp(), 1);

    let header = LObj::new(ObjectType::CanMessage, NS, 9, 40);
    let mut header = header;
    header.base.object_type = 117;
    let unknown = BlfObject::Raw {
        header,
        data: vec![0xEE; 8],
    };
    let mut buf2 = Vec::new();
    unknown.write_to(&mut buf2).unwrap();
    assert_eq!(buf2.len(), 40);
    let obj2 = BlfObject::parse(&buf2, 0).unwrap();
    assert_eq!(obj2, unknown);

    let bad = BlfObject::Raw {
        header: LObj::new(ObjectType::CanMessage, NS, 0, 99),
        data: vec![0; 4],
    };
    assert!(bad.write_to(&mut Vec::new()).is_err());
}

#[test]
fn blf_object_parse_size_errors() {
    let mut buf = vec![0u8; LOBJ_SIZE];
    buf[0..4].copy_from_slice(b"LOBJ");
    buf[8..12].copy_from_slice(&20u32.to_le_bytes()); // object_size < 32
    assert!(BlfObject::parse(&buf, 0).is_err());
    buf[8..12].copy_from_slice(&100u32.to_le_bytes());
    assert!(BlfObject::parse(&buf, 0).is_err());
}

#[test]
fn remaining_can_objects_dispatch_and_roundtrip() {
    let mut error = CanFdError64::new(NS, 11);
    error.channel = 2;
    error.dlc = 3;
    error.data = vec![1, 2, 3];
    error.valid_data_bytes = 3;
    error.ext_data_offset = (CAN_FD_ERROR64_SIZE + error.data.len()) as u8;
    error.ext_data = Some(CanFdExtFrameData {
        btr_ext_arb: 0x1122_3344,
        btr_ext_data: 0x5566_7788,
        reserved: vec![9, 8],
    });
    error.header.base.object_size = (CAN_FD_ERROR64_SIZE + 3 + 10) as u32;

    let mut setting = CanSettingChanged::new(NS, 12);
    setting.channel = 3;
    setting.changed_type = 1;
    setting.bit_timings.btr_ext_arb = 7;

    let objects = [
        BlfObject::CanOverload(CanOverload::new(NS, 8)),
        BlfObject::CanDriverSync(CanDriverSync::new(NS, 9)),
        BlfObject::CanDriverErrorExt(CanDriverErrorExt::new(NS, 10)),
        BlfObject::CanFdError64(error),
        BlfObject::CanSettingChanged(setting),
    ];
    for object in objects {
        let mut bytes = Vec::new();
        object.write_to(&mut bytes).unwrap();
        assert_eq!(BlfObject::parse(&bytes, 0).unwrap(), object);
    }
}

#[test]
fn opaque_object_supports_future_type_ids() {
    let mut object = BlfObject::opaque(10_000, NS, 42, vec![1, 2, 3]).unwrap();
    assert_eq!(object.object_type(), 10_000);
    assert_eq!(object.opaque_data(), Some([1, 2, 3].as_slice()));
    object.set_opaque_data(vec![4, 5]).unwrap();
    let mut bytes = Vec::new();
    object.write_to(&mut bytes).unwrap();
    assert_eq!(BlfObject::parse(&bytes, 0).unwrap(), object);
}

#[test]
fn matches_can_filter_semantics() {
    let obj = BlfObject::CanMessage(CanMessage::new(NS, 0, 2, 0x123, &[1; 8], true));
    assert!(obj.matches_can_filter(-1, u32::MAX));
    assert!(obj.matches_can_filter(2, 0x123));
    assert!(!obj.matches_can_filter(1, 0x123));
    assert!(!obj.matches_can_filter(2, 0x124));
    let empty = BlfObject::CanMessage(CanMessage::new(NS, 0, 2, 0x123, &[], true));
    assert!(!empty.matches_can_filter(-1, u32::MAX));
    let mut nerr = CanMessage::new(NS, 0, 2, 0x123, &[1; 8], true);
    nerr.flags = CanFlags(CanFlags::NERR);
    assert!(!BlfObject::CanMessage(nerr).matches_can_filter(-1, u32::MAX));
    let mut fd = CanFdManaged::new(NS, 0);
    fd.channel = 1;
    fd.id = 0x55;
    fd.data = vec![1, 2, 3];
    fd.valid_data_bytes = 3;
    assert!(BlfObject::CanFdMessage64(fd).matches_can_filter(1, 0x55));
    let txt = BlfObject::AppText(AppTextManaged::new(NS, 0, 0, "x"));
    assert!(!txt.matches_can_filter(-1, u32::MAX));
}



#[test]
fn environment_variable_roundtrip_preserves_extensions() {
    let mut value = EnvironmentVariable::new(
        ObjectType::EnvData,
        NS,
        10,
        b"temperature".to_vec(),
        vec![1, 2, 3],
    )
    .unwrap();
    value.trailing = vec![0xAA, 0xBB];
    value.header.base.object_size =
        (EnvironmentVariable::FIXED_SIZE + value.name.len() + value.data.len() + 2) as u32;
    let mut bytes = Vec::new();
    value.write_to(&mut bytes);
    assert_eq!(EnvironmentVariable::parse(&bytes, 0).unwrap(), value);
}

#[test]
fn app_trigger_has_reference_layout() {
    let mut trigger = AppTrigger::new(NS, 20);
    trigger.pre_trigger_time = 5;
    trigger.post_trigger_time = 7;
    trigger.channel = 2;
    let mut bytes = Vec::new();
    trigger.write_to(&mut bytes);
    assert_eq!(bytes.len(), AppTrigger::SIZE);
    assert_eq!(AppTrigger::parse(&bytes, 0).unwrap(), trigger);
}

#[test]
fn legacy_frame_roundtrip() {
    let payload = vec![0x45, 0, 0, 20];
    let frame = EthernetFrame {
        header: LObj::new(
            ObjectType::EthernetFrame,
            ObjectFlags(ObjectFlags::TIME_ONE_NANS),
            42,
            (EthernetFrame::FIXED_SIZE + payload.len()) as u32,
        ),
        source_address: [0, 1, 2, 3, 4, 5],
        channel: 1,
        destination_address: [6, 7, 8, 9, 10, 11],
        dir: 1,
        ether_type: 0x0800,
        tpid: 0x8100,
        tci: 3,
        reserved: 0,
        payload,
        trailing: Vec::new(),
    };
    let mut bytes = Vec::new();
    frame.write_to(&mut bytes);
    assert_eq!(EthernetFrame::parse(&bytes, 0).unwrap(), frame);
}

#[test]
fn extended_frame_roundtrip() {
    let data = vec![1, 2, 3];
    let frame = EthernetFrameEx {
        header: LObj::new(
            ObjectType::EthernetErrorForwarded,
            ObjectFlags(ObjectFlags::TIME_ONE_NANS),
            43,
            (EthernetFrameEx::FIXED_SIZE + data.len()) as u32,
        ),
        struct_length: 30,
        flags: 1,
        channel: 2,
        hardware_channel: 3,
        frame_duration: 100,
        frame_checksum: 0x1234,
        dir: 0,
        frame_handle: 9,
        status: 7,
        frame_data: data,
        trailing: Vec::new(),
    };
    let mut bytes = Vec::new();
    frame.write_to(&mut bytes);
    assert_eq!(EthernetFrameEx::parse(&bytes, 0).unwrap(), frame);
}

#[test]
fn object_header_versions_are_read_and_written_as_they_stand() {
    let mut v2 = LObj::new(ObjectType::MostSpy, NS, 7, 41);
    v2.base.header_version = 2;
    v2.base.header_size = 40;
    v2.timestamp_status = Some(3);
    v2.reserved_header = Some(4);
    v2.original_timestamp = Some(0x0102_0304_0506_0708);
    let object = BlfObject::Raw { header: v2.clone(), data: vec![0x5A] };
    let mut bytes = Vec::new();
    object.write_to(&mut bytes).unwrap();
    assert_eq!(bytes.len(), 41);
    assert_eq!(&bytes[32..40], &[8, 7, 6, 5, 4, 3, 2, 1]);
    assert_eq!(BlfObject::parse(&bytes, 0).unwrap(), object);
    bytes[6] = 3;
    assert_eq!(
        LObj::parse(&bytes, 100).unwrap_err(),
        Error::Parse {
            offset: 106,
            message: "unsupported object header version 3 with size 40".to_string(),
        }
    );
    bytes[4] = 200;
    assert_eq!(
        LObj::parse(&bytes, 0).unwrap_err(),
        Error::Parse {
            offset: 4,
            message: "object header size 200 is outside available 41 bytes".to_string(),
        }
    );
    bytes[0] = b'X';
    assert_eq!(
        LObj::parse(&bytes, 9).unwrap_err(),
        Error::Parse {
            offset: 9,
            message: "bad object signature \"XOBJ\", expected \"LOBJ\"".to_string(),
        }
    );
    bytes[1] = b'\n';
    bytes[2] = 0xFF;
    assert_eq!(
        LObj::parse(&bytes, 9).unwrap_err(),
        Error::Parse {
            offset: 9,
            message: "bad object signature \"X\\n\u{FFFD}J\", expected \"LOBJ\"".to_string(),
        }
    );
}

#[test]
fn short_objects_name_the_field_that_does_not_fit() {
    let mut bytes = Vec::new();
    CanMessage::new(NS, 1, 1, 0x100, &[1, 2], true).write_to(&mut bytes);
    assert_eq!(
        CanMessage::parse(&bytes[..38], 1000).unwrap_err(),
        Error::Parse {
            offset: 1036,
            message: "unexpected end of data: need 4 bytes, have 2".to_string(),
        }
    );
    assert_eq!(
        ObjBase::parse(&bytes[..7], 0).unwrap_err(),
        Error::Parse {
            offset: 6,
            message: "unexpected end of data: need 2 bytes, have 1".to_string(),
        }
    );
}

#[test]
fn variable_fields_are_checked_against_the_object() {
    let value =
        EnvironmentVariable::new(ObjectType::EnvString, NS, 0, b"n".to_vec(), vec![1, 2]).unwrap();
    let mut bytes = Vec::new();
    value.write_to(&mut bytes);
    bytes[32] = 9;
    assert_eq!(
        EnvironmentVariable::parse(&bytes, 0).unwrap_err(),
        Error::Parse {
            offset: 48,
            message: "variable fields declare 11 bytes but only 3 remain".to_string(),
        }
    );
    bytes[8] = 47;
    assert_eq!(
        EnvironmentVariable::parse(&bytes, 5).unwrap_err(),
        Error::Parse { offset: 5, message: "object size 47 is outside 48..=51".to_string() }
    );
    assert_eq!(
        EnvironmentVariable::new(ObjectType::CanError, NS, 0, Vec::new(), Vec::new()).unwrap_err(),
        Error::Parse {
            offset: 0,
            message: "environment variable requires an ENV_* object type".to_string(),
        }
    );
}

#[test]
fn a_global_marker_that_cannot_be_decoded_is_kept_raw() {
    let object = BlfObject::opaque(ObjectType::GlobalMarker.to_raw(), NS, 5, vec![1; 10]).unwrap();
    assert_eq!(object.representation(), ObjectRepresentation::RegisteredRaw);
    let mut bytes = Vec::new();
    object.write_to(&mut bytes).unwrap();
    assert_eq!(BlfObject::parse(&bytes, 0).unwrap(), object);
}

#[test]
fn text_fields_replace_what_is_not_utf8() {
    let mut header = LObj::new(ObjectType::AppText, NS, 0, 51);
    header.object_version = 0;
    let mut bytes = Vec::new();
    AppText { header, source: 1, reserved: 0, length: 3, reserved2: 0 }.write_to(&mut bytes);
    bytes.extend_from_slice(&[0, b'a', 0xFF]);
    assert_eq!(AppTextManaged::parse(&bytes, 0).unwrap().text, "a\u{FFFD}");
}

#[test]
fn calendar_times_cover_leap_years_and_reject_the_rest() {
    let leap = Time {
        year: 2000,
        month: 2,
        day_of_week: 2,
        day: 29,
        hour: 23,
        minute: 59,
        second: 59,
        milliseconds: 999,
    };
    assert_eq!(leap.to_system_time(), Some(UnixTime { secs: 951_868_799, nanos: 999_000_000 }));
    assert_eq!(
        Time::from_system_time(UnixTime { secs: 951_868_799, nanos: 999_999_999 }),
        Some(leap)
    );
    assert_eq!(Time { year: 1900, ..leap }.to_system_time(), None);
    assert_eq!(Time { year: 1969, day: 28, ..leap }.to_system_time(), None);
    assert_eq!(Time { hour: 24, ..leap }.to_system_time(), None);
    assert_eq!(Time { minute: 60, ..leap }.to_system_time(), None);
    assert_eq!(Time { second: 60, ..leap }.to_system_time(), None);
    assert_eq!(Time { milliseconds: 1000, ..leap }.to_system_time(), None);
    assert_eq!(Time { day: 0, ..leap }.to_system_time(), None);
    assert_eq!(Time::from_system_time(UnixTime { secs: -1, nanos: 0 }), None);
}

#[test]
fn typed_objects_refuse_a_new_payload() {
    let mut object = BlfObject::from(CanError::new(NS, 1));
    assert_eq!(
        object.set_opaque_data(vec![1]).unwrap_err(),
        Error::Write("object has a typed payload".to_string())
    );
    assert_eq!(object.opaque_data(), None);
    assert_eq!(object.representation(), ObjectRepresentation::Typed);
    let wrong = BlfObject::Raw { header: LObj::new(ObjectType::CanError, NS, 0, 99), data: vec![0; 4] };
    assert_eq!(
        wrong.write_to(&mut Vec::new()).unwrap_err(),
        Error::Write("unknown object: object_size 99 != header 32 + payload 4".to_string())
    );
    let mut short = CanError::new(NS, 1);
    short.header.base.object_size = 41;
    let mut out = vec![7];
    assert_eq!(
        BlfObject::CanError(short).write_to(&mut out).unwrap_err(),
        Error::Write("object writer produced 40 bytes but declared 41".to_string())
    );
    assert_eq!(out, vec![7]);
}

#[test]
fn ethernet_objects_check_their_sizes() {
    let header = LObj::new(ObjectType::EthernetStatus, NS, 1, 58);
    let status = EthernetStatus {
        header,
        channel: 1,
        flags: 2,
        link_status: 3,
        ethernet_phy: 4,
        duplex: 5,
        mdi: 6,
        connector: 7,
        clock_mode: 8,
        pairs: 9,
        hardware_channel: 10,
        bitrate: 100,
        reserved1: Some(11),
        reserved2: Some(12),
        trailing: vec![13, 14],
    };
    let mut bytes = Vec::new();
    status.write_to(&mut bytes);
    assert_eq!(bytes.len(), 58);
    assert_eq!(EthernetStatus::parse(&bytes, 0).unwrap(), status);
    assert_eq!(
        EthernetStatus::parse(&bytes[..50], 3).unwrap_err(),
        Error::Parse { offset: 3, message: "Ethernet object size 58 is out of bounds".to_string() }
    );
}

#[test]
fn channel_filters_match_all_channels_when_negative() {
    let object = BlfObject::LinMessage(LinMessage::new(NS, 1, 4, 0x3C, &[1], 0, false));
    assert!(object.matches_lin_filter(-1, u8::MAX));
    assert!(object.matches_lin_filter(4, 0x3C));
    assert!(!object.matches_lin_filter(5, 0x3C));
    assert!(!object.matches_lin_filter(4, 0x3D));
    assert!(!object.matches_can_filter(-1, u32::MAX));
}
