use autors::blf::app::{AppTextManaged, RestorePointContainerManaged, SysVariableManaged};
use autors::blf::can::{CanDriverError, CanError, CanFdMessage, CanMessage, CanMessage2, CanStatistic};
use autors::blf::can_ext::{CanErrorExt, CanFdManaged};
use autors::blf::container::{encode_container};
use autors::blf::error::{Error, Result};
use autors::blf::file::{BlfFile};
use autors::blf::file_header::{FILE_SIGNATURE, HEADER_CORE_SIZE, HEADER_SIZE, Header};
use autors::blf::flags::{AppId, CanErrorExtFlags, CanFd64Flags, CanFdFlags, CanFlags, EccFlags, ObjectFlags};
use autors::blf::frames::{LinSample};
use autors::blf::header::{LObj, ObjBase};
use autors::blf::lin::LinMessage;
use autors::blf::log_container::LOG_CONTAINER_SIZE;
use autors::blf::object::{BlfObject};
use autors::blf::object_type::{ObjectType, SysVarDataType};
use autors::blf::stream::{check_limits, BlfReader, BlfReaderOptions};
use autors::blf::time::{Time};
use autors::blf::writer::{BlfWriter};
use autors::blf::zlib::{adler32, zlib_deflate, zlib_inflate_limited};
use autors::bus::{CanFrame, FrameType, LinChecksumType, LinFrame};
use autors::span::{Span};
use std::time::Duration;

const NS: ObjectFlags = ObjectFlags(ObjectFlags::TIME_ONE_NANS);

fn sample_objects() -> Vec<BlfObject> {
    let mut fd64 = CanFdManaged::new(NS, 6_000);
    fd64.channel = 1;
    fd64.dlc = 9;
    fd64.id = 0x321;
    fd64.dir = 1;
    fd64.fd_flags = CanFd64Flags(CanFd64Flags::EDL) | CanFd64Flags(CanFd64Flags::BRS);
    fd64.data = vec![0x66; 12];
    fd64.valid_data_bytes = 12;
    fd64.header.base.object_size = 84;

    let mut stat = CanStatistic::new(NS, 7_000);
    stat.channel = 1;
    stat.bus_load = 25;
    stat.data_frames = 1000;

    let mut drv = CanDriverError::new(NS, 8_000);
    drv.channel = 2;
    drv.tx_errors = 1;

    let mut err_ext = CanErrorExt::new(NS, 4_000);
    err_ext.channel = 1;
    err_ext.ecc = EccFlags(EccFlags::STUFF_ERROR);
    err_ext.flags = CanErrorExtFlags(CanErrorExtFlags::RX);

    let mut err = CanError::new(NS, 3_000);
    err.channel = 1;
    err.length = 6;

    vec![
        BlfObject::CanMessage(CanMessage::new(NS, 1_000, 1, 0x100, &[1, 2, 3, 4], true)),
        BlfObject::CanMessage2(CanMessage2::new(
            NS,
            2_000,
            2,
            0x200,
            &[5, 6, 7, 8, 9],
            false,
        )),
        BlfObject::CanError(err),
        BlfObject::CanErrorExt(err_ext),
        BlfObject::CanFdMessage(CanFdMessage::new(
            NS,
            5_000,
            1,
            0x300,
            &[0xAA; 16],
            true,
            true,
            true,
        )),
        BlfObject::CanFdMessage64(fd64),
        BlfObject::CanStatistic(stat),
        BlfObject::CanDriverError(drv),
        BlfObject::AppText(AppTextManaged::new(NS, 9_000, 3, "measurement start")),
        BlfObject::SysVariable(SysVariableManaged::new(
            NS,
            10_000,
            SysVarDataType::Long,
            0,
            "counter",
            42i32.to_le_bytes().to_vec(),
        )),
        BlfObject::RestorePointContainer(RestorePointContainerManaged::new(
            NS,
            11_000,
            vec![1, 2, 3],
        )),
    ]
}

#[test]
fn roundtrip_compressed() {
    let mut blf = BlfFile::new(true, AppId(AppId::CANALYZER), 1, 2, 3);
    blf.objects = sample_objects();
    blf.header.start = Time {
        year: 2024,
        month: 1,
        day_of_week: 1,
        day: 15,
        hour: 10,
        minute: 0,
        second: 0,
        milliseconds: 0,
    };
    blf.header.end = Time {
        second: 11,
        ..blf.header.start
    };

    let bytes = blf.write().unwrap();
    assert_eq!(&bytes[0..4], b"LOGG");
    assert_eq!(
        u32::from_le_bytes(bytes[32..36].try_into().unwrap()),
        11,
        "object_count"
    );
    assert_eq!(
        u64::from_le_bytes(bytes[16..24].try_into().unwrap()) as usize,
        bytes.len(),
        "file_size"
    );
    assert!(
        u64::from_le_bytes(bytes[24..32].try_into().unwrap()) > 0,
        "uncompressed_file_size"
    );
    assert_eq!(&bytes[HEADER_SIZE..HEADER_SIZE + 4], b"LOBJ");
    assert_eq!(
        u32::from_le_bytes(
            bytes[HEADER_SIZE + 12..HEADER_SIZE + 16]
                .try_into()
                .unwrap()
        ),
        10
    );
    assert_eq!(bytes[HEADER_SIZE + 16], 2, "compression method");
    assert_eq!(&bytes[HEADER_SIZE + 32..HEADER_SIZE + 34], &[0x78, 0x01]);

    let back = BlfFile::parse(&bytes).unwrap();
    assert_eq!(back.header.app_id, AppId(AppId::CANALYZER));
    assert_eq!(back.header.compression, 1);
    assert_eq!(back.header.object_count, 11);
    assert_eq!(back.header.start, blf.header.start);
    assert_eq!(back.objects.len(), 11);
    match &back.objects[0] {
        BlfObject::CanMessage(m) => {
            assert_eq!(m.channel, 1);
            assert_eq!(m.id, 0x100);
            assert_eq!(m.dlc, 4);
            assert_eq!(m.flags, CanFlags(CanFlags::TX));
            assert_eq!(&m.data[..4], &[1, 2, 3, 4]);
            assert_eq!(m.header.timestamp, 1_000);
        }
        o => panic!("expected CanMessage, got {o:?}"),
    }
    match &back.objects[1] {
        BlfObject::CanMessage2(m) => {
            assert_eq!(m.frame_length, 5);
            assert_eq!(m.bit_count, 40);
            assert_eq!(m.flags, CanFlags(CanFlags::RX));
        }
        o => panic!("expected CanMessage2, got {o:?}"),
    }
    match &back.objects[3] {
        BlfObject::CanErrorExt(m) => {
            assert!(m.ecc.contains(EccFlags(EccFlags::STUFF_ERROR)));
            assert_eq!(m.flags, CanErrorExtFlags(CanErrorExtFlags::RX));
        }
        o => panic!("expected CanErrorExt, got {o:?}"),
    }
    match &back.objects[4] {
        BlfObject::CanFdMessage(m) => {
            assert_eq!(m.dlc, 10, "16 bytes -> DLC 10");
            assert!(m.fd_flags.contains(CanFdFlags(CanFdFlags::EDL)));
            assert!(m.fd_flags.contains(CanFdFlags(CanFdFlags::BRS)));
            assert_eq!(&m.data[..16], &[0xAA; 16]);
        }
        o => panic!("expected CanFdMessage, got {o:?}"),
    }
    match &back.objects[5] {
        BlfObject::CanFdMessage64(m) => {
            assert_eq!(m.data, vec![0x66; 12]);
            assert_eq!(m.id, 0x321);
            assert!(m.fd_flags.contains(CanFd64Flags(CanFd64Flags::EDL)));
        }
        o => panic!("expected CanFdMessage64, got {o:?}"),
    }
    match &back.objects[6] {
        BlfObject::CanStatistic(m) => {
            assert_eq!(m.bus_load, 25);
            assert_eq!(m.data_frames, 1000);
        }
        o => panic!("expected CanStatistic, got {o:?}"),
    }
    match &back.objects[7] {
        BlfObject::CanDriverError(m) => assert_eq!(m.tx_errors, 1),
        o => panic!("expected CanDriverError, got {o:?}"),
    }
    match &back.objects[8] {
        BlfObject::AppText(m) => {
            assert_eq!(m.text, "measurement start");
            assert_eq!(m.source, 3);
        }
        o => panic!("expected AppText, got {o:?}"),
    }
    match &back.objects[9] {
        BlfObject::SysVariable(m) => {
            assert_eq!(m.name, "counter");
            assert_eq!(m.data_type, SysVarDataType::Long);
            assert_eq!(m.data, 42i32.to_le_bytes().to_vec());
        }
        o => panic!("expected SysVariable, got {o:?}"),
    }
    match &back.objects[10] {
        BlfObject::RestorePointContainer(m) => assert_eq!(m.data, vec![1, 2, 3]),
        o => panic!("expected RestorePointContainer, got {o:?}"),
    }
    assert_eq!(back, blf_equivalent(&blf, &back));
}

fn blf_equivalent(expected: &BlfFile, actual: &BlfFile) -> BlfFile {
    let mut e = expected.clone();
    e.header.object_count = actual.header.object_count;
    e.header.file_size = actual.header.file_size;
    e.header.uncompressed_file_size = actual.header.uncompressed_file_size;
    e.header.restore_point_offset = actual.header.restore_point_offset;
    e.frame_time_base = actual.frame_time_base;
    e
}

#[test]
fn roundtrip_uncompressed() {
    let mut blf = BlfFile::new(false, AppId(AppId::UNKNOWN), 0, 0, 0);
    blf.objects = sample_objects();
    let bytes = blf.write().unwrap();
    assert_eq!(bytes[HEADER_SIZE + 16], 0, "compression method 0");
    assert!(u64::from_le_bytes(bytes[24..32].try_into().unwrap()) > HEADER_SIZE as u64);
    let back = BlfFile::parse(&bytes).unwrap();
    assert_eq!(back, blf_equivalent(&blf, &back));
}

#[test]
fn uncompressed_size_matches_buffered_bytes() {
    let mut blf = BlfFile::new(true, AppId(AppId::UNKNOWN), 0, 0, 0);
    blf.objects = vec![
        BlfObject::CanMessage(CanMessage::new(NS, 0, 1, 1, &[1], true)), // 48, pad 0
        BlfObject::AppText(AppTextManaged::new(NS, 0, 0, "abc")),        // 51, pad 51&3=3
    ];
    let bytes = blf.write().unwrap();
    let expected = (HEADER_SIZE + LOG_CONTAINER_SIZE + 48 + 51 + 3) as u64;
    assert_eq!(
        u64::from_le_bytes(bytes[24..32].try_into().unwrap()),
        expected
    );
}

#[test]
fn restore_point_offset_targets_a_dedicated_container() {
    let mut blf = BlfFile::new(true, AppId(AppId::UNKNOWN), 0, 0, 0);
    blf.objects = sample_objects();
    let bytes = blf.write().unwrap();
    let parsed = BlfFile::parse(&bytes).unwrap();
    let offset = parsed.header.restore_point_offset.unwrap() as usize;
    assert!(offset >= parsed.header.header_size as usize);
    let base = ObjBase::parse(&bytes[offset..], offset as u64).unwrap();
    assert_eq!(base.object_type(), Some(ObjectType::LogContainer));
}

#[test]
fn empty_write_produces_valid_header() {
    let blf = BlfFile::new(true, AppId(AppId::UNKNOWN), 0, 0, 0);
    let bytes = blf.write().unwrap();
    assert_eq!(bytes.len(), HEADER_SIZE);
    assert_eq!(&bytes[..4], b"LOGG");
    let parsed = BlfFile::parse(&bytes).unwrap();
    assert!(parsed.objects.is_empty());
}

#[test]
fn statistics_and_filter() {
    let mut blf = BlfFile::new(true, AppId(AppId::UNKNOWN), 0, 0, 0);
    blf.objects = sample_objects();
    let mut header = LObj::new(ObjectType::CanMessage, NS, 0, 36);
    header.base.object_type = 11; // LIN_MESSAGE
    blf.objects.push(BlfObject::Raw {
        header,
        data: vec![0; 4],
    });

    let stats = blf.statistics();
    let total: usize = stats.iter().map(|(_, c)| c).sum();
    assert_eq!(total, 12);
    assert!(stats.contains(&(1, 1))); // CAN_MESSAGE
    assert!(stats.contains(&(11, 1)));

    let can_frames = blf.iter_objects(Some(&BlfFile::can_data_frames()));
    assert_eq!(can_frames.len(), 4);
    let all = blf.iter_objects(None);
    assert_eq!(all.len(), 12);
    let fd_only = blf.iter_objects(Some(&[ObjectType::CanFdMessage64]));
    assert_eq!(fd_only.len(), 1);
}

#[test]
fn unknown_object_with_padding_preserved() {
    let mut header = LObj::new(ObjectType::CanMessage, NS, 12, 33);
    header.base.object_type = 90;
    let mut blf = BlfFile::new(true, AppId(AppId::UNKNOWN), 0, 0, 0);
    blf.objects = vec![
        BlfObject::CanMessage(CanMessage::new(NS, 1, 1, 0x10, &[1], true)),
        BlfObject::Raw {
            header,
            data: vec![0xAB],
        },
        BlfObject::CanMessage(CanMessage::new(NS, 2, 1, 0x20, &[2], true)),
    ];
    let bytes = blf.write().unwrap();
    let back = BlfFile::parse(&bytes).unwrap();
    assert_eq!(back.objects.len(), 3);
    match &back.objects[1] {
        BlfObject::Raw { header, data } => {
            assert_eq!(header.base.object_type, 90);
            assert_eq!(header.timestamp, 12);
            assert_eq!(data, &vec![0xAB]);
        }
        o => panic!("expected Raw, got {o:?}"),
    }
    match &back.objects[2] {
        BlfObject::CanMessage(m) => assert_eq!(m.id, 0x20),
        o => panic!("expected CanMessage, got {o:?}"),
    }
}

#[test]
fn parse_rejects_bad_files() {
    assert!(BlfFile::parse(&[]).is_err());
    assert!(BlfFile::parse(&[0u8; 100]).is_err());
    let mut blf = BlfFile::new(false, AppId(AppId::UNKNOWN), 0, 0, 0);
    blf.objects = sample_objects();
    let mut bytes = blf.write().unwrap();
    bytes[HEADER_SIZE] = b'X';
    assert!(BlfFile::parse(&bytes).is_err());
}

#[test]
fn container_rollover_at_4mib() {
    let mut blf = BlfFile::new(false, AppId(AppId::UNKNOWN), 0, 0, 0);
    let msg = CanMessage::new(NS, 1, 1, 0x100, &[1, 2, 3, 4], true);
    blf.objects = (0..90_000)
        .map(|_| BlfObject::CanMessage(msg.clone()))
        .collect();
    let bytes = blf.write().unwrap();
    let mut pos = HEADER_SIZE;
    let mut containers = 0;
    while pos < bytes.len() {
        let size = u32::from_le_bytes(bytes[pos + 8..pos + 12].try_into().unwrap()) as usize;
        let otype = u32::from_le_bytes(bytes[pos + 12..pos + 16].try_into().unwrap());
        assert_eq!(otype, 10, "top-level object must be LOG_CONTAINER");
        containers += 1;
        pos += size + (size & 3);
    }
    assert_eq!(containers, 2);
    let back = BlfFile::parse(&bytes).unwrap();
    assert_eq!(back.objects.len(), 90_000);
    assert_eq!(back.header.object_count, 90_000);
}

#[test]
fn zlib_helpers() {
    assert_eq!(adler32(b"Wikipedia"), 0x11E6_0398);
    let data: Vec<u8> = (0..100_000u32).map(|i| (i % 251) as u8).collect();
    let packed = zlib_deflate(&data).unwrap();
    assert_eq!(&packed[..2], &[0x78, 0x01]);
    assert!(packed.len() < data.len(), "compressible data should shrink");
    assert_eq!(zlib_inflate_limited(&packed, data.len()).unwrap(), data);
    let n = packed.len();
    assert_eq!(
        u32::from_be_bytes(packed[n - 4..n].try_into().unwrap()),
        adler32(&data)
    );
    assert!(zlib_inflate_limited(&[0x78], 1024).is_err());
}

fn frame(
    id: u32,
    data: &[u8],
    is_master: bool,
    frame_type: FrameType,
    elapsed_ms: u64,
) -> CanFrame {
    let mut f = CanFrame::new("TESTBUS".to_string(), id, data.to_vec(), is_master, frame_type);
    f.elapsed = millis(elapsed_ms);
    f
}

fn assert_frame_eq(back: &CanFrame, expected: &CanFrame, channel: u16) {
    assert_eq!(
        back.bus_id,
        channel.to_string(),
        "bus_id = Channel.ToString()"
    );
    assert_eq!(back.id, expected.id, "ID including the extended-frame flag");
    assert_eq!(back.is_extended_id(), expected.is_extended_id());
    assert_eq!(back.raw_id(), expected.raw_id());
    assert_eq!(back.data, expected.data, "data");
    assert_eq!(back.is_master_frame, expected.is_master_frame);
    assert_eq!(back.frame_type, expected.frame_type, "frame_type");
}

#[test]
fn can_frame_write_read_roundtrip() {
    let mut blf = BlfFile::new(true, AppId(AppId::CANOE), 1, 0, 0);
    let frames = [
        frame(0x100, &[1, 2, 3, 4], true, FrameType(FrameType::CAN20B), 1_000),
        frame(
            0x8000_0123,
            &[5, 6, 7, 8, 9, 10, 11, 12],
            false,
            FrameType(FrameType::CAN20B),
            1_500,
        ),
        frame(0x321, &[0xAA; 12], true, FrameType(FrameType::FD), 2_000),
        frame(0x8000_0322, &[0x55; 16], false, FrameType(FrameType::FD_BRS), 2_500),
    ];
    for f in &frames {
        add_can(&mut blf, f, 1, NS).unwrap();
    }
    assert_eq!(blf.objects.len(), 4);
    assert!(matches!(blf.objects[0], BlfObject::CanMessage(_)));
    assert!(matches!(blf.objects[1], BlfObject::CanMessage(_)));
    assert!(matches!(blf.objects[2], BlfObject::CanFdMessage(_)));
    assert!(matches!(blf.objects[3], BlfObject::CanFdMessage(_)));
    assert_eq!(blf.objects[0].header().timestamp, 0);
    assert_eq!(blf.objects[1].header().timestamp, 500_000_000);
    assert_eq!(blf.objects[2].header().timestamp, 1_000_000_000);
    match &blf.objects[2] {
        BlfObject::CanFdMessage(m) => {
            assert_eq!(m.dlc, 9, "12 bytes -> DLC 9");
            assert_eq!(m.fd_flags, CanFdFlags(CanFdFlags::EDL));
            assert_eq!(m.valid_data_bytes, 12);
        }
        o => panic!("expected CanFdMessage, got {o:?}"),
    }
    match &blf.objects[3] {
        BlfObject::CanFdMessage(m) => {
            assert_eq!(m.dlc, 10, "16 bytes -> DLC 10");
            assert!(m.fd_flags.contains(CanFdFlags(CanFdFlags::EDL) | CanFdFlags(CanFdFlags::BRS)));
        }
        o => panic!("expected CanFdMessage, got {o:?}"),
    }

    let bytes = blf.write().unwrap();
    let back = BlfFile::parse(&bytes).unwrap();
    let read = back.enum_can_frames(-1, u32::MAX);
    assert_eq!(read.len(), 4);
    for (b, e) in read.iter().zip(frames.iter()) {
        assert_frame_eq(b, e, 1);
    }
}

#[test]
fn lin_frame_write_read_roundtrip_and_filtering() {
    let mut first = LinFrame::new("LIN".to_string(), 0x12, vec![1, 2, 3], true);
    first.elapsed = millis(100);
    let mut second = LinFrame::new("LIN".to_string(), 0x22, vec![4, 5], false);
    second.elapsed = millis(125);

    let mut blf = BlfFile::new(true, AppId(AppId::CANOE), 1, 0, 0);
    add_lin(&mut blf, &first, 1, LinChecksumType::CalcChecksumEnhanced, NS)
        .unwrap();
    add_lin(&mut blf, &second, 2, LinChecksumType::CalcChecksum, NS)
        .unwrap();
    assert!(matches!(blf.objects[0], BlfObject::LinMessage2(_)));
    assert_eq!(blf.objects[1].timestamp(), 25_000_000);

    let bytes = blf.write().unwrap();
    let back = BlfFile::parse(&bytes).unwrap();
    assert_eq!(back.enum_lin_frames(-1, u8::MAX).len(), 2);
    assert_eq!(back.enum_lin_frames(1, u8::MAX).len(), 1);
    assert_eq!(back.enum_lin_frames(-1, 0x22).len(), 1);
    let frames = back.enum_lin_frames(-1, u8::MAX);
    assert_eq!(frames[0].frame.bus_id, "1");
    assert_eq!(frames[0].frame.id, first.id);
    assert_eq!(frames[0].frame.data, first.data);
    assert!(frames[0].frame.is_master_frame);
    assert_eq!(elapsed_of(&frames[0]), Duration::ZERO);
    assert_eq!(elapsed_of(&frames[1]), Duration::from_millis(25));
    assert!(!frames[1].frame.is_master_frame);
}

#[test]
fn enum_lin_frames_decodes_legacy_message() {
    let mut blf = BlfFile::new(false, AppId(AppId::CANOE), 1, 0, 0);
    blf.objects.push(BlfObject::LinMessage(LinMessage::new(
        NS,
        1_000_000,
        4,
        0x3C,
        &[0xAA, 0x55],
        0,
        false,
    )));
    let frames = blf.enum_lin_frames(4, 0x3C);
    assert_eq!(frames.len(), 1);
    assert_eq!(frames[0].frame.data, [0xAA, 0x55]);
    assert_eq!(elapsed_of(&frames[0]), Duration::from_millis(1));
}

#[test]
fn add_lin_frame_rejects_invalid_id_and_length() {
    let mut blf = BlfFile::new(false, AppId(AppId::UNKNOWN), 0, 0, 0);
    let invalid_id = LinFrame::new("LIN".to_string(), 0x40, vec![1], false);
    assert!(add_lin(&mut blf, &invalid_id, 1, LinChecksumType::CalcChecksum, NS)
        .is_err());
    let invalid_length = LinFrame::new("LIN".to_string(), 1, vec![0; 9], false);
    assert!(add_lin(&mut blf, &invalid_length, 1, LinChecksumType::CalcChecksum, NS)
        .is_err());
}

#[test]
fn add_can_frame_timestamp_units() {
    // TimeOneNans:ms × 1e6
    let mut blf = BlfFile::new(false, AppId(AppId::UNKNOWN), 0, 0, 0);
    add_can(&mut blf, &frame(1, &[1], true, FrameType(FrameType::CAN20B), 1_000), 1, NS)
        .unwrap();
    add_can(&mut blf, &frame(2, &[2], true, FrameType(FrameType::CAN20B), 1_500), 1, NS)
        .unwrap();
    assert_eq!(
        blf.objects[0].header().timestamp,
        0,
        "the first frame always starts at zero"
    );
    assert_eq!(blf.objects[1].header().timestamp, 500_000_000);

    // TimeTenMics:ms × 100
    let mut blf10 = BlfFile::new(false, AppId(AppId::UNKNOWN), 0, 0, 0);
    add_can(&mut blf10, &frame(1, &[1], true, FrameType(FrameType::CAN20B), 1_000), 1, ObjectFlags(ObjectFlags::TIME_TEN_MICS))
        .unwrap();
    add_can(&mut blf10, &frame(2, &[2], true, FrameType(FrameType::CAN20B), 1_001), 1, ObjectFlags(ObjectFlags::TIME_TEN_MICS))
        .unwrap();
    assert_eq!(blf10.objects[1].header().timestamp, 100, "1ms = 100 × 10µs");

    assert!(add_can(&mut blf, &frame(3, &[3], true, FrameType(FrameType::CAN20B), 500), 1, NS)
        .is_err());
}

#[test]
fn add_can_frame_rejects_oversized_data() {
    let mut blf = BlfFile::new(false, AppId(AppId::UNKNOWN), 0, 0, 0);
    assert!(add_can(&mut blf, &frame(1, &[0; 9], true, FrameType(FrameType::CAN20B), 0), 1, NS)
        .is_err());
    assert!(add_can(&mut blf, &frame(1, &[0; 65], true, FrameType(FrameType::FD), 0), 1, NS)
        .is_err());
    add_can(&mut blf, &frame(1, &[0; 8], true, FrameType(FrameType::CAN20B), 0), 1, NS)
        .unwrap();
    add_can(&mut blf, &frame(1, &[0; 64], true, FrameType(FrameType::FD), 0), 1, NS)
        .unwrap();
    assert_eq!(blf.objects.len(), 2);
}

#[test]
fn enum_can_frames_channel_id_filter() {
    let mut blf = BlfFile::new(false, AppId(AppId::UNKNOWN), 0, 0, 0);
    blf.objects = vec![
        BlfObject::CanMessage(CanMessage::new(NS, 0, 1, 0x100, &[1; 4], true)),
        BlfObject::CanMessage(CanMessage::new(NS, 0, 2, 0x100, &[2; 4], false)),
        BlfObject::CanMessage(CanMessage::new(NS, 0, 1, 0x200, &[3; 4], true)),
    ];
    assert_eq!(blf.enum_can_frames(-1, u32::MAX).len(), 3);
    assert_eq!(blf.enum_can_frames(1, u32::MAX).len(), 2);
    assert_eq!(blf.enum_can_frames(-1, 0x100).len(), 2);
    assert_eq!(blf.enum_can_frames(2, 0x100).len(), 1);
    assert_eq!(blf.enum_can_frames(2, 0x200).len(), 0);
    let f = &blf.enum_can_frames(2, 0x100)[0];
    assert_eq!(f.bus_id, "2");
    assert!(!f.is_master_frame);
}

#[test]
fn enum_can_frames_skips_rtr_empty_and_error_flags() {
    let mut rtr = CanMessage::new(NS, 0, 1, 0x300, &[4; 4], true);
    rtr.flags = CanFlags(CanFlags::RTR);
    let mut tx_rtr = CanMessage::new(NS, 0, 1, 0x301, &[5; 4], true);
    tx_rtr.flags = CanFlags(CanFlags::TX) | CanFlags(CanFlags::RTR);
    let mut nerr = CanMessage::new(NS, 0, 1, 0x302, &[6; 4], true);
    nerr.flags = CanFlags(CanFlags::TX) | CanFlags(CanFlags::NERR);
    let empty = CanMessage::new(NS, 0, 1, 0x303, &[], true); // DLC 0
    let mut blf = BlfFile::new(false, AppId(AppId::UNKNOWN), 0, 0, 0);
    blf.objects = vec![
        BlfObject::CanMessage(CanMessage::new(NS, 0, 1, 0x100, &[1; 4], true)),
        BlfObject::CanMessage(rtr),
        BlfObject::CanMessage(tx_rtr),
        BlfObject::CanMessage(nerr),
        BlfObject::CanMessage(empty),
    ];
    let frames = blf.enum_can_frames(-1, u32::MAX);
    assert_eq!(frames.len(), 1);
    assert_eq!(frames[0].id, 0x100);
}

#[test]
fn enum_fd64_frame_type_uses_cs_bswap_quirk() {
    let mut std_fd = CanFdManaged::new(NS, 0);
    std_fd.channel = 3;
    std_fd.id = 0x500;
    std_fd.dir = 1; // Dir > 0 → is_master_frame
    std_fd.data = vec![9; 8];
    std_fd.valid_data_bytes = 8;
    std_fd.fd_flags = CanFd64Flags(CanFd64Flags::EDL) | CanFd64Flags(CanFd64Flags::BRS);
    let mut crafted = std_fd.clone();
    crafted.id = 0x501;
    crafted.dir = 0;
    crafted.fd_flags = CanFd64Flags::from_bits(0x0010_0000);
    let mut empty = std_fd.clone();
    empty.id = 0x502;
    empty.data = Vec::new();
    empty.valid_data_bytes = 0;

    let mut blf = BlfFile::new(false, AppId(AppId::UNKNOWN), 0, 0, 0);
    blf.objects = vec![
        BlfObject::CanFdMessage64(std_fd),
        BlfObject::CanFdMessage64(crafted),
        BlfObject::CanFdMessage64(empty),
    ];
    let frames = blf.enum_can_frames(-1, u32::MAX);
    assert_eq!(frames.len(), 2);
    assert_eq!(
        frames[0].frame_type,
        FrameType(FrameType::CAN20B),
        "byte-swapping a standard EDL frame yields zero"
    );
    assert_eq!(frames[0].bus_id, "3");
    assert!(frames[0].is_master_frame, "Dir=1 → TX");
    assert_eq!(frames[0].data, vec![9; 8]);
    assert_eq!(frames[1].frame_type, FrameType(FrameType::FD));
    assert!(!frames[1].is_master_frame, "Dir=0 → RX");
}

fn millis(ms: u64) -> Span {
    Span { secs: ms / 1000, nanos: (ms % 1000) as u32 * 1_000_000 }
}

/// The timestamp of a frame, in the unit that the flags name.
fn ticks(delta: Span, flags: ObjectFlags) -> u64 {
    let nanos = u128::from(delta.secs) * 1_000_000_000 + u128::from(delta.nanos);
    let ms = (nanos / 100) as f64 / 10_000.0;
    let scaled = if flags.contains(ObjectFlags(ObjectFlags::TIME_TEN_MICS)) {
        ms * 100.0
    } else {
        ms * 1_000_000.0
    };
    scaled.round_ties_even() as u64
}

fn add_can(blf: &mut BlfFile, frame: &CanFrame, channel: u16, flags: ObjectFlags) -> Result<()> {
    let delta = blf.frame_delta(frame.elapsed)?;
    blf.add_can_frame(frame, ticks(delta, flags), channel, flags)
}

/// The checksum of a LIN frame: the inverted sum with carry of the data bytes, and for the
/// enhanced form of the protected identifier before them.
fn lin_checksum(frame: &LinFrame, kind: LinChecksumType) -> u8 {
    let bit = |n: u8| (frame.id >> n) & 1;
    let p0 = bit(0) ^ bit(1) ^ bit(2) ^ bit(4);
    let p1 = 1 ^ bit(1) ^ bit(3) ^ bit(4) ^ bit(5);
    let pid = (frame.id & 0x3F) | (p0 << 6) | (p1 << 7);
    let mut sum = if kind == LinChecksumType::CalcChecksumEnhanced { u16::from(pid) } else { 0 };
    for byte in &frame.data {
        sum += u16::from(*byte);
        if sum > 255 {
            sum -= 255;
        }
    }
    !(sum as u8)
}

fn add_lin(
    blf: &mut BlfFile,
    frame: &LinFrame,
    channel: u16,
    kind: LinChecksumType,
    flags: ObjectFlags,
) -> Result<()> {
    let delta = blf.lin_frame_delta(frame)?;
    blf.add_lin_frame(frame, ticks(delta, flags), lin_checksum(frame, kind), channel, kind, flags)
}

fn elapsed_of(sample: &LinSample) -> Duration {
    let divisor = if sample.object_flags.contains(ObjectFlags(ObjectFlags::TIME_ONE_NANS)) {
        1_000_000_000.0
    } else {
        100_000.0
    };
    Duration::from_secs_f64(sample.timestamp as f64 / divisor)
}


#[test]
fn streaming_writer_and_reader_roundtrip() {
    let header = Header::new(true, AppId(AppId::CANOE), 1, 0, 7);
    let mut bytes = Vec::new();
    let mut writer = BlfWriter::new(header, &mut bytes).unwrap();
    writer.set_container_size(64).unwrap();
    let first = BlfObject::CanMessage(CanMessage::new(
        ObjectFlags(ObjectFlags::TIME_ONE_NANS),
        10,
        1,
        0x123,
        &[1, 2, 3],
        true,
    ));
    let second = BlfObject::CanMessage(CanMessage::new(
        ObjectFlags(ObjectFlags::TIME_ONE_NANS),
        20,
        2,
        0x456,
        &[4, 5],
        false,
    ));
    writer.write_object(&first, &mut bytes).unwrap();
    assert_eq!(bytes.len(), HEADER_SIZE);
    writer.write_object(&second, &mut bytes).unwrap();
    assert!(bytes.len() > HEADER_SIZE);
    let ending = writer.finish().unwrap();
    bytes.extend_from_slice(&ending.containers);
    bytes[..ending.header.len()].copy_from_slice(&ending.header);

    let mut reader = BlfReader::new(bytes).unwrap();
    assert_eq!(reader.header().object_count, 2);
    assert_eq!(reader.next().unwrap().unwrap(), first);
    assert_eq!(reader.next().unwrap().unwrap(), second);
    assert!(reader.next().is_none());
    let file_size = reader.header().file_size;
    assert_eq!(file_size, reader.into_inner().len() as u64);
}

#[test]
fn reader_limits_reject_oversized_header_before_allocation() {
    let mut bytes = Vec::new();
    bytes.extend_from_slice(&FILE_SIGNATURE);
    bytes.extend_from_slice(&1024u32.to_le_bytes());
    let options = BlfReaderOptions {
        max_header_size: HEADER_CORE_SIZE,
        ..BlfReaderOptions::default()
    };
    assert!(BlfReader::with_options(bytes, options).is_err());
}

#[test]
fn a_writer_needs_room_in_its_containers() {
    let mut sink = Vec::new();
    let mut writer =
        BlfWriter::new(Header::new(false, AppId(AppId::UNKNOWN), 0, 0, 0), &mut sink).unwrap();
    assert_eq!(
        writer.set_container_size(0).unwrap_err(),
        Error::Write("container size must be greater than zero".to_string())
    );
    let restore = BlfObject::RestorePointContainer(RestorePointContainerManaged::new(
        NS,
        1,
        vec![1, 2, 3, 4],
    ));
    let message = BlfObject::CanMessage(CanMessage::new(NS, 0, 1, 1, &[1], true));
    writer.write_object(&message, &mut sink).unwrap();
    writer.write_object(&restore, &mut sink).unwrap();
    assert_eq!(sink.len(), HEADER_SIZE + 32 + 48);
    let ending = writer.finish().unwrap();
    sink.extend_from_slice(&ending.containers);
    sink[..ending.header.len()].copy_from_slice(&ending.header);
    let back = BlfFile::parse(&sink).unwrap();
    assert_eq!(back.header.restore_point_offset, Some((HEADER_SIZE + 80) as u64));
    assert_eq!(back.objects, vec![message, restore]);
}

#[test]
fn truncated_and_damaged_files_are_refused_where_they_fail() {
    let mut blf = BlfFile::new(false, AppId(AppId::UNKNOWN), 0, 0, 0);
    blf.objects = vec![BlfObject::CanMessage(CanMessage::new(NS, 0, 1, 1, &[1], true))];
    let bytes = blf.write().unwrap();
    assert_eq!(bytes.len(), 144 + 32 + 48);
    let message = |bytes: &[u8]| match BlfFile::parse(bytes).unwrap_err() {
        Error::Parse { offset, message } => (offset, message),
        other => panic!("unexpected {other:?}"),
    };
    assert_eq!(
        message(&bytes[..5]),
        (5, "unexpected end of file: need 3 more bytes".to_string())
    );
    assert_eq!(
        message(&bytes[..100]),
        (100, "unexpected end of file: need 44 more bytes".to_string())
    );
    assert_eq!(
        message(&bytes[..150]),
        (150, "unexpected end of file: need 10 more bytes".to_string())
    );
    assert_eq!(
        message(&bytes[..200]),
        (200, "unexpected end of file: need 24 more bytes".to_string())
    );
    let mut damaged = bytes.clone();
    damaged[144 + 16] = 7;
    assert_eq!(
        message(&damaged),
        (160, "unsupported LOG_CONTAINER compression method 7".to_string())
    );
    let mut damaged = bytes.clone();
    damaged[144 + 24] = 47;
    assert_eq!(
        message(&damaged),
        (144, "LOG_CONTAINER declares 47 bytes but stores 48".to_string())
    );
    let mut damaged = bytes.clone();
    damaged[176] = b'x';
    assert_eq!(
        message(&damaged),
        (0, "bad object signature in uncompressed stream".to_string())
    );
    let mut damaged = bytes.clone();
    damaged[4] = 70;
    assert_eq!(message(&damaged), (4, "BLF header size 70 is outside 72..=16777216 ".to_string()));
    let mut damaged = bytes.clone();
    damaged[184] = 49;
    assert_eq!(
        message(&damaged),
        (0, "truncated object at end of uncompressed stream".to_string())
    );
    let mut damaged = bytes;
    damaged[180] = 200;
    assert_eq!(
        message(&damaged),
        (4, "object header size 200 is outside available 48 bytes".to_string())
    );
}

#[test]
fn objects_split_over_containers_are_joined() {
    let object = BlfObject::CanMessage(CanMessage::new(NS, 0, 1, 1, &[1], true));
    let mut inner = Vec::new();
    object.write_to(&mut inner).unwrap();
    let mut file = Vec::new();
    Header::new(false, AppId(AppId::UNKNOWN), 0, 0, 0).write_to(&mut file);
    for part in [&inner[..20], &inner[20..]] {
        let (container, size) = encode_container(part, false).unwrap();
        assert_eq!(size, 32 + part.len() as u64);
        file.extend_from_slice(&container);
    }
    let top_level = BlfObject::CanError(CanError::new(NS, 4));
    top_level.write_to(&mut file).unwrap();
    let back = BlfFile::parse(&file).unwrap();
    assert_eq!(back.objects, vec![object, top_level]);
}

#[test]
fn corrupt_compressed_data_is_a_compression_error() {
    let mut packed = zlib_deflate(&[1, 2, 3, 4, 5, 6, 7, 8]).unwrap();
    assert_eq!(
        zlib_inflate_limited(&packed, 7).unwrap_err(),
        Error::Compression("zlib output exceeds configured limit of 7 bytes".to_string())
    );
    let last = packed.len() - 1;
    packed[last] ^= 1;
    assert!(matches!(zlib_inflate_limited(&packed, 100), Err(Error::Compression(_))));
    assert_eq!(
        zlib_inflate_limited(&[0x78], 1024).unwrap_err(),
        Error::Compression(
            "zlib container payload is shorter than its header and checksum".to_string()
        )
    );
}

#[test]
fn pushed_objects_keep_their_kind() {
    let mut blf = BlfFile::new(false, AppId(AppId::UNKNOWN), 0, 0, 0);
    blf.push_object(CanError::new(NS, 3));
    blf.push_object(AppTextManaged::new(NS, 4, 0, "note"));
    assert!(matches!(blf.objects[0], BlfObject::CanError(_)));
    assert!(matches!(blf.objects[1], BlfObject::AppText(_)));
    assert_eq!(blf.statistics(), vec![(2, 1), (65, 1)]);
}

#[test]
fn frames_earlier_than_the_first_are_refused() {
    let mut blf = BlfFile::new(false, AppId(AppId::UNKNOWN), 0, 0, 0);
    assert_eq!(blf.frame_delta(millis(1_000)).unwrap(), Span { secs: 0, nanos: 0 });
    assert_eq!(blf.frame_delta(millis(2_250)).unwrap(), millis(1_250));
    assert_eq!(
        blf.frame_delta(millis(999)).unwrap_err(),
        Error::Write("frame elapsed is earlier than the first frame's".to_string())
    );
}

#[test]
fn frames_out_of_range_name_what_is_wrong() {
    let mut blf = BlfFile::new(false, AppId(AppId::UNKNOWN), 0, 0, 0);
    let long = frame(1, &[0; 9], true, FrameType(FrameType::CAN20B), 0);
    assert_eq!(
        blf.add_can_frame(&long, 0, 1, NS).unwrap_err(),
        Error::Write("classic CAN frame data length 9 exceeds 8".to_string())
    );
    let long = frame(1, &[0; 65], true, FrameType(FrameType::FD), 0);
    assert_eq!(
        blf.add_can_frame(&long, 0, 1, NS).unwrap_err(),
        Error::Write("CAN FD frame data length 65 exceeds 64".to_string())
    );
    let lin = LinFrame::new("LIN".to_string(), 0x4A, vec![1], false);
    assert_eq!(
        blf.add_lin_frame(&lin, 0, 0, 1, LinChecksumType::CalcChecksum, NS).unwrap_err(),
        Error::Write("LIN identifier 0x4A exceeds 0x3F".to_string())
    );
    assert!(blf.objects.is_empty());
}

#[test]
fn refused_lin_frame_does_not_set_the_time_base() {
    let mut blf = BlfFile::new(false, AppId(AppId::CANOE), 1, 0, 0);
    let mut bad = LinFrame::new("LIN".to_string(), 0x40, vec![1], false);
    bad.elapsed = Span { secs: 5, nanos: 0 };
    assert_eq!(
        blf.lin_frame_delta(&bad).unwrap_err(),
        Error::Write("LIN identifier 0x40 exceeds 0x3F".to_string())
    );
    assert_eq!(blf.frame_time_base, None);
    let mut good = LinFrame::new("LIN".to_string(), 1, vec![1], false);
    good.elapsed = Span { secs: 7, nanos: 0 };
    assert_eq!(blf.lin_frame_delta(&good).unwrap(), Span { secs: 0, nanos: 0 });
    assert_eq!(blf.frame_time_base, Some(Span { secs: 7, nanos: 0 }));
    good.elapsed = Span { secs: 6, nanos: 0 };
    assert_eq!(
        blf.lin_frame_delta(&good).unwrap_err(),
        Error::Write("frame elapsed is earlier than the first frame's".to_string())
    );
}

#[test]
fn limits_below_the_headers_are_refused() {
    assert_eq!(check_limits(BlfReaderOptions::default()), Ok(()));
    let options = BlfReaderOptions { max_object_size: 15, ..BlfReaderOptions::default() };
    assert_eq!(
        check_limits(options),
        Err(Error::Parse {
            offset: 0,
            message: "BLF reader limits are smaller than mandatory format headers".to_string(),
        })
    );
}

#[test]
fn undecodable_marker_is_kept_and_read_back() {
    let header = LObj::new(ObjectType::GlobalMarker, ObjectFlags(ObjectFlags::TIME_ONE_NANS), 3, 36);
    let marker = BlfObject::Raw { header, data: vec![1, 2, 3, 4] };
    let mut bytes = Vec::new();
    marker.write_to(&mut bytes).unwrap();
    assert_eq!(BlfObject::parse(&bytes, 0).unwrap(), marker);
    let mut blf = BlfFile::new(true, AppId(AppId::CANOE), 1, 0, 0);
    blf.objects.push(marker.clone());
    let read = BlfFile::parse(&blf.write().unwrap()).unwrap();
    assert_eq!(read.objects, vec![marker]);
}

#[test]
fn offsets_near_the_end_of_their_range_are_accepted() {
    let message = CanMessage::new(ObjectFlags(ObjectFlags::TIME_ONE_NANS), 1, 2, 3, &[4; 8], true);
    let mut bytes = Vec::new();
    message.write_to(&mut bytes);
    bytes.extend_from_slice(&[0; 1000]);
    assert_eq!(CanMessage::parse(&bytes, u64::MAX - 48).unwrap(), message);
}

#[test]
fn small_containers_hold_one_object_or_stay_below_the_limit() {
    let message = |n: u64| {
        let flags = ObjectFlags(ObjectFlags::TIME_ONE_NANS);
        BlfObject::CanMessage(CanMessage::new(flags, n, 1, 2, &[3], true))
    };
    let mut sink = Vec::new();
    let header = Header::new(false, AppId(AppId::CANOE), 1, 0, 0);
    let mut writer = BlfWriter::new(header, &mut sink).unwrap();
    writer.set_container_size(100).unwrap();
    for n in 0..5 {
        writer.write_object(&message(n), &mut sink).unwrap();
    }
    // Two objects of 48 bytes fit into a container, a third one does not.
    assert_eq!(sink.len(), 144 + 2 * (32 + 96));
    let end = writer.finish().unwrap();
    assert_eq!(end.containers.len(), 32 + 48);
}

#[test]
fn reserved_bytes_without_a_restore_point_do_not_touch_the_objects() {
    let mut blf = BlfFile::new(false, AppId(AppId::UNKNOWN), 0, 0, 0);
    blf.objects = vec![BlfObject::CanMessage(CanMessage::new(NS, 0, 1, 1, &[1], true))];
    blf.header.restore_point_offset = None;
    blf.header.reserved3 = vec![7; 16];
    blf.header.header_size = (HEADER_CORE_SIZE + 16) as u32;
    let back = BlfFile::parse(&blf.write().unwrap()).unwrap();
    assert_eq!(back.objects, blf.objects);
    assert_eq!(back.header.object_count, 1);
    assert_eq!(back.header.restore_point_offset, Some(0x0707_0707_0707_0707));
    assert_eq!(back.header.reserved3, vec![7; 8]);
}

#[test]
fn refused_restore_point_still_starts_a_container() {
    let mut sink = Vec::new();
    let mut writer =
        BlfWriter::new(Header::new(false, AppId(AppId::UNKNOWN), 0, 0, 0), &mut sink).unwrap();
    let message = BlfObject::CanMessage(CanMessage::new(NS, 0, 1, 1, &[1], true));
    writer.write_object(&message, &mut sink).unwrap();
    let wrong = BlfObject::Raw {
        header: LObj::new(ObjectType::RestorepointContainer, NS, 0, 99),
        data: vec![0; 4],
    };
    assert_eq!(
        writer.write_object(&wrong, &mut sink).unwrap_err(),
        Error::Write("unknown object: object_size 99 != header 32 + payload 4".to_string())
    );
    assert_eq!(sink.len(), HEADER_SIZE + 32 + 48);
    let ending = writer.finish().unwrap();
    sink.extend_from_slice(&ending.containers);
    sink[..ending.header.len()].copy_from_slice(&ending.header);
    let back = BlfFile::parse(&sink).unwrap();
    assert_eq!(back.objects, vec![message]);
    assert_eq!(back.header.object_count, 1);
}
