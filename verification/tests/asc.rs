use autors::asc::file::stamp_texts;
use autors::asc::{
    AscErrorFrame, AscEvent, AscFile, AscHeader, AscMessage, AscRecord, Direction, Error, NumberBase, Stamp,
    TimestampMode,
};
use autors::bus::{CanFrame, FrameType, CAN_EXT_FLAG};
use autors::span::Span;
use std::time::Duration;

const SAMPLE: &str = "date Mon Apr 10 15:19:28.789 2023\n\
base hex  timestamps absolute\n\
internal events logged\n\
Begin Triggerblock Mon Apr 10 15:19:28.789 2023\n\
 0.000000 Start of measurement\n\
 0.001000 1  123             Rx   d 3 01 02 A0\n\
 0.002000 2  1ABCDEFX       Tx   r 8\n\
 0.003000 1  ErrorFrame\n\
 0.004000 CANFD   2 Tx   1ABCDEFX  1 0 9 12 00 01 02 03 04 05 06 07 08 09 0A 0B 10 20 3000 40 50 60 70 80\n\
 0.005000 statistic CAN 1 42\n\
End TriggerBlock\n";

fn span(d: Duration) -> Span {
    Span { secs: d.as_secs(), nanos: d.subsec_nanos() }
}

fn stamp(text: &str) -> Stamp {
    match text.parse::<f64>() {
        Err(_) => Stamp::Text,
        Ok(v) if !v.is_finite() || v < 0.0 || v > Duration::MAX.as_secs_f64() => Stamp::OutOfRange(format!("{v}")),
        Ok(v) => Stamp::At(span(Duration::from_secs_f64(v))),
    }
}

fn parse(text: &str) -> Result<AscFile, Error> {
    let stamps: Vec<Stamp> =
        stamp_texts(text).iter().map(|t| t.as_deref().map_or(Stamp::Text, stamp)).collect();
    AscFile::parse(text, &stamps)
}

fn write(file: &AscFile) -> Result<String, Error> {
    let stamps: Vec<String> = file
        .times_to_write()
        .iter()
        .map(|t| t.map_or(String::new(), |t| format!("{:>9.6}", Duration::new(t.secs, t.nanos).as_secs_f64())))
        .collect();
    file.write(&stamps)
}

fn text_of(error: &Error) -> String {
    match error {
        Error::Parse { line, message } => format!("parse error on line {line}: {message}"),
        Error::Write(message) => format!("write error: {message}"),
    }
}

#[test]
fn parses_classic_fd_remote_error_and_event_records() {
    let file = parse(SAMPLE).unwrap();
    assert_eq!(file.records.len(), 5);
    let AscRecord::Message(classic) = &file.records[0] else {
        panic!("classic message expected");
    };
    assert_eq!(classic.id, 0x123);
    assert_eq!(classic.data, [1, 2, 0xA0]);
    assert_eq!(classic.direction, Direction::Rx);

    let AscRecord::Message(remote) = &file.records[1] else {
        panic!("remote message expected");
    };
    assert!(remote.is_remote);
    assert_eq!(remote.id, CAN_EXT_FLAG | 0x1ABCDEF);
    assert!(remote.to_can_frame().is_none());

    assert!(matches!(file.records[2], AscRecord::ErrorFrame(_)));
    let AscRecord::Message(fd) = &file.records[3] else {
        panic!("CAN FD message expected");
    };
    assert_eq!(fd.frame_type, FrameType(FrameType::FD_BRS));
    assert_eq!(fd.data.len(), 12);
    assert_eq!(fd.fd_metadata.len(), 8);
    assert!(matches!(file.records[4], AscRecord::Event(_)));
    assert_eq!(file.can_frames().len(), 2);
}

#[test]
fn roundtrip_preserves_supported_records() {
    let parsed = parse(SAMPLE).unwrap();
    let rendered = write(&parsed).unwrap();
    let reparsed = parse(&rendered).unwrap();
    assert_eq!(reparsed, parsed);
}

#[test]
fn relative_timestamps_are_accumulated_and_written_as_deltas() {
    let text = "base dec timestamps relative\n\
no internal events logged\n\
0.100000 1 291 Rx d 1 10\n\
0.250000 1 292 Tx d 1 20\n";
    let file = parse(text).unwrap();
    assert_eq!(file.records[0].timestamp(), span(Duration::from_millis(100)));
    assert_eq!(file.records[1].timestamp(), span(Duration::from_millis(350)));
    let reparsed = parse(&write(&file).unwrap()).unwrap();
    assert_eq!(reparsed.records, file.records);
}

#[test]
fn shared_can_frame_conversion_preserves_core_fields() {
    let mut frame = CanFrame::new(
        "bus".to_string(),
        CAN_EXT_FLAG | 0x12345,
        vec![1; 12],
        true,
        FrameType(FrameType::FD_BRS),
    );
    frame.elapsed = span(Duration::from_micros(42));
    let asc = AscMessage::from_can_frame(&frame, 3).unwrap();
    let back = asc.to_can_frame().unwrap();
    assert_eq!(back.id, frame.id);
    assert_eq!(back.data, frame.data);
    assert_eq!(back.frame_type, frame.frame_type);
    assert_eq!(back.elapsed, frame.elapsed);
    assert!(back.is_master_frame);
    assert_eq!(back.bus_id, "3");
}

#[test]
fn invalid_declared_data_length_is_rejected_with_line_number() {
    let error = parse("0.0 1 123 Rx d 2 AA\n").unwrap_err();
    assert!(text_of(&error).contains("line 1"));
    assert!(text_of(&error).contains("declares 2 data bytes"));
}

#[test]
fn writer_rejects_invalid_public_message_fields() {
    let mut file = AscFile::new();
    let mut frame = CanFrame::new("bus".to_string(), 1, vec![1], false, FrameType(FrameType::CAN20B));
    frame.elapsed = span(Duration::ZERO);
    let mut message = AscMessage::from_can_frame(&frame, 1).unwrap();
    message.channel = 0;
    file.records.push(AscRecord::Message(message));
    assert!(text_of(&write(&file).unwrap_err()).contains("one-based"));
}

fn message() -> AscMessage {
    let frame = CanFrame::new("bus".to_string(), 0x12, vec![0xAB, 1], false, FrameType(FrameType::CAN20B));
    AscMessage::from_can_frame(&frame, 1).unwrap()
}

fn written(record: AscRecord) -> Result<String, Error> {
    let mut file = AscFile::new();
    file.records.push(record);
    write(&file)
}

#[test]
fn an_empty_trace_is_its_header() {
    assert_eq!(
        write(&AscFile::new()).unwrap(),
        "date Thu Jan 01 00:00:00.000 1970\n\
         base hex  timestamps absolute\n\
         internal events logged\n\
         Begin Triggerblock Thu Jan 01 00:00:00.000 1970\n \
         0.000000 Start of measurement\n\
         End TriggerBlock\n"
    );
}

#[test]
fn a_classic_message_is_written_in_columns() {
    let text = written(AscRecord::Message(message())).unwrap();
    let line = text.lines().nth(5).unwrap();
    assert_eq!(line, " 0.000000 1  12              Rx   d 2 AB 01");
}

#[test]
fn a_fd_message_without_columns_gets_the_usual_ones() {
    let mut m = message();
    m.frame_type = FrameType(FrameType::FD_BRS);
    m.error_state_indicator = true;
    m.symbolic_name = Some("Engine".to_string());
    let text = written(AscRecord::Message(m)).unwrap();
    let line = text.lines().nth(5).unwrap();
    assert_eq!(line, " 0.000000 CANFD   1 Rx         12  Engine 1 1 2  2 AB 01 0 0 7000 0 0 0 0 0");
}

#[test]
fn error_frames_keep_their_columns() {
    let text = " 0.5 1 ErrorFrame ECC: 10100010\n 0.6 CANFD 2 Tx ErrorFrame x y\n";
    let file = parse(text).unwrap();
    assert_eq!(
        file.records[0],
        AscRecord::ErrorFrame(AscErrorFrame {
            timestamp: Span { secs: 0, nanos: 500_000_000 },
            channel: 1,
            direction: None,
            is_fd: false,
            metadata: vec!["ECC:".to_string(), "10100010".to_string()],
        })
    );
    let reparsed = parse(&write(&file).unwrap()).unwrap();
    assert_eq!(reparsed.records, file.records);
}

#[test]
fn header_lines_are_read_in_either_case() {
    let file = parse("DATE Mon\nBase DEC Timestamps RELATIVE\nNO INTERNAL EVENTS LOGGED\nbegin triggerblock Tue \n").unwrap();
    assert_eq!(
        file.header,
        AscHeader {
            date: Some("Mon".to_string()),
            number_base: NumberBase::Decimal,
            timestamp_mode: TimestampMode::Relative,
            internal_events_logged: false,
            trigger_date: Some("Tue".to_string()),
        }
    );
}

#[test]
fn lines_that_say_nothing_are_passed_over() {
    let file = parse("\n// a comment\nEnd TriggerBlock\nunknown line\nword\n 1.5 Start of Measurement\n").unwrap();
    assert_eq!(file, AscFile::new());
}

fn message_of(text: &str) -> String {
    text_of(&parse(text).unwrap_err())
}

#[test]
fn each_bad_record_has_its_message() {
    let cases = [
        ("base\u{20}x\n", "unknown ASC number base \"x\""),
        ("base hex timestamps\n", "timestamps header is missing its mode"),
        ("base hex timestamps odd\n", "unknown timestamp mode \"odd\""),
        ("-1 x\n", "timestamp -1 is outside Duration's range"),
        ("inf x\n", "timestamp inf is outside Duration's range"),
        ("0 0 1 Rx d 0\n", "ASC channel numbers are one-based"),
        ("0 1 1 Rx d\n", "classic CAN record has fewer than four columns"),
        ("0 1 zz Rx d 0\n", "invalid CAN identifier \"zz\""),
        ("0 1 20000000x Rx d 0\n", "CAN identifier \"20000000x\" exceeds 29 bits"),
        ("0 1 800 Rx d 0\n", "standard CAN identifier \"800\" exceeds 11 bits"),
        ("0 1 1 Rx q 0\n", "unknown classic CAN frame kind \"q\""),
        ("0 1 1 Rx d 100\n", "DLC 256 exceeds u8"),
        ("0 1 1 Rx d 1 100\n", "CAN data byte \"100\" exceeds 0xFF"),
        ("0 CANFD 1 Rx\n", "CAN FD record has fewer than three columns"),
        ("0 CANFD x Rx 1\n", "invalid CAN FD channel \"x\""),
        ("0 CANFD 1 Up 1\n", "unknown CAN direction \"Up\""),
        ("0 CANFD 1 Rx 1 0 0\n", "CAN FD data record has too few columns"),
        ("0 CANFD 1 Rx 1 Name 0 0 8\n", "CAN FD record ends after its symbolic name"),
        ("0 CANFD 1 Rx 1 0 2 8 0\n", "ESI must be 0 or 1, got \"2\""),
        ("0 CANFD 1 Rx 1 0 0 8 x\n", "invalid CAN FD data length \"x\""),
        ("0 CANFD 1 Rx 1 0 0 8 65\n", "CAN FD data length 65 exceeds 64"),
        ("0 CANFD 1 Rx 1 0 0 8 2 00\n", "CAN FD record declares 2 data bytes but only 1 are present"),
    ];
    for (text, message) in cases {
        assert_eq!(message_of(text), format!("parse error on line 1: {message}"), "{text}");
    }
}

#[test]
fn relative_times_that_are_too_long_are_refused() {
    let mut stamps = vec![Stamp::Text];
    stamps.push(Stamp::At(Span { secs: u64::MAX, nanos: 0 }));
    stamps.push(Stamp::At(Span { secs: 1, nanos: 0 }));
    let error = AscFile::parse("base hex timestamps relative\na b\nc d\n", &stamps).unwrap_err();
    assert_eq!(text_of(&error), "parse error on line 3: relative timestamp overflow");
}

#[test]
fn each_bad_message_is_refused() {
    let mut m = message();
    m.id = 0x4000_0000;
    assert_eq!(
        text_of(&written(AscRecord::Message(m)).unwrap_err()),
        "write error: CAN identifier 0x40000000 contains unsupported flag or identifier bits"
    );
    let mut m = message();
    m.id = 0x800;
    assert_eq!(
        text_of(&written(AscRecord::Message(m)).unwrap_err()),
        "write error: standard CAN identifier 0x800 exceeds 11 bits"
    );
    let mut m = message();
    m.data = vec![0; 9];
    assert_eq!(
        text_of(&written(AscRecord::Message(m)).unwrap_err()),
        "write error: CAN payload length 9 exceeds 8"
    );
    let mut m = message();
    m.frame_type = FrameType(FrameType::FD);
    m.dlc = 16;
    assert_eq!(
        text_of(&written(AscRecord::Message(m)).unwrap_err()),
        "write error: CAN FD DLC 16 exceeds 15"
    );
    let mut m = message();
    m.is_remote = true;
    assert_eq!(
        text_of(&written(AscRecord::Message(m)).unwrap_err()),
        "write error: a remote CAN frame must not carry data bytes"
    );
    let event = AscEvent { timestamp: Span { secs: 0, nanos: 0 }, text: "a\nb".to_string() };
    assert_eq!(
        text_of(&written(AscRecord::Event(event)).unwrap_err()),
        "write error: an ASC event must not contain a line break"
    );
}

#[test]
fn frames_that_do_not_fit_are_refused() {
    let frame = CanFrame::new("b".to_string(), 1, vec![0; 9], false, FrameType(FrameType::CAN20B));
    assert_eq!(
        text_of(&AscMessage::from_can_frame(&frame, 1).unwrap_err()),
        "write error: classic CAN frame payload length 9 exceeds 8"
    );
    let frame = CanFrame::new("b".to_string(), 1, vec![0; 65], false, FrameType(FrameType::FD));
    let mut file = AscFile::new();
    assert_eq!(
        text_of(&file.add_can_frame(&frame, 1).unwrap_err()),
        "write error: CAN FD frame payload length 65 exceeds 64"
    );
    assert_eq!(file, AscFile::new());
}

#[test]
fn records_that_are_not_in_order_are_refused_as_deltas() {
    let mut file = parse("0.2 a b\n0.1 c d\n").unwrap();
    assert!(write(&file).is_ok());
    file.header.timestamp_mode = TimestampMode::Relative;
    assert_eq!(text_of(&write(&file).unwrap_err()), "write error: records are not ordered by timestamp");
}

#[test]
fn a_trace_without_dates_reads_back_with_the_usual_ones() {
    let mut file = parse("1.500000 1 123 Rx d 2 01 02\n").unwrap();
    assert_eq!(file.header.trigger_date, None);
    let again = parse(&write(&file).unwrap()).unwrap();
    assert_eq!(again.records, file.records);
    assert_eq!(again.header.trigger_date, file.header.date);
    file.header.date = None;
    let text = write(&file).unwrap();
    assert!(text.starts_with("base hex  timestamps absolute\n"));
    let again = parse(&text).unwrap();
    assert_eq!(again.records, file.records);
    assert_eq!(again.header.date.as_deref(), Some("Thu Jan 01 00:00:00.000 1970"));
    assert_eq!(again.header.trigger_date.as_deref(), Some("Thu Jan 01 00:00:00.000 1970"));
}

#[test]
fn what_was_read_from_any_layout_reads_back() {
    let text = "DATE   Mon Apr 10 15:19:28.789 2023  \n\
base DEC timestamps relative\n\
// a comment\n\
begin triggerblock   Mon Apr 10\tnow \n\
  0.5\t1   291x  rx   D 2  10   255  behind the payload\n\
0.25 CANFD 2 Tx 100   Engine 1 0 3 3 1 2 3   0 0 1000 \n\
0.25 canfd 2 Tx errorframe  a  b\n\
0.125 3 errorframe\n\
0.125   Watermark:\t7\n\
end triggerblock\n";
    let file = parse(text).unwrap();
    assert_eq!(file.records.len(), 5);
    assert_eq!(file.header.trigger_date.as_deref(), Some("Mon Apr 10\tnow"));
    let again = parse(&write(&file).unwrap()).unwrap();
    assert_eq!(again, file);
    let untriggered = parse("0.5 1 123 Rx r 0\n").unwrap();
    let again = parse(&write(&untriggered).unwrap()).unwrap();
    assert_eq!(again.records, untriggered.records);
    assert_eq!(untriggered.header.trigger_date, None);
    assert_eq!(again.header.trigger_date, untriggered.header.date);
}
