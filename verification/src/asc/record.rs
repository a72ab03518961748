//! Headers and records of ASC traces.

use crate::views::{opt, views};
use crate::asc::error::{Error, Failure, Result};
use crate::bus::{CanFrame, FrameType, CAN_EXT_ID_MASK};
use crate::span::Span;
use crate::text::{dec, dec_text, hex, hex_text};
use vstd::prelude::*;

verus! {

/// Numeric base selected by the ASC header.
#[derive(Debug, Clone, Copy, PartialEq, Eq, Structural)]
pub enum NumberBase {
    /// Hexadecimal identifiers, DLC values, and payload bytes.
    Hex,
    /// Decimal identifiers, DLC values, and payload bytes.
    Decimal,
}

impl Default for NumberBase {
    fn default() -> (r: Self)
        ensures
            r == NumberBase::Hex,
    {
        NumberBase::Hex
    }
}

impl NumberBase {
    /// The base of the numbers.
    pub open spec fn base(self) -> int {
        match self {
            NumberBase::Hex => 16,
            NumberBase::Decimal => 10,
        }
    }

    /// The base as the header names it.
    pub open spec fn word(self) -> Seq<char> {
        match self {
            NumberBase::Hex => "hex"@,
            NumberBase::Decimal => "dec"@,
        }
    }

    pub(crate) fn radix(self) -> (r: u64)
        ensures
            r == self.base(),
    {
        match self {
            NumberBase::Hex => 16,
            NumberBase::Decimal => 10,
        }
    }

    pub(crate) fn keyword(self) -> (r: &'static str)
        ensures
            r@ == self.word(),
    {
        match self {
            NumberBase::Hex => "hex",
            NumberBase::Decimal => "dec",
        }
    }
}

/// Meaning of record timestamps in the textual file.
#[derive(Debug, Clone, Copy, PartialEq, Eq, Structural)]
pub enum TimestampMode {
    /// Each timestamp is an offset from the trigger-block start.
    Absolute,
    /// Each timestamp is a delta from the preceding event.
    Relative,
}

impl Default for TimestampMode {
    fn default() -> (r: Self)
        ensures
            r == TimestampMode::Absolute,
    {
        TimestampMode::Absolute
    }
}

impl TimestampMode {
    /// The mode as the header names it.
    pub open spec fn word(self) -> Seq<char> {
        match self {
            TimestampMode::Absolute => "absolute"@,
            TimestampMode::Relative => "relative"@,
        }
    }

    pub(crate) fn keyword(self) -> (r: &'static str)
        ensures
            r@ == self.word(),
    {
        match self {
            TimestampMode::Absolute => "absolute",
            TimestampMode::Relative => "relative",
        }
    }
}

/// Receive/transmit direction recorded by CANoe or CANalyzer.
#[derive(Debug, Clone, Copy, PartialEq, Eq, Structural)]
pub enum Direction {
    /// Frame received from the bus.
    Rx,
    /// Frame transmitted by the logging node.
    Tx,
}

impl Direction {
    /// The direction as it is written.
    pub open spec fn word(self) -> Seq<char> {
        match self {
            Direction::Rx => "Rx"@,
            Direction::Tx => "Tx"@,
        }
    }

    pub(crate) fn as_str(self) -> (r: &'static str)
        ensures
            r@ == self.word(),
    {
        match self {
            Direction::Rx => "Rx",
            Direction::Tx => "Tx",
        }
    }
}

/// ASC header fields that affect message interpretation.
#[derive(Debug, Clone, PartialEq, Eq)]
pub struct AscHeader {
    /// Date text following the leading `date` keyword.
    pub date: Option<String>,
    /// Number base used by identifier, DLC, and byte columns.
    pub number_base: NumberBase,
    /// On-file timestamp interpretation.
    pub timestamp_mode: TimestampMode,
    /// Whether the header declares that internal events were logged.
    pub internal_events_logged: bool,
    /// Date text following `Begin Triggerblock`, when present.
    pub trigger_date: Option<String>,
}

/// [`AscHeader`] as a mathematical value.
pub struct AscHeaderView {
    pub date: Option<Seq<char>>,
    pub number_base: NumberBase,
    pub timestamp_mode: TimestampMode,
    pub internal_events_logged: bool,
    pub trigger_date: Option<Seq<char>>,
}

impl View for AscHeader {
    type V = AscHeaderView;

    open spec fn view(&self) -> AscHeaderView {
        AscHeaderView {
            date: opt(self.date),
            number_base: self.number_base,
            timestamp_mode: self.timestamp_mode,
            internal_events_logged: self.internal_events_logged,
            trigger_date: opt(self.trigger_date),
        }
    }
}

impl AscHeader {
    /// The header where none is given.
    pub open spec fn blank() -> AscHeaderView {
        AscHeaderView {
            date: Some("Thu Jan 01 00:00:00.000 1970"@),
            number_base: NumberBase::Hex,
            timestamp_mode: TimestampMode::Absolute,
            internal_events_logged: true,
            trigger_date: None,
        }
    }
}

impl Default for AscHeader {
    fn default() -> (r: Self)
        ensures
            r@ == AscHeader::blank(),
    {
        AscHeader {
            date: Some("Thu Jan 01 00:00:00.000 1970".to_string()),
            number_base: NumberBase::Hex,
            timestamp_mode: TimestampMode::Absolute,
            internal_events_logged: true,
            trigger_date: None,
        }
    }
}

/// A classic CAN or CAN FD message record.
#[derive(Debug, Clone, PartialEq, Eq)]
pub struct AscMessage {
    /// Elapsed time from the beginning of the trigger block.
    pub timestamp: Span,
    /// One-based ASC channel number.
    pub channel: u32,
    /// CAN identifier; [`CAN_EXT_FLAG`](crate::bus::CAN_EXT_FLAG) marks a 29-bit identifier.
    pub id: u32,
    /// Receive/transmit direction.
    pub direction: Direction,
    /// Classic CAN, CAN FD, or CAN FD with bit-rate switching.
    pub frame_type: FrameType,
    /// Raw CAN DLC nibble as recorded in the file.
    pub dlc: u8,
    /// Payload bytes. Remote frames have an empty payload.
    pub data: Vec<u8>,
    /// Whether this is a remote-request frame.
    pub is_remote: bool,
    /// CAN FD error-state-indicator bit.
    pub error_state_indicator: bool,
    /// Optional symbolic frame name present on some CAN FD lines.
    pub symbolic_name: Option<String>,
    /// Remaining CAN FD columns after the payload. They are preserved on
    /// read/write so vendor-specific timing values are not discarded.
    pub fd_metadata: Vec<String>,
}

/// [`AscMessage`] as a mathematical value.
pub struct AscMessageView {
    pub timestamp: Span,
    pub channel: u32,
    pub id: u32,
    pub direction: Direction,
    pub frame_type: FrameType,
    pub dlc: u8,
    pub data: Seq<u8>,
    pub is_remote: bool,
    pub error_state_indicator: bool,
    pub symbolic_name: Option<Seq<char>>,
    pub fd_metadata: Seq<Seq<char>>,
}

impl View for AscMessage {
    type V = AscMessageView;

    open spec fn view(&self) -> AscMessageView {
        AscMessageView {
            timestamp: self.timestamp,
            channel: self.channel,
            id: self.id,
            direction: self.direction,
            frame_type: self.frame_type,
            dlc: self.dlc,
            data: self.data@,
            is_remote: self.is_remote,
            error_state_indicator: self.error_state_indicator,
            symbolic_name: opt(self.symbolic_name),
            fd_metadata: views(self.fd_metadata@),
        }
    }
}

/// The least data length code for a number of bytes.
pub open spec fn dlc_of(length: int) -> u8 {
    if length <= 8 {
        length as u8
    } else if length <= 12 {
        9
    } else if length <= 16 {
        10
    } else if length <= 20 {
        11
    } else if length <= 24 {
        12
    } else if length <= 32 {
        13
    } else if length <= 48 {
        14
    } else {
        15
    }
}

fn length_to_dlc(length: usize) -> (r: u8)
    ensures
        r == dlc_of(length as int),
{
    if length <= 8 {
        length as u8
    } else if length <= 12 {
        9
    } else if length <= 16 {
        10
    } else if length <= 20 {
        11
    } else if length <= 24 {
        12
    } else if length <= 32 {
        13
    } else if length <= 48 {
        14
    } else {
        15
    }
}

/// A copy of bytes.
fn copy_bytes(data: &Vec<u8>) -> (r: Vec<u8>)
    ensures
        r@ == data@,
{
    let mut out: Vec<u8> = Vec::new();
    let mut i: usize = 0;
    while i < data.len()
        invariant
            i <= data@.len(),
            out@ == data@.subrange(0, i as int),
        decreases data@.len() - i,
    {
        out.push(data[i]);
        i += 1;
        proof {
            assert(out@ =~= data@.subrange(0, i as int));
        }
    }
    proof {
        assert(data@.subrange(0, i as int) =~= data@);
    }
    out
}

/// How a frame is refused as a record on a channel.
pub open spec fn frame_failure(frame: CanFrame, channel: u32) -> Option<Failure> {
    let classic = frame.frame_type.spec_is_classic();
    let maximum = if classic { 8nat } else { 64 };
    if channel == 0 {
        Some(Failure::Write("ASC channel numbers are one-based"@))
    } else if frame.data@.len() > maximum {
        Some(
            Failure::Write(
                (if classic { "classic CAN"@ } else { "CAN FD"@ }) + " frame payload length "@
                    + dec(frame.data@.len()) + " exceeds "@ + dec(maximum),
            ),
        )
    } else if frame.id & CAN_EXT_ID_MASK > CAN_EXT_ID_MASK {
        Some(
            Failure::Write(
                "CAN identifier 0x"@ + hex((frame.id & CAN_EXT_ID_MASK) as nat)
                    + " exceeds 29 bits"@,
            ),
        )
    } else {
        None
    }
}

/// The record that a frame becomes on a channel.
pub open spec fn frame_record(frame: CanFrame, channel: u32) -> AscMessageView {
    AscMessageView {
        timestamp: frame.elapsed,
        channel,
        id: frame.id,
        direction: if frame.is_master_frame { Direction::Tx } else { Direction::Rx },
        frame_type: frame.frame_type,
        dlc: dlc_of(frame.data@.len() as int),
        data: frame.data@,
        is_remote: false,
        error_state_indicator: false,
        symbolic_name: None,
        fd_metadata: Seq::empty(),
    }
}

/// Whether a frame is the one that a data record stands for.
pub open spec fn is_frame_of(frame: CanFrame, v: AscMessageView) -> bool {
    &&& frame.bus_id@ == dec(v.channel as nat)
    &&& frame.id == v.id
    &&& frame.data@ == v.data
    &&& frame.is_master_frame == (v.direction == Direction::Tx)
    &&& frame.frame_type == v.frame_type
    &&& frame.elapsed == v.timestamp
}

impl AscMessage {
    /// Converts a data frame to the shared CAN representation. Remote frames
    /// return `None` because `CanFrame` has no remote-frame flag.
    pub fn to_can_frame(&self) -> (r: Option<CanFrame>)
        ensures
            match r {
                Some(f) => !self@.is_remote && is_frame_of(f, self@),
                None => self@.is_remote,
            },
    {
        if self.is_remote {
            return None;
        }
        let mut frame = CanFrame::new(
            dec_text(self.channel as u64),
            self.id,
            copy_bytes(&self.data),
            self.direction == Direction::Tx,
            self.frame_type,
        );
        frame.elapsed = self.timestamp;
        Some(frame)
    }

    /// Builds an ASC data record from a shared CAN frame.
    pub fn from_can_frame(frame: &CanFrame, channel: u32) -> (r: Result<Self>)
        ensures
            match r {
                Ok(m) => frame_failure(*frame, channel) is None && m@ == frame_record(
                    *frame,
                    channel,
                ),
                Err(e) => frame_failure(*frame, channel) == Some(e@),
            },
    {
        if channel == 0 {
            return Err(Error::Write("ASC channel numbers are one-based".to_string()));
        }
        let classic = frame.frame_type.is_classic();
        let maximum: usize = if classic {
            8
        } else {
            64
        };
        if frame.data.len() > maximum {
            let mut m = if classic {
                "classic CAN".to_string()
            } else {
                "CAN FD".to_string()
            };
            m.append(" frame payload length ");
            m.append(dec_text(frame.data.len() as u64).as_str());
            m.append(" exceeds ");
            m.append(dec_text(maximum as u64).as_str());
            return Err(Error::Write(m));
        }
        if frame.raw_id() > CAN_EXT_ID_MASK {
            let mut m = "CAN identifier 0x".to_string();
            m.append(hex_text(frame.raw_id() as u64).as_str());
            m.append(" exceeds 29 bits");
            return Err(Error::Write(m));
        }
        let fd_metadata: Vec<String> = Vec::new();
        proof {
            assert(views(fd_metadata@) =~= Seq::<Seq<char>>::empty());
        }
        Ok(
            AscMessage {
                timestamp: frame.elapsed,
                channel,
                id: frame.id,
                direction: if frame.is_master_frame {
                    Direction::Tx
                } else {
                    Direction::Rx
                },
                frame_type: frame.frame_type,
                dlc: length_to_dlc(frame.data.len()),
                data: copy_bytes(&frame.data),
                is_remote: false,
                error_state_indicator: false,
                symbolic_name: None,
                fd_metadata,
            },
        )
    }
}

/// A frame that a record was made of comes back from it, on the bus that the channel names.
pub proof fn law_frame_of_record(frame: CanFrame, channel: u32, back: CanFrame)
    requires
        frame_failure(frame, channel) is None,
        is_frame_of(back, frame_record(frame, channel)),
    ensures
        back.bus_id@ == dec(channel as nat),
        back.id == frame.id,
        back.data@ == frame.data@,
        back.is_master_frame == frame.is_master_frame,
        back.frame_type == frame.frame_type,
        back.elapsed == frame.elapsed,
{
}

/// A classic or CAN FD error-frame notification.
#[derive(Debug, Clone, PartialEq, Eq)]
pub struct AscErrorFrame {
    /// Elapsed time from the beginning of the trigger block.
    pub timestamp: Span,
    /// One-based ASC channel number.
    pub channel: u32,
    /// Direction when supplied by the CAN FD form.
    pub direction: Option<Direction>,
    /// Whether the line uses the CAN FD syntax.
    pub is_fd: bool,
    /// Uninterpreted fields following `ErrorFrame`.
    pub metadata: Vec<String>,
}

/// [`AscErrorFrame`] as a mathematical value.
pub struct AscErrorFrameView {
    pub timestamp: Span,
    pub channel: u32,
    pub direction: Option<Direction>,
    pub is_fd: bool,
    pub metadata: Seq<Seq<char>>,
}

impl View for AscErrorFrame {
    type V = AscErrorFrameView;

    open spec fn view(&self) -> AscErrorFrameView {
        AscErrorFrameView {
            timestamp: self.timestamp,
            channel: self.channel,
            direction: self.direction,
            is_fd: self.is_fd,
            metadata: views(self.metadata@),
        }
    }
}

/// A timestamped ASC event not represented as a CAN frame.
#[derive(Debug, Clone, PartialEq, Eq)]
pub struct AscEvent {
    /// Elapsed time from the beginning of the trigger block.
    pub timestamp: Span,
    /// Event text after the timestamp.
    pub text: String,
}

/// [`AscEvent`] as a mathematical value.
pub struct AscEventView {
    pub timestamp: Span,
    pub text: Seq<char>,
}

impl View for AscEvent {
    type V = AscEventView;

    open spec fn view(&self) -> AscEventView {
        AscEventView { timestamp: self.timestamp, text: self.text@ }
    }
}

/// One timestamped ASC record.
#[derive(Debug, Clone, PartialEq, Eq)]
pub enum AscRecord {
    /// Classic CAN or CAN FD message.
    Message(AscMessage),
    /// CAN error-frame notification.
    ErrorFrame(AscErrorFrame),
    /// Other timestamped event.
    Event(AscEvent),
}

/// [`AscRecord`] as a mathematical value.
pub enum AscRecordView {
    Message(AscMessageView),
    ErrorFrame(AscErrorFrameView),
    Event(AscEventView),
}

impl View for AscRecord {
    type V = AscRecordView;

    open spec fn view(&self) -> AscRecordView {
        match self {
            AscRecord::Message(r) => AscRecordView::Message(r@),
            AscRecord::ErrorFrame(r) => AscRecordView::ErrorFrame(r@),
            AscRecord::Event(r) => AscRecordView::Event(r@),
        }
    }
}

impl AscRecordView {
    /// Elapsed time from the beginning of the trigger block.
    pub open spec fn timestamp(self) -> Span {
        match self {
            AscRecordView::Message(r) => r.timestamp,
            AscRecordView::ErrorFrame(r) => r.timestamp,
            AscRecordView::Event(r) => r.timestamp,
        }
    }
}

impl AscRecord {
    /// Elapsed time from the beginning of the trigger block.
    pub fn timestamp(&self) -> (r: Span)
        ensures
            r == self@.timestamp(),
    {
        match self {
            AscRecord::Message(r) => r.timestamp,
            AscRecord::ErrorFrame(r) => r.timestamp,
            AscRecord::Event(r) => r.timestamp,
        }
    }
}

} // verus!
