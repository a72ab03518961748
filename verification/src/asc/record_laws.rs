//! What the records of a trace have to do with frames and with lines.

use crate::asc::error::Failure;
use crate::asc::file::{
    after_event, after_line, data_messages, previous_time, stamp_text_of, time_to_write, times_valid,
    AscFileView, Reading, StampView,
};
use crate::asc::line::{split_first_of, starts, trimmed, trimmed_start, words_of};
use crate::asc::read::{
    base_header, byte_of, bytes_of, classic_record, direction_of, dlc_read, fd_record, id_of, is_bit_word,
    mode_at, record_of,
};
use crate::asc::read_laws::{
    law_read_record_fits, lemma_bytes_length, lemma_numeral_bound, lemma_word_at,
};
use crate::asc::record::{
    frame_failure, frame_record, is_frame_of, AscEventView, AscHeaderView, AscMessageView,
    AscRecordView, Direction, NumberBase, TimestampMode,
};
use crate::asc::spell::lemma_word_end;
use crate::asc::write::record_text;
use crate::bus::CanFrame;
use crate::numeral::{magnitude, numeral, numeral_in};
use crate::span::Span;
use crate::text::{dec, is_space, same_ignore_case, upper};
use vstd::prelude::*;

verus! {

/// The data length code of a record that is made of a frame is the first one whose length holds
/// the data of the frame.
pub proof fn law_code_of_record(frame: CanFrame, channel: u32)
    requires
        frame_failure(frame, channel) is None,
    ensures
        ({
            let lengths = seq![0int, 1, 2, 3, 4, 5, 6, 7, 8, 12, 16, 20, 24, 32, 48, 64];
            let code = frame_record(frame, channel).dlc as int;
            &&& 0 <= code < 16
            &&& frame.data@.len() <= lengths[code]
            &&& code > 0 ==> lengths[code - 1] < frame.data@.len()
        }),
{
}

/// A frame is made a record unless its channel is zero or it has more data than a frame of its
/// kind can have. The record is on the channel given, has what the frame has, and is sent if the
/// frame is.
pub proof fn law_record_of_frame(frame: CanFrame, channel: u32)
    ensures
        frame_failure(frame, channel) is None <==> {
            &&& channel != 0
            &&& frame.data@.len() <= 8 || (frame.frame_type.0 % 2 == 1 && frame.data@.len() <= 64)
        },
        ({
            let v = frame_record(frame, channel);
            &&& v.timestamp == frame.elapsed
            &&& v.channel == channel
            &&& v.id == frame.id
            &&& v.direction == Direction::Tx <==> frame.is_master_frame
            &&& v.frame_type == frame.frame_type
            &&& v.data == frame.data@
            &&& !v.is_remote
            &&& !v.error_state_indicator
            &&& v.symbolic_name is None
            &&& v.fd_metadata.len() == 0
        }),
{
    let x = frame.frame_type.0;
    let id = frame.id;
    assert((x & 1 == 0) == (x % 2 == 0)) by (bit_vector);
    assert(id & 0x1FFF_FFFF <= 0x1FFF_FFFF) by (bit_vector);
}

/// The frame of a record is on the bus that the channel names, has what the record has, and is
/// sent if the record is.
pub proof fn law_frame_of_message(frame: CanFrame, v: AscMessageView)
    requires
        is_frame_of(frame, v),
    ensures
        frame.bus_id@ == dec(v.channel as nat),
        frame.id == v.id,
        frame.data@ == v.data,
        frame.is_master_frame <==> v.direction == Direction::Tx,
        frame.frame_type == v.frame_type,
        frame.elapsed == v.timestamp,
{
}

/// The frames of a trace are those of its records one after the other. A message that is no
/// remote frame has one frame; any other record has none.
pub proof fn law_frames_of_trace(a: Seq<AscRecordView>, b: Seq<AscRecordView>, r: AscRecordView)
    ensures
        data_messages(a + b) == data_messages(a) + data_messages(b),
        data_messages(seq![r]) == match r {
            AscRecordView::Message(m) => if m.is_remote {
                Seq::empty()
            } else {
                seq![m]
            },
            _ => Seq::empty(),
        },
        data_messages(Seq::empty()).len() == 0,
    decreases b.len(),
{
    let one = seq![r];
    assert(one.drop_last() =~= Seq::<AscRecordView>::empty());
    assert(data_messages(one.drop_last()) =~= Seq::<AscMessageView>::empty());
    if let AscRecordView::Message(m) = r {
        assert(Seq::<AscMessageView>::empty().push(m) =~= seq![m]);
    }
    if b.len() == 0 {
        assert(a + b =~= a);
        assert(data_messages(a) + data_messages(b) =~= data_messages(a));
    } else {
        law_frames_of_trace(a, b.drop_last(), r);
        let all = a + b;
        assert(all.drop_last() =~= a + b.drop_last());
        assert(all.last() == b.last());
        let x = data_messages(a);
        let y = data_messages(b.drop_last());
        if let AscRecordView::Message(m) = b.last() {
            assert(x + y.push(m) =~= (x + y).push(m));
        }
    }
}

/// A record is written unless it cannot stand in a trace: its channel is zero, its identifier
/// has more bits than its kind has, it has more data than a frame of its kind can have, it is a
/// remote frame with data, its code is none of CAN FD, or it is an event of several lines.
pub proof fn law_record_is_written(v: AscRecordView, base: NumberBase)
    ensures
        record_text(v, base) is Ok <==> match v {
            AscRecordView::Message(m) => {
                let fd = m.frame_type.0 % 2 == 1;
                &&& m.channel != 0
                &&& m.id < 0x800 || (0x8000_0000 <= m.id && m.id < 0xA000_0000)
                &&& m.data.len() <= 8 || (fd && m.data.len() <= 64)
                &&& fd ==> m.dlc < 16
                &&& m.is_remote ==> m.data.len() == 0
            },
            AscRecordView::ErrorFrame(e) => e.channel != 0,
            AscRecordView::Event(e) => forall|i: int|
                0 <= i < e.text.len() ==> #[trigger] e.text[i] != '\r' && e.text[i] != '\n',
        },
        forall|f: Failure|
            record_text(v, base) == Err::<Seq<char>, Failure>(f) ==> f is Write,
{
    match v {
        AscRecordView::Message(m) => {
            let x = m.frame_type.0;
            let id = m.id;
            assert((x & 1 == 0) == (x % 2 == 0)) by (bit_vector);
            assert((id & 0x6000_0000 == 0 && (id & 0x8000_0000 != 0 || id & 0x1FFF_FFFF <= 0x7ff))
                == (id < 0x800 || (0x8000_0000 <= id && id < 0xA000_0000))) by (bit_vector);
        },
        AscRecordView::ErrorFrame(_) => {},
        AscRecordView::Event(e) => {
            if forall|i: int|
                0 <= i < e.text.len() ==> #[trigger] e.text[i] != '\r' && e.text[i] != '\n' {
                assert(!e.text.contains('\r'));
                assert(!e.text.contains('\n'));
            } else {
                let i = choose|i: int|
                    0 <= i < e.text.len() && !(#[trigger] e.text[i] != '\r' && e.text[i] != '\n');
                assert(e.text.contains(e.text[i]));
            }
        },
    }
}

/// A classic message that was read has as many data bytes as its code says, at most eight, and
/// a remote one none.
pub proof fn law_classic_message_read(
    timestamp: Span,
    channel: u32,
    s: Seq<Seq<char>>,
    base: NumberBase,
    line: int,
)
    ensures
        classic_record(timestamp, channel, s, base, line) matches Ok(AscRecordView::Message(m)) ==> {
            &&& m.timestamp == timestamp
            &&& m.channel == channel
            &&& m.data.len() == if m.is_remote {
                0
            } else if m.dlc < 8 {
                m.dlc as int
            } else {
                8
            }
            &&& m.is_remote <==> same_ignore_case(s[3], "r"@)
            &&& id_of(s[1], base, line) == Ok::<u32, Failure>(m.id)
            &&& direction_of(s[2], line) == Ok::<Direction, Failure>(m.direction)
            &&& m.frame_type.0 == 0
            &&& forall|i: int|
                0 <= i < m.data.len() ==> byte_of(s[5 + i], base, line) == Ok::<u8, Failure>(
                    #[trigger] m.data[i],
                )
        },
        classic_record(timestamp, channel, s, base, line) matches Ok(
            AscRecordView::ErrorFrame(e),
        ) ==> {
            &&& same_ignore_case(s[1], "errorframe"@)
            &&& e.timestamp == timestamp
            &&& e.channel == channel
            &&& !e.is_fd
            &&& e.metadata == s.skip(2)
        },
{
    if let Ok(AscRecordView::Message(m)) = classic_record(timestamp, channel, s, base, line) {
        let length = if m.is_remote {
            0
        } else if m.dlc > 8 {
            8
        } else {
            m.dlc as int
        };
        lemma_bytes_length(s, 5, 5 + length, base, line);
        lemma_bytes_each(s, 5, 5 + length, base, line);
    }
}

proof fn lemma_bytes_each(s: Seq<Seq<char>>, from: int, to: int, base: NumberBase, line: int)
    requires
        from <= to,
    ensures
        bytes_of(s, from, to, base, line) matches Ok(data) ==> forall|i: int|
            0 <= i < data.len() ==> byte_of(s[from + i], base, line) == Ok::<u8, Failure>(
                #[trigger] data[i],
            ),
    decreases to - from,
{
    if from < to {
        lemma_bytes_each(s, from + 1, to, base, line);
        if let Ok(data) = bytes_of(s, from, to, base, line) {
            let rest = bytes_of(s, from + 1, to, base, line)->Ok_0;
            assert forall|i: int| 0 <= i < data.len() implies byte_of(s[from + i], base, line)
                == Ok::<u8, Failure>(#[trigger] data[i]) by {
                if i > 0 {
                    assert(data[i] == rest[i - 1]);
                    assert(s[from + 1 + (i - 1)] == s[from + i]);
                }
            }
        }
    }
}

/// A CAN FD message that was read has what its columns say: a channel, a direction and an
/// identifier; a name, unless a bit stands there; whether the bit rate is switched and what the
/// error state is; a code; as many data bytes as are declared, none of them in a remote frame;
/// and the columns behind those.
pub proof fn law_fd_message_read(timestamp: Span, s: Seq<Seq<char>>, base: NumberBase, line: int)
    ensures
        fd_record(timestamp, s, base, line) matches Ok(AscRecordView::Message(m)) ==> {
            let c = if s[4] == "0"@ || s[4] == "1"@ { 4int } else { 5 };
            &&& m.timestamp == timestamp
            &&& numeral(s[1], 10) == Some(m.channel as int)
            &&& m.channel != 0
            &&& direction_of(s[2], line) == Ok::<Direction, Failure>(m.direction)
            &&& id_of(s[3], base, line) == Ok::<u32, Failure>(m.id)
            &&& m.symbolic_name == if c == 5 { Some(s[4]) } else { None }
            &&& m.frame_type.0 == if s[c] == "1"@ { 3u32 } else { 1 }
            &&& s[c] == "0"@ || s[c] == "1"@
            &&& m.error_state_indicator <==> s[c + 1] == "1"@
            &&& dlc_read(s[c + 2], base, line) == Ok::<u8, Failure>(m.dlc)
            &&& numeral(s[c + 3], 10) == Some(m.data.len() as int)
            &&& m.data.len() <= 64
            &&& m.is_remote <==> m.data.len() == 0
            &&& m.fd_metadata == s.skip(c + 4 + m.data.len())
            &&& forall|i: int|
                0 <= i < m.data.len() ==> byte_of(s[c + 4 + i], base, line) == Ok::<u8, Failure>(
                    #[trigger] m.data[i],
                )
        },
        fd_record(timestamp, s, base, line) matches Ok(AscRecordView::ErrorFrame(e)) ==> {
            &&& same_ignore_case(s[3], "errorframe"@)
            &&& e.timestamp == timestamp
            &&& numeral(s[1], 10) == Some(e.channel as int)
            &&& e.is_fd
            &&& e.direction is Some
            &&& direction_of(s[2], line) == Ok::<Direction, Failure>(e.direction->Some_0)
            &&& e.metadata == s.skip(4)
        },
        !(fd_record(timestamp, s, base, line) matches Ok(AscRecordView::Event(_))),
{
    lemma_numeral_bound(s[1], 10, u32::MAX as int);
    if fd_record(timestamp, s, base, line) is Ok {
        let c = if is_bit_word(s[4]) {
            4int
        } else {
            5
        };
        if !same_ignore_case(s[3], "errorframe"@) {
            reveal_strlit("0");
            reveal_strlit("1");
            assert("0"@[0] != "1"@[0]);
            lemma_numeral_bound(s[c + 3], 10, usize::MAX as int);
            let n = numeral_in(s[c + 3], 10, usize::MAX as int)->Some_0;
            lemma_bytes_length(s, c + 4, c + 4 + n, base, line);
            lemma_bytes_each(s, c + 4, c + 4 + n, base, line);
        }
    }
}

/// What stands behind a time is a CAN FD record if its first word says so; a classic one if that
/// is a channel number and an error frame or a direction follows; and any other event otherwise.
pub proof fn law_record_kind(timestamp: Span, body: Seq<char>, base: NumberBase, line: int)
    ensures
        ({
            let s = words_of(body);
            let classic = numeral(s[0], 10) matches Some(n) && n <= 0xffff_ffff && ((s.len() > 1
                && same_ignore_case(s[1], "errorframe"@)) || (s.len() > 2 && (same_ignore_case(
                s[2],
                "rx"@,
            ) || same_ignore_case(s[2], "tx"@))));
            if s.len() == 0 {
                record_of(timestamp, body, base, line) is Err
            } else if same_ignore_case(s[0], "canfd"@) {
                record_of(timestamp, body, base, line) == fd_record(timestamp, s, base, line)
            } else if classic {
                record_of(timestamp, body, base, line) == classic_record(
                    timestamp,
                    numeral(s[0], 10)->Some_0 as u32,
                    s,
                    base,
                    line,
                )
            } else {
                record_of(timestamp, body, base, line) == Ok::<AscRecordView, Failure>(
                    AscRecordView::Event(AscEventView { timestamp, text: body }),
                )
            }
        }),
{
}

/// A byte, a code or an identifier is read as the number that its digits stand for in the base
/// of the trace; a sign before them is passed over.
pub proof fn law_numbers_read(s: Seq<char>, base: NumberBase, line: int)
    ensures
        byte_of(s, base, line) matches Ok(b) ==> numeral(
            s,
            if base == NumberBase::Hex { 16 } else { 10 },
        ) == Some(b as int),
        dlc_read(s, base, line) matches Ok(b) ==> numeral(
            s,
            if base == NumberBase::Hex { 16 } else { 10 },
        ) == Some(b as int),
        s.len() > 0 && s[0] == '+' ==> numeral(s, base.base()) == magnitude(s.skip(1), base.base()),
{
    lemma_numeral_bound(s, base.base(), u32::MAX as int);
}

/// An identifier that is read is one of 11 bits, or one of 29 bits whose word ends with an `x`.
pub proof fn law_identifier_read(s: Seq<char>, base: NumberBase, line: int)
    ensures
        id_of(s, base, line) matches Ok(id) ==> if s.len() > 0 && (s.last() == 'x' || s.last()
            == 'X') {
            0x8000_0000 <= id && id < 0xA000_0000
        } else {
            id < 0x800
        },
{
    if let Ok(id) = id_of(s, base, line) {
        let digits = if s.len() > 0 && (s.last() == 'x' || s.last() == 'X') {
            s.drop_last()
        } else {
            s
        };
        lemma_numeral_bound(digits, base.base(), u32::MAX as int);
        let v = numeral_in(digits, base.base(), u32::MAX as int)->Some_0 as u32;
        assert(v <= 0x1FFF_FFFF ==> 0x8000_0000 <= v | 0x8000_0000 && v | 0x8000_0000 < 0xA000_0000)
            by (bit_vector);
        assert(v | 0 == v) by (bit_vector);
    }
}

/// A line with a time adds at most one record, which has that time. In a trace with absolute
/// times that is the time in the line; with relative ones it is the time since the event before.
/// The start of the measurement is an event, but no record.
pub proof fn law_event_read(r: Reading, body: Seq<char>, number: int, t: Span)
    ensures
        after_event(r, body, number, StampView::At(t)) matches Ok(n) ==> {
            &&& n.file.header == r.file.header
            &&& n.last.total() == if r.file.header.timestamp_mode == TimestampMode::Relative {
                r.last.total() + t.total()
            } else {
                t.total()
            }
            &&& if same_ignore_case(body, "start of measurement"@) {
                n.file.records == r.file.records
            } else {
                &&& n.file.records.len() == r.file.records.len() + 1
                &&& n.file.records.drop_last() == r.file.records
                &&& n.file.records.last().timestamp() == n.last
            }
        },
        after_event(r, body, number, StampView::Text) == Ok::<Reading, Failure>(r),
{
    if let Ok(n) = after_event(r, body, number, StampView::At(t)) {
        if r.file.header.timestamp_mode == TimestampMode::Relative {
            let n = r.last.total() + t.total();
            assert(0 <= n < Span::limit() ==> Span::of_total(n).total() == n);
        }
        if !same_ignore_case(body, "start of measurement"@) {
            assert(n.file.records.drop_last() =~= r.file.records);
            law_read_record_fits(
                n.last,
                body,
                r.file.header.number_base,
                number,
            );
        }
    }
}

/// The time that is written for a record is its own, or, with relative times, what is left of it
/// after that of the record before; there is none if that is later. The first record is written
/// with its own time either way.
pub proof fn law_time_to_write(v: AscFileView, i: int)
    requires
        0 <= i < v.records.len(),
        times_valid(v.records),
    ensures
        ({
            let own = v.records[i].timestamp().total();
            let before = if i > 0 { v.records[i - 1].timestamp().total() } else { 0 };
            let t = time_to_write(
                v.header.timestamp_mode,
                v.records[i].timestamp(),
                previous_time(v.records, i),
            );
            if v.header.timestamp_mode == TimestampMode::Relative {
                match t {
                    Some(d) => d.total() == own - before,
                    None => own < before,
                }
            } else {
                t == Some(v.records[i].timestamp())
            }
        }),
{
    let own = v.records[i].timestamp();
    let before = previous_time(v.records, i);
    assert(own.valid());
    assert(before.valid()) by {
        if i > 0 {
            assert(v.records[i - 1].timestamp().valid());
        }
    }
    let n = own.total() - before.total();
    assert(0 <= n < Span::limit() ==> Span::of_total(n).total() == n);
}

/// An empty line and a comment say nothing. The lines of the header set what they name, and
/// leave the records. The line that begins a trigger block also starts the time anew.
pub proof fn law_line_read(r: Reading, raw: Seq<char>, number: int, mark: StampView)
    ensures
        trimmed(raw).len() == 0 ==> after_line(r, raw, number, mark) == Ok::<Reading, Failure>(r),
        trimmed(raw).len() >= 2 && trimmed(raw)[0] == '/' && trimmed(raw)[1] == '/' ==> after_line(
            r,
            raw,
            number,
            mark,
        ) == Ok::<Reading, Failure>(r),
        starts(trimmed(raw), "date "@) ==> (after_line(r, raw, number, mark) matches Ok(n) && {
            &&& n.file.header.date == Some(trimmed(trimmed(raw).skip(5)))
            &&& n.file.header.trigger_date == r.file.header.trigger_date
            &&& n.file.header.number_base == r.file.header.number_base
            &&& n.file.header.timestamp_mode == r.file.header.timestamp_mode
            &&& n.file.header.internal_events_logged == r.file.header.internal_events_logged
            &&& n.file.records == r.file.records
            &&& n.last == r.last
        }),
        starts(trimmed(raw), "begin triggerblock "@) ==> (after_line(
            r,
            raw,
            number,
            mark,
        ) matches Ok(n) && {
            &&& n.file.header.trigger_date == Some(trimmed(trimmed(raw).skip(19)))
            &&& n.file.header.date == r.file.header.date
            &&& n.file.header.number_base == r.file.header.number_base
            &&& n.file.header.timestamp_mode == r.file.header.timestamp_mode
            &&& n.file.header.internal_events_logged == r.file.header.internal_events_logged
            &&& n.file.records == r.file.records
            &&& n.last.total() == 0
        }),
        same_ignore_case(trimmed(raw), "internal events logged"@) ==> (after_line(
            r,
            raw,
            number,
            mark,
        ) matches Ok(n) && n.file.header.internal_events_logged && n.file.header.date
            == r.file.header.date && n.file.header.trigger_date == r.file.header.trigger_date
            && n.file.records == r.file.records && n.last == r.last),
        same_ignore_case(trimmed(raw), "no internal events logged"@) ==> (after_line(
            r,
            raw,
            number,
            mark,
        ) matches Ok(n) && !n.file.header.internal_events_logged && n.file.header.date
            == r.file.header.date && n.file.header.trigger_date == r.file.header.trigger_date
            && n.file.records == r.file.records && n.last == r.last),
        same_ignore_case(trimmed(raw), "end triggerblock"@) ==> after_line(r, raw, number, mark)
            == Ok::<Reading, Failure>(r),
        after_line(r, raw, number, mark) matches Ok(n) ==> n.file.records == r.file.records || (
        n.file.records.len() == r.file.records.len() + 1 && n.file.records.drop_last()
            == r.file.records && n.file.header == r.file.header && mark is At),
{
    reveal(after_line);
    reveal(same_ignore_case);
    reveal_strlit("date ");
    reveal_strlit("base ");
    reveal_strlit("internal events logged");
    reveal_strlit("no internal events logged");
    reveal_strlit("begin triggerblock ");
    reveal_strlit("end triggerblock");
    let line = trimmed(raw);
    lemma_first(line, "date "@);
    lemma_first(line, "base "@);
    lemma_first(line, "begin triggerblock "@);
    lemma_first(line, "internal events logged"@);
    lemma_first(line, "no internal events logged"@);
    lemma_first(line, "end triggerblock"@);
    if let Some((_, body)) = split_first_of(line) {
        if let StampView::At(t) = mark {
            law_event_read(r, body, number, t);
        }
    }
}

/// The text of a time is the first word of a line that has more than one and does not belong to
/// the header; what the application makes of any other line has no effect.
pub proof fn law_time_text(r: Reading, raw: Seq<char>, number: int, a: StampView, b: StampView)
    ensures
        match stamp_text_of(raw) {
            None => after_line(r, raw, number, a) == after_line(r, raw, number, b),
            Some(t) => {
                let line = trimmed(raw);
                let n = t.len() as int;
                &&& n < line.len()
                &&& t == line.subrange(0, n)
                &&& is_space(line[n])
                &&& forall|i: int| 0 <= i < n ==> !is_space(#[trigger] line[i])
                &&& after_line(r, raw, number, a) == after_event(
                    r,
                    trimmed_start(line.skip(n)),
                    number,
                    a,
                )
            },
        },
{
    reveal(after_line);
    let line = trimmed(raw);
    lemma_word_at(line, 0);
    lemma_word_end(line, 0);
}

proof fn lemma_mode_at(s: Seq<Seq<char>>, i: int)
    requires
        0 <= i <= s.len(),
    ensures
        i <= mode_at(s, i) <= s.len(),
        mode_at(s, i) < s.len() ==> same_ignore_case(s[mode_at(s, i)], "timestamps"@),
        forall|k: int|
            i <= k < mode_at(s, i) ==> !same_ignore_case(#[trigger] s[k], "timestamps"@),
    decreases s.len() - i,
{
    if i < s.len() && !same_ignore_case(s[i], "timestamps"@) {
        lemma_mode_at(s, i + 1);
    }
}

/// The line of the base sets the base that its second word names, and what times are meant if the
/// word behind the first `timestamps` says so; it leaves the rest of the header. A base or a
/// meaning of any other name is refused.
pub proof fn law_base_read(h: AscHeaderView, text: Seq<char>, line: int, k: int)
    ensures
        ({
            let s = words_of(text);
            let first = 0 <= k < s.len() && same_ignore_case(s[k], "timestamps"@) && forall|j: int|
                0 <= j < k ==> !same_ignore_case(#[trigger] s[j], "timestamps"@);
            match base_header(h, text, line) {
                Ok(n) => {
                    &&& s.len() >= 2
                    &&& same_ignore_case(s[1], "hex"@) ==> n.number_base == NumberBase::Hex
                    &&& !same_ignore_case(s[1], "hex"@) ==> n.number_base == NumberBase::Decimal
                        && same_ignore_case(s[1], "dec"@)
                    &&& first ==> k + 1 < s.len() && (if same_ignore_case(s[k + 1], "absolute"@) {
                        n.timestamp_mode == TimestampMode::Absolute
                    } else {
                        n.timestamp_mode == TimestampMode::Relative && same_ignore_case(
                            s[k + 1],
                            "relative"@,
                        )
                    })
                    &&& (forall|j: int|
                        0 <= j < s.len() ==> !same_ignore_case(#[trigger] s[j], "timestamps"@))
                        ==> n.timestamp_mode == h.timestamp_mode
                    &&& n.date == h.date
                    &&& n.trigger_date == h.trigger_date
                    &&& n.internal_events_logged == h.internal_events_logged
                },
                Err(Failure::Parse(l, _)) => l == line,
                Err(_) => false,
            }
        }),
{
    let s = words_of(text);
    lemma_mode_at(s, 0);
    let at = mode_at(s, 0);
    if 0 <= k < s.len() && same_ignore_case(s[k], "timestamps"@) && (forall|j: int|
        0 <= j < k ==> !same_ignore_case(#[trigger] s[j], "timestamps"@)) {
        if at < k {
            assert(!same_ignore_case(s[at], "timestamps"@));
        }
        if k < at {
            assert(!same_ignore_case(s[k], "timestamps"@));
        }
        assert(at == k);
    }
    if at < s.len() {
        assert(same_ignore_case(s[at], "timestamps"@));
    }
}

/// A direction is one of two words, in either case.
pub proof fn law_direction_read(s: Seq<char>, line: int)
    ensures
        direction_of(s, line) == Ok::<Direction, Failure>(Direction::Rx) <==> same_ignore_case(
            s,
            "rx"@,
        ),
        direction_of(s, line) == Ok::<Direction, Failure>(Direction::Tx) <==> same_ignore_case(
            s,
            "tx"@,
        ),
{
    reveal_strlit("rx");
    reveal_strlit("tx");
    reveal(same_ignore_case);
    if same_ignore_case(s, "rx"@) && same_ignore_case(s, "tx"@) {
        assert(upper(s[0]) == upper("rx"@[0]));
        assert(upper(s[0]) == upper("tx"@[0]));
    }
}

proof fn lemma_first(line: Seq<char>, prefix: Seq<char>)
    requires
        prefix.len() >= 2,
    ensures
        starts(line, prefix) ==> line.len() >= prefix.len() && upper(line[0]) == upper(prefix[0])
            && upper(line[1]) == upper(prefix[1]),
        same_ignore_case(line, prefix) ==> line.len() == prefix.len() && upper(line[0]) == upper(
            prefix[0],
        ) && upper(line[1]) == upper(prefix[1]),
{
    reveal(same_ignore_case);
    if starts(line, prefix) {
        let head = line.subrange(0, prefix.len() as int);
        assert(upper(head[0]) == upper(prefix[0]));
        assert(upper(head[1]) == upper(prefix[1]));
    }
}

} // verus!
