//! ASC traces as a whole.

use crate::asc::error::{parse_error, Error, Failure, Result};
use crate::asc::line::{
    lines, lines_of, split_first, split_first_of, starts, starts_ascii, strip_ascii_prefix, trim,
    trimmed,
};
use crate::asc::read::{base_header, parse_base_header, parse_record, record_of};
use crate::asc::record::{
    is_frame_of, frame_failure, frame_record, AscHeader, AscHeaderView, AscMessage, AscMessageView,
    AscRecord, AscRecordView, TimestampMode,
};
use crate::asc::write::{record_text, write_record};
use crate::bus::CanFrame;
use crate::span::Span;
use crate::text::{eq_ignore_case, same_ignore_case};
use crate::views::{append, none_yet, views};
use vstd::prelude::*;

verus! {

/// What the text at the start of a line is as a number of seconds.
#[derive(Debug, Clone, PartialEq, Eq)]
pub enum Stamp {
    /// No number.
    Text,
    /// A number, given by its text, that no length of time has.
    OutOfRange(String),
    /// A length of time.
    At(Span),
}

/// [`Stamp`] as a mathematical value.
pub enum StampView {
    Text,
    OutOfRange(Seq<char>),
    At(Span),
}

impl View for Stamp {
    type V = StampView;

    open spec fn view(&self) -> StampView {
        match self {
            Stamp::Text => StampView::Text,
            Stamp::OutOfRange(s) => StampView::OutOfRange(s@),
            Stamp::At(t) => StampView::At(*t),
        }
    }
}

/// In-memory Vector ASC file.
#[derive(Debug, Clone, PartialEq, Eq)]
pub struct AscFile {
    /// File and trigger-block metadata.
    pub header: AscHeader,
    /// Timestamped records in file order.
    pub records: Vec<AscRecord>,
}

/// [`AscFile`] as a mathematical value.
pub struct AscFileView {
    pub header: AscHeaderView,
    pub records: Seq<AscRecordView>,
}

impl View for AscFile {
    type V = AscFileView;

    open spec fn view(&self) -> AscFileView {
        AscFileView { header: self.header@, records: views(self.records@) }
    }
}

impl Default for AscFile {
    fn default() -> (r: Self)
        ensures
            r@ == AscFile::blank(),
    {
        AscFile { header: AscHeader::default(), records: none_yet() }
    }
}

/// What has been read of a trace, and the time of the last line with a timestamp.
pub struct Reading {
    pub file: AscFileView,
    pub last: Span,
}

/// No time at all.
pub open spec fn no_time() -> Span {
    Span { secs: 0, nanos: 0 }
}

/// Whether a line says nothing: it is empty or a comment.
pub open spec fn is_silent(line: Seq<char>) -> bool {
    line.len() == 0 || (line.len() >= 2 && line[0] == '/' && line[1] == '/')
}

/// Whether a line belongs to the header.
pub open spec fn is_header_line(line: Seq<char>) -> bool {
    ||| starts(line, "date "@)
    ||| starts(line, "base "@)
    ||| same_ignore_case(line, "internal events logged"@)
    ||| same_ignore_case(line, "no internal events logged"@)
    ||| starts(line, "begin triggerblock "@)
    ||| same_ignore_case(line, "end triggerblock"@)
}

/// The text of a line that may be a timestamp.
pub open spec fn stamp_text_of(line: Seq<char>) -> Option<Seq<char>> {
    let line = trimmed(line);
    if is_silent(line) || is_header_line(line) {
        None
    } else {
        match split_first_of(line) {
            Some((a, _)) => Some(a),
            None => None,
        }
    }
}

/// What a line with a timestamp makes of what has been read.
pub open spec fn after_event(
    r: Reading,
    body: Seq<char>,
    number: int,
    stamp: StampView,
) -> std::result::Result<Reading, Failure> {
    match stamp {
        StampView::Text => Ok(r),
        StampView::OutOfRange(value) => Err(
            Failure::Parse(
                number,
                "timestamp "@ + value + " is outside Duration's range"@,
            ),
        ),
        StampView::At(t) => {
            let time = match r.file.header.timestamp_mode {
                TimestampMode::Absolute => Some(t),
                TimestampMode::Relative => r.last.sum(t),
            };
            match time {
                None => Err(Failure::Parse(number, "relative timestamp overflow"@)),
                Some(time) => if same_ignore_case(body, "start of measurement"@) {
                    Ok(Reading { last: time, ..r })
                } else {
                    match record_of(time, body, r.file.header.number_base, number) {
                        Err(f) => Err(f),
                        Ok(record) => Ok(
                            Reading {
                                file: AscFileView {
                                    records: r.file.records.push(record),
                                    ..r.file
                                },
                                last: time,
                            },
                        ),
                    }
                },
            }
        },
    }
}

/// With another header.
pub open spec fn with_header(r: Reading, header: AscHeaderView) -> Reading {
    Reading { file: AscFileView { header, ..r.file }, ..r }
}

/// What a line makes of what has been read.
#[verifier::opaque]
pub open spec fn after_line(r: Reading, raw: Seq<char>, number: int, stamp: StampView) -> std::result::Result<
    Reading,
    Failure,
> {
    let line = trimmed(raw);
    let h = r.file.header;
    if is_silent(line) {
        Ok(r)
    } else if starts(line, "date "@) {
        Ok(with_header(r, AscHeaderView { date: Some(trimmed(line.skip(5))), ..h }))
    } else if starts(line, "base "@) {
        match base_header(h, line, number) {
            Err(f) => Err(f),
            Ok(h) => Ok(with_header(r, h)),
        }
    } else if same_ignore_case(line, "internal events logged"@) {
        Ok(with_header(r, AscHeaderView { internal_events_logged: true, ..h }))
    } else if same_ignore_case(line, "no internal events logged"@) {
        Ok(with_header(r, AscHeaderView { internal_events_logged: false, ..h }))
    } else if starts(line, "begin triggerblock "@) {
        Ok(
            Reading {
                last: no_time(),
                ..with_header(r, AscHeaderView { trigger_date: Some(trimmed(line.skip(19))), ..h })
            },
        )
    } else if same_ignore_case(line, "end triggerblock"@) {
        Ok(r)
    } else {
        match split_first_of(line) {
            None => Ok(r),
            Some((_, body)) => after_event(r, body, number, stamp),
        }
    }
}

/// What the lines from an index on make of what has been read.
pub open spec fn after_lines(
    r: Reading,
    lines: Seq<Seq<char>>,
    stamps: Seq<StampView>,
    i: int,
) -> std::result::Result<Reading, Failure>
    decreases lines.len() - i,
{
    if i < 0 || i >= lines.len() {
        Ok(r)
    } else {
        match after_line(r, lines[i], i + 1, stamps[i]) {
            Err(f) => Err(f),
            Ok(n) => after_lines(n, lines, stamps, i + 1),
        }
    }
}

/// The trace that a text stands for, or how reading it fails.
pub open spec fn parsed(text: Seq<char>, stamps: Seq<StampView>) -> std::result::Result<
    AscFileView,
    Failure,
> {
    match after_lines(
        Reading { file: AscFile::blank(), last: no_time() },
        lines_of(text),
        stamps,
        0,
    ) {
        Err(f) => Err(f),
        Ok(r) => Ok(r.file),
    }
}

/// Whether the lengths of time are valid.
pub open spec fn stamps_valid(stamps: Seq<Stamp>) -> bool {
    forall|i: int| 0 <= i < stamps.len() ==> (#[trigger] stamps[i] matches Stamp::At(t) ==> t.valid())
}

/// Whether the timestamps of records are valid.
pub open spec fn times_valid(records: Seq<AscRecordView>) -> bool {
    forall|i: int| 0 <= i < records.len() ==> (#[trigger] records[i]).timestamp().valid()
}

/// The texts of the lines that may be timestamps, one for each line.
pub fn stamp_texts(input: &str) -> (r: Vec<Option<String>>)
    ensures
        r@.len() == lines_of(input@).len(),
        forall|i: int|
            0 <= i < r@.len() ==> match #[trigger] r@[i] {
                Some(s) => stamp_text_of(lines_of(input@)[i]) == Some(s@),
                None => stamp_text_of(lines_of(input@)[i]) is None,
            },
{
    let all = lines(input);
    let mut out: Vec<Option<String>> = Vec::new();
    let mut i: usize = 0;
    while i < all.len()
        invariant
            i <= all@.len(),
            views(all@) == lines_of(input@),
            out@.len() == i,
            forall|j: int|
                0 <= j < i ==> match #[trigger] out@[j] {
                    Some(s) => stamp_text_of(lines_of(input@)[j]) == Some(s@),
                    None => stamp_text_of(lines_of(input@)[j]) is None,
                },
        decreases all@.len() - i,
    {
        proof {
            assert(lines_of(input@)[i as int] == all@[i as int]@);
        }
        out.push(stamp_text(all[i].as_str()));
        i += 1;
    }
    out
}

/// Whether a line is empty or a comment.
fn silent(line: &str) -> (r: bool)
    ensures
        r == is_silent(line@),
{
    let n: usize = line.unicode_len();
    n == 0 || (n >= 2 && line.get_char(0) == '/' && line.get_char(1) == '/')
}

fn stamp_text(raw: &str) -> (r: Option<String>)
    ensures
        match r {
            Some(s) => stamp_text_of(raw@) == Some(s@),
            None => stamp_text_of(raw@) is None,
        },
{
    let trimmed_line = trim(raw);
    let line = trimmed_line.as_str();
    if silent(line) || starts_ascii(line, "date ") || starts_ascii(line, "base ")
        || eq_ignore_case(line, "internal events logged") || eq_ignore_case(
        line,
        "no internal events logged",
    ) || starts_ascii(line, "begin triggerblock ") || eq_ignore_case(line, "end triggerblock") {
        return None;
    }
    match split_first(line) {
        Some((a, _)) => Some(a),
        None => None,
    }
}

/// The message frames among records that are no remote frames, in order.
pub open spec fn data_messages(s: Seq<AscRecordView>) -> Seq<AscMessageView>
    decreases s.len(),
{
    if s.len() == 0 {
        Seq::empty()
    } else {
        match s.last() {
            AscRecordView::Message(m) if !m.is_remote => data_messages(s.drop_last()).push(m),
            _ => data_messages(s.drop_last()),
        }
    }
}

/// Whether frames are those of data records.
pub open spec fn are_frames_of(frames: Seq<CanFrame>, s: Seq<AscMessageView>) -> bool {
    &&& frames.len() == s.len()
    &&& forall|i: int| 0 <= i < s.len() ==> is_frame_of(#[trigger] frames[i], s[i])
}

/// The time that is written for a record: its own, or the time since the record before it.
pub open spec fn time_to_write(mode: TimestampMode, elapsed: Span, previous: Span) -> Option<Span> {
    match mode {
        TimestampMode::Absolute => Some(elapsed),
        TimestampMode::Relative => elapsed.difference(previous),
    }
}

/// The time of the record before an index.
pub open spec fn previous_time(s: Seq<AscRecordView>, i: int) -> Span {
    if i > 0 {
        s[i - 1].timestamp()
    } else {
        no_time()
    }
}

/// The lines of the records from an index on behind a text, or how one is refused.
pub open spec fn records_text(
    v: AscFileView,
    stamps: Seq<Seq<char>>,
    i: int,
    text: Seq<char>,
) -> std::result::Result<Seq<char>, Failure>
    decreases v.records.len() - i,
{
    if i < 0 || i >= v.records.len() {
        Ok(text)
    } else if time_to_write(
        v.header.timestamp_mode,
        v.records[i].timestamp(),
        previous_time(v.records, i),
    ) is None {
        Err(Failure::Write("records are not ordered by timestamp"@))
    } else {
        match record_text(v.records[i], v.header.number_base) {
            Err(f) => Err(f),
            Ok(s) => records_text(v, stamps, i + 1, text + stamps[i] + " "@ + s + "\n"@),
        }
    }
}

/// The header of a written trace.
pub open spec fn header_text(h: AscHeaderView) -> Seq<char> {
    let s = match h.date {
        Some(date) => "date "@ + date + "\n"@,
        None => Seq::empty(),
    };
    let trigger = match h.trigger_date {
        Some(d) => d,
        None => match h.date {
            Some(d) => d,
            None => "Thu Jan 01 00:00:00.000 1970"@,
        },
    };
    s + "base "@ + h.number_base.word() + "  timestamps "@ + h.timestamp_mode.word() + "\n"@ + (
    if h.internal_events_logged {
        ""@
    } else {
        "no "@
    }) + "internal events logged\n"@ + "Begin Triggerblock "@ + trigger + "\n"@
        + " 0.000000 Start of measurement\n"@
}

/// A written trace, or how it is refused.
pub open spec fn file_text(v: AscFileView, stamps: Seq<Seq<char>>) -> std::result::Result<
    Seq<char>,
    Failure,
> {
    match records_text(v, stamps, 0, header_text(v.header)) {
        Err(f) => Err(f),
        Ok(s) => Ok(s + "End TriggerBlock\n"@),
    }
}

impl AscFile {
    /// A trace without records.
    pub open spec fn blank() -> AscFileView {
        AscFileView { header: AscHeader::blank(), records: Seq::empty() }
    }

    /// Creates an empty ASC file with a deterministic epoch header.
    pub fn new() -> (r: Self)
        ensures
            r@ == AscFile::blank(),
    {
        AscFile::default()
    }

    /// Parses ASC text. There is a stamp for each line: what the text that [`stamp_texts`]
    /// gives for it is as a number.
    pub fn parse(input: &str, stamps: &Vec<Stamp>) -> (r: Result<Self>)
        requires
            stamps@.len() == lines_of(input@).len(),
            stamps_valid(stamps@),
        ensures
            match r {
                Ok(v) => parsed(input@, views(stamps@)) == Ok::<AscFileView, Failure>(v@),
                Err(e) => parsed(input@, views(stamps@)) == Err::<AscFileView, Failure>(e@),
            },
    {
        let all = lines(input);
        let mut file = AscFile::new();
        let mut last = Span { secs: 0, nanos: 0 };
        let mut i: usize = 0;
        let ghost s = lines_of(input@);
        let ghost start = Reading { file: AscFile::blank(), last: no_time() };
        while i < all.len()
            invariant
                i <= all@.len(),
                s == lines_of(input@),
                views(all@) == s,
                stamps@.len() == s.len(),
                stamps_valid(stamps@),
                last.valid(),
                start == (Reading { file: AscFile::blank(), last: no_time() }),
                after_lines(start, s, views(stamps@), 0) == after_lines(
                    Reading { file: file@, last },
                    s,
                    views(stamps@),
                    i as int,
                ),
            decreases all@.len() - i,
        {
            proof {
                assert(s[i as int] == all@[i as int]@);
                assert(views(stamps@)[i as int] == stamps@[i as int]@);
            }
            file.read_line(&mut last, all[i].as_str(), i + 1, &stamps[i])?;
            i += 1;
        }
        Ok(file)
    }

    fn read_line(&mut self, last: &mut Span, raw: &str, number: usize, stamp: &Stamp) -> (r: Result<
        (),
    >)
        requires
            old(last).valid(),
            stamp matches Stamp::At(t) ==> t.valid(),
        ensures
            match r {
                Ok(()) => {
                    &&& after_line(
                        Reading { file: old(self)@, last: *old(last) },
                        raw@,
                        number as int,
                        stamp@,
                    ) == Ok::<Reading, Failure>(Reading { file: final(self)@, last: *final(last) })
                    &&& final(last).valid()
                },
                Err(e) => after_line(
                    Reading { file: old(self)@, last: *old(last) },
                    raw@,
                    number as int,
                    stamp@,
                ) == Err::<Reading, Failure>(e@),
            },
    {
        let trimmed_line = trim(raw);
        let line = trimmed_line.as_str();
        proof {
            reveal(after_line);
            reveal_strlit("date ");
            reveal_strlit("begin triggerblock ");
        }
        if silent(line) {
            return Ok(());
        }
        if let Some(value) = strip_ascii_prefix(line, "date ") {
            self.header.date = Some(trim(value.as_str()));
            return Ok(());
        }
        if starts_ascii(line, "base ") {
            parse_base_header(line, number, &mut self.header)?;
            return Ok(());
        }
        if eq_ignore_case(line, "internal events logged") {
            self.header.internal_events_logged = true;
            return Ok(());
        }
        if eq_ignore_case(line, "no internal events logged") {
            self.header.internal_events_logged = false;
            return Ok(());
        }
        if let Some(value) = strip_ascii_prefix(line, "begin triggerblock ") {
            self.header.trigger_date = Some(trim(value.as_str()));
            *last = Span { secs: 0, nanos: 0 };
            return Ok(());
        }
        if eq_ignore_case(line, "end triggerblock") {
            return Ok(());
        }
        match split_first(line) {
            None => Ok(()),
            Some((_, body)) => self.read_event(last, body.as_str(), number, stamp),
        }
    }

    fn read_event(&mut self, last: &mut Span, body: &str, number: usize, stamp: &Stamp) -> (r:
        Result<()>)
        requires
            old(last).valid(),
            stamp matches Stamp::At(t) ==> t.valid(),
        ensures
            match r {
                Ok(()) => {
                    &&& after_event(
                        Reading { file: old(self)@, last: *old(last) },
                        body@,
                        number as int,
                        stamp@,
                    ) == Ok::<Reading, Failure>(Reading { file: final(self)@, last: *final(last) })
                    &&& final(last).valid()
                },
                Err(e) => after_event(
                    Reading { file: old(self)@, last: *old(last) },
                    body@,
                    number as int,
                    stamp@,
                ) == Err::<Reading, Failure>(e@),
            },
    {
        let t: Span = match stamp {
            Stamp::Text => {
                return Ok(());
            },
            Stamp::OutOfRange(value) => {
                let mut m = "timestamp ".to_string();
                m.append(value.as_str());
                m.append(" is outside Duration's range");
                return Err(parse_error(number, m));
            },
            Stamp::At(t) => *t,
        };
        let time: Span = match self.header.timestamp_mode {
            TimestampMode::Absolute => t,
            TimestampMode::Relative => match last.checked_add(t) {
                Some(time) => time,
                None => {
                    return Err(parse_error(number, "relative timestamp overflow".to_string()));
                },
            },
        };
        *last = time;
        if eq_ignore_case(body, "start of measurement") {
            return Ok(());
        }
        let record = parse_record(time, body, self.header.number_base, number)?;
        append(&mut self.records, record);
        Ok(())
    }

    /// The times that are written, one for each record; none where a record is before the one
    /// that precedes it.
    pub fn times_to_write(&self) -> (r: Vec<Option<Span>>)
        requires
            times_valid(self@.records),
        ensures
            r@.len() == self@.records.len(),
            forall|i: int|
                0 <= i < r@.len() ==> #[trigger] r@[i] == time_to_write(
                    self@.header.timestamp_mode,
                    self@.records[i].timestamp(),
                    previous_time(self@.records, i),
                ),
    {
        let mut out: Vec<Option<Span>> = Vec::new();
        let mut previous = Span { secs: 0, nanos: 0 };
        let mut i: usize = 0;
        while i < self.records.len()
            invariant
                i <= self.records@.len(),
                times_valid(self@.records),
                previous == previous_time(self@.records, i as int),
                previous.valid(),
                out@.len() == i,
                forall|j: int|
                    0 <= j < i ==> #[trigger] out@[j] == time_to_write(
                        self@.header.timestamp_mode,
                        self@.records[j].timestamp(),
                        previous_time(self@.records, j),
                    ),
            decreases self.records@.len() - i,
        {
            let elapsed: Span = self.records[i].timestamp();
            proof {
                assert(self@.records[i as int] == self.records@[i as int]@);
            }
            out.push(
                match self.header.timestamp_mode {
                    TimestampMode::Absolute => Some(elapsed),
                    TimestampMode::Relative => elapsed.checked_sub(previous),
                },
            );
            previous = elapsed;
            i += 1;
        }
        out
    }

    /// Serializes this file as CANoe/CANalyzer-compatible ASC text. There is a stamp for each
    /// record: the time that [`AscFile::times_to_write`] gives for it, as text.
    pub fn write(&self, stamps: &Vec<String>) -> (r: Result<String>)
        requires
            stamps@.len() == self@.records.len(),
            times_valid(self@.records),
        ensures
            match r {
                Ok(s) => file_text(self@, views(stamps@)) == Ok::<Seq<char>, Failure>(s@),
                Err(e) => file_text(self@, views(stamps@)) == Err::<Seq<char>, Failure>(e@),
            },
    {
        let mut output = self.header_string();
        let times = self.times_to_write();
        let mut i: usize = 0;
        while i < self.records.len()
            invariant
                i <= self.records@.len(),
                stamps@.len() == self@.records.len(),
                times@.len() == self@.records.len(),
                forall|j: int|
                    0 <= j < times@.len() ==> #[trigger] times@[j] == time_to_write(
                        self@.header.timestamp_mode,
                        self@.records[j].timestamp(),
                        previous_time(self@.records, j),
                    ),
                records_text(self@, views(stamps@), 0, header_text(self@.header)) == records_text(
                    self@,
                    views(stamps@),
                    i as int,
                    output@,
                ),
            decreases self.records@.len() - i,
        {
            proof {
                assert(self@.records[i as int] == self.records@[i as int]@);
                assert(views(stamps@)[i as int] == stamps@[i as int]@);
            }
            if times[i].is_none() {
                return Err(Error::Write("records are not ordered by timestamp".to_string()));
            }
            let body = write_record(&self.records[i], self.header.number_base)?;
            output.append(stamps[i].as_str());
            output.append(" ");
            output.append(body.as_str());
            output.append("\n");
            i += 1;
        }
        output.append("End TriggerBlock\n");
        Ok(output)
    }

    fn header_string(&self) -> (r: String)
        ensures
            r@ == header_text(self@.header),
    {
        let mut s = crate::views::no_text();
        if let Some(date) = &self.header.date {
            s = "date ".to_string();
            s.append(date.as_str());
            s.append("\n");
        }
        s.append("base ");
        s.append(self.header.number_base.keyword());
        s.append("  timestamps ");
        s.append(self.header.timestamp_mode.keyword());
        s.append("\n");
        if self.header.internal_events_logged {
            s.append("");
        } else {
            s.append("no ");
        }
        s.append("internal events logged\n");
        s.append("Begin Triggerblock ");
        match &self.header.trigger_date {
            Some(d) => s.append(d.as_str()),
            None => match &self.header.date {
                Some(d) => s.append(d.as_str()),
                None => s.append("Thu Jan 01 00:00:00.000 1970"),
            },
        }
        s.append("\n");
        s.append(" 0.000000 Start of measurement\n");
        s
    }

    /// Adds a shared CAN data frame on the given one-based ASC channel.
    pub fn add_can_frame(&mut self, frame: &CanFrame, channel: u32) -> (r: Result<()>)
        ensures
            match r {
                Ok(()) => {
                    &&& frame_failure(*frame, channel) is None
                    &&& final(self)@ == (AscFileView {
                        records: old(self)@.records.push(
                            AscRecordView::Message(frame_record(*frame, channel)),
                        ),
                        ..old(self)@
                    })
                },
                Err(e) => frame_failure(*frame, channel) == Some(e@) && final(self)@ == old(self)@,
            },
    {
        let message = AscMessage::from_can_frame(frame, channel)?;
        append(&mut self.records, AscRecord::Message(message));
        Ok(())
    }

    /// Returns all non-remote data frames in file order.
    pub fn can_frames(&self) -> (r: Vec<CanFrame>)
        ensures
            are_frames_of(r@, data_messages(self@.records)),
    {
        let ghost all = self@.records;
        let mut out: Vec<CanFrame> = Vec::new();
        let mut i: usize = 0;
        proof {
            assert(all.subrange(0, 0) =~= Seq::<AscRecordView>::empty());
        }
        while i < self.records.len()
            invariant
                i <= self.records@.len(),
                all == views(self.records@),
                are_frames_of(out@, data_messages(all.subrange(0, i as int))),
            decreases self.records@.len() - i,
        {
            proof {
                let next = all.subrange(0, i + 1);
                assert(next.drop_last() =~= all.subrange(0, i as int));
                assert(next.last() == self.records@[i as int]@);
            }
            if let AscRecord::Message(m) = &self.records[i] {
                if let Some(f) = m.to_can_frame() {
                    out.push(f);
                }
            }
            i += 1;
        }
        proof {
            assert(all.subrange(0, i as int) =~= all);
        }
        out
    }
}

} // verus!
