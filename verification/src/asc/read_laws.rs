//! What every trace that was read has, and what it is once it is written and read again.

use crate::asc::file::{
    after_event, after_line, after_lines, file_text, header_text, no_time, parsed, previous_time,
    records_text, time_to_write, times_valid, AscFile, AscFileView, Reading, StampView,
};
use crate::asc::file_laws::{
    completed, entry_fits, event_stands, file_fits, header_fits, is_line_text, is_one_line,
    law_records_of_written, lemma_default_date, lemma_line_end_bound, lemma_trimmed_end, marks_fit,
    stamp_fits,
};
use crate::asc::laws::record_fits;
use crate::asc::line::{
    lines_from, lines_of, space_end, split_first_of, starts, trimmed, trimmed_start, word_end,
    words_from, words_of,
};
use crate::asc::read::{
    bytes_of, classic_record, direction_of, fd_message, fd_record, id_of, is_bit_word, record_of,
};
use crate::asc::record::{AscRecordView, Direction, NumberBase, TimestampMode};
use crate::asc::spell::{is_word, lemma_space_end, lemma_word_end};
use crate::asc::write::record_text;
use crate::numeral::{lemma_digits_grow, numeral_in};
use crate::span::Span;
use crate::text::{is_space, line_end, same_ignore_case, trimmed_end, upper};
use vstd::prelude::*;

verus! {

pub(crate) proof fn lemma_word_at(s: Seq<char>, i: int)
    requires
        0 <= i <= s.len(),
    ensures
        forall|k: int| i <= k < word_end(s, i) ==> !is_space(#[trigger] s[k]),
        word_end(s, i) < s.len() ==> is_space(s[word_end(s, i)]),
    decreases s.len() - i,
{
    if i < s.len() && !is_space(s[i]) {
        lemma_word_at(s, i + 1);
    }
}

proof fn lemma_words_from(s: Seq<char>, i: int)
    requires
        0 <= i <= s.len(),
    ensures
        forall|k: int| 0 <= k < words_from(s, i).len() ==> is_word(#[trigger] words_from(s, i)[k]),
    decreases s.len() - i,
{
    let start = space_end(s, i);
    lemma_space_end(s, i);
    if start < s.len() {
        let end = word_end(s, start);
        lemma_word_end(s, start);
        lemma_word_at(s, start);
        lemma_words_from(s, end);
        let w = s.subrange(start, end);
        assert(is_word(w)) by {
            reveal(is_word);
            assert forall|k: int| 0 <= k < w.len() implies !is_space(#[trigger] w[k]) by {
                assert(w[k] == s[start + k]);
            }
        }
        let all = words_from(s, i);
        let rest = words_from(s, end);
        assert(all == seq![w] + rest);
        assert forall|k: int| 0 <= k < all.len() implies is_word(#[trigger] all[k]) by {
            if k > 0 {
                assert(all[k] == rest[k - 1]);
            }
        }
    }
}

/// The words of a text are not empty and hold no whitespace.
pub proof fn law_words_are_words(s: Seq<char>)
    ensures
        forall|k: int| 0 <= k < words_of(s).len() ==> is_word(#[trigger] words_of(s)[k]),
{
    lemma_words_from(s, 0);
}

pub(crate) proof fn lemma_bytes_length(s: Seq<Seq<char>>, from: int, to: int, base: NumberBase, line: int)
    requires
        from <= to,
    ensures
        bytes_of(s, from, to, base, line) matches Ok(data) ==> data.len() == to - from,
    decreases to - from,
{
    if from < to {
        lemma_bytes_length(s, from + 1, to, base, line);
    }
}

pub(crate) proof fn lemma_numeral_bound(w: Seq<char>, radix: int, max: int)
    requires
        2 <= radix,
    ensures
        numeral_in(w, radix, max) matches Some(n) ==> 0 <= n <= max,
{
    lemma_digits_grow(w, 0, radix);
    if w.len() > 0 {
        lemma_digits_grow(w.skip(1), 0, radix);
    }
}

/// Whether a record is a CAN FD message without columns behind its payload: it is written with
/// columns of its own.
pub open spec fn lacks_columns(v: AscRecordView) -> bool {
    v matches AscRecordView::Message(m) && !m.frame_type.spec_is_classic() && m.fd_metadata.len()
        == 0
}

proof fn lemma_classic_read(
    timestamp: Span,
    channel: u32,
    s: Seq<Seq<char>>,
    base: NumberBase,
    line: int,
)
    requires
        forall|k: int| 0 <= k < s.len() ==> is_word(#[trigger] s[k]),
    ensures
        classic_record(timestamp, channel, s, base, line) matches Ok(v) ==> record_fits(v)
            && v.timestamp() == timestamp && !(v is Event),
{
    if let Ok(v) = classic_record(timestamp, channel, s, base, line) {
        match v {
            AscRecordView::Message(m) => {
                let length = if m.is_remote {
                    0
                } else if m.dlc > 8 {
                    8
                } else {
                    m.dlc as int
                };
                lemma_bytes_length(s, 5, 5 + length, base, line);
            },
            AscRecordView::ErrorFrame(e) => {
                assert forall|i: int| 0 <= i < e.metadata.len() implies is_word(
                    #[trigger] e.metadata[i],
                ) by {
                    assert(e.metadata[i] == s[i + 2]);
                }
            },
            AscRecordView::Event(_) => {},
        }
    }
}

proof fn lemma_fd_message_read(
    timestamp: Span,
    channel: u32,
    direction: Direction,
    id: u32,
    s: Seq<Seq<char>>,
    c: int,
    base: NumberBase,
    line: int,
)
    requires
        c == 4 || c == 5,
        s.len() >= c + 4,
        c == 5 ==> !is_bit_word(s[4]),
        forall|k: int| 0 <= k < s.len() ==> is_word(#[trigger] s[k]),
    ensures
        fd_message(timestamp, channel, direction, id, s, c, base, line) matches Ok(v) ==> (
        record_fits(v) || lacks_columns(v)) && v.timestamp() == timestamp && !(v is Event),
{
    assert(1u32 & 1 == 1 && 3u32 & 1 == 1) by (bit_vector);
    if let Ok(v) = fd_message(timestamp, channel, direction, id, s, c, base, line) {
        if let AscRecordView::Message(m) = v {
            let n = numeral_in(s[c + 3], 10, usize::MAX as int)->Some_0;
            lemma_numeral_bound(s[c + 3], 10, usize::MAX as int);
            lemma_bytes_length(s, c + 4, c + 4 + n, base, line);
            assert(m.fd_metadata == s.skip(c + 4 + n));
            assert forall|i: int| 0 <= i < m.fd_metadata.len() implies is_word(
                #[trigger] m.fd_metadata[i],
            ) by {
                assert(m.fd_metadata[i] == s[c + 4 + n + i]);
            }
        }
    }
}

proof fn lemma_fd_read(timestamp: Span, s: Seq<Seq<char>>, base: NumberBase, line: int)
    requires
        forall|k: int| 0 <= k < s.len() ==> is_word(#[trigger] s[k]),
    ensures
        fd_record(timestamp, s, base, line) matches Ok(v) ==> (record_fits(v) || lacks_columns(v))
            && v.timestamp() == timestamp && !(v is Event),
{
    if let Ok(v) = fd_record(timestamp, s, base, line) {
        let channel = numeral_in(s[1], 10, u32::MAX as int)->Some_0 as u32;
        lemma_numeral_bound(s[1], 10, u32::MAX as int);
        let direction = direction_of(s[2], line)->Ok_0;
        if !same_ignore_case(s[3], "errorframe"@) {
            let id = id_of(s[3], base, line)->Ok_0;
            let c: int = if is_bit_word(s[4]) {
                4
            } else {
                5
            };
            lemma_fd_message_read(timestamp, channel, direction, id, s, c, base, line);
        }
        match v {
            AscRecordView::Message(_) => {},
            AscRecordView::ErrorFrame(e) => {
                assert forall|i: int| 0 <= i < e.metadata.len() implies is_word(
                    #[trigger] e.metadata[i],
                ) by {
                    assert(e.metadata[i] == s[i + 4]);
                }
            },
            AscRecordView::Event(_) => {},
        }
    }
}

/// A record that was read reads back from what is written for it, unless it is a CAN FD message
/// without columns behind its payload.
pub proof fn law_read_record_fits(timestamp: Span, body: Seq<char>, base: NumberBase, line: int)
    ensures
        record_of(timestamp, body, base, line) matches Ok(v) ==> {
            &&& record_fits(v) || lacks_columns(v)
            &&& v.timestamp() == timestamp
            &&& v matches AscRecordView::Event(e) ==> e.text == body
        },
{
    let s = words_of(body);
    law_words_are_words(body);
    lemma_fd_read(timestamp, s, base, line);
    if s.len() > 0 {
        if let Some(channel) = numeral_in(s[0], 10, u32::MAX as int) {
            lemma_classic_read(timestamp, channel as u32, s, base, line);
        }
    }
}

/// What is left of a text that ends with something else than whitespace once the whitespace at
/// its start is gone.
proof fn lemma_start_trimmed(s: Seq<char>)
    requires
        s.len() > 0,
        is_one_line(s),
        !is_space(s.last()),
    ensures
        is_line_text(trimmed_start(s)),
        trimmed(s) == trimmed_start(s),
{
    reveal(is_one_line);
    lemma_space_end(s, 0);
    let n = space_end(s, 0);
    lemma_space_before(s, 0, s.len() - 1);
    let t = trimmed_start(s);
    assert(t[0] == s[n]);
    assert(t.last() == s.last());
    assert forall|i: int| 0 <= i < t.len() implies #[trigger] t[i] != '\n' by {
        assert(t[i] == s[n + i]);
    }
}

/// Whitespace ends at the latest where something else stands.
proof fn lemma_space_before(s: Seq<char>, i: int, k: int)
    requires
        0 <= i <= k < s.len(),
        !is_space(s[k]),
    ensures
        space_end(s, i) <= k,
    decreases k - i,
{
    if i < k && is_space(s[i]) {
        lemma_space_before(s, i + 1, k);
    }
}

/// A line without the whitespace around it is empty or a text of a line.
proof fn lemma_line_trimmed(raw: Seq<char>)
    requires
        is_one_line(raw),
    ensures
        trimmed(raw).len() == 0 || is_line_text(trimmed(raw)),
{
    reveal(is_one_line);
    lemma_space_end(raw, 0);
    let n = space_end(raw, 0);
    let t = trimmed_start(raw);
    if t.len() > 0 {
        assert(t[0] == raw[n]);
        lemma_trimmed_end(t);
        let u = trimmed_end(t);
        assert(u[0] == t.subrange(0, u.len() as int)[0]);
        assert forall|i: int| 0 <= i < u.len() implies #[trigger] u[i] != '\n' by {
            assert(u[i] == t.subrange(0, u.len() as int)[i]);
            assert(u[i] == raw[n + i]);
        }
    } else {
        assert(trimmed_end(t) == t);
    }
}

/// What stands behind a keyword with a blank is the text of a line.
proof fn lemma_behind_keyword(line: Seq<char>, keyword: Seq<char>)
    requires
        is_line_text(line),
        starts(line, keyword),
        keyword.len() > 0,
        keyword.last() == ' ',
    ensures
        is_line_text(trimmed(line.skip(keyword.len() as int))),
{
    reveal(same_ignore_case);
    reveal(is_one_line);
    let n = keyword.len() as int;
    let head = line.subrange(0, n);
    assert(upper(head[n - 1]) == upper(keyword[n - 1]));
    assert(head[n - 1] == line[n - 1]);
    assert(is_space(line[n - 1]));
    assert(line.len() > n);
    let s = line.skip(n);
    assert(s.last() == line.last());
    assert forall|i: int| 0 <= i < s.len() implies #[trigger] s[i] != '\n' by {
        assert(s[i] == line[n + i]);
    }
    lemma_start_trimmed(s);
}

/// What stands behind a timestamp is the text of a line.
proof fn lemma_behind_stamp(line: Seq<char>)
    requires
        is_line_text(line),
    ensures
        split_first_of(line) matches Some((_, body)) ==> is_line_text(body),
{
    reveal(is_one_line);
    lemma_word_end(line, 0);
    lemma_word_at(line, 0);
    let n = word_end(line, 0);
    if n < line.len() {
        let s = line.skip(n);
        assert(s.last() == line.last());
        assert forall|i: int| 0 <= i < s.len() implies #[trigger] s[i] != '\n' by {
            assert(s[i] == line[n + i]);
        }
        lemma_start_trimmed(s);
    }
}

proof fn lemma_line_end_free(s: Seq<char>, i: int)
    requires
        0 <= i <= s.len(),
    ensures
        forall|k: int| i <= k < line_end(s, i) ==> #[trigger] s[k] != '\n',
    decreases s.len() - i,
{
    if i < s.len() && s[i] != '\n' {
        lemma_line_end_free(s, i + 1);
    }
}

proof fn lemma_lines_from(s: Seq<char>, i: int)
    requires
        0 <= i <= s.len(),
    ensures
        forall|k: int| 0 <= k < lines_from(s, i).len() ==> is_one_line(#[trigger] lines_from(s, i)[k]),
    decreases s.len() - i,
{
    if i < s.len() {
        lemma_line_end_bound(s, i);
        lemma_line_end_free(s, i);
        let end = line_end(s, i);
        let w = if end < s.len() {
            s.subrange(i, end)
        } else {
            s.skip(i)
        };
        assert(is_one_line(w)) by {
            reveal(is_one_line);
            assert forall|k: int| 0 <= k < w.len() implies #[trigger] w[k] != '\n' by {
                assert(w[k] == s[i + k]);
            }
        }
        let all = lines_from(s, i);
        if end < s.len() {
            lemma_lines_from(s, end + 1);
            let rest = lines_from(s, end + 1);
            assert(all == seq![w] + rest);
            assert forall|k: int| 0 <= k < all.len() implies is_one_line(#[trigger] all[k]) by {
                if k > 0 {
                    assert(all[k] == rest[k - 1]);
                }
            }
        }
    }
}

/// The lines of a text hold no end of a line.
pub proof fn law_lines_are_lines(s: Seq<char>)
    ensures
        forall|k: int| 0 <= k < lines_of(s).len() ==> is_one_line(#[trigger] lines_of(s)[k]),
{
    lemma_lines_from(s, 0);
}

/// What every record that was read has: it reads back from what is written for it, unless it is
/// a CAN FD message without columns behind its payload; its time is valid; and an event can
/// stand in a line.
pub open spec fn record_reads(v: AscRecordView) -> bool {
    &&& record_fits(v) || lacks_columns(v)
    &&& v.timestamp().valid()
    &&& v matches AscRecordView::Event(e) ==> event_stands(e.text)
}

/// What every trace that was read has: a header that can be written and read back, with a date,
/// and records of that kind.
pub open spec fn file_reads(v: AscFileView) -> bool {
    &&& header_fits(v.header)
    &&& v.header.date is Some
    &&& forall|i: int| 0 <= i < v.records.len() ==> record_reads(#[trigger] v.records[i])
}

/// Whether the lengths of time in the lines are valid.
pub open spec fn marks_valid(marks: Seq<StampView>) -> bool {
    forall|i: int| 0 <= i < marks.len() ==> (#[trigger] marks[i] matches StampView::At(t) ==> t.valid())
}

proof fn lemma_event_read(r: Reading, body: Seq<char>, number: int, mark: StampView)
    requires
        file_reads(r.file),
        r.last.valid(),
        is_line_text(body),
        mark matches StampView::At(t) ==> t.valid(),
    ensures
        after_event(r, body, number, mark) matches Ok(n) ==> file_reads(n.file) && n.last.valid(),
{
    if let StampView::At(t) = mark {
        let time = match r.file.header.timestamp_mode {
            TimestampMode::Absolute => Some(t),
            TimestampMode::Relative => r.last.sum(t),
        };
        if let Some(time) = time {
            assert(time.valid());
            law_read_record_fits(time, body, r.file.header.number_base, number);
            if let Ok(n) = after_event(r, body, number, mark) {
                assert forall|i: int| 0 <= i < n.file.records.len() implies record_reads(
                    #[trigger] n.file.records[i],
                ) by {
                    if i < r.file.records.len() {
                        assert(n.file.records[i] == r.file.records[i]);
                    }
                }
            }
        }
    }
}

proof fn lemma_line_read(r: Reading, raw: Seq<char>, number: int, mark: StampView)
    requires
        file_reads(r.file),
        r.last.valid(),
        is_one_line(raw),
        mark matches StampView::At(t) ==> t.valid(),
    ensures
        after_line(r, raw, number, mark) matches Ok(n) ==> file_reads(n.file) && n.last.valid(),
{
    reveal(after_line);
    let line = trimmed(raw);
    lemma_line_trimmed(raw);
    if line.len() > 0 {
        reveal_strlit("date ");
        reveal_strlit("begin triggerblock ");
        if starts(line, "date "@) {
            lemma_behind_keyword(line, "date "@);
        }
        if starts(line, "begin triggerblock "@) {
            lemma_behind_keyword(line, "begin triggerblock "@);
        }
        lemma_behind_stamp(line);
        if let Some((_, body)) = split_first_of(line) {
            lemma_event_read(r, body, number, mark);
        }
    }
}

proof fn lemma_lines_read(r: Reading, lines: Seq<Seq<char>>, marks: Seq<StampView>, i: int)
    requires
        0 <= i <= lines.len(),
        lines.len() == marks.len(),
        forall|k: int| 0 <= k < lines.len() ==> is_one_line(#[trigger] lines[k]),
        marks_valid(marks),
        file_reads(r.file),
        r.last.valid(),
    ensures
        after_lines(r, lines, marks, i) matches Ok(n) ==> file_reads(n.file),
    decreases lines.len() - i,
{
    if i < lines.len() {
        assert(is_one_line(lines[i]));
        lemma_line_read(r, lines[i], i + 1, marks[i]);
        if let Ok(n) = after_line(r, lines[i], i + 1, marks[i]) {
            lemma_lines_read(n, lines, marks, i + 1);
        }
    }
}

/// Whatever text a trace was read from, its header can be written and read back, its times are
/// valid, its events can stand in a line, and each of its records reads back from what is
/// written for it, unless it is a CAN FD message without columns behind its payload.
pub proof fn law_read_fits(text: Seq<char>, marks: Seq<StampView>)
    requires
        lines_of(text).len() == marks.len(),
        marks_valid(marks),
    ensures
        parsed(text, marks) matches Ok(v) ==> file_reads(v),
{
    law_lines_are_lines(text);
    lemma_default_date();
    let r = Reading { file: AscFile::blank(), last: no_time() };
    lemma_lines_read(r, lines_of(text), marks, 0);
}

proof fn lemma_written_entries(v: AscFileView, stamps: Seq<Seq<char>>, i: int, text: Seq<char>)
    requires
        0 <= i <= v.records.len(),
    ensures
        records_text(v, stamps, i, text) is Ok ==> forall|k: int|
            i <= k < v.records.len() ==> {
                &&& record_text(#[trigger] v.records[k], v.header.number_base) is Ok
                &&& time_to_write(
                    v.header.timestamp_mode,
                    v.records[k].timestamp(),
                    previous_time(v.records, k),
                ) is Some
            },
    decreases v.records.len() - i,
{
    if i < v.records.len() {
        if let Ok(s) = record_text(v.records[i], v.header.number_base) {
            lemma_written_entries(v, stamps, i + 1, text + stamps[i] + " "@ + s + "\n"@);
        }
    }
}

/// A trace that was read from any text and is written again reads back from what is written: its
/// records are the same, and its header is, but that a missing trigger date is read as the date;
/// where there is one, the whole trace is the same. The application writes stamps that are
/// stamps, and reads the times that were written. A CAN FD message without columns behind its
/// payload is written with columns of its own.
pub proof fn law_read_again(
    text: Seq<char>,
    marks: Seq<StampView>,
    stamps: Seq<Seq<char>>,
    again: Seq<StampView>,
)
    requires
        lines_of(text).len() == marks.len(),
        marks_valid(marks),
        parsed(text, marks) is Ok,
        file_text(parsed(text, marks)->Ok_0, stamps) is Ok,
        forall|i: int|
            0 <= i < parsed(text, marks)->Ok_0.records.len() ==> !lacks_columns(
                #[trigger] parsed(text, marks)->Ok_0.records[i],
            ),
        stamps.len() == parsed(text, marks)->Ok_0.records.len(),
        forall|i: int| 0 <= i < stamps.len() ==> stamp_fits(#[trigger] stamps[i]),
        marks_fit(parsed(text, marks)->Ok_0, again),
    ensures
        ({
            let v = parsed(text, marks)->Ok_0;
            let written = file_text(v, stamps)->Ok_0;
            &&& lines_of(written).len() == again.len()
            &&& parsed(written, again) matches Ok(g) && g.records == v.records && g.header
                == completed(v.header) && (v.header.trigger_date is Some ==> g == v)
        }),
{
    let v = parsed(text, marks)->Ok_0;
    law_read_fits(text, marks);
    lemma_written_entries(v, stamps, 0, header_text(v.header));
    assert(times_valid(v.records)) by {
        assert forall|i: int| 0 <= i < v.records.len() implies (
        #[trigger] v.records[i]).timestamp().valid() by {
            assert(record_reads(v.records[i]));
        }
    }
    assert forall|i: int| 0 <= i < v.records.len() implies #[trigger] entry_fits(v, stamps, i) by {
        reveal(entry_fits);
        assert(record_reads(v.records[i]));
        assert(!lacks_columns(v.records[i]));
        assert(stamp_fits(stamps[i]));
    }
    assert(file_fits(v, stamps));
    law_records_of_written(v, stamps, again);
}

} // verus!
