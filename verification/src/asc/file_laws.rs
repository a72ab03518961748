//! Traces read back from what is written for them.

use crate::asc::error::Failure;
use crate::asc::file::{
    after_event, after_line, after_lines, file_text, header_text, is_silent, no_time, parsed,
    previous_time, records_text, time_to_write, times_valid, with_header, AscFile, AscFileView,
    Reading, StampView,
};
use crate::asc::laws::{
    error_fits, fd_fits, law_record_of_written, lemma_byte, lemma_direction, lemma_id,
    lemma_number, record_fits,
};
use crate::asc::line::{
    lines_from, lines_of, space_end, split_first_of, starts, trimmed, trimmed_start, word_end,
    words_of,
};
use crate::asc::read::{base_header, mode_at, record_of};
use crate::asc::record::{
    AscErrorFrameView, AscHeaderView, AscMessageView, AscRecordView, NumberBase, TimestampMode,
};
use crate::asc::spell::{
    byte_words, is_gap, is_word, lemma_blank_gap, lemma_bytes_as_words, lemma_join_spelled,
    lemma_space_end, lemma_word_end, lemma_word_spelled, lemma_words_gap, lemma_words_spelled,
    lemma_words_word,
};
use crate::asc::write::{
    bit_text, blanks, bytes_text, classic_text, error_text, fd_text, has_brs, id_text,
    message_failure, number_text, record_text, to_left, to_right, words_text,
};
use crate::span::Span;
use crate::text::{
    dec, is_space, lemma_differ, lemma_same, line_end, same_ignore_case, trimmed_end, upper,
};
use vstd::prelude::*;

verus! {

/// Whether a text holds no end of a line.
#[verifier::opaque]
pub open spec fn is_one_line(s: Seq<char>) -> bool {
    forall|i: int| 0 <= i < s.len() ==> #[trigger] s[i] != '\n'
}

/// Lines with their ends.
pub open spec fn joined(lines: Seq<Seq<char>>) -> Seq<char>
    decreases lines.len(),
{
    if lines.len() == 0 {
        Seq::empty()
    } else {
        lines[0] + "\n"@ + joined(lines.drop_first())
    }
}

proof fn lemma_line_end_shift(s: Seq<char>, i: int, k: int)
    requires
        0 <= k <= i,
        k <= s.len(),
    ensures
        line_end(s, i) == k + line_end(s.skip(k), i - k),
    decreases s.len() - i,
{
    if i < s.len() {
        assert(s.skip(k)[i - k] == s[i]);
        if s[i] != '\n' {
            lemma_line_end_shift(s, i + 1, k);
        }
    }
}

pub(crate) proof fn lemma_line_end_bound(s: Seq<char>, i: int)
    requires
        0 <= i <= s.len(),
    ensures
        i <= line_end(s, i) <= s.len(),
    decreases s.len() - i,
{
    if i < s.len() && s[i] != '\n' {
        lemma_line_end_bound(s, i + 1);
    }
}

proof fn lemma_lines_shift(s: Seq<char>, i: int, k: int)
    requires
        0 <= k <= i <= s.len(),
    ensures
        lines_from(s, i) == lines_from(s.skip(k), i - k),
    decreases s.len() - i,
{
    let t = s.skip(k);
    if i < s.len() {
        lemma_line_end_shift(s, i, k);
        lemma_line_end_bound(s, i);
        let end = line_end(s, i);
        if end < s.len() {
            lemma_lines_shift(s, end + 1, k);
            assert(s.subrange(i, end) =~= t.subrange(i - k, end - k));
        } else {
            assert(s.skip(i) =~= t.skip(i - k));
        }
    }
}

proof fn lemma_line_end_at(w: Seq<char>, rest: Seq<char>, i: int)
    requires
        0 <= i <= w.len(),
        is_one_line(w),
    ensures
        line_end(w + "\n"@ + rest, i) == w.len(),
    decreases w.len() - i,
{
    reveal(is_one_line);
    reveal_strlit("\n");
    let t = w + "\n"@ + rest;
    if i < w.len() {
        assert(t[i] == w[i]);
        lemma_line_end_at(w, rest, i + 1);
    } else {
        assert(t[i] == '\n');
    }
}

/// The lines of lines with their ends are those lines.
pub proof fn law_lines_of_joined(lines: Seq<Seq<char>>)
    requires
        forall|i: int| 0 <= i < lines.len() ==> is_one_line(#[trigger] lines[i]),
    ensures
        lines_of(joined(lines)) == lines,
    decreases lines.len(),
{
    if lines.len() == 0 {
        assert(lines =~= Seq::<Seq<char>>::empty());
    } else {
        let w = lines[0];
        assert(is_one_line(w));
        let more = lines.drop_first();
        assert forall|i: int| 0 <= i < more.len() implies is_one_line(#[trigger] more[i]) by {
            assert(more[i] == lines[i + 1]);
        }
        law_lines_of_joined(more);
        let rest = joined(more);
        let t = joined(lines);
        reveal_strlit("\n");
        lemma_line_end_at(w, rest, 0);
        let n = w.len() as int;
        assert(t.subrange(0, n) =~= w);
        assert(t.skip(n + 1) =~= rest);
        lemma_lines_shift(t, n + 1, n + 1);
        assert(seq![w] + more =~= lines);
    }
}

proof fn lemma_joined_push(lines: Seq<Seq<char>>, w: Seq<char>)
    ensures
        joined(lines.push(w)) == joined(lines) + w + "\n"@,
    decreases lines.len(),
{
    if lines.len() == 0 {
        let one = lines.push(w);
        assert(one.drop_first() =~= Seq::<Seq<char>>::empty());
        assert(joined(one.drop_first()) =~= Seq::<char>::empty());
        assert(joined(lines) =~= Seq::<char>::empty());
        assert(one[0] == w);
        assert(w + "\n"@ + Seq::<char>::empty() =~= Seq::<char>::empty() + w + "\n"@);
    } else {
        let more = lines.drop_first();
        lemma_joined_push(more, w);
        assert(lines.push(w).drop_first() =~= more.push(w));
        assert(lines[0] + "\n"@ + (joined(more) + w + "\n"@) =~= lines[0] + "\n"@ + joined(more)
            + w + "\n"@);
    }
}

/// Whether a text is a line that starts and ends with something else than whitespace.
pub open spec fn is_line_text(s: Seq<char>) -> bool {
    &&& s.len() > 0
    &&& is_one_line(s)
    &&& !is_space(s[0])
    &&& !is_space(s.last())
}

proof fn lemma_trimmed_same(s: Seq<char>)
    requires
        s.len() > 0,
        !is_space(s[0]),
    ensures
        trimmed(s) == trimmed_end(s),
        trimmed_start(s) == s,
        !is_space(s.last()) ==> trimmed(s) == s,
{
    assert(s.skip(0) =~= s);
}

proof fn lemma_space_end_gap(g: Seq<char>, s: Seq<char>, i: int)
    requires
        0 <= i <= g.len(),
        is_gap(g),
        s.len() > 0,
        !is_space(s[0]),
    ensures
        space_end(g + s, i) == g.len(),
    decreases g.len() - i,
{
    reveal(is_gap);
    if i < g.len() {
        assert((g + s)[i] == g[i]);
        lemma_space_end_gap(g, s, i + 1);
    } else {
        assert((g + s)[i] == s[0]);
    }
}

/// Whitespace before a text is trimmed.
proof fn lemma_trimmed_gap(g: Seq<char>, s: Seq<char>)
    requires
        is_gap(g),
        s.len() > 0,
        !is_space(s[0]),
    ensures
        trimmed(g + s) == trimmed_end(s),
        trimmed_start(g + s) == s,
{
    lemma_space_end_gap(g, s, 0);
    assert((g + s).skip(g.len() as int) =~= s);
}

/// What is trimmed at the end of a text that starts with a word is whitespace.
pub(crate) proof fn lemma_trimmed_end(s: Seq<char>)
    requires
        s.len() > 0,
        !is_space(s[0]),
    ensures
        trimmed_end(s).len() > 0,
        trimmed_end(s).len() <= s.len(),
        s.subrange(0, trimmed_end(s).len() as int) == trimmed_end(s),
        is_gap(s.skip(trimmed_end(s).len() as int)),
        !is_space(trimmed_end(s).last()),
    decreases s.len(),
{
    reveal(is_gap);
    if is_space(s.last()) {
        let t = s.drop_last();
        assert(t.len() > 0);
        assert(t[0] == s[0]);
        lemma_trimmed_end(t);
        let n = trimmed_end(s).len() as int;
        assert(s.subrange(0, n) =~= t.subrange(0, n));
        assert forall|i: int| 0 <= i < s.skip(n).len() implies is_space(#[trigger] s.skip(n)[i]) by {
            if i < t.skip(n).len() {
                assert(s.skip(n)[i] == t.skip(n)[i]);
            }
        }
    } else {
        assert(s.subrange(0, s.len() as int) =~= s);
    }
}

/// Whitespace at the end of a text holds no words.
proof fn lemma_words_before_gap(s: Seq<char>, g: Seq<char>)
    requires
        is_gap(g),
    ensures
        words_of(s + g) == words_of(s),
    decreases s.len(),
{
    reveal(is_gap);
    if s.len() == 0 {
        assert(s + g =~= g + Seq::<char>::empty());
        lemma_words_gap(g, Seq::empty());
        assert(s =~= Seq::<char>::empty());
    } else {
        lemma_space_end(s, 0);
        let start = space_end(s, 0);
        if start > 0 {
            let head = s.subrange(0, start);
            let tail = s.skip(start);
            lemma_space_end_is_gap(s, 0);
            assert(s =~= head + tail);
            assert(s + g =~= head + (tail + g));
            lemma_words_gap(head, tail);
            lemma_words_gap(head, tail + g);
            lemma_words_before_gap(tail, g);
        } else {
            lemma_word_end(s, 0);
            lemma_word_end_is_word(s, 0);
            let end = word_end(s, 0);
            let w = s.subrange(0, end);
            let tail = s.skip(end);
            assert(s =~= w + tail);
            assert(s + g =~= w + (tail + g));
            assert(is_word(w)) by {
                reveal(is_word);
            }
            if tail.len() > 0 {
                assert(tail[0] == s[end]);
            }
            lemma_words_word(w, tail);
            if (tail + g).len() > 0 {
                if tail.len() > 0 {
                    assert((tail + g)[0] == tail[0]);
                } else {
                    assert((tail + g)[0] == g[0]);
                }
            }
            lemma_words_word(w, tail + g);
            lemma_words_before_gap(tail, g);
        }
    }
}

proof fn lemma_space_end_is_gap(s: Seq<char>, i: int)
    requires
        0 <= i <= s.len(),
    ensures
        is_gap(s.subrange(i, space_end(s, i))),
        i <= space_end(s, i) <= s.len(),
    decreases s.len() - i,
{
    reveal(is_gap);
    if i < s.len() && is_space(s[i]) {
        lemma_space_end_is_gap(s, i + 1);
        let e = space_end(s, i);
        let t = s.subrange(i, e);
        assert forall|k: int| 0 <= k < t.len() implies is_space(#[trigger] t[k]) by {
            if k > 0 {
                assert(t[k] == s.subrange(i + 1, e)[k - 1]);
            }
        }
    }
}

proof fn lemma_word_end_is_word(s: Seq<char>, i: int)
    requires
        0 <= i <= s.len(),
    ensures
        i <= word_end(s, i) <= s.len(),
        forall|k: int| i <= k < word_end(s, i) ==> !is_space(#[trigger] s[k]),
        word_end(s, i) < s.len() ==> is_space(s[word_end(s, i)]),
    decreases s.len() - i,
{
    if i < s.len() && !is_space(s[i]) {
        lemma_word_end_is_word(s, i + 1);
    }
}

/// Whether a text is the stamp of a record: blanks, and a word that starts with a digit.
pub open spec fn is_stamp(t: Seq<char>, g: Seq<char>, w: Seq<char>) -> bool {
    &&& t == g + w
    &&& is_gap(g)
    &&& is_one_line(g)
    &&& is_word(w)
    &&& is_one_line(w)
    &&& w.len() > 0
    &&& '0' <= w[0] && w[0] <= '9'
}

/// Whether a text is the stamp of a record.
pub open spec fn stamp_fits(t: Seq<char>) -> bool {
    exists|g: Seq<char>, w: Seq<char>| is_stamp(t, g, w)
}

/// Whether the header of a trace can be written and read back: the dates that are there stand
/// in a line.
pub open spec fn header_fits(h: AscHeaderView) -> bool {
    &&& h.date matches Some(d) ==> is_line_text(d)
    &&& h.trigger_date matches Some(d) ==> is_line_text(d)
}

/// The date of a trace that has none.
pub open spec fn default_date() -> Seq<char> {
    "Thu Jan 01 00:00:00.000 1970"@
}

/// The date that a trace is read with.
pub open spec fn date_of(h: AscHeaderView) -> Seq<char> {
    match h.date {
        Some(d) => d,
        None => default_date(),
    }
}

/// The trigger date that is written.
pub open spec fn trigger_of(h: AscHeaderView) -> Seq<char> {
    match h.trigger_date {
        Some(d) => d,
        None => date_of(h),
    }
}

/// A header with both dates.
pub open spec fn completed(h: AscHeaderView) -> AscHeaderView {
    AscHeaderView { date: Some(date_of(h)), trigger_date: Some(trigger_of(h)), ..h }
}

/// Whether what is written for a record stands in a line: it starts with a word, and it is
/// not taken for the start of the measurement.
pub open spec fn body_fits(v: AscRecordView, text: Seq<char>) -> bool {
    &&& text.len() > 0
    &&& is_one_line(text)
    &&& !is_space(text[0])
    &&& !same_ignore_case(trimmed_end(text), "start of measurement"@)
    &&& v is Event ==> !is_space(text.last())
}

/// Whether a trace reads back from what is written for it with the given stamps.
pub open spec fn file_fits(v: AscFileView, stamps: Seq<Seq<char>>) -> bool {
    &&& header_fits(v.header)
    &&& times_valid(v.records)
    &&& stamps.len() == v.records.len()
    &&& forall|i: int| 0 <= i < v.records.len() ==> #[trigger] entry_fits(v, stamps, i)
}

/// Whether a record of a trace reads back from what is written for it with its stamp.
#[verifier::opaque]
pub open spec fn entry_fits(v: AscFileView, stamps: Seq<Seq<char>>, i: int) -> bool {
    &&& record_fits(v.records[i])
    &&& stamp_fits(stamps[i])
    &&& record_text(v.records[i], v.header.number_base) is Ok
    &&& v.records[i] matches AscRecordView::Event(e) ==> event_stands(e.text)
    &&& time_to_write(
        v.header.timestamp_mode,
        v.records[i].timestamp(),
        previous_time(v.records, i),
    ) is Some
}

/// Whether the text of an event can stand in a line: it neither starts nor ends with
/// whitespace, and it is not the start of the measurement.
pub open spec fn event_stands(text: Seq<char>) -> bool {
    &&& text.len() > 0
    &&& !is_space(text[0])
    &&& !is_space(text.last())
    &&& !same_ignore_case(text, "start of measurement"@)
}

/// A text that holds no whitespace is one line.
proof fn lemma_word_one_line(w: Seq<char>)
    requires
        is_word(w),
    ensures
        is_one_line(w),
{
    reveal(is_word);
    reveal(is_one_line);
    assert forall|i: int| 0 <= i < w.len() implies #[trigger] w[i] != '\n' by {
        assert(!is_space(w[i]));
    }
}

proof fn lemma_blanks_one_line(n: int)
    ensures
        is_one_line(blanks(n)),
    decreases n,
{
    reveal(is_one_line);
    if n > 0 {
        lemma_blanks_one_line(n - 1);
    }
}

proof fn lemma_padded_one_line(s: Seq<char>, width: int)
    requires
        is_one_line(s),
    ensures
        is_one_line(to_left(s, width)),
        is_one_line(to_right(s, width)),
{
    lemma_blanks_one_line(width - s.len());
    lemma_one_line_join(s, blanks(width - s.len()));
    lemma_one_line_join(blanks(width - s.len()), s);
}

proof fn lemma_words_one_line(s: Seq<Seq<char>>, n: int)
    requires
        0 <= n <= s.len(),
        forall|i: int| 0 <= i < s.len() ==> is_word(#[trigger] s[i]),
    ensures
        is_one_line(words_text(s, n)),
    decreases n,
{
    if n <= 0 {
        reveal(is_one_line);
    } else {
        lemma_words_one_line(s, n - 1);
        assert(is_word(s[n - 1]));
        lemma_word_one_line(s[n - 1]);
        assert(is_one_line(" "@)) by {
            reveal_strlit(" ");
            reveal(is_one_line);
        }
        lemma_one_line_join(words_text(s, n - 1), " "@);
        lemma_one_line_join(words_text(s, n - 1) + " "@, s[n - 1]);
    }
}

/// The short texts between the columns of a record are one line each.
proof fn lemma_pieces_one_line()
    ensures
        is_one_line(" "@),
        is_one_line("  "@),
        is_one_line(" r "@),
        is_one_line(" d "@),
        is_one_line("CANFD "@),
        is_one_line(" ErrorFrame"@),
        is_one_line("  ErrorFrame"@),
{
    reveal(is_one_line);
    reveal_strlit(" ");
    reveal_strlit("  ");
    reveal_strlit(" r ");
    reveal_strlit(" d ");
    reveal_strlit("CANFD ");
    reveal_strlit(" ErrorFrame");
    reveal_strlit("  ErrorFrame");
}

proof fn lemma_bytes_one_line(data: Seq<u8>, base: NumberBase)
    ensures
        is_one_line(bytes_text(data, data.len() as int, base)),
{
    let bw = byte_words(data, base);
    assert forall|i: int| 0 <= i < bw.len() implies is_word(#[trigger] bw[i]) by {
        lemma_byte(data[i], base, 0);
    }
    lemma_bytes_as_words(data, data.len() as int, base);
    lemma_words_one_line(bw, data.len() as int);
}

proof fn lemma_classic_one_line(v: AscMessageView, base: NumberBase)
    requires
        message_failure(v) is None,
    ensures
        is_one_line(classic_text(v, base)),
        classic_text(v, base).len() > 0,
        classic_text(v, base)[0] == dec(v.channel as nat)[0],
{
    reveal(classic_text);
    lemma_pieces_one_line();
    let a = dec(v.channel as nat);
    let b = to_left(id_text(v.id, base), 15);
    let c = to_left(v.direction.word(), 4);
    let d = if v.is_remote {
        " r "@
    } else {
        " d "@
    };
    let e = number_text(v.dlc as nat, base);
    let g = bytes_text(v.data, v.data.len() as int, base);
    lemma_number(v.channel as nat, base);
    lemma_number(v.dlc as nat, base);
    lemma_id(v.id, base, 0);
    lemma_direction(v.direction, 0);
    lemma_word_one_line(a);
    lemma_word_one_line(e);
    lemma_word_one_line(id_text(v.id, base));
    lemma_word_one_line(v.direction.word());
    lemma_padded_one_line(id_text(v.id, base), 15);
    lemma_padded_one_line(v.direction.word(), 4);
    lemma_bytes_one_line(v.data, base);
    lemma_one_line_join(a, "  "@);
    lemma_one_line_join(a + "  "@, b);
    lemma_one_line_join(a + "  "@ + b, " "@);
    lemma_one_line_join(a + "  "@ + b + " "@, c);
    lemma_one_line_join(a + "  "@ + b + " "@ + c, d);
    lemma_one_line_join(a + "  "@ + b + " "@ + c + d, e);
    lemma_one_line_join(a + "  "@ + b + " "@ + c + d + e, g);
    assert((a + "  "@ + b + " "@ + c + d + e + g)[0] == a[0]);
}

/// The columns of an FD message are one line each.
proof fn lemma_fd_columns(v: AscMessageView, base: NumberBase)
    requires
        message_failure(v) is None,
        fd_fits(v),
    ensures
        is_one_line(to_right(dec(v.channel as nat), 3)),
        is_one_line(to_left(v.direction.word(), 4)),
        is_one_line(to_right(id_text(v.id, base), 8)),
        is_one_line(number_text(v.dlc as nat, base)),
        is_one_line(to_right(dec(v.data.len()), 2)),
        is_one_line(bytes_text(v.data, v.data.len() as int, base)),
        is_one_line(words_text(v.fd_metadata, v.fd_metadata.len() as int)),
        is_one_line(bit_text(has_brs(v.frame_type))),
        is_one_line(bit_text(v.error_state_indicator)),
        v.symbolic_name matches Some(name) ==> is_one_line(name),
{
    lemma_number(v.channel as nat, base);
    lemma_number(v.dlc as nat, base);
    lemma_number(v.data.len(), base);
    lemma_id(v.id, base, 0);
    lemma_direction(v.direction, 0);
    lemma_word_one_line(dec(v.channel as nat));
    lemma_word_one_line(dec(v.data.len()));
    lemma_word_one_line(number_text(v.dlc as nat, base));
    lemma_word_one_line(id_text(v.id, base));
    lemma_word_one_line(v.direction.word());
    lemma_padded_one_line(dec(v.channel as nat), 3);
    lemma_padded_one_line(v.direction.word(), 4);
    lemma_padded_one_line(id_text(v.id, base), 8);
    lemma_padded_one_line(dec(v.data.len()), 2);
    lemma_bytes_one_line(v.data, base);
    lemma_words_one_line(v.fd_metadata, v.fd_metadata.len() as int);
    if let Some(name) = v.symbolic_name {
        lemma_word_one_line(name);
    }
    reveal(is_one_line);
    reveal_strlit("0");
    reveal_strlit("1");
}

proof fn lemma_fd_one_line(v: AscMessageView, base: NumberBase)
    requires
        message_failure(v) is None,
        fd_fits(v),
    ensures
        is_one_line(fd_text(v, base)),
        fd_text(v, base).len() > 0,
        fd_text(v, base)[0] == 'C',
{
    reveal(fd_text);
    lemma_pieces_one_line();
    let a = to_right(dec(v.channel as nat), 3);
    let b = to_left(v.direction.word(), 4);
    let c = to_right(id_text(v.id, base), 8);
    lemma_fd_columns(v, base);
    let f = "CANFD "@;
    lemma_one_line_join(f, a);
    lemma_one_line_join(f + a, " "@);
    lemma_one_line_join(f + a + " "@, b);
    lemma_one_line_join(f + a + " "@ + b, " "@);
    lemma_one_line_join(f + a + " "@ + b + " "@, c);
    lemma_one_line_join(f + a + " "@ + b + " "@ + c, "  "@);
    let s0 = f + a + " "@ + b + " "@ + c + "  "@;
    let s1 = match v.symbolic_name {
        Some(name) => s0 + name + " "@,
        None => s0,
    };
    if let Some(name) = v.symbolic_name {
        lemma_one_line_join(s0, name);
        lemma_one_line_join(s0 + name, " "@);
    }
    let b1 = bit_text(has_brs(v.frame_type));
    let b2 = bit_text(v.error_state_indicator);
    let n = number_text(v.dlc as nat, base);
    let l = to_right(dec(v.data.len()), 2);
    let g = bytes_text(v.data, v.data.len() as int, base);
    lemma_one_line_join(s1, b1);
    lemma_one_line_join(s1 + b1, " "@);
    lemma_one_line_join(s1 + b1 + " "@, b2);
    lemma_one_line_join(s1 + b1 + " "@ + b2, " "@);
    lemma_one_line_join(s1 + b1 + " "@ + b2 + " "@, n);
    lemma_one_line_join(s1 + b1 + " "@ + b2 + " "@ + n, " "@);
    lemma_one_line_join(s1 + b1 + " "@ + b2 + " "@ + n + " "@, l);
    lemma_one_line_join(s1 + b1 + " "@ + b2 + " "@ + n + " "@ + l, g);
    let s2 = s1 + b1 + " "@ + b2 + " "@ + n + " "@ + l + g;
    let m = words_text(v.fd_metadata, v.fd_metadata.len() as int);
    lemma_one_line_join(s2, m);
    reveal_strlit("CANFD ");
    assert(s0[0] == f[0]);
    assert(s1[0] == s0[0]);
    assert((s2 + m)[0] == s1[0]);
}

proof fn lemma_error_one_line(v: AscErrorFrameView, base: NumberBase)
    requires
        error_fits(v),
    ensures
        is_one_line(error_text(v)),
        error_text(v).len() > 0,
        error_text(v)[0] == if v.is_fd { 'C' } else { dec(v.channel as nat)[0] },
{
    reveal(error_text);
    lemma_pieces_one_line();
    lemma_number(v.channel as nat, base);
    let w = dec(v.channel as nat);
    lemma_word_one_line(w);
    let m = words_text(v.metadata, v.metadata.len() as int);
    lemma_words_one_line(v.metadata, v.metadata.len() as int);
    if v.is_fd {
        let d = v.direction->Some_0.word();
        lemma_direction(v.direction->Some_0, 0);
        lemma_word_one_line(d);
        let f = "CANFD "@;
        let a = to_right(w, 3);
        let b = to_left(d, 4);
        lemma_padded_one_line(w, 3);
        lemma_padded_one_line(d, 4);
        lemma_one_line_join(f, a);
        lemma_one_line_join(f + a, " "@);
        lemma_one_line_join(f + a + " "@, b);
        lemma_one_line_join(f + a + " "@ + b, " ErrorFrame"@);
        lemma_one_line_join(f + a + " "@ + b + " ErrorFrame"@, m);
        reveal_strlit("CANFD ");
        assert((f + a + " "@ + b + " ErrorFrame"@ + m)[0] == f[0]);
    } else {
        lemma_one_line_join(w, "  ErrorFrame"@);
        lemma_one_line_join(w + "  ErrorFrame"@, m);
        assert((w + "  ErrorFrame"@ + m)[0] == w[0]);
    }
}

/// What is written for a record that fits stands in a line.
proof fn lemma_body_fits(v: AscRecordView, base: NumberBase)
    requires
        record_fits(v),
        record_text(v, base) is Ok,
        v matches AscRecordView::Event(e) ==> event_stands(e.text),
    ensures
        body_fits(v, record_text(v, base)->Ok_0),
{
    let text = record_text(v, base)->Ok_0;
    assert(0u32 & 1 == 0 && 1u32 & 1 == 1 && 3u32 & 1 == 1) by (bit_vector);
    match v {
        AscRecordView::Message(m) => {
            lemma_number(m.channel as nat, base);
            if m.frame_type.spec_is_classic() {
                lemma_classic_one_line(m, base);
            } else {
                lemma_fd_one_line(m, base);
            }
        },
        AscRecordView::ErrorFrame(e) => {
            lemma_number(e.channel as nat, base);
            lemma_error_one_line(e, base);
        },
        AscRecordView::Event(e) => {
            assert(is_one_line(text)) by {
                reveal(is_one_line);
                assert forall|i: int| 0 <= i < text.len() implies #[trigger] text[i] != '\n' by {
                    assert(e.text.contains(e.text[i]));
                }
            }
            assert(trimmed_end(text) == text);
        },
    }
    if !(v is Event) {
        lemma_trimmed_end(text);
        let t = trimmed_end(text);
        assert(text.subrange(0, t.len() as int)[0] == t[0]);
        reveal_strlit("start of measurement");
        lemma_differ(t, "start of measurement"@, 0);
    }
}

/// The line of a record.
pub open spec fn record_line(v: AscFileView, stamps: Seq<Seq<char>>, i: int) -> Seq<char> {
    stamps[i] + " "@ + record_text(v.records[i], v.header.number_base)->Ok_0
}

/// The line of the date, if there is one.
pub open spec fn date_lines(h: AscHeaderView) -> Seq<Seq<char>> {
    match h.date {
        Some(d) => seq!["date "@ + d],
        None => Seq::empty(),
    }
}

/// The number of lines of the header.
pub open spec fn lead(h: AscHeaderView) -> int {
    if h.date is Some {
        5
    } else {
        4
    }
}

/// The lines of the header.
pub open spec fn header_lines(h: AscHeaderView) -> Seq<Seq<char>> {
    date_lines(h) + seq![
        "base "@ + h.number_base.word() + "  timestamps "@ + h.timestamp_mode.word(),
        (if h.internal_events_logged {
            "internal events logged"@
        } else {
            "no internal events logged"@
        }),
        "Begin Triggerblock "@ + trigger_of(h),
        " 0.000000 Start of measurement"@,
    ]
}

/// The lines of a written trace.
pub open spec fn file_lines(v: AscFileView, stamps: Seq<Seq<char>>) -> Seq<Seq<char>> {
    header_lines(v.header) + Seq::new(
        v.records.len(),
        |i: int| record_line(v, stamps, i),
    ) + seq!["End TriggerBlock"@]
}

/// What the application reads in the lines: the start of the measurement at zero, and the
/// times that were written.
pub open spec fn marks_fit(v: AscFileView, marks: Seq<StampView>) -> bool {
    &&& marks.len() == lead(v.header) + v.records.len() + 1
    &&& marks[lead(v.header) - 1] == StampView::At(no_time())
    &&& forall|i: int|
        0 <= i < v.records.len() ==> #[trigger] marks[lead(v.header) + i] == StampView::At(
            time_to_write(
                v.header.timestamp_mode,
                v.records[i].timestamp(),
                previous_time(v.records, i),
            )->Some_0,
        )
}

proof fn lemma_one_line_join(a: Seq<char>, b: Seq<char>)
    requires
        is_one_line(a),
        is_one_line(b),
    ensures
        is_one_line(a + b),
{
    reveal(is_one_line);
    assert forall|i: int| 0 <= i < (a + b).len() implies #[trigger] (a + b)[i] != '\n' by {
        if i < a.len() {
            assert((a + b)[i] == a[i]);
        } else {
            assert((a + b)[i] == b[i - a.len()]);
        }
    }
}

/// A text that starts with another letter does not start with a prefix.
proof fn lemma_not_starts(s: Seq<char>, prefix: Seq<char>)
    requires
        s.len() > 0,
        prefix.len() > 0,
        upper(s[0]) != upper(prefix[0]),
    ensures
        !starts(s, prefix),
        !same_ignore_case(s, prefix),
{
    if s.len() >= prefix.len() {
        let t = s.subrange(0, prefix.len() as int);
        assert(t[0] == s[0]);
        lemma_differ(t, prefix, 0);
    }
    lemma_differ(s, prefix, 0);
}

proof fn lemma_starts(s: Seq<char>, prefix: Seq<char>, rest: Seq<char>)
    requires
        s.len() == prefix.len(),
        same_ignore_case(s, prefix),
    ensures
        starts(s + rest, prefix),
        (s + rest).skip(prefix.len() as int) == rest,
{
    let t = s + rest;
    assert(t.subrange(0, prefix.len() as int) =~= s);
    assert(t.skip(prefix.len() as int) =~= rest);
}

proof fn lemma_date_line(r: Reading, d: Seq<char>, number: int, mark: StampView)
    requires
        is_line_text(d),
    ensures
        after_line(r, "date "@ + d, number, mark) == Ok::<Reading, Failure>(
            with_header(r, AscHeaderView { date: Some(d), ..r.file.header }),
        ),
{
    reveal(after_line);
    reveal(is_one_line);
    let line = "date "@ + d;
    assert(trimmed(line) == line && !is_silent(line)) by {
        reveal_strlit("date ");
        assert(line[0] == 'd');
        assert(line.last() == d.last());
        lemma_trimmed_same(line);
    }
    assert(starts(line, "date "@) && line.skip(5) == d) by {
        reveal_strlit("date ");
        lemma_same("date "@);
        lemma_starts("date "@, "date "@, d);
    }
    lemma_trimmed_same(d);
}

proof fn lemma_trigger_line(r: Reading, d: Seq<char>, number: int, mark: StampView)
    requires
        is_line_text(d),
    ensures
        after_line(r, "Begin Triggerblock "@ + d, number, mark) == Ok::<Reading, Failure>(
            Reading {
                last: no_time(),
                ..with_header(r, AscHeaderView { trigger_date: Some(d), ..r.file.header })
            },
        ),
{
    reveal(after_line);
    reveal(is_one_line);
    reveal_strlit("Begin Triggerblock ");
    reveal_strlit("begin triggerblock ");
    reveal_strlit("date ");
    reveal_strlit("base ");
    reveal_strlit("internal events logged");
    reveal_strlit("no internal events logged");
    let line = "Begin Triggerblock "@ + d;
    assert(line[0] == 'B' && line[1] == 'e');
    assert(line.last() == d.last());
    lemma_trimmed_same(line);
    lemma_not_starts(line, "date "@);
    lemma_not_starts(line, "internal events logged"@);
    lemma_not_starts(line, "no internal events logged"@);
    assert(!starts(line, "base "@)) by {
        let t = line.subrange(0, 5);
        assert(t[1] == 'e');
        lemma_differ(t, "base "@, 1);
    }
    assert(same_ignore_case("Begin Triggerblock "@, "begin triggerblock "@)) by {
        reveal(same_ignore_case);
        let a = "Begin Triggerblock "@;
        let b = "begin triggerblock "@;
        assert(upper(a[0]) == upper(b[0]) && upper(a[6]) == upper(b[6]));
        assert forall|i: int| 0 <= i < a.len() implies upper(#[trigger] a[i]) == upper(b[i]) by {
            if i != 0 && i != 6 {
                assert(a[i] == b[i]);
            }
        }
    }
    lemma_starts("Begin Triggerblock "@, "begin triggerblock "@, d);
    lemma_trimmed_same(d);
}

/// A line without letters in other cases is read in either case.
proof fn lemma_fixed_line(line: Seq<char>)
    requires
        line.len() > 2,
        !is_space(line[0]),
        !is_space(line.last()),
        line[0] != '/',
    ensures
        trimmed(line) == line,
        !is_silent(line),
{
    lemma_trimmed_same(line);
}

proof fn lemma_internal_line(r: Reading, logged: bool, number: int, mark: StampView)
    ensures
        after_line(
            r,
            if logged {
                "internal events logged"@
            } else {
                "no internal events logged"@
            },
            number,
            mark,
        ) == Ok::<Reading, Failure>(
            with_header(r, AscHeaderView { internal_events_logged: logged, ..r.file.header }),
        ),
        is_one_line("internal events logged"@),
        is_one_line("no internal events logged"@),
{
    reveal(after_line);
    reveal(is_one_line);
    reveal_strlit("date ");
    reveal_strlit("base ");
    reveal_strlit("internal events logged");
    reveal_strlit("no internal events logged");
    let line = if logged {
        "internal events logged"@
    } else {
        "no internal events logged"@
    };
    lemma_fixed_line(line);
    lemma_not_starts(line, "date "@);
    lemma_not_starts(line, "base "@);
    lemma_same("internal events logged"@);
    lemma_same("no internal events logged"@);
    lemma_differ("no internal events logged"@, "internal events logged"@, 0);
}

proof fn lemma_end_line(r: Reading, number: int, mark: StampView)
    ensures
        after_line(r, "End TriggerBlock"@, number, mark) == Ok::<Reading, Failure>(r),
        is_one_line("End TriggerBlock"@),
{
    reveal(after_line);
    reveal(is_one_line);
    reveal_strlit("date ");
    reveal_strlit("base ");
    reveal_strlit("internal events logged");
    reveal_strlit("no internal events logged");
    reveal_strlit("begin triggerblock ");
    reveal_strlit("End TriggerBlock");
    reveal_strlit("end triggerblock");
    let line = "End TriggerBlock"@;
    lemma_fixed_line(line);
    lemma_not_starts(line, "date "@);
    lemma_not_starts(line, "base "@);
    lemma_not_starts(line, "internal events logged"@);
    lemma_not_starts(line, "no internal events logged"@);
    lemma_not_starts(line, "begin triggerblock "@);
    assert(same_ignore_case(line, "end triggerblock"@)) by {
        reveal(same_ignore_case);
        let b = "end triggerblock"@;
        assert(upper(line[0]) == upper(b[0]));
        assert(upper(line[4]) == upper(b[4]));
        assert(upper(line[11]) == upper(b[11]));
        assert forall|i: int| 0 <= i < line.len() implies upper(#[trigger] line[i]) == upper(
            b[i],
        ) by {
            if i != 0 && i != 4 && i != 11 {
                assert(line[i] == b[i]);
            }
        }
    }
}

/// The words of the base line.
proof fn lemma_base_words(a: Seq<char>, b: Seq<char>)
    requires
        is_word(a),
        is_word(b),
    ensures
        words_of("base "@ + a + "  timestamps "@ + b) == seq!["base"@, a, "timestamps"@, b],
{
    lemma_blank_gap();
    assert(is_word("base"@) && is_word("timestamps"@) && "base "@ =~= "base"@ + " "@
        && "  timestamps "@ =~= "  "@ + "timestamps"@ + " "@) by {
        reveal(is_word);
        reveal_strlit("base");
        reveal_strlit("base ");
        reveal_strlit("timestamps");
        reveal_strlit("  timestamps ");
        reveal_strlit(" ");
        reveal_strlit("  ");
    }
    let w0 = "base"@;
    let w2 = "timestamps"@;
    lemma_word_spelled(w0);
    lemma_word_spelled(a);
    lemma_word_spelled(w2);
    lemma_word_spelled(b);
    let a1 = w0 + " "@ + a;
    lemma_join_spelled(w0, seq![w0], " "@, a, seq![a]);
    let a2 = a1 + "  "@ + w2;
    lemma_join_spelled(a1, seq![w0] + seq![a], "  "@, w2, seq![w2]);
    let a3 = a2 + " "@ + b;
    lemma_join_spelled(a2, seq![w0] + seq![a] + seq![w2], " "@, b, seq![b]);
    assert("base "@ + a =~= a1);
    assert(a1 + "  timestamps "@ =~= a2 + " "@);
    lemma_words_spelled(a3, seq![w0] + seq![a] + seq![w2] + seq![b]);
    assert(seq![w0] + seq![a] + seq![w2] + seq![b] =~= seq![w0, a, w2, b]);
}

proof fn lemma_base_header(h: AscHeaderView, line: Seq<char>, base: NumberBase, mode: TimestampMode, number: int)
    requires
        words_of(line) == seq!["base"@, base.word(), "timestamps"@, mode.word()],
    ensures
        base_header(h, line, number) == Ok::<AscHeaderView, Failure>(
            AscHeaderView { number_base: base, timestamp_mode: mode, ..h },
        ),
{
    let a = base.word();
    let b = mode.word();
    let s = seq!["base"@, a, "timestamps"@, b];
    reveal_strlit("hex");
    reveal_strlit("dec");
    reveal_strlit("absolute");
    reveal_strlit("relative");
    assert(mode_at(s, 0) == 2) by {
        reveal_strlit("base");
        reveal_strlit("timestamps");
        lemma_differ(s[0], "timestamps"@, 0);
        lemma_differ(s[1], "timestamps"@, 0);
        lemma_same("timestamps"@);
        reveal_with_fuel(mode_at, 4);
    }
    lemma_same(a);
    lemma_same(b);
    lemma_differ("dec"@, "hex"@, 0);
    lemma_differ("relative"@, "absolute"@, 0);
}

proof fn lemma_base_line(
    r: Reading,
    base: NumberBase,
    mode: TimestampMode,
    number: int,
    mark: StampView,
)
    ensures
        ({
            let line = "base "@ + base.word() + "  timestamps "@ + mode.word();
            &&& after_line(r, line, number, mark) == Ok::<Reading, Failure>(
                with_header(
                    r,
                    AscHeaderView { number_base: base, timestamp_mode: mode, ..r.file.header },
                ),
            )
            &&& is_one_line(line)
        }),
{
    let a = base.word();
    let b = mode.word();
    let line = "base "@ + a + "  timestamps "@ + b;
    assert(is_word(a) && is_word(b) && a.len() > 0 && b.len() > 0 && !is_space(b.last())) by {
        reveal_strlit("hex");
        reveal_strlit("dec");
        reveal_strlit("absolute");
        reveal_strlit("relative");
        reveal(is_word);
    }
    lemma_base_words(a, b);
    lemma_base_header(r.file.header, line, base, mode, number);
    assert(starts(line, "base "@)) by {
        reveal_strlit("base ");
        lemma_same("base "@);
        assert(line =~= "base "@ + (a + "  timestamps "@ + b));
        lemma_starts("base "@, "base "@, a + "  timestamps "@ + b);
    }
    assert(trimmed(line) == line && !is_silent(line) && !starts(line, "date "@)) by {
        reveal_strlit("base ");
        reveal_strlit("date ");
        assert(line[0] == 'b');
        assert(line.last() == b.last());
        lemma_trimmed_same(line);
        lemma_not_starts(line, "date "@);
    }
    assert(is_one_line(line)) by {
        assert(is_one_line("base "@) && is_one_line("  timestamps "@) && is_one_line(a)
            && is_one_line(b)) by {
            reveal(is_one_line);
            reveal_strlit("base ");
            reveal_strlit("  timestamps ");
            reveal_strlit("hex");
            reveal_strlit("dec");
            reveal_strlit("absolute");
            reveal_strlit("relative");
        }
        lemma_one_line_join("base "@, a);
        lemma_one_line_join("base "@ + a, "  timestamps "@);
        lemma_one_line_join("base "@ + a + "  timestamps "@, b);
    }
    reveal(after_line);
}

/// What a line with a stamp and a body makes of what has been read.
proof fn lemma_stamped_line(
    r: Reading,
    stamp: Seq<char>,
    body: Seq<char>,
    number: int,
    mark: StampView,
)
    requires
        stamp_fits(stamp),
        body.len() > 0,
        is_one_line(body),
        !is_space(body[0]),
    ensures
        after_line(r, stamp + " "@ + body, number, mark) == after_event(
            r,
            trimmed_end(body),
            number,
            mark,
        ),
        is_one_line(stamp + " "@ + body),
{
    reveal(after_line);
    let (g, w) = choose|g: Seq<char>, w: Seq<char>| is_stamp(stamp, g, w);
    let raw = stamp + " "@ + body;
    let rest = w + " "@ + body;
    reveal_strlit(" ");
    lemma_blank_gap();
    assert(raw =~= g + rest);
    assert(rest[0] == w[0]);
    assert(is_one_line(raw)) by {
        assert(is_one_line(" "@)) by {
            reveal(is_one_line);
        }
        lemma_one_line_join(g, w);
        lemma_one_line_join(stamp, " "@);
        lemma_one_line_join(stamp + " "@, body);
    }
    lemma_trimmed_gap(g, rest);
    let t = trimmed_end(body);
    lemma_trimmed_end(body);
    lemma_trimmed_behind_word(w, body);
    let line = w + " "@ + t;
    assert(trimmed(raw) == line);
    assert(line[0] == w[0]);
    assert(!is_silent(line));
    reveal_strlit("date ");
    reveal_strlit("base ");
    reveal_strlit("internal events logged");
    reveal_strlit("no internal events logged");
    reveal_strlit("begin triggerblock ");
    reveal_strlit("end triggerblock");
    lemma_not_starts(line, "date "@);
    lemma_not_starts(line, "base "@);
    lemma_not_starts(line, "internal events logged"@);
    lemma_not_starts(line, "no internal events logged"@);
    lemma_not_starts(line, "begin triggerblock "@);
    lemma_not_starts(line, "end triggerblock"@);
    assert(split_first_of(line) == Some((w, t))) by {
        lemma_word_end_of(w, " "@ + t);
        assert(line =~= w + (" "@ + t));
        let n = w.len() as int;
        assert(line.subrange(0, n) =~= w);
        assert(line.skip(n) =~= " "@ + t);
        assert(t[0] == body[0]) by {
            assert(body.subrange(0, t.len() as int)[0] == t[0]);
        }
        lemma_trimmed_gap(" "@, t);
    }
}

proof fn lemma_word_end_of(w: Seq<char>, s: Seq<char>)
    requires
        is_word(w),
        s.len() > 0,
        is_space(s[0]),
    ensures
        word_end(w + s, 0) == w.len(),
{
    reveal(is_word);
    lemma_word_end_from(w, s, 0);
}

proof fn lemma_word_end_from(w: Seq<char>, s: Seq<char>, i: int)
    requires
        0 <= i <= w.len(),
        forall|k: int| 0 <= k < w.len() ==> !is_space(#[trigger] w[k]),
        s.len() > 0,
        is_space(s[0]),
    ensures
        word_end(w + s, i) == w.len(),
    decreases w.len() - i,
{
    let t = w + s;
    if i < w.len() {
        assert(t[i] == w[i]);
        lemma_word_end_from(w, s, i + 1);
    } else {
        assert(t[i] == s[0]);
    }
}

proof fn lemma_trimmed_behind_word(w: Seq<char>, body: Seq<char>)
    requires
        body.len() > 0,
        !is_space(body[0]),
    ensures
        trimmed_end(w + " "@ + body) == w + " "@ + trimmed_end(body),
    decreases body.len(),
{
    let s = w + " "@ + body;
    assert(s.last() == body.last());
    if is_space(body.last()) {
        let t = body.drop_last();
        assert(t.len() > 0);
        assert(t[0] == body[0]);
        assert(s.drop_last() =~= w + " "@ + t);
        lemma_trimmed_behind_word(w, t);
    }
}

/// Records other than events are read by their words alone.
proof fn lemma_record_by_words(t: Span, a: Seq<char>, b: Seq<char>, base: NumberBase, line: int)
    requires
        words_of(a) == words_of(b),
        record_of(t, a, base, line) matches Ok(r) && !(r is Event),
    ensures
        record_of(t, b, base, line) == record_of(t, a, base, line),
{
}

/// What is trimmed from a record changes nothing in how it is read.
proof fn lemma_trimmed_read(
    t: Span,
    text: Seq<char>,
    r: AscRecordView,
    base: NumberBase,
    line: int,
)
    requires
        text.len() > 0,
        !is_space(text[0]),
        r is Event ==> !is_space(text.last()),
        record_of(t, text, base, line) == Ok::<AscRecordView, Failure>(r),
    ensures
        record_of(t, trimmed_end(text), base, line) == Ok::<AscRecordView, Failure>(r),
{
    let s = trimmed_end(text);
    if r is Event {
        assert(s == text);
    } else {
        lemma_trimmed_end(text);
        let g = text.skip(s.len() as int);
        assert(text =~= s + g);
        lemma_words_before_gap(s, g);
        lemma_record_by_words(t, text, s, base, line);
    }
}

/// Reading the lines of the records from one on.
proof fn lemma_records_read(
    v: AscFileView,
    stamps: Seq<Seq<char>>,
    marks: Seq<StampView>,
    i: int,
    r: Reading,
)
    requires
        file_fits(v, stamps),
        marks_fit(v, marks),
        0 <= i <= v.records.len(),
        r.file == (AscFileView {
            header: completed(v.header),
            records: v.records.subrange(0, i),
        }),
        r.last == previous_time(v.records, i),
    ensures
        after_lines(r, file_lines(v, stamps), marks, lead(v.header) + i) matches Ok(n) && n.file
            == (AscFileView { header: completed(v.header), records: v.records }),
    decreases v.records.len() - i,
{
    let lines = file_lines(v, stamps);
    let n = v.records.len() as int;
    let k = lead(v.header);
    if i < n {
        let rec = v.records[i];
        reveal(entry_fits);
        assert(entry_fits(v, stamps, i));
        let base = v.header.number_base;
        let text = record_text(rec, base)->Ok_0;
        lemma_body_fits(rec, base);
        assert(lines[k + i] == record_line(v, stamps, i));
        assert(marks[k + i] == StampView::At(
            time_to_write(v.header.timestamp_mode, rec.timestamp(), previous_time(v.records, i))->Some_0,
        ));
        let t = time_to_write(
            v.header.timestamp_mode,
            rec.timestamp(),
            previous_time(v.records, i),
        )->Some_0;
        let number = k + i + 1;
        lemma_stamped_line(r, stamps[i], text, number, marks[k + i]);
        law_record_of_written(rec, base, number);
        lemma_trimmed_read(rec.timestamp(), text, rec, base, number);
        assert(rec.timestamp().valid());
        if i > 0 {
            assert(v.records[i - 1].timestamp().valid());
        }
        lemma_time_restored(
            v.header.timestamp_mode,
            rec.timestamp(),
            previous_time(v.records, i),
        );
        let next = Reading {
            file: AscFileView { records: r.file.records.push(rec), ..r.file },
            last: rec.timestamp(),
        };
        assert(after_line(r, lines[k + i], number, marks[k + i]) == Ok::<Reading, Failure>(next));
        assert(v.records.subrange(0, i).push(rec) =~= v.records.subrange(0, i + 1));
        lemma_records_read(v, stamps, marks, i + 1, next);
    } else {
        assert(lines[k + n] == "End TriggerBlock"@);
        lemma_end_line(r, k + n + 1, marks[k + n]);
        assert(v.records.subrange(0, n) =~= v.records);
        assert(after_lines(r, lines, marks, k + n + 1) == Ok::<Reading, Failure>(r));
    }
}

/// The time of a record is restored from the time that was written for it.
proof fn lemma_time_restored(mode: TimestampMode, elapsed: Span, previous: Span)
    requires
        elapsed.valid(),
        previous.valid(),
        time_to_write(mode, elapsed, previous) is Some,
    ensures
        mode == TimestampMode::Relative ==> previous.sum(
            time_to_write(mode, elapsed, previous)->Some_0,
        ) == Some(elapsed),
        mode == TimestampMode::Absolute ==> time_to_write(mode, elapsed, previous)->Some_0
            == elapsed,
{
    elapsed.law_of_total();
    previous.law_of_total();
    if mode == TimestampMode::Relative {
        let d = elapsed.total() - previous.total();
        let t = Span::of_total(d);
        assert(t.total() == d);
    }
}

proof fn lemma_behind(a: Seq<char>, b: Seq<char>, c: Seq<char>)
    ensures
        a + b + c == a + (b + c),
{
    assert(a + b + c =~= a + (b + c));
}

/// The header is written as its lines.
proof fn lemma_header_joined(h: AscHeaderView)
    requires
        header_fits(h),
    ensures
        header_text(h) == joined(header_lines(h)),
{
    let t = trigger_of(h);
    let nb = h.number_base.word();
    let tm = h.timestamp_mode.word();
    let e = "\n"@;
    let l1 = "base "@ + nb + "  timestamps "@ + tm;
    let l2 = if h.internal_events_logged {
        "internal events logged"@
    } else {
        "no internal events logged"@
    };
    let l3 = "Begin Triggerblock "@ + t;
    let l4 = " 0.000000 Start of measurement"@;
    let c1 = if h.internal_events_logged {
        ""@
    } else {
        "no "@
    };
    let none = Seq::<Seq<char>>::empty();
    let first = date_lines(h);
    lemma_joined_push(first, l1);
    lemma_joined_push(first.push(l1), l2);
    lemma_joined_push(first.push(l1).push(l2), l3);
    lemma_joined_push(first.push(l1).push(l2).push(l3), l4);
    assert(header_lines(h) =~= first.push(l1).push(l2).push(l3).push(l4));
    let t1 = match h.date {
        Some(d) => "date "@ + d + e,
        None => Seq::empty(),
    };
    assert(joined(first) =~= t1) by {
        if let Some(d) = h.date {
            lemma_joined_push(none, "date "@ + d);
            assert(first =~= none.push("date "@ + d));
        }
    }
    let t2 = t1 + l1 + e;
    lemma_behind(t1, "base "@, nb);
    lemma_behind(t1, "base "@ + nb, "  timestamps "@);
    lemma_behind(t1, "base "@ + nb + "  timestamps "@, tm);
    assert(t1 + "base "@ + nb + "  timestamps "@ + tm == t1 + l1);
    let t3 = t2 + l2 + e;
    assert(c1 + "internal events logged\n"@ =~= l2 + e) by {
        reveal_strlit("");
        reveal_strlit("no ");
        reveal_strlit("internal events logged\n");
        reveal_strlit("internal events logged");
        reveal_strlit("no internal events logged");
        reveal_strlit("\n");
    }
    lemma_behind(t2, c1, "internal events logged\n"@);
    lemma_behind(t2, l2, e);
    assert(t2 + c1 + "internal events logged\n"@ == t3);
    let t4 = t3 + l3 + e;
    lemma_behind(t3, "Begin Triggerblock "@, t);
    assert(t3 + "Begin Triggerblock "@ + t + e == t4);
    assert(" 0.000000 Start of measurement\n"@ =~= l4 + e) by {
        reveal_strlit(" 0.000000 Start of measurement\n");
        reveal_strlit(" 0.000000 Start of measurement");
        reveal_strlit("\n");
    }
    lemma_behind(t4, l4, e);
}

/// The lines up to a record.
spec fn lines_up_to(v: AscFileView, stamps: Seq<Seq<char>>, i: int) -> Seq<Seq<char>> {
    header_lines(v.header) + Seq::new(i as nat, |k: int| record_line(v, stamps, k))
}

proof fn lemma_records_joined(v: AscFileView, stamps: Seq<Seq<char>>, i: int)
    requires
        file_fits(v, stamps),
        0 <= i <= v.records.len(),
    ensures
        records_text(v, stamps, i, joined(lines_up_to(v, stamps, i))) == Ok::<Seq<char>, Failure>(
            joined(lines_up_to(v, stamps, v.records.len() as int)),
        ),
    decreases v.records.len() - i,
{
    if i < v.records.len() {
        assert(entry_fits(v, stamps, i));
        reveal(entry_fits);
        let before = lines_up_to(v, stamps, i);
        let line = record_line(v, stamps, i);
        let body = record_text(v.records[i], v.header.number_base)->Ok_0;
        lemma_joined_push(before, line);
        assert(before.push(line) =~= lines_up_to(v, stamps, i + 1));
        assert(joined(before) + stamps[i] + " "@ + body + "\n"@ =~= joined(before) + line + "\n"@);
        lemma_records_joined(v, stamps, i + 1);
    }
}

/// A trace is written as its lines.
proof fn lemma_file_joined(v: AscFileView, stamps: Seq<Seq<char>>)
    requires
        file_fits(v, stamps),
    ensures
        file_text(v, stamps) == Ok::<Seq<char>, Failure>(joined(file_lines(v, stamps))),
{
    let n = v.records.len() as int;
    lemma_header_joined(v.header);
    assert(lines_up_to(v, stamps, 0) =~= header_lines(v.header));
    lemma_records_joined(v, stamps, 0);
    let before = lines_up_to(v, stamps, n);
    lemma_joined_push(before, "End TriggerBlock"@);
    assert(before.push("End TriggerBlock"@) =~= file_lines(v, stamps));
    assert("End TriggerBlock\n"@ =~= "End TriggerBlock"@ + "\n"@) by {
        reveal_strlit("End TriggerBlock\n");
        reveal_strlit("End TriggerBlock");
        reveal_strlit("\n");
    }
    assert(joined(before) + "End TriggerBlock\n"@ =~= joined(before) + "End TriggerBlock"@
        + "\n"@);
}

/// The parts of the line of the start of the measurement.
proof fn lemma_start_parts()
    ensures
        stamp_fits(" "@ + "0.000000"@),
        is_one_line("Start of measurement"@),
        "Start of measurement"@.len() > 0,
        !is_space("Start of measurement"@[0]),
        trimmed_end("Start of measurement"@) == "Start of measurement"@,
        " 0.000000 Start of measurement"@ == " "@ + "0.000000"@ + " "@ + "Start of measurement"@,
{
    reveal_strlit(" ");
    reveal_strlit("0.000000");
    reveal_strlit("Start of measurement");
    reveal_strlit(" 0.000000 Start of measurement");
    lemma_blank_gap();
    assert(is_stamp(" "@ + "0.000000"@, " "@, "0.000000"@)) by {
        reveal(is_word);
        reveal(is_one_line);
    }
    assert(is_one_line("Start of measurement"@)) by {
        reveal(is_one_line);
    }
    assert(" 0.000000 Start of measurement"@ =~= " "@ + "0.000000"@ + " "@
        + "Start of measurement"@);
}

proof fn lemma_start_word()
    ensures
        same_ignore_case("Start of measurement"@, "start of measurement"@),
{
    reveal_strlit("Start of measurement");
    reveal_strlit("start of measurement");
    reveal(same_ignore_case);
    let a = "Start of measurement"@;
    let b = "start of measurement"@;
    assert(upper(a[0]) == upper(b[0]));
    assert forall|i: int| 0 <= i < a.len() implies upper(#[trigger] a[i]) == upper(b[i]) by {
        if i != 0 {
            assert(a[i] == b[i]);
        }
    }
}

/// The line of the start of the measurement.
proof fn lemma_start_line(r: Reading, number: int)
    requires
        r.last == no_time(),
    ensures
        after_line(
            r,
            " 0.000000 Start of measurement"@,
            number,
            StampView::At(no_time()),
        ) == Ok::<Reading, Failure>(r),
        is_one_line(" 0.000000 Start of measurement"@),
{
    lemma_start_parts();
    lemma_start_word();
    lemma_stamped_line(
        r,
        " "@ + "0.000000"@,
        "Start of measurement"@,
        number,
        StampView::At(no_time()),
    );
    no_time().law_of_total();
}

/// The date of a trace that has none stands in a line.
pub(crate) proof fn lemma_default_date()
    ensures
        is_line_text(default_date()),
{
    reveal_strlit("Thu Jan 01 00:00:00.000 1970");
    reveal(is_one_line);
}

proof fn lemma_file_lines(v: AscFileView, stamps: Seq<Seq<char>>)
    requires
        file_fits(v, stamps),
    ensures
        forall|i: int|
            0 <= i < file_lines(v, stamps).len() ==> is_one_line(
                #[trigger] file_lines(v, stamps)[i],
            ),
{
    let lines = file_lines(v, stamps);
    let r = Reading { file: AscFile::blank(), last: no_time() };
    let h = v.header;
    let k = lead(h);
    lemma_default_date();
    assert forall|i: int| 0 <= i < lines.len() implies is_one_line(#[trigger] lines[i]) by {
        if i == k - 5 {
            assert(is_one_line("date "@)) by {
                reveal_strlit("date ");
                reveal(is_one_line);
            }
            lemma_one_line_join("date "@, h.date->Some_0);
        } else if i == k - 4 {
            lemma_base_line(r, h.number_base, h.timestamp_mode, 2, StampView::Text);
        } else if i == k - 3 {
            lemma_internal_line(r, true, 3, StampView::Text);
        } else if i == k - 2 {
            assert(is_one_line("Begin Triggerblock "@)) by {
                reveal_strlit("Begin Triggerblock ");
                reveal(is_one_line);
            }
            lemma_one_line_join("Begin Triggerblock "@, trigger_of(h));
        } else if i == k - 1 {
            lemma_start_line(r, 5);
        } else if i < k + v.records.len() {
            let n = i - k;
            assert(entry_fits(v, stamps, n));
            reveal(entry_fits);
            assert(lines[i] == record_line(v, stamps, n));
            let text = record_text(v.records[n], h.number_base)->Ok_0;
            lemma_body_fits(v.records[n], h.number_base);
            lemma_stamped_line(r, stamps[n], text, 0, StampView::Text);
        } else {
            lemma_end_line(r, 0, StampView::Text);
        }
    }
}

/// The records of a trace read back from the text that it is written as, if the application
/// reads the times that were written, and so does the header. A date that is missing is read as
/// the one that stands for it.
pub proof fn law_records_of_written(v: AscFileView, stamps: Seq<Seq<char>>, marks: Seq<StampView>)
    requires
        file_fits(v, stamps),
        marks_fit(v, marks),
    ensures
        file_text(v, stamps) matches Ok(text) && {
            &&& lines_of(text).len() == marks.len()
            &&& parsed(text, marks) matches Ok(g) && g.records == v.records && g.header
                == completed(v.header)
        },
{
    let lines = file_lines(v, stamps);
    let h = v.header;
    let k = lead(h);
    lemma_default_date();
    lemma_file_joined(v, stamps);
    lemma_file_lines(v, stamps);
    law_lines_of_joined(lines);
    let r0 = Reading { file: AscFile::blank(), last: no_time() };
    let l = header_lines(h);
    assert(l.len() == k);
    assert(forall|i: int| 0 <= i < k ==> lines[i] == l[i]);
    let r1 = with_header(r0, AscHeaderView { date: Some(date_of(h)), ..r0.file.header });
    if let Some(d) = h.date {
        lemma_date_line(r0, d, 1, marks[0]);
        assert(lines[0] == "date "@ + d);
        assert(after_lines(r0, lines, marks, 0) == after_lines(r1, lines, marks, 1));
    } else {
        assert(r1 == r0);
    }
    lemma_base_line(r1, h.number_base, h.timestamp_mode, k - 3, marks[k - 4]);
    let r2 = with_header(
        r1,
        AscHeaderView {
            number_base: h.number_base,
            timestamp_mode: h.timestamp_mode,
            ..r1.file.header
        },
    );
    lemma_internal_line(r2, h.internal_events_logged, k - 2, marks[k - 3]);
    let r3 = with_header(
        r2,
        AscHeaderView { internal_events_logged: h.internal_events_logged, ..r2.file.header },
    );
    lemma_trigger_line(r3, trigger_of(h), k - 1, marks[k - 2]);
    let r4 = Reading {
        last: no_time(),
        ..with_header(r3, AscHeaderView { trigger_date: Some(trigger_of(h)), ..r3.file.header })
    };
    lemma_start_line(r4, k);
    assert(after_lines(r1, lines, marks, k - 4) == after_lines(r2, lines, marks, k - 3));
    assert(after_lines(r2, lines, marks, k - 3) == after_lines(r3, lines, marks, k - 2));
    assert(after_lines(r3, lines, marks, k - 2) == after_lines(r4, lines, marks, k - 1));
    assert(after_lines(r4, lines, marks, k - 1) == after_lines(r4, lines, marks, k));
    assert(v.records.subrange(0, 0) =~= Seq::<AscRecordView>::empty());
    lemma_records_read(v, stamps, marks, 0, r4);
}

/// A trace with both dates reads back from the text that it is written as, if the application
/// reads the times that were written.
pub proof fn law_file_of_written(v: AscFileView, stamps: Seq<Seq<char>>, marks: Seq<StampView>)
    requires
        file_fits(v, stamps),
        marks_fit(v, marks),
        v.header.date is Some,
        v.header.trigger_date is Some,
    ensures
        file_text(v, stamps) matches Ok(text) && lines_of(text).len() == marks.len() && parsed(
            text,
            marks,
        ) == Ok::<AscFileView, Failure>(v),
{
    law_records_of_written(v, stamps, marks);
}

} // verus!
