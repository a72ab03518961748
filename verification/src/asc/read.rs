//! Reading the records of an ASC trace.

use crate::views::{append, none_yet, views};
use crate::asc::error::{parse_error, Error, Failure, Result};
use crate::asc::line::{words, words_of};
use crate::asc::record::{
    AscErrorFrame, AscErrorFrameView, AscEvent, AscEventView, AscHeader, AscHeaderView, AscMessage,
    AscMessageView, AscRecord, AscRecordView, Direction, NumberBase, TimestampMode,
};
use crate::bus::{FrameType, CAN_EXT_FLAG, CAN_EXT_ID_MASK};
use crate::numeral::{numeral_in, parse_numeral};
use crate::span::Span;
use crate::text::{
    chars_of, debug_of, debug_text, dec, dec_text, eq_ignore_case, same_ignore_case, same_text,
    text_of,
};
use vstd::prelude::*;

verus! {

/// Fields of a record that are read, or how reading them fails.
pub type Field<T> = std::result::Result<T, Failure>;

/// A failure in a line with a message and a text in quotes.
pub open spec fn bad(line: int, message: Seq<char>, text: Seq<char>) -> Failure {
    Failure::Parse(line, message + debug_of(text))
}

fn bad_text(line: usize, message: &str, text: &str) -> (r: Error)
    ensures
        r@ == bad(line as int, message@, text@),
{
    let mut m = message.to_string();
    m.append(debug_text(text).as_str());
    parse_error(line, m)
}

/// A direction.
pub open spec fn direction_of(s: Seq<char>, line: int) -> Field<Direction> {
    if same_ignore_case(s, "rx"@) {
        Ok(Direction::Rx)
    } else if same_ignore_case(s, "tx"@) {
        Ok(Direction::Tx)
    } else {
        Err(bad(line, "unknown CAN direction "@, s))
    }
}

impl Direction {
    pub(crate) fn parse(value: &str, line: usize) -> (r: Result<Self>)
        ensures
            match r {
                Ok(d) => direction_of(value@, line as int) == Ok::<Direction, Failure>(d),
                Err(e) => direction_of(value@, line as int) == Err::<Direction, Failure>(e@),
            },
    {
        if eq_ignore_case(value, "rx") {
            Ok(Direction::Rx)
        } else if eq_ignore_case(value, "tx") {
            Ok(Direction::Tx)
        } else {
            Err(bad_text(line, "unknown CAN direction ", value))
        }
    }
}

/// A 32-bit number in the base of the file.
pub open spec fn number_of(s: Seq<char>, base: NumberBase, what: Seq<char>, line: int) -> Field<
    int,
> {
    match numeral_in(s, base.base(), u32::MAX as int) {
        Some(v) => Ok(v),
        None => Err(bad(line, "invalid "@ + what + " "@, s)),
    }
}

fn parse_u32(value: &str, base: NumberBase, what: &str, line: usize) -> (r: Result<u32>)
    ensures
        match r {
            Ok(v) => number_of(value@, base, what@, line as int) == Ok::<int, Failure>(v as int),
            Err(e) => number_of(value@, base, what@, line as int) == Err::<int, Failure>(e@),
        },
{
    match parse_numeral(value, base.radix(), u32::MAX as u64) {
        Some(v) => Ok(v as u32),
        None => {
            let mut m = "invalid ".to_string();
            m.append(what);
            m.append(" ");
            Err(bad_text(line, m.as_str(), value))
        },
    }
}

/// A number that fits in a byte.
pub open spec fn dlc_read(s: Seq<char>, base: NumberBase, line: int) -> Field<u8> {
    match number_of(s, base, "DLC"@, line) {
        Err(f) => Err(f),
        Ok(v) => if v <= 255 {
            Ok(v as u8)
        } else {
            Err(Failure::Parse(line, "DLC "@ + dec(v as nat) + " exceeds u8"@))
        },
    }
}

fn parse_dlc(value: &str, base: NumberBase, line: usize) -> (r: Result<u8>)
    ensures
        match r {
            Ok(v) => dlc_read(value@, base, line as int) == Ok::<u8, Failure>(v),
            Err(e) => dlc_read(value@, base, line as int) == Err::<u8, Failure>(e@),
        },
{
    let v: u32 = parse_u32(value, base, "DLC", line)?;
    if v <= 255 {
        Ok(v as u8)
    } else {
        let mut m = "DLC ".to_string();
        m.append(dec_text(v as u64).as_str());
        m.append(" exceeds u8");
        Err(parse_error(line, m))
    }
}

/// Whether an identifier is marked as an extended one.
pub open spec fn is_extended(s: Seq<char>) -> bool {
    s.len() > 0 && (s.last() == 'x' || s.last() == 'X')
}

/// An identifier: one of 11 bits, or one of 29 bits with its mark.
pub open spec fn id_of(s: Seq<char>, base: NumberBase, line: int) -> Field<u32> {
    match number_of(
        if is_extended(s) { s.drop_last() } else { s },
        base,
        "CAN identifier"@,
        line,
    ) {
        Err(f) => Err(f),
        Ok(v) => if v > CAN_EXT_ID_MASK {
            Err(
                Failure::Parse(line, "CAN identifier "@ + debug_of(s) + " exceeds 29 bits"@),
            )
        } else if !is_extended(s) && v > 0x7ff {
            Err(
                Failure::Parse(
                    line,
                    "standard CAN identifier "@ + debug_of(s) + " exceeds 11 bits"@,
                ),
            )
        } else {
            Ok((v as u32) | (if is_extended(s) { CAN_EXT_FLAG } else { 0 }))
        },
    }
}

fn parse_id(value: &str, base: NumberBase, line: usize) -> (r: Result<u32>)
    ensures
        match r {
            Ok(v) => id_of(value@, base, line as int) == Ok::<u32, Failure>(v),
            Err(e) => id_of(value@, base, line as int) == Err::<u32, Failure>(e@),
        },
{
    let s = chars_of(value);
    let extended = s.len() > 0 && (s[s.len() - 1] == 'x' || s[s.len() - 1] == 'X');
    let digits: String = if extended {
        proof {
            assert(s@.subrange(0, s@.len() - 1) =~= s@.drop_last());
        }
        text_of(&s, 0, s.len() - 1)
    } else {
        value.to_string()
    };
    let raw: u32 = parse_u32(digits.as_str(), base, "CAN identifier", line)?;
    if raw > CAN_EXT_ID_MASK {
        let mut m = "CAN identifier ".to_string();
        m.append(debug_text(value).as_str());
        m.append(" exceeds 29 bits");
        return Err(parse_error(line, m));
    }
    if !extended && raw > 0x7ff {
        let mut m = "standard CAN identifier ".to_string();
        m.append(debug_text(value).as_str());
        m.append(" exceeds 11 bits");
        return Err(parse_error(line, m));
    }
    Ok(
        raw | if extended {
            CAN_EXT_FLAG
        } else {
            0
        },
    )
}

/// A data byte.
pub open spec fn byte_of(s: Seq<char>, base: NumberBase, line: int) -> Field<u8> {
    match number_of(s, base, "CAN data byte"@, line) {
        Err(f) => Err(f),
        Ok(v) => if v <= 255 {
            Ok(v as u8)
        } else {
            Err(Failure::Parse(line, "CAN data byte "@ + debug_of(s) + " exceeds 0xFF"@))
        },
    }
}

/// The data bytes from one word up to another.
pub open spec fn bytes_of(
    s: Seq<Seq<char>>,
    from: int,
    to: int,
    base: NumberBase,
    line: int,
) -> Field<Seq<u8>>
    decreases to - from,
{
    if from >= to {
        Ok(Seq::empty())
    } else {
        match byte_of(s[from], base, line) {
            Err(f) => Err(f),
            Ok(b) => match bytes_of(s, from + 1, to, base, line) {
                Err(f) => Err(f),
                Ok(rest) => Ok(seq![b] + rest),
            },
        }
    }
}

/// Bytes behind others.
spec fn bytes_behind(done: Seq<u8>, rest: Field<Seq<u8>>) -> Field<Seq<u8>> {
    match rest {
        Ok(s) => Ok(done + s),
        Err(f) => Err(f),
    }
}

fn parse_bytes(values: &Vec<String>, from: usize, to: usize, base: NumberBase, line: usize) -> (r:
    Result<Vec<u8>>)
    requires
        from <= to <= values@.len(),
    ensures
        match r {
            Ok(v) => bytes_of(views(values@), from as int, to as int, base, line as int) == Ok::<
                Seq<u8>,
                Failure,
            >(v@),
            Err(e) => bytes_of(views(values@), from as int, to as int, base, line as int) == Err::<
                Seq<u8>,
                Failure,
            >(e@),
        },
{
    let ghost s = views(values@);
    let ghost whole = bytes_of(s, from as int, to as int, base, line as int);
    let mut out: Vec<u8> = Vec::new();
    let mut i: usize = from;
    proof {
        if let Ok(all) = whole {
            assert(Seq::<u8>::empty() + all =~= all);
        }
    }
    while i < to
        invariant
            from <= i <= to <= values@.len(),
            s == views(values@),
            whole == bytes_of(s, from as int, to as int, base, line as int),
            whole == bytes_behind(out@, bytes_of(s, i as int, to as int, base, line as int)),
        decreases to - i,
    {
        let value = values[i].as_str();
        let ghost before = out@;
        proof {
            assert(s[i as int] == value@);
        }
        let v: u32 = parse_u32(value, base, "CAN data byte", line)?;
        if v > 255 {
            let mut m = "CAN data byte ".to_string();
            m.append(debug_text(value).as_str());
            m.append(" exceeds 0xFF");
            return Err(parse_error(line, m));
        }
        out.push(v as u8);
        proof {
            if let Ok(rest) = bytes_of(s, i + 1, to as int, base, line as int) {
                assert(before + (seq![v as u8] + rest) =~= out@ + rest);
            }
        }
        i += 1;
    }
    proof {
        assert(out@ + Seq::<u8>::empty() =~= out@);
    }
    Ok(out)
}

/// Whether a word is a bit.
pub open spec fn is_bit_word(s: Seq<char>) -> bool {
    s == "0"@ || s == "1"@
}

/// A bit.
pub open spec fn bit_of(s: Seq<char>, what: Seq<char>, line: int) -> Field<bool> {
    if s == "0"@ {
        Ok(false)
    } else if s == "1"@ {
        Ok(true)
    } else {
        Err(bad(line, what + " must be 0 or 1, got "@, s))
    }
}

fn is_bit(value: &str) -> (r: bool)
    ensures
        r == is_bit_word(value@),
{
    same_text(value, "0") || same_text(value, "1")
}

fn parse_bit(value: &str, what: &str, line: usize) -> (r: Result<bool>)
    ensures
        match r {
            Ok(v) => bit_of(value@, what@, line as int) == Ok::<bool, Failure>(v),
            Err(e) => bit_of(value@, what@, line as int) == Err::<bool, Failure>(e@),
        },
{
    if same_text(value, "0") {
        Ok(false)
    } else if same_text(value, "1") {
        Ok(true)
    } else {
        let mut m = what.to_string();
        m.append(" must be 0 or 1, got ");
        Err(bad_text(line, m.as_str(), value))
    }
}

/// A failure that fewer bytes are there than declared.
pub open spec fn too_few(line: int, kind: Seq<char>, declared: nat, present: nat) -> Failure {
    Failure::Parse(
        line,
        kind + " record declares "@ + dec(declared) + " data bytes but only "@ + dec(present)
            + " are present"@,
    )
}

fn too_few_bytes(line: usize, kind: &str, declared: usize, present: usize) -> (r: Error)
    ensures
        r@ == too_few(line as int, kind@, declared as nat, present as nat),
{
    let mut m = kind.to_string();
    m.append(" record declares ");
    m.append(dec_text(declared as u64).as_str());
    m.append(" data bytes but only ");
    m.append(dec_text(present as u64).as_str());
    m.append(" are present");
    parse_error(line, m)
}

/// The words from an index on.
fn words_behind(s: &Vec<String>, from: usize) -> (r: Vec<String>)
    requires
        from <= s@.len(),
    ensures
        views(r@) == views(s@).skip(from as int),
{
    let mut out: Vec<String> = none_yet();
    let mut i: usize = from;
    proof {
        assert(views(s@).subrange(from as int, from as int) =~= Seq::<Seq<char>>::empty());
    }
    while i < s.len()
        invariant
            from <= i <= s@.len(),
            views(out@) == views(s@).subrange(from as int, i as int),
        decreases s@.len() - i,
    {
        append(&mut out, s[i].clone());
        i += 1;
        proof {
            assert(views(s@).subrange(from as int, i as int) =~= views(s@).subrange(
                from as int,
                i - 1,
            ).push(views(s@)[i - 1]));
        }
    }
    proof {
        assert(views(s@).subrange(from as int, i as int) =~= views(s@).skip(from as int));
    }
    out
}

/// A classic record: `s` are all its words, the channel being the first of them.
pub open spec fn classic_record(
    timestamp: Span,
    channel: u32,
    s: Seq<Seq<char>>,
    base: NumberBase,
    line: int,
) -> Field<AscRecordView> {
    if channel == 0 {
        Err(Failure::Parse(line, "ASC channel numbers are one-based"@))
    } else if s.len() > 1 && same_ignore_case(s[1], "errorframe"@) {
        Ok(
            AscRecordView::ErrorFrame(
                AscErrorFrameView {
                    timestamp,
                    channel,
                    direction: None,
                    is_fd: false,
                    metadata: s.skip(2),
                },
            ),
        )
    } else if s.len() < 5 {
        Err(Failure::Parse(line, "classic CAN record has fewer than four columns"@))
    } else {
        match id_of(s[1], base, line) {
            Err(f) => Err(f),
            Ok(id) => match direction_of(s[2], line) {
                Err(f) => Err(f),
                Ok(direction) => match dlc_read(s[4], base, line) {
                    Err(f) => Err(f),
                    Ok(dlc) => {
                        let is_remote = same_ignore_case(s[3], "r"@);
                        let length = if is_remote {
                            0
                        } else if dlc > 8 {
                            8
                        } else {
                            dlc as int
                        };
                        if !is_remote && !same_ignore_case(s[3], "d"@) {
                            Err(bad(line, "unknown classic CAN frame kind "@, s[3]))
                        } else if s.len() < 5 + length {
                            Err(
                                too_few(
                                    line,
                                    "classic CAN"@,
                                    length as nat,
                                    (s.len() - 5) as nat,
                                ),
                            )
                        } else {
                            match bytes_of(s, 5, 5 + length, base, line) {
                                Err(f) => Err(f),
                                Ok(data) => Ok(
                                    AscRecordView::Message(
                                        AscMessageView {
                                            timestamp,
                                            channel,
                                            id,
                                            direction,
                                            frame_type: FrameType(FrameType::CAN20B),
                                            dlc,
                                            data,
                                            is_remote,
                                            error_state_indicator: false,
                                            symbolic_name: None,
                                            fd_metadata: Seq::empty(),
                                        },
                                    ),
                                ),
                            }
                        }
                    },
                },
            },
        }
    }
}

fn parse_classic_record(
    timestamp: Span,
    channel: u32,
    tokens: &Vec<String>,
    base: NumberBase,
    line: usize,
) -> (r: Result<AscRecord>)
    requires
        tokens@.len() >= 1,
    ensures
        match r {
            Ok(v) => classic_record(timestamp, channel, views(tokens@), base, line as int) == Ok::<
                AscRecordView,
                Failure,
            >(v@),
            Err(e) => classic_record(timestamp, channel, views(tokens@), base, line as int)
                == Err::<AscRecordView, Failure>(e@),
        },
{
    if channel == 0 {
        return Err(parse_error(line, "ASC channel numbers are one-based".to_string()));
    }
    if tokens.len() > 1 && eq_ignore_case(tokens[1].as_str(), "errorframe") {
        return Ok(
            AscRecord::ErrorFrame(
                AscErrorFrame {
                    timestamp,
                    channel,
                    direction: None,
                    is_fd: false,
                    metadata: words_behind(tokens, 2),
                },
            ),
        );
    }
    if tokens.len() < 5 {
        return Err(
            parse_error(line, "classic CAN record has fewer than four columns".to_string()),
        );
    }
    let id: u32 = parse_id(tokens[1].as_str(), base, line)?;
    let direction = Direction::parse(tokens[2].as_str(), line)?;
    let dlc: u8 = parse_dlc(tokens[4].as_str(), base, line)?;
    let is_remote = eq_ignore_case(tokens[3].as_str(), "r");
    if !is_remote && !eq_ignore_case(tokens[3].as_str(), "d") {
        return Err(bad_text(line, "unknown classic CAN frame kind ", tokens[3].as_str()));
    }
    let length: usize = if is_remote {
        0
    } else if dlc > 8 {
        8
    } else {
        dlc as usize
    };
    if tokens.len() < 5 + length {
        return Err(too_few_bytes(line, "classic CAN", length, tokens.len() - 5));
    }
    let data = parse_bytes(tokens, 5, 5 + length, base, line)?;
    Ok(
        AscRecord::Message(
            AscMessage {
                timestamp,
                channel,
                id,
                direction,
                frame_type: FrameType(FrameType::CAN20B),
                dlc,
                data,
                is_remote,
                error_state_indicator: false,
                symbolic_name: None,
                fd_metadata: none_yet(),
            },
        ),
    )
}

/// What a CAN FD record says behind its identifier: `c` is the index of the first of its
/// control bits.
pub open spec fn fd_message(
    timestamp: Span,
    channel: u32,
    direction: Direction,
    id: u32,
    s: Seq<Seq<char>>,
    c: int,
    base: NumberBase,
    line: int,
) -> Field<AscRecordView> {
    match bit_of(s[c], "BRS"@, line) {
        Err(f) => Err(f),
        Ok(brs) => match bit_of(s[c + 1], "ESI"@, line) {
            Err(f) => Err(f),
            Ok(esi) => match dlc_read(s[c + 2], base, line) {
                Err(f) => Err(f),
                Ok(dlc) => match numeral_in(s[c + 3], 10, usize::MAX as int) {
                    None => Err(bad(line, "invalid CAN FD data length "@, s[c + 3])),
                    Some(length) => if length > 64 {
                        Err(
                            Failure::Parse(
                                line,
                                "CAN FD data length "@ + dec(length as nat) + " exceeds 64"@,
                            ),
                        )
                    } else if s.len() < c + 4 + length {
                        Err(
                            too_few(
                                line,
                                "CAN FD"@,
                                length as nat,
                                (s.len() - (c + 4)) as nat,
                            ),
                        )
                    } else {
                        match bytes_of(s, c + 4, c + 4 + length, base, line) {
                            Err(f) => Err(f),
                            Ok(data) => Ok(
                                AscRecordView::Message(
                                    AscMessageView {
                                        timestamp,
                                        channel,
                                        id,
                                        direction,
                                        frame_type: if brs {
                                            FrameType(FrameType::FD_BRS)
                                        } else {
                                            FrameType(FrameType::FD)
                                        },
                                        dlc,
                                        data,
                                        is_remote: length == 0,
                                        error_state_indicator: esi,
                                        symbolic_name: if c == 5 { Some(s[4]) } else { None },
                                        fd_metadata: s.skip(c + 4 + length),
                                    },
                                ),
                            ),
                        }
                    },
                },
            },
        },
    }
}

/// A CAN FD record: `s` are all its words, its mark being the first of them.
pub open spec fn fd_record(timestamp: Span, s: Seq<Seq<char>>, base: NumberBase, line: int) -> Field<
    AscRecordView,
> {
    if s.len() < 4 {
        Err(Failure::Parse(line, "CAN FD record has fewer than three columns"@))
    } else {
        match numeral_in(s[1], 10, u32::MAX as int) {
            None => Err(bad(line, "invalid CAN FD channel "@, s[1])),
            Some(channel) => if channel == 0 {
                Err(Failure::Parse(line, "ASC channel numbers are one-based"@))
            } else {
                match direction_of(s[2], line) {
                    Err(f) => Err(f),
                    Ok(direction) => if same_ignore_case(s[3], "errorframe"@) {
                        Ok(
                            AscRecordView::ErrorFrame(
                                AscErrorFrameView {
                                    timestamp,
                                    channel: channel as u32,
                                    direction: Some(direction),
                                    is_fd: true,
                                    metadata: s.skip(4),
                                },
                            ),
                        )
                    } else if s.len() < 8 {
                        Err(Failure::Parse(line, "CAN FD data record has too few columns"@))
                    } else {
                        match id_of(s[3], base, line) {
                            Err(f) => Err(f),
                            Ok(id) => if is_bit_word(s[4]) {
                                fd_message(
                                    timestamp,
                                    channel as u32,
                                    direction,
                                    id,
                                    s,
                                    4,
                                    base,
                                    line,
                                )
                            } else if s.len() < 9 {
                                Err(
                                    Failure::Parse(
                                        line,
                                        "CAN FD record ends after its symbolic name"@,
                                    ),
                                )
                            } else {
                                fd_message(
                                    timestamp,
                                    channel as u32,
                                    direction,
                                    id,
                                    s,
                                    5,
                                    base,
                                    line,
                                )
                            },
                        }
                    },
                }
            },
        }
    }
}

fn parse_fd_message(
    timestamp: Span,
    channel: u32,
    direction: Direction,
    id: u32,
    tokens: &Vec<String>,
    c: usize,
    base: NumberBase,
    line: usize,
) -> (r: Result<AscRecord>)
    requires
        c == 4 || c == 5,
        tokens@.len() >= c + 4,
    ensures
        match r {
            Ok(v) => fd_message(
                timestamp,
                channel,
                direction,
                id,
                views(tokens@),
                c as int,
                base,
                line as int,
            ) == Ok::<AscRecordView, Failure>(v@),
            Err(e) => fd_message(
                timestamp,
                channel,
                direction,
                id,
                views(tokens@),
                c as int,
                base,
                line as int,
            ) == Err::<AscRecordView, Failure>(e@),
        },
{
    let brs = parse_bit(tokens[c].as_str(), "BRS", line)?;
    let esi = parse_bit(tokens[c + 1].as_str(), "ESI", line)?;
    let dlc: u8 = parse_dlc(tokens[c + 2].as_str(), base, line)?;
    let length: usize = match parse_numeral(tokens[c + 3].as_str(), 10, usize::MAX as u64) {
        Some(v) => v as usize,
        None => {
            return Err(bad_text(line, "invalid CAN FD data length ", tokens[c + 3].as_str()));
        },
    };
    if length > 64 {
        let mut m = "CAN FD data length ".to_string();
        m.append(dec_text(length as u64).as_str());
        m.append(" exceeds 64");
        return Err(parse_error(line, m));
    }
    let start: usize = c + 4;
    if tokens.len() < start + length {
        return Err(too_few_bytes(line, "CAN FD", length, tokens.len() - start));
    }
    let data = parse_bytes(tokens, start, start + length, base, line)?;
    let symbolic_name: Option<String> = if c == 5 {
        Some(tokens[4].clone())
    } else {
        None
    };
    Ok(
        AscRecord::Message(
            AscMessage {
                timestamp,
                channel,
                id,
                direction,
                frame_type: if brs {
                    FrameType(FrameType::FD_BRS)
                } else {
                    FrameType(FrameType::FD)
                },
                dlc,
                data,
                is_remote: length == 0,
                error_state_indicator: esi,
                symbolic_name,
                fd_metadata: words_behind(tokens, start + length),
            },
        ),
    )
}

fn parse_fd_record(timestamp: Span, tokens: &Vec<String>, base: NumberBase, line: usize) -> (r:
    Result<AscRecord>)
    requires
        tokens@.len() >= 1,
    ensures
        match r {
            Ok(v) => fd_record(timestamp, views(tokens@), base, line as int) == Ok::<
                AscRecordView,
                Failure,
            >(v@),
            Err(e) => fd_record(timestamp, views(tokens@), base, line as int) == Err::<
                AscRecordView,
                Failure,
            >(e@),
        },
{
    if tokens.len() < 4 {
        return Err(
            parse_error(line, "CAN FD record has fewer than three columns".to_string()),
        );
    }
    let channel: u32 = match parse_numeral(tokens[1].as_str(), 10, u32::MAX as u64) {
        Some(v) => v as u32,
        None => {
            return Err(bad_text(line, "invalid CAN FD channel ", tokens[1].as_str()));
        },
    };
    if channel == 0 {
        return Err(parse_error(line, "ASC channel numbers are one-based".to_string()));
    }
    let direction = Direction::parse(tokens[2].as_str(), line)?;
    if eq_ignore_case(tokens[3].as_str(), "errorframe") {
        return Ok(
            AscRecord::ErrorFrame(
                AscErrorFrame {
                    timestamp,
                    channel,
                    direction: Some(direction),
                    is_fd: true,
                    metadata: words_behind(tokens, 4),
                },
            ),
        );
    }
    if tokens.len() < 8 {
        return Err(parse_error(line, "CAN FD data record has too few columns".to_string()));
    }
    let id: u32 = parse_id(tokens[3].as_str(), base, line)?;
    if is_bit(tokens[4].as_str()) {
        return parse_fd_message(timestamp, channel, direction, id, tokens, 4, base, line);
    }
    if tokens.len() < 9 {
        return Err(
            parse_error(line, "CAN FD record ends after its symbolic name".to_string()),
        );
    }
    parse_fd_message(timestamp, channel, direction, id, tokens, 5, base, line)
}

/// Whether the words behind a channel number are those of a CAN record.
pub open spec fn looks_like_can(s: Seq<Seq<char>>) -> bool {
    ||| s.len() > 1 && same_ignore_case(s[1], "errorframe"@)
    ||| s.len() > 2 && (same_ignore_case(s[2], "rx"@) || same_ignore_case(s[2], "tx"@))
}

/// The record that the text behind a timestamp stands for, or how reading it fails.
pub open spec fn record_of(timestamp: Span, body: Seq<char>, base: NumberBase, line: int) -> Field<
    AscRecordView,
> {
    let s = words_of(body);
    if s.len() == 0 {
        Err(Failure::Parse(line, "timestamp without an event"@))
    } else if same_ignore_case(s[0], "canfd"@) {
        fd_record(timestamp, s, base, line)
    } else {
        match numeral_in(s[0], 10, u32::MAX as int) {
            Some(channel) if looks_like_can(s) => classic_record(
                timestamp,
                channel as u32,
                s,
                base,
                line,
            ),
            _ => Ok(AscRecordView::Event(AscEventView { timestamp, text: body })),
        }
    }
}

/// Reads the text behind a timestamp.
pub(crate) fn parse_record(timestamp: Span, body: &str, base: NumberBase, line: usize) -> (r:
    Result<AscRecord>)
    ensures
        match r {
            Ok(v) => record_of(timestamp, body@, base, line as int) == Ok::<
                AscRecordView,
                Failure,
            >(v@),
            Err(e) => record_of(timestamp, body@, base, line as int) == Err::<
                AscRecordView,
                Failure,
            >(e@),
        },
{
    let tokens = words(body);
    if tokens.len() == 0 {
        return Err(parse_error(line, "timestamp without an event".to_string()));
    }
    if eq_ignore_case(tokens[0].as_str(), "canfd") {
        return parse_fd_record(timestamp, &tokens, base, line);
    }
    if let Some(channel) = parse_numeral(tokens[0].as_str(), 10, u32::MAX as u64) {
        let looks = (tokens.len() > 1 && eq_ignore_case(tokens[1].as_str(), "errorframe")) || (
        tokens.len() > 2 && (eq_ignore_case(tokens[2].as_str(), "rx") || eq_ignore_case(
            tokens[2].as_str(),
            "tx",
        )));
        if looks {
            return parse_classic_record(timestamp, channel as u32, &tokens, base, line);
        }
    }
    Ok(AscRecord::Event(AscEvent { timestamp, text: body.to_string() }))
}

/// The first word from an index on that is `timestamps`.
pub open spec fn mode_at(s: Seq<Seq<char>>, i: int) -> int
    decreases s.len() - i,
{
    if 0 <= i < s.len() && !same_ignore_case(s[i], "timestamps"@) {
        mode_at(s, i + 1)
    } else {
        i
    }
}

/// What a `base` line makes of the header.
pub open spec fn base_header(h: AscHeaderView, text: Seq<char>, line: int) -> Field<AscHeaderView> {
    let s = words_of(text);
    let at = mode_at(s, 0);
    if s.len() < 2 {
        Err(Failure::Parse(line, "base header is missing its number base"@))
    } else if !same_ignore_case(s[1], "hex"@) && !same_ignore_case(s[1], "dec"@) {
        Err(bad(line, "unknown ASC number base "@, s[1]))
    } else {
        let h = AscHeaderView {
            number_base: if same_ignore_case(s[1], "hex"@) {
                NumberBase::Hex
            } else {
                NumberBase::Decimal
            },
            ..h
        };
        if at >= s.len() {
            Ok(h)
        } else if at + 1 >= s.len() {
            Err(Failure::Parse(line, "timestamps header is missing its mode"@))
        } else if same_ignore_case(s[at + 1], "absolute"@) {
            Ok(AscHeaderView { timestamp_mode: TimestampMode::Absolute, ..h })
        } else if same_ignore_case(s[at + 1], "relative"@) {
            Ok(AscHeaderView { timestamp_mode: TimestampMode::Relative, ..h })
        } else {
            Err(bad(line, "unknown timestamp mode "@, s[at + 1]))
        }
    }
}

pub(crate) fn parse_base_header(text: &str, line: usize, header: &mut AscHeader) -> (r: Result<()>)
    ensures
        match r {
            Ok(()) => base_header(old(header)@, text@, line as int) == Ok::<
                AscHeaderView,
                Failure,
            >(final(header)@),
            Err(e) => base_header(old(header)@, text@, line as int) == Err::<
                AscHeaderView,
                Failure,
            >(e@),
        },
{
    let s = words(text);
    if s.len() < 2 {
        return Err(
            parse_error(line, "base header is missing its number base".to_string()),
        );
    }
    if eq_ignore_case(s[1].as_str(), "hex") {
        header.number_base = NumberBase::Hex;
    } else if eq_ignore_case(s[1].as_str(), "dec") {
        header.number_base = NumberBase::Decimal;
    } else {
        return Err(bad_text(line, "unknown ASC number base ", s[1].as_str()));
    }
    let mut at: usize = 0;
    while at < s.len() && !eq_ignore_case(s[at].as_str(), "timestamps")
        invariant
            at <= s@.len(),
            mode_at(views(s@), 0) == mode_at(views(s@), at as int),
        decreases s@.len() - at,
    {
        at += 1;
    }
    if at < s.len() {
        if at + 1 >= s.len() {
            return Err(
                parse_error(line, "timestamps header is missing its mode".to_string()),
            );
        }
        if eq_ignore_case(s[at + 1].as_str(), "absolute") {
            header.timestamp_mode = TimestampMode::Absolute;
        } else if eq_ignore_case(s[at + 1].as_str(), "relative") {
            header.timestamp_mode = TimestampMode::Relative;
        } else {
            return Err(bad_text(line, "unknown timestamp mode ", s[at + 1].as_str()));
        }
    }
    Ok(())
}

} // verus!
