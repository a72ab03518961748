//! Writing the records of an ASC trace.

use crate::asc::error::{Error, Failure, Result};
use crate::asc::record::{
    AscErrorFrame, AscErrorFrameView, AscMessage, AscMessageView, AscRecord, AscRecordView,
    Direction, NumberBase,
};
use crate::bus::{FrameType, CAN_EXT_FLAG, CAN_EXT_ID_MASK};
use crate::text::{chars_of, dec, dec_text, digit, digit_char, hex, hex_text};
use crate::views::views;
use vstd::prelude::*;

verus! {

/// So many blanks.
pub open spec fn blanks(n: int) -> Seq<char>
    decreases n,
{
    if n <= 0 {
        Seq::empty()
    } else {
        blanks(n - 1).push(' ')
    }
}

/// A text with blanks behind it up to a width.
pub open spec fn to_left(s: Seq<char>, width: int) -> Seq<char> {
    s + blanks(width - s.len())
}

/// A text with blanks before it up to a width.
pub open spec fn to_right(s: Seq<char>, width: int) -> Seq<char> {
    blanks(width - s.len()) + s
}

/// Puts a text with blanks behind it up to a width.
fn push_left(out: &mut String, s: &str, width: usize)
    ensures
        final(out)@ == old(out)@ + to_left(s@, width as int),
{
    let n: usize = s.unicode_len();
    let mut pad = s.to_string();
    let mut i: usize = n;
    proof {
        assert(pad@ =~= s@ + blanks(0));
    }
    while i < width
        invariant
            n == s@.len(),
            n <= i,
            i <= width || i == n,
            pad@ == s@ + blanks(i - n),
        decreases width - i,
    {
        pad.push(' ');
        i += 1;
        proof {
            assert(pad@ =~= s@ + blanks(i - n));
        }
    }
    out.append(pad.as_str());
}

/// Puts a text with blanks before it up to a width.
fn push_right(out: &mut String, s: &str, width: usize)
    ensures
        final(out)@ == old(out)@ + to_right(s@, width as int),
{
    let n: usize = s.unicode_len();
    let ghost start = out@;
    let mut i: usize = n;
    proof {
        assert(out@ =~= start + blanks(0));
    }
    while i < width
        invariant
            n == s@.len(),
            n <= i,
            i <= width || i == n,
            out@ == start + blanks(i - n),
        decreases width - i,
    {
        out.push(' ');
        i += 1;
        proof {
            assert(out@ =~= start + blanks(i - n));
        }
    }
    out.append(s);
    proof {
        assert(out@ =~= start + to_right(s@, width as int));
    }
}

/// A number in the base of the file.
pub open spec fn number_text(v: nat, base: NumberBase) -> Seq<char> {
    match base {
        NumberBase::Hex => hex(v),
        NumberBase::Decimal => dec(v),
    }
}

/// An identifier, with the mark of an extended one.
pub open spec fn id_text(id: u32, base: NumberBase) -> Seq<char> {
    if id & CAN_EXT_FLAG != 0 {
        number_text((id & CAN_EXT_ID_MASK) as nat, base).push('x')
    } else {
        number_text((id & CAN_EXT_ID_MASK) as nat, base)
    }
}

/// A data byte: two hexadecimal digits, or a decimal number.
pub open spec fn byte_text(b: u8, base: NumberBase) -> Seq<char> {
    match base {
        NumberBase::Hex => seq![digit_char((b / 16) as nat), digit_char((b % 16) as nat)],
        NumberBase::Decimal => dec(b as nat),
    }
}

fn format_number(value: u32, base: NumberBase) -> (r: String)
    ensures
        r@ == number_text(value as nat, base),
{
    match base {
        NumberBase::Hex => hex_text(value as u64),
        NumberBase::Decimal => dec_text(value as u64),
    }
}

fn format_id(id: u32, base: NumberBase) -> (r: String)
    ensures
        r@ == id_text(id, base),
{
    let mut value = format_number(id & CAN_EXT_ID_MASK, base);
    if id & CAN_EXT_FLAG != 0 {
        value.push('x');
    }
    value
}

fn format_byte(value: u8, base: NumberBase) -> (r: String)
    ensures
        r@ == byte_text(value, base),
{
    match base {
        NumberBase::Hex => {
            let mut s = String::new();
            s.push(digit((value / 16) as u64));
            s.push(digit((value % 16) as u64));
            proof {
                assert(s@ =~= byte_text(value, base));
            }
            s
        },
        NumberBase::Decimal => dec_text(value as u64),
    }
}

/// The first data bytes, each behind a blank.
pub open spec fn bytes_text(data: Seq<u8>, n: int, base: NumberBase) -> Seq<char>
    decreases n,
{
    if n <= 0 {
        Seq::empty()
    } else {
        bytes_text(data, n - 1, base) + " "@ + byte_text(data[n - 1], base)
    }
}

/// The first words, each behind a blank.
pub open spec fn words_text(s: Seq<Seq<char>>, n: int) -> Seq<char>
    decreases n,
{
    if n <= 0 {
        Seq::empty()
    } else {
        words_text(s, n - 1) + " "@ + s[n - 1]
    }
}

fn push_bytes(out: &mut String, data: &Vec<u8>, base: NumberBase)
    ensures
        final(out)@ == old(out)@ + bytes_text(data@, data@.len() as int, base),
{
    let ghost start = out@;
    let mut i: usize = 0;
    proof {
        assert(out@ =~= start + bytes_text(data@, 0, base));
    }
    while i < data.len()
        invariant
            i <= data@.len(),
            out@ == start + bytes_text(data@, i as int, base),
        decreases data@.len() - i,
    {
        out.append(" ");
        out.append(format_byte(data[i], base).as_str());
        i += 1;
        proof {
            assert(out@ =~= start + bytes_text(data@, i as int, base));
        }
    }
}

fn push_words(out: &mut String, s: &Vec<String>)
    ensures
        final(out)@ == old(out)@ + words_text(views(s@), s@.len() as int),
{
    let ghost start = out@;
    let mut i: usize = 0;
    proof {
        assert(out@ =~= start + words_text(views(s@), 0));
    }
    while i < s.len()
        invariant
            i <= s@.len(),
            out@ == start + words_text(views(s@), i as int),
        decreases s@.len() - i,
    {
        out.append(" ");
        out.append(s[i].as_str());
        i += 1;
        proof {
            assert(out@ =~= start + words_text(views(s@), i as int));
        }
    }
}

/// How a message is refused.
pub open spec fn message_failure(v: AscMessageView) -> Option<Failure> {
    let raw = v.id & CAN_EXT_ID_MASK;
    let classic = v.frame_type.spec_is_classic();
    let maximum = if classic { 8nat } else { 64 };
    if v.channel == 0 {
        Some(Failure::Write("ASC channel numbers are one-based"@))
    } else if v.id & 0x6000_0000 != 0 {
        Some(
            Failure::Write(
                "CAN identifier 0x"@ + hex(v.id as nat)
                    + " contains unsupported flag or identifier bits"@,
            ),
        )
    } else if v.id & CAN_EXT_FLAG == 0 && raw > 0x7ff {
        Some(
            Failure::Write(
                "standard CAN identifier 0x"@ + hex(raw as nat) + " exceeds 11 bits"@,
            ),
        )
    } else if v.data.len() > maximum {
        Some(
            Failure::Write(
                "CAN payload length "@ + dec(v.data.len()) + " exceeds "@ + dec(maximum),
            ),
        )
    } else if !classic && v.dlc > 15 {
        Some(Failure::Write("CAN FD DLC "@ + dec(v.dlc as nat) + " exceeds 15"@))
    } else if v.is_remote && v.data.len() > 0 {
        Some(Failure::Write("a remote CAN frame must not carry data bytes"@))
    } else {
        None
    }
}

fn validate_message(m: &AscMessage) -> (r: Result<()>)
    ensures
        match r {
            Ok(()) => message_failure(m@) is None,
            Err(e) => message_failure(m@) == Some(e@),
        },
{
    if m.channel == 0 {
        return Err(Error::Write("ASC channel numbers are one-based".to_string()));
    }
    let raw: u32 = m.id & CAN_EXT_ID_MASK;
    if m.id & 0x6000_0000 != 0 {
        let mut s = "CAN identifier 0x".to_string();
        s.append(hex_text(m.id as u64).as_str());
        s.append(" contains unsupported flag or identifier bits");
        return Err(Error::Write(s));
    }
    if m.id & CAN_EXT_FLAG == 0 && raw > 0x7ff {
        let mut s = "standard CAN identifier 0x".to_string();
        s.append(hex_text(raw as u64).as_str());
        s.append(" exceeds 11 bits");
        return Err(Error::Write(s));
    }
    let maximum: usize = if m.frame_type.is_classic() {
        8
    } else {
        64
    };
    if m.data.len() > maximum {
        let mut s = "CAN payload length ".to_string();
        s.append(dec_text(m.data.len() as u64).as_str());
        s.append(" exceeds ");
        s.append(dec_text(maximum as u64).as_str());
        return Err(Error::Write(s));
    }
    if !m.frame_type.is_classic() && m.dlc > 15 {
        let mut s = "CAN FD DLC ".to_string();
        s.append(dec_text(m.dlc as u64).as_str());
        s.append(" exceeds 15");
        return Err(Error::Write(s));
    }
    if m.is_remote && m.data.len() > 0 {
        return Err(
            Error::Write("a remote CAN frame must not carry data bytes".to_string()),
        );
    }
    Ok(())
}

/// A classic message.
#[verifier::opaque]
pub open spec fn classic_text(v: AscMessageView, base: NumberBase) -> Seq<char> {
    dec(v.channel as nat) + "  "@ + to_left(id_text(v.id, base), 15) + " "@ + to_left(
        v.direction.word(),
        4,
    ) + (if v.is_remote { " r "@ } else { " d "@ }) + number_text(v.dlc as nat, base) + bytes_text(
        v.data,
        v.data.len() as int,
        base,
    )
}

/// Whether the bit rate is switched.
pub open spec fn has_brs(t: FrameType) -> bool {
    t.0 & FrameType::BRS == FrameType::BRS
}

/// A bit as a digit.
pub open spec fn bit_text(b: bool) -> Seq<char> {
    if b {
        "1"@
    } else {
        "0"@
    }
}

/// The columns behind the payload where a message has none of its own: the flags tell a CAN
/// FD frame, a switched bit rate, and the error state.
pub open spec fn usual_columns(brs: bool, esi: bool) -> Seq<char> {
    " 0 0 "@ + (if esi {
        if brs { "7000"@ } else { "5000"@ }
    } else {
        if brs { "3000"@ } else { "1000"@ }
    }) + " 0 0 0 0 0"@
}

/// A CAN FD message.
#[verifier::opaque]
pub open spec fn fd_text(v: AscMessageView, base: NumberBase) -> Seq<char> {
    let s = "CANFD "@ + to_right(dec(v.channel as nat), 3) + " "@ + to_left(
        v.direction.word(),
        4,
    ) + " "@ + to_right(id_text(v.id, base), 8) + "  "@;
    let s = match v.symbolic_name {
        Some(name) => s + name + " "@,
        None => s,
    };
    let s = s + bit_text(has_brs(v.frame_type)) + " "@ + bit_text(v.error_state_indicator) + " "@
        + number_text(v.dlc as nat, base) + " "@ + to_right(dec(v.data.len()), 2) + bytes_text(
        v.data,
        v.data.len() as int,
        base,
    );
    if v.fd_metadata.len() == 0 {
        s + usual_columns(has_brs(v.frame_type), v.error_state_indicator)
    } else {
        s + words_text(v.fd_metadata, v.fd_metadata.len() as int)
    }
}

/// An error frame.
#[verifier::opaque]
pub open spec fn error_text(v: AscErrorFrameView) -> Seq<char> {
    let s = if v.is_fd {
        "CANFD "@ + to_right(dec(v.channel as nat), 3) + " "@ + to_left(
            (match v.direction {
                Some(d) => d,
                None => Direction::Rx,
            }).word(),
            4,
        ) + " ErrorFrame"@
    } else {
        dec(v.channel as nat) + "  ErrorFrame"@
    };
    s + words_text(v.metadata, v.metadata.len() as int)
}

/// What a record is written as behind its timestamp, or how it is refused.
pub open spec fn record_text(v: AscRecordView, base: NumberBase) -> std::result::Result<
    Seq<char>,
    Failure,
> {
    match v {
        AscRecordView::Message(m) => match message_failure(m) {
            Some(f) => Err(f),
            None => if m.frame_type.spec_is_classic() {
                Ok(classic_text(m, base))
            } else {
                Ok(fd_text(m, base))
            },
        },
        AscRecordView::ErrorFrame(e) => if e.channel == 0 {
            Err(Failure::Write("ASC channel numbers are one-based"@))
        } else {
            Ok(error_text(e))
        },
        AscRecordView::Event(e) => if e.text.contains('\r') || e.text.contains('\n') {
            Err(Failure::Write("an ASC event must not contain a line break"@))
        } else {
            Ok(e.text)
        },
    }
}

fn classic_line(m: &AscMessage, base: NumberBase) -> (r: String)
    ensures
        r@ == classic_text(m@, base),
{
    proof {
        reveal(classic_text);
    }
    let mut s = dec_text(m.channel as u64);
    s.append("  ");
    push_left(&mut s, format_id(m.id, base).as_str(), 15);
    s.append(" ");
    push_left(&mut s, m.direction.as_str(), 4);
    if m.is_remote {
        s.append(" r ");
    } else {
        s.append(" d ");
    }
    s.append(format_number(m.dlc as u32, base).as_str());
    push_bytes(&mut s, &m.data, base);
    s
}

fn bit_str(b: bool) -> (r: &'static str)
    ensures
        r@ == bit_text(b),
{
    if b {
        "1"
    } else {
        "0"
    }
}

fn fd_line(m: &AscMessage, base: NumberBase) -> (r: String)
    ensures
        r@ == fd_text(m@, base),
{
    proof {
        reveal(fd_text);
    }
    let brs = m.frame_type.contains(FrameType(FrameType::BRS));
    let esi = m.error_state_indicator;
    let mut s = "CANFD ".to_string();
    push_right(&mut s, dec_text(m.channel as u64).as_str(), 3);
    s.append(" ");
    push_left(&mut s, m.direction.as_str(), 4);
    s.append(" ");
    push_right(&mut s, format_id(m.id, base).as_str(), 8);
    s.append("  ");
    if let Some(name) = &m.symbolic_name {
        s.append(name.as_str());
        s.append(" ");
    }
    s.append(bit_str(brs));
    s.append(" ");
    s.append(bit_str(esi));
    s.append(" ");
    s.append(format_number(m.dlc as u32, base).as_str());
    s.append(" ");
    push_right(&mut s, dec_text(m.data.len() as u64).as_str(), 2);
    push_bytes(&mut s, &m.data, base);
    if m.fd_metadata.len() == 0 {
        let mut columns = " 0 0 ".to_string();
        if esi {
            if brs {
                columns.append("7000");
            } else {
                columns.append("5000");
            }
        } else {
            if brs {
                columns.append("3000");
            } else {
                columns.append("1000");
            }
        }
        columns.append(" 0 0 0 0 0");
        s.append(columns.as_str());
    } else {
        push_words(&mut s, &m.fd_metadata);
    }
    s
}

fn error_line(e: &AscErrorFrame) -> (r: String)
    ensures
        r@ == error_text(e@),
{
    proof {
        reveal(error_text);
    }
    let mut s: String;
    if e.is_fd {
        s = "CANFD ".to_string();
        push_right(&mut s, dec_text(e.channel as u64).as_str(), 3);
        s.append(" ");
        let direction = match e.direction {
            Some(d) => d,
            None => Direction::Rx,
        };
        push_left(&mut s, direction.as_str(), 4);
        s.append(" ErrorFrame");
    } else {
        s = dec_text(e.channel as u64);
        s.append("  ErrorFrame");
    }
    push_words(&mut s, &e.metadata);
    s
}

/// Whether a text holds a line break.
fn has_line_break(text: &str) -> (r: bool)
    ensures
        r == (text@.contains('\r') || text@.contains('\n')),
{
    let s = chars_of(text);
    let mut i: usize = 0;
    while i < s.len()
        invariant
            i <= s@.len(),
            s@ == text@,
            forall|j: int| 0 <= j < i ==> s@[j] != '\r' && s@[j] != '\n',
        decreases s@.len() - i,
    {
        if s[i] == '\r' || s[i] == '\n' {
            proof {
                assert(text@.contains(s@[i as int]));
            }
            return true;
        }
        i += 1;
    }
    false
}

/// What a record is written as behind its timestamp.
pub(crate) fn write_record(record: &AscRecord, base: NumberBase) -> (r: Result<String>)
    ensures
        match r {
            Ok(s) => record_text(record@, base) == Ok::<Seq<char>, Failure>(s@),
            Err(e) => record_text(record@, base) == Err::<Seq<char>, Failure>(e@),
        },
{
    match record {
        AscRecord::Message(m) => {
            validate_message(m)?;
            if m.frame_type.is_classic() {
                Ok(classic_line(m, base))
            } else {
                Ok(fd_line(m, base))
            }
        },
        AscRecord::ErrorFrame(e) => {
            if e.channel == 0 {
                return Err(Error::Write("ASC channel numbers are one-based".to_string()));
            }
            Ok(error_line(e))
        },
        AscRecord::Event(e) => {
            if has_line_break(e.text.as_str()) {
                return Err(
                    Error::Write("an ASC event must not contain a line break".to_string()),
                );
            }
            Ok(e.text.clone())
        },
    }
}

} // verus!
