//! Records read back from what is written for them.

use crate::asc::error::Failure;
use crate::asc::line::words_of;
use crate::asc::read::{
    byte_of, bytes_of, classic_record, direction_of, fd_message, fd_record, id_of, is_bit_word,
    is_extended, looks_like_can, record_of,
};
use crate::asc::record::{AscErrorFrameView, AscMessageView, AscRecordView, Direction, NumberBase};
use crate::asc::spell::{
    byte_words, is_word, lemma_blanks_gap, lemma_bytes_as_words, lemma_blank_gap, lemma_gap_join,
    lemma_join_spelled, lemma_word_spelled, lemma_words_behind, lemma_words_spelled, word_spells,
};
use crate::asc::write::{
    bit_text, blanks, byte_text, classic_text, error_text, fd_text, has_brs, id_text,
    message_failure, number_text, record_text, to_left, to_right, words_text,
};
use crate::bus::{FrameType, CAN_EXT_FLAG, CAN_EXT_ID_MASK};
use crate::numeral::{
    digits_value, is_decimal, is_digits, law_magnitude_of_dec, law_magnitude_of_hex,
    law_numeral_of_digits, numeral, numeral_in,
};
use crate::text::{dec, digit_char, is_space, lemma_differ, lemma_same, same_ignore_case, upper};
use vstd::prelude::*;

verus! {

/// A number is a word that reads as the number.
pub(crate) proof fn lemma_number(v: nat, base: NumberBase)
    ensures
        is_word(number_text(v, base)),
        is_digits(number_text(v, base)),
        numeral(number_text(v, base), base.base()) == Some(v as int),
        is_word(dec(v)),
        is_decimal(dec(v)),
        dec(v).len() > 0,
        numeral(dec(v), 10) == Some(v as int),
{
    reveal(is_word);
    law_magnitude_of_dec(v);
    law_magnitude_of_hex(v);
    law_numeral_of_digits(v);
}

/// A data byte is a word that reads as the byte.
pub(crate) proof fn lemma_byte(b: u8, base: NumberBase, line: int)
    ensures
        is_word(byte_text(b, base)),
        byte_of(byte_text(b, base), base, line) == Ok::<u8, Failure>(b),
{
    reveal(is_word);
    match base {
        NumberBase::Hex => {
            let s = byte_text(b, base);
            let one = s.drop_last();
            assert(one =~= seq![digit_char((b / 16) as nat)]);
            assert(one.drop_last() =~= Seq::<char>::empty());
            assert(digits_value(Seq::<char>::empty(), 16) == Some(0int));
            assert(one.last() == digit_char((b / 16) as nat));
            assert(digits_value(one, 16) == Some((b / 16) as int));
            assert(s.last() == digit_char((b % 16) as nat));
            assert(digits_value(s, 16) == Some((b / 16) * 16 + (b % 16) as int));
        },
        NumberBase::Decimal => {
            lemma_number(b as nat, base);
        },
    }
}

/// Data bytes read back from their words.
proof fn lemma_bytes(s: Seq<Seq<char>>, from: int, data: Seq<u8>, base: NumberBase, line: int)
    requires
        0 <= from,
        from + data.len() <= s.len(),
        forall|i: int| 0 <= i < data.len() ==> #[trigger] s[from + i] == byte_text(data[i], base),
    ensures
        bytes_of(s, from, from + data.len(), base, line) == Ok::<Seq<u8>, Failure>(data),
    decreases data.len(),
{
    if data.len() == 0 {
        assert(data =~= Seq::<u8>::empty());
    } else {
        assert(s[from + 0] == byte_text(data[0], base));
        lemma_byte(data[0], base, line);
        let rest = data.drop_first();
        assert forall|i: int| 0 <= i < rest.len() implies #[trigger] s[from + 1 + i] == byte_text(
            rest[i],
            base,
        ) by {
            assert(s[from + (i + 1)] == byte_text(data[i + 1], base));
        }
        lemma_bytes(s, from + 1, rest, base, line);
        assert(seq![data[0]] + rest =~= data);
    }
}

/// Whether an identifier is one of 11 bits, or one of 29 bits with its mark.
pub open spec fn is_id(id: u32) -> bool {
    &&& id & 0x6000_0000 == 0
    &&& id & CAN_EXT_FLAG == 0 ==> id & CAN_EXT_ID_MASK <= 0x7ff
}

/// An identifier is a word that reads as the identifier, and no error frame.
pub(crate) proof fn lemma_id(id: u32, base: NumberBase, line: int)
    requires
        is_id(id),
    ensures
        is_word(id_text(id, base)),
        id_of(id_text(id, base), base, line) == Ok::<u32, Failure>(id),
        !same_ignore_case(id_text(id, base), "errorframe"@),
{
    reveal(is_word);
    let raw = id & CAN_EXT_ID_MASK;
    let d = number_text(raw as nat, base);
    lemma_number(raw as nat, base);
    let s = id_text(id, base);
    assert(raw <= 0x1FFF_FFFF) by (bit_vector)
        requires
            raw == id & 0x1FFF_FFFF,
    ;
    assert((raw | 0x8000_0000u32) == id || id & 0x8000_0000 == 0) by (bit_vector)
        requires
            raw == id & 0x1FFF_FFFF,
            id & 0x6000_0000 == 0,
    ;
    assert(id & 0x8000_0000 == 0 ==> (raw | 0u32) == id) by (bit_vector)
        requires
            raw == id & 0x1FFF_FFFF,
            id & 0x6000_0000 == 0,
    ;
    if id & CAN_EXT_FLAG != 0 {
        assert(s.drop_last() =~= d);
        assert(is_extended(s));
        assert forall|i: int| 0 <= i < s.len() implies !is_space(#[trigger] s[i]) by {
            if i < d.len() {
                assert(s[i] == d[i]);
            }
        }
    } else {
        assert(d.last() == d[d.len() - 1]);
        assert(!is_extended(s));
    }
    reveal_strlit("errorframe");
    if s.len() == 10 {
        assert(s[1] == d[1]);
        lemma_differ(s, "errorframe"@, 1);
    } else {
        lemma_differ(s, "errorframe"@, 0);
    }
}

/// A direction is a word that reads as the direction.
pub(crate) proof fn lemma_direction(d: Direction, line: int)
    ensures
        is_word(d.word()),
        direction_of(d.word(), line) == Ok::<Direction, Failure>(d),
        d == Direction::Rx ==> same_ignore_case(d.word(), "rx"@),
        d == Direction::Tx ==> same_ignore_case(d.word(), "tx"@),
{
    reveal(is_word);
    reveal_strlit("Rx");
    reveal_strlit("Tx");
    reveal_strlit("rx");
    reveal_strlit("tx");
    reveal(same_ignore_case);
    assert(upper("Rx"@[0]) == upper("rx"@[0]) && upper("Rx"@[1]) == upper("rx"@[1]));
    assert(upper("Tx"@[0]) == upper("tx"@[0]) && upper("Tx"@[1]) == upper("tx"@[1]));
    assert(same_ignore_case("Rx"@, "rx"@));
    assert(same_ignore_case("Tx"@, "tx"@));
    lemma_differ("Tx"@, "rx"@, 0);
}

/// Whether a classic message reads back: it is a classic frame without what only CAN FD has,
/// and holds as many bytes as its length code says.
pub open spec fn classic_fits(v: AscMessageView) -> bool {
    &&& v.frame_type == FrameType(FrameType::CAN20B)
    &&& v.data.len() == if v.is_remote {
        0
    } else if v.dlc > 8 {
        8
    } else {
        v.dlc as nat
    }
    &&& !v.error_state_indicator
    &&& v.symbolic_name is None
    &&& v.fd_metadata.len() == 0
}

/// The words of a classic record.
proof fn lemma_classic_spelled(
    w0: Seq<char>,
    w1: Seq<char>,
    w2: Seq<char>,
    remote: bool,
    w4: Seq<char>,
    bw: Seq<Seq<char>>,
)
    requires
        is_word(w0),
        is_word(w1),
        is_word(w2),
        is_word(w4),
        forall|i: int| 0 <= i < bw.len() ==> is_word(#[trigger] bw[i]),
    ensures
        words_of(
            w0 + "  "@ + to_left(w1, 15) + " "@ + to_left(w2, 4) + (if remote {
                " r "@
            } else {
                " d "@
            }) + w4 + words_text(bw, bw.len() as int),
        ) == seq![w0, w1, w2, if remote { "r"@ } else { "d"@ }, w4] + bw,
{
    let kind = if remote {
        " r "@
    } else {
        " d "@
    };
    let w3 = if remote {
        "r"@
    } else {
        "d"@
    };
    lemma_blank_gap();
    assert(kind =~= " "@ + w3 + " "@ && is_word(w3)) by {
        reveal(is_word);
        reveal_strlit("r");
        reveal_strlit("d");
        reveal_strlit(" r ");
        reveal_strlit(" d ");
        reveal_strlit(" ");
    }
    let b1 = blanks(15 - w1.len());
    let b2 = blanks(4 - w2.len());
    lemma_blanks_gap(15 - w1.len());
    lemma_blanks_gap(4 - w2.len());
    lemma_gap_join(b1, " "@);
    lemma_gap_join(b2, " "@);
    lemma_word_spelled(w0);
    lemma_word_spelled(w1);
    lemma_word_spelled(w2);
    lemma_word_spelled(w3);
    lemma_word_spelled(w4);
    let a1 = w0 + "  "@ + w1;
    lemma_join_spelled(w0, seq![w0], "  "@, w1, seq![w1]);
    let a2 = a1 + (b1 + " "@) + w2;
    lemma_join_spelled(a1, seq![w0] + seq![w1], b1 + " "@, w2, seq![w2]);
    let a3 = a2 + (b2 + " "@) + w3;
    lemma_join_spelled(a2, seq![w0] + seq![w1] + seq![w2], b2 + " "@, w3, seq![w3]);
    let a4 = a3 + " "@ + w4;
    let x3 = seq![w0] + seq![w1] + seq![w2] + seq![w3];
    lemma_join_spelled(a3, x3, " "@, w4, seq![w4]);
    let x4 = x3 + seq![w4];
    let n = bw.len() as int;
    lemma_words_behind(a4, x4, bw, n);
    assert(bw.subrange(0, n) =~= bw);
    let t1 = w0 + "  "@ + (w1 + b1);
    assert(t1 =~= a1 + b1);
    let t2 = t1 + " "@;
    assert(t2 =~= a1 + (b1 + " "@));
    let t3 = t2 + (w2 + b2);
    assert(t3 =~= a2 + b2);
    let t4 = t3 + kind;
    assert(t4 =~= a3 + " "@);
    lemma_words_spelled(t4 + w4 + words_text(bw, n), x4 + bw);
    assert(x4 =~= seq![w0, w1, w2, w3, w4]);
}

/// A classic message that is written reads back.
pub proof fn law_classic_of_written(v: AscMessageView, base: NumberBase, line: int)
    requires
        message_failure(v) is None,
        classic_fits(v),
    ensures
        record_of(v.timestamp, classic_text(v, base), base, line) == Ok::<AscRecordView, Failure>(
            AscRecordView::Message(v),
        ),
{
    let w0 = dec(v.channel as nat);
    let w1 = id_text(v.id, base);
    let w2 = v.direction.word();
    let w3 = if v.is_remote {
        "r"@
    } else {
        "d"@
    };
    let w4 = number_text(v.dlc as nat, base);
    let bw = byte_words(v.data, base);
    let n = v.data.len() as int;
    lemma_number(v.channel as nat, base);
    lemma_number(v.dlc as nat, base);
    lemma_id(v.id, base, line);
    lemma_direction(v.direction, line);
    assert forall|i: int| 0 <= i < bw.len() implies is_word(#[trigger] bw[i]) by {
        lemma_byte(v.data[i], base, line);
    }
    lemma_classic_spelled(w0, w1, w2, v.is_remote, w4, bw);
    lemma_bytes_as_words(v.data, n, base);
    let s = seq![w0, w1, w2, w3, w4] + bw;
    assert(words_of(classic_text(v, base)) == s) by {
        reveal(classic_text);
    }
    lemma_classic_evaluated(v, s, base, line);
}

proof fn lemma_classic_evaluated(v: AscMessageView, s: Seq<Seq<char>>, base: NumberBase, line: int)
    requires
        message_failure(v) is None,
        classic_fits(v),
        s == seq![
            dec(v.channel as nat),
            id_text(v.id, base),
            v.direction.word(),
            if v.is_remote { "r"@ } else { "d"@ },
            number_text(v.dlc as nat, base),
        ] + byte_words(v.data, base),
        words_of(classic_text(v, base)) == s,
    ensures
        record_of(v.timestamp, classic_text(v, base), base, line) == Ok::<AscRecordView, Failure>(
            AscRecordView::Message(v),
        ),
{
    let w0 = dec(v.channel as nat);
    let n = v.data.len() as int;
    lemma_number(v.channel as nat, base);
    lemma_number(v.dlc as nat, base);
    lemma_id(v.id, base, line);
    lemma_direction(v.direction, line);
    reveal_strlit("r");
    reveal_strlit("d");
    reveal_strlit("canfd");
    lemma_differ(w0, "canfd"@, 0);
    lemma_same("r"@);
    lemma_same("d"@);
    lemma_differ("d"@, "r"@, 0);
    assert forall|i: int| 0 <= i < n implies #[trigger] s[5 + i] == byte_text(v.data[i], base) by {
    }
    lemma_bytes(s, 5, v.data, base, line);
    assert(v.fd_metadata =~= Seq::<Seq<char>>::empty());
    assert(s[0] == w0);
    assert(s[1] == id_text(v.id, base));
    assert(s[2] == v.direction.word());
    assert(s[4] == number_text(v.dlc as nat, base));
    assert(looks_like_can(s));
    assert(classic_record(v.timestamp, v.channel, s, base, line) == Ok::<AscRecordView, Failure>(
        AscRecordView::Message(v),
    ));
}

/// Whether a CAN FD message reads back: it has columns behind its payload, its name and its
/// columns are words, its name is no bit, and it is a remote frame if it has no data.
pub open spec fn fd_fits(v: AscMessageView) -> bool {
    &&& v.frame_type == FrameType(FrameType::FD) || v.frame_type == FrameType(FrameType::FD_BRS)
    &&& v.is_remote == (v.data.len() == 0)
    &&& v.symbolic_name matches Some(name) ==> is_word(name) && !is_bit_word(name)
    &&& v.fd_metadata.len() > 0
    &&& forall|i: int| 0 <= i < v.fd_metadata.len() ==> is_word(#[trigger] v.fd_metadata[i])
}

/// The words of a CAN FD message up to its payload.
spec fn fd_words(v: AscMessageView, base: NumberBase) -> Seq<Seq<char>> {
    let front = seq!["CANFD"@, dec(v.channel as nat), v.direction.word(), id_text(v.id, base)];
    let name = match v.symbolic_name {
        Some(name) => seq![name],
        None => Seq::empty(),
    };
    front + name + seq![
        bit_text(has_brs(v.frame_type)),
        bit_text(v.error_state_indicator),
        number_text(v.dlc as nat, base),
        dec(v.data.len()),
    ]
}

/// The first words of a CAN FD record.
proof fn lemma_fd_front(w1: Seq<char>, w2: Seq<char>, w3: Seq<char>)
    requires
        is_word(w1),
        is_word(w2),
        is_word(w3),
    ensures
        word_spells(
            "CANFD "@ + to_right(w1, 3) + " "@ + to_left(w2, 4) + " "@ + to_right(w3, 8),
            seq!["CANFD"@, w1, w2, w3],
        ),
{
    let w0 = "CANFD"@;
    lemma_blank_gap();
    assert("CANFD "@ =~= w0 + " "@ && is_word(w0)) by {
        reveal(is_word);
        reveal_strlit("CANFD ");
        reveal_strlit("CANFD");
        reveal_strlit(" ");
    }
    lemma_word_spelled(w0);
    lemma_word_spelled(w1);
    lemma_word_spelled(w2);
    lemma_word_spelled(w3);
    let b1 = blanks(3 - w1.len());
    let b2 = blanks(4 - w2.len());
    let b3 = blanks(8 - w3.len());
    lemma_blanks_gap(3 - w1.len());
    lemma_blanks_gap(4 - w2.len());
    lemma_blanks_gap(8 - w3.len());
    lemma_gap_join(" "@, b1);
    lemma_gap_join(b2, " "@);
    lemma_gap_join(b2 + " "@, b3);
    let g3 = b2 + " "@ + b3;
    let a1 = w0 + (" "@ + b1) + w1;
    lemma_join_spelled(w0, seq![w0], " "@ + b1, w1, seq![w1]);
    let a2 = a1 + " "@ + w2;
    lemma_join_spelled(a1, seq![w0] + seq![w1], " "@, w2, seq![w2]);
    let a3 = a2 + g3 + w3;
    lemma_join_spelled(a2, seq![w0] + seq![w1] + seq![w2], g3, w3, seq![w3]);
    let t1 = "CANFD "@ + (b1 + w1);
    assert(t1 =~= a1);
    let t2 = t1 + " "@ + (w2 + b2);
    assert(t2 =~= a2 + b2);
    let t3 = t2 + " "@ + (b3 + w3);
    assert(t3 =~= a3);
    assert(seq![w0] + seq![w1] + seq![w2] + seq![w3] =~= seq![w0, w1, w2, w3]);
}

/// The words of a CAN FD record behind the first ones.
proof fn lemma_fd_rest(
    front: Seq<char>,
    x0: Seq<Seq<char>>,
    name: Option<Seq<char>>,
    b1: Seq<char>,
    b2: Seq<char>,
    w6: Seq<char>,
    w7: Seq<char>,
    bw: Seq<Seq<char>>,
    meta: Seq<Seq<char>>,
)
    requires
        word_spells(front, x0),
        name matches Some(w) ==> is_word(w),
        is_word(b1),
        is_word(b2),
        is_word(w6),
        is_word(w7),
        forall|i: int| 0 <= i < bw.len() ==> is_word(#[trigger] bw[i]),
        forall|i: int| 0 <= i < meta.len() ==> is_word(#[trigger] meta[i]),
    ensures
        ({
            let s = front + "  "@;
            let s = match name {
                Some(w) => s + w + " "@,
                None => s,
            };
            words_of(
                s + b1 + " "@ + b2 + " "@ + w6 + " "@ + to_right(w7, 2) + words_text(
                    bw,
                    bw.len() as int,
                ) + words_text(meta, meta.len() as int),
            )
        }) == x0 + (match name {
            Some(w) => seq![w],
            None => Seq::empty(),
        }) + seq![b1, b2, w6, w7] + bw + meta,
{
    lemma_blank_gap();
    lemma_word_spelled(b1);
    lemma_word_spelled(b2);
    lemma_word_spelled(w6);
    lemma_word_spelled(w7);
    let xs = match name {
        Some(w) => seq![w],
        None => Seq::<Seq<char>>::empty(),
    };
    let named = match name {
        Some(w) => front + "  "@ + w,
        None => front,
    };
    let gn = match name {
        Some(_) => " "@,
        None => "  "@,
    };
    if let Some(w) = name {
        lemma_word_spelled(w);
        lemma_join_spelled(front, x0, "  "@, w, seq![w]);
    } else {
        assert(x0 + xs =~= x0);
    }
    let a1 = named + gn + b1;
    lemma_join_spelled(named, x0 + xs, gn, b1, seq![b1]);
    let a2 = a1 + " "@ + b2;
    lemma_join_spelled(a1, x0 + xs + seq![b1], " "@, b2, seq![b2]);
    let a3 = a2 + " "@ + w6;
    lemma_join_spelled(a2, x0 + xs + seq![b1] + seq![b2], " "@, w6, seq![w6]);
    let pad = blanks(2 - w7.len());
    lemma_blanks_gap(2 - w7.len());
    lemma_gap_join(" "@, pad);
    let a4 = a3 + (" "@ + pad) + w7;
    let x3 = x0 + xs + seq![b1] + seq![b2] + seq![w6];
    lemma_join_spelled(a3, x3, " "@ + pad, w7, seq![w7]);
    let x4 = x3 + seq![w7];
    let n = bw.len() as int;
    lemma_words_behind(a4, x4, bw, n);
    assert(bw.subrange(0, n) =~= bw);
    let m = meta.len() as int;
    lemma_words_behind(a4 + words_text(bw, n), x4 + bw, meta, m);
    assert(meta.subrange(0, m) =~= meta);
    assert(a3 + " "@ + (pad + w7) =~= a4);
    lemma_words_spelled(a4 + words_text(bw, n) + words_text(meta, m), x4 + bw + meta);
    assert(x4 =~= x0 + xs + seq![b1, b2, w6, w7]);
}

proof fn lemma_fd_words(v: AscMessageView, base: NumberBase, line: int)
    requires
        message_failure(v) is None,
        fd_fits(v),
    ensures
        words_of(fd_text(v, base)) == fd_words(v, base) + byte_words(v.data, base) + v.fd_metadata,
{
    let w1 = dec(v.channel as nat);
    let w2 = v.direction.word();
    let w3 = id_text(v.id, base);
    lemma_number(v.channel as nat, base);
    lemma_id(v.id, base, line);
    lemma_direction(v.direction, line);
    lemma_fd_front(w1, w2, w3);
    let front = "CANFD "@ + to_right(w1, 3) + " "@ + to_left(w2, 4) + " "@ + to_right(w3, 8);
    let b1 = bit_text(has_brs(v.frame_type));
    let b2 = bit_text(v.error_state_indicator);
    assert(is_word(b1) && is_word(b2)) by {
        reveal(is_word);
        reveal_strlit("0");
        reveal_strlit("1");
    }
    lemma_number(v.dlc as nat, base);
    lemma_number(v.data.len(), base);
    let bw = byte_words(v.data, base);
    assert forall|i: int| 0 <= i < bw.len() implies is_word(#[trigger] bw[i]) by {
        lemma_byte(v.data[i], base, line);
    }
    lemma_bytes_as_words(v.data, v.data.len() as int, base);
    lemma_fd_rest(
        front,
        seq!["CANFD"@, w1, w2, w3],
        v.symbolic_name,
        b1,
        b2,
        number_text(v.dlc as nat, base),
        dec(v.data.len()),
        bw,
        v.fd_metadata,
    );
    reveal(fd_text);
}

/// Whether words are those of a CAN FD message whose control bits start at an index.
spec fn are_fd_words(v: AscMessageView, s: Seq<Seq<char>>, c: int, base: NumberBase) -> bool {
    &&& c == if v.symbolic_name is Some { 5int } else { 4 }
    &&& s.len() == c + 4 + v.data.len() + v.fd_metadata.len()
    &&& s[0] == "CANFD"@
    &&& s[1] == dec(v.channel as nat)
    &&& s[2] == v.direction.word()
    &&& s[3] == id_text(v.id, base)
    &&& v.symbolic_name matches Some(name) ==> s[4] == name
    &&& s[c] == bit_text(has_brs(v.frame_type))
    &&& s[c + 1] == bit_text(v.error_state_indicator)
    &&& s[c + 2] == number_text(v.dlc as nat, base)
    &&& s[c + 3] == dec(v.data.len())
    &&& forall|i: int|
        0 <= i < v.data.len() ==> #[trigger] s[c + 4 + i] == byte_text(v.data[i], base)
    &&& s.skip((c + 4 + v.data.len()) as int) == v.fd_metadata
}

proof fn lemma_are_fd_words(v: AscMessageView, c: int, base: NumberBase)
    requires
        c == if v.symbolic_name is Some { 5int } else { 4 },
    ensures
        are_fd_words(v, fd_words(v, base) + byte_words(v.data, base) + v.fd_metadata, c, base),
{
    let f = fd_words(v, base);
    let s = f + byte_words(v.data, base) + v.fd_metadata;
    let front = seq!["CANFD"@, dec(v.channel as nat), v.direction.word(), id_text(v.id, base)];
    let tail = seq![
        bit_text(has_brs(v.frame_type)),
        bit_text(v.error_state_indicator),
        number_text(v.dlc as nat, base),
        dec(v.data.len()),
    ];
    let name = match v.symbolic_name {
        Some(name) => seq![name],
        None => Seq::<Seq<char>>::empty(),
    };
    assert(f == front + name + tail);
    assert forall|i: int| 0 <= i < 4 implies s[c + i] == tail[i] by {
        assert(s[c + i] == f[c + i]);
    }
    assert(s[c + 0] == tail[0]);
    assert(s[c + 1] == tail[1]);
    assert(s[c + 2] == tail[2]);
    assert(s[c + 3] == tail[3]);
    assert forall|i: int| 0 <= i < v.data.len() implies #[trigger] s[c + 4 + i] == byte_text(
        v.data[i],
        base,
    ) by {
    }
    assert(s.skip((c + 4 + v.data.len()) as int) =~= v.fd_metadata);
}

proof fn lemma_fd_message(v: AscMessageView, s: Seq<Seq<char>>, c: int, base: NumberBase, line: int)
    requires
        message_failure(v) is None,
        fd_fits(v),
        are_fd_words(v, s, c, base),
    ensures
        fd_message(v.timestamp, v.channel, v.direction, v.id, s, c, base, line) == Ok::<
            AscRecordView,
            Failure,
        >(AscRecordView::Message(v)),
        is_bit_word(s[c]),
{
    lemma_number(v.dlc as nat, base);
    lemma_number(v.data.len(), base);
    reveal_strlit("0");
    reveal_strlit("1");
    assert("0"@ != "1"@) by {
        assert("0"@[0] != "1"@[0]);
    }
    lemma_bytes(s, c + 4, v.data, base, line);
    assert(1u32 & 2 != 2 && 3u32 & 2 == 2 && 1u32 & 1 == 1 && 3u32 & 1 == 1) by (bit_vector);
}

/// A CAN FD message that is written reads back.
pub proof fn law_fd_of_written(v: AscMessageView, base: NumberBase, line: int)
    requires
        message_failure(v) is None,
        fd_fits(v),
    ensures
        record_of(v.timestamp, fd_text(v, base), base, line) == Ok::<AscRecordView, Failure>(
            AscRecordView::Message(v),
        ),
{
    lemma_fd_words(v, base, line);
    let s = fd_words(v, base) + byte_words(v.data, base) + v.fd_metadata;
    let c: int = if v.symbolic_name is Some {
        5
    } else {
        4
    };
    lemma_are_fd_words(v, c, base);
    lemma_fd_message(v, s, c, base, line);
    lemma_number(v.channel as nat, base);
    lemma_id(v.id, base, line);
    lemma_direction(v.direction, line);
    lemma_canfd_word();
    assert(fd_record(v.timestamp, s, base, line) == Ok::<AscRecordView, Failure>(
        AscRecordView::Message(v),
    ));
}

/// Whether an error frame reads back: its columns are words, and it has a direction if and
/// only if it is written in the CAN FD form.
pub open spec fn error_fits(v: AscErrorFrameView) -> bool {
    &&& v.channel != 0
    &&& v.is_fd == (v.direction is Some)
    &&& forall|i: int| 0 <= i < v.metadata.len() ==> is_word(#[trigger] v.metadata[i])
}

proof fn lemma_error_word()
    ensures
        is_word("ErrorFrame"@),
        same_ignore_case("ErrorFrame"@, "errorframe"@),
{
    reveal(is_word);
    reveal_strlit("ErrorFrame");
    reveal_strlit("errorframe");
    reveal(same_ignore_case);
    assert forall|i: int| 0 <= i < 10 implies upper(#[trigger] "ErrorFrame"@[i]) == upper(
        "errorframe"@[i],
    ) by {
        if i == 0 {
        } else if i == 1 {
        } else if i == 2 {
        } else if i == 3 {
        } else if i == 4 {
        } else if i == 5 {
        } else if i == 6 {
        } else if i == 7 {
        } else if i == 8 {
        } else {
        }
    }
}

/// The words of an error frame in the CAN FD form.
proof fn lemma_fd_error_spelled(w1: Seq<char>, w2: Seq<char>, meta: Seq<Seq<char>>)
    requires
        is_word(w1),
        is_word(w2),
        forall|i: int| 0 <= i < meta.len() ==> is_word(#[trigger] meta[i]),
    ensures
        words_of(
            "CANFD "@ + to_right(w1, 3) + " "@ + to_left(w2, 4) + " ErrorFrame"@ + words_text(
                meta,
                meta.len() as int,
            ),
        ) == seq!["CANFD"@, w1, w2, "ErrorFrame"@] + meta,
{
    let w0 = "CANFD"@;
    let w3 = "ErrorFrame"@;
    lemma_blank_gap();
    lemma_error_word();
    assert("CANFD "@ =~= w0 + " "@ && is_word(w0) && " ErrorFrame"@ =~= " "@ + w3) by {
        reveal(is_word);
        reveal_strlit("CANFD ");
        reveal_strlit("CANFD");
        reveal_strlit(" ErrorFrame");
        reveal_strlit("ErrorFrame");
        reveal_strlit(" ");
    }
    lemma_word_spelled(w0);
    lemma_word_spelled(w1);
    lemma_word_spelled(w2);
    lemma_word_spelled(w3);
    let b1 = blanks(3 - w1.len());
    let b2 = blanks(4 - w2.len());
    lemma_blanks_gap(3 - w1.len());
    lemma_blanks_gap(4 - w2.len());
    lemma_gap_join(" "@, b1);
    lemma_gap_join(b2, " "@);
    let a1 = w0 + (" "@ + b1) + w1;
    lemma_join_spelled(w0, seq![w0], " "@ + b1, w1, seq![w1]);
    let a2 = a1 + " "@ + w2;
    lemma_join_spelled(a1, seq![w0] + seq![w1], " "@, w2, seq![w2]);
    let a3 = a2 + (b2 + " "@) + w3;
    lemma_join_spelled(a2, seq![w0] + seq![w1] + seq![w2], b2 + " "@, w3, seq![w3]);
    let t1 = "CANFD "@ + (b1 + w1);
    assert(t1 =~= a1);
    let t2 = t1 + " "@ + (w2 + b2);
    assert(t2 =~= a2 + b2);
    let t3 = t2 + " ErrorFrame"@;
    assert(t3 =~= a3);
    let x = seq![w0] + seq![w1] + seq![w2] + seq![w3];
    let m = meta.len() as int;
    lemma_words_behind(a3, x, meta, m);
    assert(meta.subrange(0, m) =~= meta);
    lemma_words_spelled(a3 + words_text(meta, m), x + meta);
    assert(x =~= seq![w0, w1, w2, w3]);
}

/// The words of a classic error frame.
proof fn lemma_error_spelled(w0: Seq<char>, meta: Seq<Seq<char>>)
    requires
        is_word(w0),
        forall|i: int| 0 <= i < meta.len() ==> is_word(#[trigger] meta[i]),
    ensures
        words_of(w0 + "  ErrorFrame"@ + words_text(meta, meta.len() as int)) == seq![
            w0,
            "ErrorFrame"@,
        ] + meta,
{
    let w1 = "ErrorFrame"@;
    lemma_blank_gap();
    lemma_error_word();
    assert("  ErrorFrame"@ =~= "  "@ + w1) by {
        reveal_strlit("  ErrorFrame");
        reveal_strlit("ErrorFrame");
        reveal_strlit("  ");
    }
    lemma_word_spelled(w0);
    lemma_word_spelled(w1);
    let a1 = w0 + "  "@ + w1;
    lemma_join_spelled(w0, seq![w0], "  "@, w1, seq![w1]);
    assert(w0 + "  ErrorFrame"@ =~= a1);
    let x = seq![w0] + seq![w1];
    let m = meta.len() as int;
    lemma_words_behind(a1, x, meta, m);
    assert(meta.subrange(0, m) =~= meta);
    lemma_words_spelled(a1 + words_text(meta, m), x + meta);
    assert(x =~= seq![w0, w1]);
}

proof fn lemma_canfd_word()
    ensures
        same_ignore_case("CANFD"@, "canfd"@),
{
    reveal_strlit("CANFD");
    reveal_strlit("canfd");
    reveal(same_ignore_case);
    assert forall|i: int| 0 <= i < 5 implies upper(#[trigger] "CANFD"@[i]) == upper(
        "canfd"@[i],
    ) by {
        if i == 0 {
        } else if i == 1 {
        } else if i == 2 {
        } else if i == 3 {
        } else {
        }
    }
}

/// An error frame that is written reads back.
pub proof fn law_error_of_written(v: AscErrorFrameView, base: NumberBase, line: int)
    requires
        error_fits(v),
    ensures
        record_of(v.timestamp, error_text(v), base, line) == Ok::<AscRecordView, Failure>(
            AscRecordView::ErrorFrame(v),
        ),
{
    let w = dec(v.channel as nat);
    lemma_number(v.channel as nat, base);
    lemma_error_word();
    if v.is_fd {
        let d = v.direction->Some_0;
        lemma_direction(d, line);
        lemma_fd_error_spelled(w, d.word(), v.metadata);
        let s = seq!["CANFD"@, w, d.word(), "ErrorFrame"@] + v.metadata;
        assert(words_of(error_text(v)) == s) by {
            reveal(error_text);
        }
        lemma_canfd_word();
        assert(s[0] == "CANFD"@ && s[1] == w && s[2] == d.word() && s[3] == "ErrorFrame"@);
        assert(s.skip(4) =~= v.metadata);
    } else {
        lemma_error_spelled(w, v.metadata);
        let s = seq![w, "ErrorFrame"@] + v.metadata;
        assert(words_of(error_text(v)) == s) by {
            reveal(error_text);
        }
        reveal_strlit("canfd");
        lemma_differ(w, "canfd"@, 0);
        assert(s[0] == w && s[1] == "ErrorFrame"@);
        assert(s.skip(2) =~= v.metadata);
    }
}

/// Whether the text of an event is not taken for a CAN record.
pub open spec fn event_fits(text: Seq<char>) -> bool {
    let s = words_of(text);
    &&& s.len() > 0
    &&& !same_ignore_case(s[0], "canfd"@)
    &&& numeral_in(s[0], 10, u32::MAX as int) is Some ==> !looks_like_can(s)
}

/// Whether a record reads back from what is written for it.
pub open spec fn record_fits(v: AscRecordView) -> bool {
    match v {
        AscRecordView::Message(m) => classic_fits(m) || fd_fits(m),
        AscRecordView::ErrorFrame(e) => error_fits(e),
        AscRecordView::Event(e) => event_fits(e.text),
    }
}

/// A record that fits and is written reads back.
pub proof fn law_record_of_written(v: AscRecordView, base: NumberBase, line: int)
    requires
        record_fits(v),
    ensures
        record_text(v, base) matches Ok(text) ==> record_of(v.timestamp(), text, base, line)
            == Ok::<AscRecordView, Failure>(v),
{
    assert(0u32 & 1 == 0 && 1u32 & 1 == 1 && 3u32 & 1 == 1) by (bit_vector);
    match v {
        AscRecordView::Message(m) => {
            if message_failure(m) is None {
                if classic_fits(m) {
                    law_classic_of_written(m, base, line);
                } else {
                    law_fd_of_written(m, base, line);
                }
            }
        },
        AscRecordView::ErrorFrame(e) => {
            law_error_of_written(e, base, line);
        },
        AscRecordView::Event(_) => {},
    }
}

} // verus!
