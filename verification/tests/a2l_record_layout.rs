use autors::a2l::block::build_block_tree;
use autors::a2l::error::Result;
use autors::a2l::model::record_layout::RecordLayout;
use autors::a2l::node::Node;
use autors::a2l::number::Number;
use autors::a2l::token::Token;
use autors::a2l::writer::{Writer, WriterOptions};
use autors::a2l::token::tokenize as lex;

fn num(x: f64) -> Number {
    let bits = x.to_bits() as i64;
    let single = x as f32;
    let single_bits = single.to_bits() as i32;
    Number {
        text: format!("{}", x),
        key: if bits < 0 { -(bits & i64::MAX) } else { bits },
        nan: x.is_nan(),
        single_text: format!("{}", single),
        single_key: if single_bits < 0 { -i64::from(single_bits & i32::MAX) } else { i64::from(single_bits) },
        rounded: x.round() as i64,
    }
}

fn tokenize(src: &str) -> Result<Vec<Token>> {
    let mut tokens = lex(src)?;
    for t in &mut tokens {
        t.number = t.text.parse::<f64>().ok().map(num);
    }
    Ok(tokens)
}

fn roundtrip(src: &str) -> String {
    let toks = tokenize(src).unwrap();
    let root = build_block_tree(&toks).unwrap();
    let block = root.child("RECORD_LAYOUT").unwrap();
    let rl = RecordLayout::parse(block).unwrap();
    let mut w = Writer::new(WriterOptions::default());
    rl.write_block(&mut w).unwrap();
    w.into_string()
}

#[test]
fn fnc_values_only() {
    let out = roundtrip(
        "/begin RECORD_LAYOUT Scalar FNC_VALUES 1 UBYTE COLUMN_DIR DIRECT /end RECORD_LAYOUT",
    );
    assert_eq!(
        out,
        "/begin RECORD_LAYOUT\n  Scalar\n  FNC_VALUES 1 UBYTE COLUMN_DIR DIRECT\n/end RECORD_LAYOUT\n"
    );
}

#[test]
fn full_layout() {
    let out = roundtrip(
        "/begin RECORD_LAYOUT Map2D \
         ALIGNMENT_BYTE 2 FIX_NO_AXIS_PTS_X 4 \
         AXIS_PTS_X 1 UBYTE INDEX_INCR DIRECT NO_AXIS_PTS_X 2 BYTE \
         FNC_VALUES 3 UWORD ROW_DIR DIRECT DIST_OP_X 4 SBYTE OFFSET_X 5 SWORD \
         SRC_ADDR_X 6 ULONG RIP_ADDR_W_X 7 SLONG SHIFT_OP_X 8 A_UINT64 \
         AXIS_RESCALE_X 9 UWORD 6 INDEX_DECR PBYTE NO_RESCALE_X 10 WORD \
         RESERVED 11 LONG RIP_ADDR_W 12 ULONG IDENTIFICATION 13 UBYTE \
         STATIC_RECORD_LAYOUT STATIC_ADDRESS_OFFSETS /end RECORD_LAYOUT",
    );
    assert_eq!(
        out,
        "/begin RECORD_LAYOUT\n  Map2D\n\
         \x20 ALIGNMENT_BYTE 2\n  ALIGNMENT_WORD 2\n  ALIGNMENT_LONG 4\n\
         \x20 ALIGNMENT_FLOAT32_IEEE 4\n  ALIGNMENT_FLOAT64_IEEE 4\n  ALIGNMENT_INT64 8\n\
         \x20 ALIGNMENT_FLOAT16_IEEE 2\n  FIX_NO_AXIS_PTS_X 4\n\
         \x20 AXIS_PTS_X 1 UBYTE INDEX_INCR DIRECT\n  NO_AXIS_PTS_X 2 UBYTE\n\
         \x20 FNC_VALUES 3 UWORD ROW_DIR DIRECT\n  DIST_OP_X 4 SBYTE\n  OFFSET_X 5 SWORD\n\
         \x20 SRC_ADDR_X 6 ULONG\n  RIP_ADDR_W_X 7 SLONG\n  SHIFT_OP_X 8 A_UINT64\n\
         \x20 AXIS_RESCALE_X 9 UWORD 6 INDEX_DECR PBYTE\n  NO_RESCALE_X 10 UWORD\n\
         \x20 RESERVED 11 LONG\n  RIP_ADDR_W 12 ULONG\n\
         \x20 IDENTIFICATION 13 UBYTE\n  IDENTIFICATION 13 UBYTE\n\
         \x20 STATIC_RECORD_LAYOUT\n  STATIC_ADDRESS_OFFSETS\n/end RECORD_LAYOUT\n"
    );
}

#[test]
fn entries_sorted_by_position() {
    let out = roundtrip(
        "/begin RECORD_LAYOUT RL FNC_VALUES 10 UBYTE ROW_DIR DIRECT \
         AXIS_PTS_X 2 UBYTE INDEX_INCR DIRECT /end RECORD_LAYOUT",
    );
    assert_eq!(
        out,
        "/begin RECORD_LAYOUT\n  RL\n  AXIS_PTS_X 2 UBYTE INDEX_INCR DIRECT\n\
         \x20 FNC_VALUES 10 UBYTE ROW_DIR DIRECT\n/end RECORD_LAYOUT\n"
    );
}

#[test]
fn datasize_fallback_for_no_axis_pts() {
    let out = roundtrip("/begin RECORD_LAYOUT RL NO_AXIS_PTS_X 3 BYTE /end RECORD_LAYOUT");
    assert_eq!(
        out,
        "/begin RECORD_LAYOUT\n  RL\n  NO_AXIS_PTS_X 3 UBYTE\n/end RECORD_LAYOUT\n"
    );
}

#[test]
fn reserved_writes_datasize() {
    let out = roundtrip("/begin RECORD_LAYOUT RL RESERVED 7 LONG /end RECORD_LAYOUT");
    assert_eq!(
        out,
        "/begin RECORD_LAYOUT\n  RL\n  RESERVED 7 LONG\n/end RECORD_LAYOUT\n"
    );
}

#[test]
fn alignments_start_from_defaults() {
    let out = roundtrip(
        "/begin RECORD_LAYOUT RL ALIGNMENT_BYTE 2 ALIGNMENT_LONG 0x8 /end RECORD_LAYOUT",
    );
    assert_eq!(
        out,
        "/begin RECORD_LAYOUT\n  RL\n  ALIGNMENT_BYTE 2\n  ALIGNMENT_WORD 2\n\
         \x20 ALIGNMENT_LONG 8\n  ALIGNMENT_FLOAT32_IEEE 4\n  ALIGNMENT_FLOAT64_IEEE 4\n\
         \x20 ALIGNMENT_INT64 8\n  ALIGNMENT_FLOAT16_IEEE 2\n/end RECORD_LAYOUT\n"
    );
}

#[test]
fn fix_no_axis_pts_written_only_when_set() {
    let out = roundtrip("/begin RECORD_LAYOUT RL FIX_NO_AXIS_PTS_4 16 /end RECORD_LAYOUT");
    assert_eq!(
        out,
        "/begin RECORD_LAYOUT\n  RL\n  FIX_NO_AXIS_PTS_4 16\n/end RECORD_LAYOUT\n"
    );
}

#[test]
fn identification_written_twice_under_compatibility_rules() {
    let out = roundtrip("/begin RECORD_LAYOUT RL IDENTIFICATION 1 UWORD /end RECORD_LAYOUT");
    assert_eq!(out.matches("IDENTIFICATION 1 UWORD").count(), 2);
}

#[test]
fn rip_addr_w_and_axis_variants() {
    let out = roundtrip(
        "/begin RECORD_LAYOUT RL RIP_ADDR_W 4 ULONG RIP_ADDR_W_Y 2 UWORD /end RECORD_LAYOUT",
    );
    assert_eq!(
        out,
        "/begin RECORD_LAYOUT\n  RL\n  RIP_ADDR_W_Y 2 UWORD\n  RIP_ADDR_W 4 ULONG\n/end RECORD_LAYOUT\n"
    );
}

#[test]
fn static_flags() {
    let out = roundtrip(
        "/begin RECORD_LAYOUT RL STATIC_RECORD_LAYOUT STATIC_ADDRESS_OFFSETS /end RECORD_LAYOUT",
    );
    assert_eq!(
        out,
        "/begin RECORD_LAYOUT\n  RL\n  STATIC_RECORD_LAYOUT\n  STATIC_ADDRESS_OFFSETS\n/end RECORD_LAYOUT\n"
    );
}

#[test]
fn unknown_and_lowercase_keywords_skipped() {
    let out = roundtrip(
        "/begin RECORD_LAYOUT RL FOO_BAR_X 1 UBYTE fnc_values 2 UBYTE ROW_DIR DIRECT /end RECORD_LAYOUT",
    );
    assert_eq!(out, "/begin RECORD_LAYOUT\n  RL\n/end RECORD_LAYOUT\n");
}

#[test]
fn unknown_enum_values_fall_back_to_default() {
    let out = roundtrip(
        "/begin RECORD_LAYOUT RL FNC_VALUES 1 UBYTE GARBAGE DIRECT /end RECORD_LAYOUT",
    );
    assert_eq!(
        out,
        "/begin RECORD_LAYOUT\n  RL\n  FNC_VALUES 1 UBYTE NotSet DIRECT\n/end RECORD_LAYOUT\n"
    );
}

#[test]
fn invalid_axis_suffix_is_error() {
    let toks = tokenize(
        "/begin RECORD_LAYOUT RL AXIS_PTS_Q 1 UBYTE INDEX_INCR DIRECT /end RECORD_LAYOUT",
    )
    .unwrap();
    let root = build_block_tree(&toks).unwrap();
    assert!(RecordLayout::parse(root.child("RECORD_LAYOUT").unwrap()).is_err());
}
