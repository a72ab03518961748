use autors::a2l::block::{Item, build_block_tree};
use autors::a2l::error::Result;
use autors::a2l::model::annotation::Annotation;
use autors::a2l::model::characteristic::{AxisPts, Characteristic, CharacteristicChild};
use autors::a2l::model::enums::{A2lKeyword, CharacteristicType, DepositType, EncodingType, MonotonyType};
use autors::a2l::model::measurement::AxisDescr;
use autors::a2l::model::parts::Child;
use autors::a2l::model::unsupported::UnsupportedNode;
use autors::a2l::node::Node;
use autors::a2l::number::Number;
use autors::a2l::token::Token;
use autors::a2l::writer::{Writer, WriterOptions};
use autors::a2l::token::tokenize as lex;

fn num(x: f64) -> Number {
    let bits = x.to_bits() as i64;
    let single = x as f32;
    let single_bits = single.to_bits() as i32;
    Number {
        text: format!("{}", x),
        key: if bits < 0 { -(bits & i64::MAX) } else { bits },
        nan: x.is_nan(),
        single_text: format!("{}", single),
        single_key: if single_bits < 0 { -i64::from(single_bits & i32::MAX) } else { i64::from(single_bits) },
        rounded: x.round() as i64,
    }
}

fn tokenize(src: &str) -> Result<Vec<Token>> {
    let mut tokens = lex(src)?;
    for t in &mut tokens {
        t.number = t.text.parse::<f64>().ok().map(num);
    }
    Ok(tokens)
}

fn parse_and_write<T: Node>(src: &str, keyword: &str) -> (T, String) {
    let toks = tokenize(src).unwrap();
    let root = build_block_tree(&toks).unwrap();
    let block = root.child(keyword).unwrap();
    let node = T::parse(block).unwrap();
    let mut w = Writer::new(WriterOptions::default());
    node.write_block(&mut w).unwrap();
    (node, w.into_string())
}

fn reparse<T: Node>(out: &str, keyword: &str) -> T {
    let toks = tokenize(out).unwrap();
    let root = build_block_tree(&toks).unwrap();
    T::parse(root.child(keyword).unwrap()).unwrap()
}

fn assert_reparse_eq<T: Node + PartialEq + std::fmt::Debug>(
    first: &T,
    out: &str,
    keyword: &str,
) {
    assert_eq!(*first, reparse::<T>(out, keyword));
}

fn unsupported_sig(u: &UnsupportedNode) -> String {
    let mut s = u.keyword.clone();
    for it in &u.items {
        match it {
            Item::Param(t) => {
                s.push(' ');
                s.push_str(&t.text);
            }
            Item::Child(b) => {
                s.push(' ');
                s.push_str(&b.keyword);
            }
        }
    }
    s
}

#[test]
fn characteristic_full_roundtrip() {
    let src = "/begin CHARACTERISTIC KFRLMN \"Friction map\" MAP 0x803DAC RL_MAP 0 CONV_KF 0 100 \
               GUARD_RAILS STEP_SIZE 0.5 EXTENDED_LIMITS -10 200 READ_ONLY \
               REF_MEMORY_SEGMENT Seg1 BYTE_ORDER MSB_FIRST PHYS_UNIT \"Nm\" FORMAT \"%5.2\" \
               MODEL_LINK \"mdl\" SYMBOL_LINK \"sym\" -4 MAX_REFRESH 3 10 \
               CALIBRATION_ACCESS CALIBRATION DISPLAY_IDENTIFIER disp ECU_ADDRESS_EXTENSION 2 \
               ENCODING UTF8 DISCRETE MATRIX_DIM 2 3 NUMBER 4 BIT_MASK 0xFF \
               /begin ANNOTATION ANNOTATION_LABEL \"lbl\" ANNOTATION_ORIGIN \"org\" /end ANNOTATION \
               /begin AXIS_DESCR STD_AXIS Input1 CONV_AX 0 10 0 100 /end AXIS_DESCR \
               /begin MAP_LIST M1 M2 /end MAP_LIST \
               /end CHARACTERISTIC";
    let (ch, out) = parse_and_write::<Characteristic>(src, "CHARACTERISTIC");
    assert_eq!(
        out,
        "/begin CHARACTERISTIC KFRLMN\n  \"Friction map\"\n  MAP\n  0x803DAC\n  RL_MAP\n  \
         0\n  CONV_KF\n  0 100\n  ECU_ADDRESS_EXTENSION 2\n  DISPLAY_IDENTIFIER disp\n  \
         CALIBRATION_ACCESS CALIBRATION\n  MAX_REFRESH 3 10\n  SYMBOL_LINK \"sym\" -4\n  \
         MODEL_LINK \"mdl\"\n  FORMAT \"%5.2\"\n  PHYS_UNIT \"Nm\"\n  BYTE_ORDER MSB_FIRST\n  \
         REF_MEMORY_SEGMENT Seg1\n  READ_ONLY\n  EXTENDED_LIMITS -10 200\n  STEP_SIZE 0.5\n  \
         GUARD_RAILS\n  BIT_MASK 0xFF\n  NUMBER 4\n  MATRIX_DIM 2 3\n  DISCRETE\n  \
         ENCODING UTF8\n  \
         /begin ANNOTATION\n    ANNOTATION_ORIGIN \"org\"\n    ANNOTATION_LABEL \"lbl\"\n  \
         /end ANNOTATION\n  \
         /begin AXIS_DESCR\n    STD_AXIS\n    Input1\n    CONV_AX\n    0\n    10 0\n  /end AXIS_DESCR\n  \
         /begin MAP_LIST\n    M1 M2\n  /end MAP_LIST\n\
         /end CHARACTERISTIC\n"
    );
    assert_eq!(ch.named.name, "KFRLMN");
    assert_eq!(ch.char_type, CharacteristicType::MAP);
    assert_eq!(ch.addr.address, Some(0x803DAC));
    assert_eq!(ch.rec.record_layout, "RL_MAP");
    assert_eq!(ch.conv.conversion, "CONV_KF");
    assert_eq!(ch.bitmask, Some(0xFF));
    assert_eq!(ch.number, 4);
    assert_eq!(ch.matrix_dim, Some(vec![2, 3]));
    assert!(ch.discrete);
    assert_eq!(ch.encoding, EncodingType::UTF8);
    assert_eq!(ch.children.len(), 3);
    let again = reparse::<Characteristic>(&out, "CHARACTERISTIC");
    let mut ch_flat = ch.clone();
    ch_flat.children.clear();
    let mut again_flat = again.clone();
    again_flat.children.clear();
    assert_eq!(ch_flat, again_flat);
    assert_eq!(again.children.len(), ch.children.len());
    for (a, b) in ch.children.iter().zip(&again.children) {
        match (a, b) {
            (CharacteristicChild::Annotation(x), CharacteristicChild::Annotation(y)) => {
                assert_eq!(x, y)
            }
            (CharacteristicChild::AxisDescr(x), CharacteristicChild::AxisDescr(y)) => {
                assert_eq!(x, y)
            }
            (CharacteristicChild::Unsupported(x), CharacteristicChild::Unsupported(y)) => {
                assert_eq!(unsupported_sig(x), unsupported_sig(y))
            }
            _ => panic!("child kind mismatch after reparse"),
        }
    }
}

#[test]
fn characteristic_minimal() {
    let (ch, out) = parse_and_write::<Characteristic>(
        "/begin CHARACTERISTIC C1 \"\" VALUE 0x1000 RL 0 CV -1.5 250.5 /end CHARACTERISTIC",
        "CHARACTERISTIC",
    );
    assert_eq!(
        out,
        "/begin CHARACTERISTIC C1\n  \"\"\n  VALUE\n  0x1000\n  RL\n  0\n  CV\n  \
         -1.5 250.5\n/end CHARACTERISTIC\n"
    );
    assert_eq!(ch.bitmask, None);
    assert_eq!(ch.matrix_dim, None);
    assert_eq!(ch.comparison_quantity, None);
    assert!(!ch.discrete);
    assert_reparse_eq(&ch, &out, "CHARACTERISTIC");
}

#[test]
fn characteristic_matrix_dim_capped_at_five() {
    let (ch, out) = parse_and_write::<Characteristic>(
        "/begin CHARACTERISTIC C \"d\" VAL_BLK 0x10 RL 0 CV 0 1 MATRIX_DIM 1 2 3 4 5 6 \
         /end CHARACTERISTIC",
        "CHARACTERISTIC",
    );
    assert_eq!(ch.matrix_dim, Some(vec![1, 2, 3, 4, 5]));
    assert!(out.contains("MATRIX_DIM 1 2 3 4 5\n"));
    assert!(!out.contains('6'));
}

#[test]
fn characteristic_encoding_ascii_not_written() {
    let (ch, out) = parse_and_write::<Characteristic>(
        "/begin CHARACTERISTIC C \"d\" ASCII 0x10 RL 0 CV 0 1 NUMBER 8 ENCODING ASCII \
         /end CHARACTERISTIC",
        "CHARACTERISTIC",
    );
    assert_eq!(ch.encoding, EncodingType::ASCII);
    assert!(out.contains("NUMBER 8\n"));
    assert!(!out.contains("ENCODING"));
}

#[test]
fn characteristic_comparison_quantity_written_bare() {
    let (ch, out) = parse_and_write::<Characteristic>(
        "/begin CHARACTERISTIC C \"d\" VALUE 0x10 RL 0 CV 0 1 COMPARISON_QUANTITY Meas1 \
         /end CHARACTERISTIC",
        "CHARACTERISTIC",
    );
    assert_eq!(ch.comparison_quantity.as_deref(), Some("Meas1"));
    assert!(out.contains("\n  Meas1\n"));
    assert!(!out.contains("COMPARISON_QUANTITY"));
    let toks = tokenize(&out).unwrap();
    let root = build_block_tree(&toks).unwrap();
    let again = Characteristic::parse(root.child("CHARACTERISTIC").unwrap()).unwrap();
    assert_eq!(again.comparison_quantity, None);
}

#[test]
fn characteristic_skips_unknown_params() {
    let (ch, out) = parse_and_write::<Characteristic>(
        "/begin CHARACTERISTIC C \"d\" CURVE 0x10 RL 0 CV 0 1 FOO BAR READ_ONLY \
         /end CHARACTERISTIC",
        "CHARACTERISTIC",
    );
    assert!(ch.rec.read_only);
    assert!(!out.contains("FOO"));
    assert!(!out.contains("BAR"));
}

#[test]
fn characteristic_rejects_unknown_char_type() {
    let toks =
        tokenize("/begin CHARACTERISTIC C \"d\" BOGUS 0x10 RL 0 CV 0 1 /end CHARACTERISTIC")
            .unwrap();
    let root = build_block_tree(&toks).unwrap();
    assert!(Characteristic::parse(root.child("CHARACTERISTIC").unwrap()).is_err());
}

#[test]
fn characteristic_rejects_unknown_encoding() {
    let toks = tokenize(
        "/begin CHARACTERISTIC C \"d\" ASCII 0x10 RL 0 CV 0 1 ENCODING LATIN1 \
         /end CHARACTERISTIC",
    )
    .unwrap();
    let root = build_block_tree(&toks).unwrap();
    assert!(Characteristic::parse(root.child("CHARACTERISTIC").unwrap()).is_err());
}

#[test]
fn char_type_keywords() {
    for (kw, ct) in [
        ("VALUE", CharacteristicType::VALUE),
        ("ASCII", CharacteristicType::ASCII),
        ("VAL_BLK", CharacteristicType::VAL_BLK),
        ("CURVE", CharacteristicType::CURVE),
        ("MAP", CharacteristicType::MAP),
        ("CUBOID", CharacteristicType::CUBOID),
        ("CUBE_4", CharacteristicType::CUBE_4),
        ("CUBE_5", CharacteristicType::CUBE_5),
    ] {
        assert_eq!(CharacteristicType::from_keyword(kw), Some(ct));
        assert_eq!(ct.as_keyword(), Some(kw));
    }
    assert_eq!(
        CharacteristicType::from_keyword("val_blk"),
        Some(CharacteristicType::VAL_BLK)
    );
    assert_eq!(CharacteristicType::from_keyword("CUBE_6"), None);
    assert_eq!(CharacteristicType::NotSet.as_keyword(), None);
}

#[test]
fn axis_pts_full_roundtrip() {
    let src = "/begin AXIS_PTS AX1 \"axis pts\" 0x810000 Meas_X RL_AX 0 CONV_AX 16 0 255 \
               GUARD_RAILS STEP_SIZE 1 READ_ONLY BYTE_ORDER MSB_LAST FORMAT \"%4.1\" \
               DEPOSIT DIFFERENCE MONOTONY MON_INCREASE \
               /begin ANNOTATION ANNOTATION_LABEL \"a\" /end ANNOTATION \
               /end AXIS_PTS";
    let (ap, out) = parse_and_write::<AxisPts>(src, "AXIS_PTS");
    assert_eq!(
        out,
        "/begin AXIS_PTS AX1\n  \"axis pts\"\n  0x810000\n  Meas_X\n  RL_AX\n  0\n  \
         CONV_AX\n  16\n  0 255\n  FORMAT \"%4.1\"\n  BYTE_ORDER MSB_LAST\n  READ_ONLY\n  \
         STEP_SIZE 1\n  GUARD_RAILS\n  MONOTONY MON_INCREASE\n  DEPOSIT DIFFERENCE\n  \
         /begin ANNOTATION\n    ANNOTATION_LABEL \"a\"\n  /end ANNOTATION\n\
         /end AXIS_PTS\n"
    );
    assert_eq!(ap.named.name, "AX1");
    assert_eq!(ap.addr.address, Some(0x810000));
    assert_eq!(ap.input_quantity.as_deref(), Some("Meas_X"));
    assert_eq!(ap.max_axis_points, 16);
    assert_eq!(ap.monotony, MonotonyType::MON_INCREASE);
    assert_eq!(ap.deposit, DepositType::DIFFERENCE);
    assert_reparse_eq(&ap, &out, "AXIS_PTS");
}

#[test]
fn axis_pts_minimal() {
    let (ap, out) = parse_and_write::<AxisPts>(
        "/begin AXIS_PTS A \"d\" 0x2000 Inp RL 0.5 Conv 8 -1 1 /end AXIS_PTS",
        "AXIS_PTS",
    );
    assert_eq!(
        out,
        "/begin AXIS_PTS A\n  \"d\"\n  0x2000\n  Inp\n  RL\n  0.5\n  Conv\n  8\n  \
         -1 1\n/end AXIS_PTS\n"
    );
    assert_eq!(ap.monotony, MonotonyType::NotSet);
    assert_eq!(ap.deposit, DepositType::NotSet);
    assert_reparse_eq(&ap, &out, "AXIS_PTS");
}

#[test]
fn axis_pts_skips_unknown_params() {
    let (ap, out) = parse_and_write::<AxisPts>(
        "/begin AXIS_PTS A \"d\" 0x2000 Inp RL 0 Conv 8 0 1 FOO MONOTONY STRICT_INCREASE \
         /end AXIS_PTS",
        "AXIS_PTS",
    );
    assert_eq!(ap.monotony, MonotonyType::STRICT_INCREASE);
    assert!(!out.contains("FOO"));
    assert!(out.contains("MONOTONY STRICT_INCREASE\n"));
}

#[test]
fn axis_pts_rejects_unknown_monotony() {
    let toks = tokenize(
        "/begin AXIS_PTS A \"d\" 0x2000 Inp RL 0 Conv 8 0 1 MONOTONY BOGUS /end AXIS_PTS",
    )
    .unwrap();
    let root = build_block_tree(&toks).unwrap();
    assert!(AxisPts::parse(root.child("AXIS_PTS").unwrap()).is_err());
}
