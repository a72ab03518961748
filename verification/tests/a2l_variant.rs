use autors::a2l::block::build_block_tree;
use autors::a2l::error::Result;
use autors::a2l::model::variant::{VarAddress, VarCharacteristic, VarCriterion, VarForbiddenComb, VariantCoding};
use autors::a2l::node::Node;
use autors::a2l::number::Number;
use autors::a2l::token::Token;
use autors::a2l::writer::{Writer, WriterOptions};
use autors::a2l::token::tokenize as lex;

fn num(x: f64) -> Number {
    let bits = x.to_bits() as i64;
    let single = x as f32;
    let single_bits = single.to_bits() as i32;
    Number {
        text: format!("{}", x),
        key: if bits < 0 { -(bits & i64::MAX) } else { bits },
        nan: x.is_nan(),
        single_text: format!("{}", single),
        single_key: if single_bits < 0 { -i64::from(single_bits & i32::MAX) } else { i64::from(single_bits) },
        rounded: x.round() as i64,
    }
}

fn tokenize(src: &str) -> Result<Vec<Token>> {
    let mut tokens = lex(src)?;
    for t in &mut tokens {
        t.number = t.text.parse::<f64>().ok().map(num);
    }
    Ok(tokens)
}

fn roundtrip<T: Node>(src: &str) -> String {
    let toks = tokenize(src).unwrap();
    let root = build_block_tree(&toks).unwrap();
    let block = root.child(T::keyword()).unwrap();
    let node = T::parse(block).unwrap();
    let mut w = Writer::new(WriterOptions::default());
    node.write_block(&mut w).unwrap();
    w.into_string()
}

#[test]
fn variant_coding_full() {
    let out = roundtrip::<VariantCoding>(
        "/begin VARIANT_CODING VAR_SEPARATOR \".\" VAR_NAMING NUMERIC /end VARIANT_CODING",
    );
    assert_eq!(
        out,
        "/begin VARIANT_CODING\n  VAR_SEPARATOR \".\"\n  VAR_NAMING NUMERIC\n/end VARIANT_CODING\n"
    );
}

#[test]
fn variant_coding_defaults_write_nothing() {
    let out = roundtrip::<VariantCoding>("/begin VARIANT_CODING /end VARIANT_CODING");
    assert_eq!(out, "/begin VARIANT_CODING\n/end VARIANT_CODING\n");
}

#[test]
fn var_address_hex_lines() {
    let out = roundtrip::<VarAddress>("/begin VAR_ADDRESS 0x1000 8192 /end VAR_ADDRESS");
    assert_eq!(
        out,
        "/begin VAR_ADDRESS\n  0x1000\n  0x2000\n/end VAR_ADDRESS\n"
    );
}

#[test]
fn var_characteristic_value_per_line() {
    let out = roundtrip::<VarCharacteristic>(
        "/begin VAR_CHARACTERISTIC Char1 Val1 Val2 /end VAR_CHARACTERISTIC",
    );
    assert_eq!(
        out,
        "/begin VAR_CHARACTERISTIC Char1\n  Val1\n  Val2\n/end VAR_CHARACTERISTIC\n"
    );
}

#[test]
fn var_criterion_full() {
    let out = roundtrip::<VarCriterion>(
        "/begin VAR_CRITERION Crit1 \"desc\" VAR_MEASUREMENT Meas1 VAR_SELECTION_CHARACTERISTIC Char1 V1 V2 V3 V4 /end VAR_CRITERION",
    );
    assert_eq!(
        out,
        "/begin VAR_CRITERION Crit1\n  \"desc\"\n  VAR_MEASUREMENT Meas1\n  VAR_SELECTION_CHARACTERISTIC Char1\n  V1 V2 V3\n  V4\n/end VAR_CRITERION\n"
    );
}

#[test]
fn var_forbidden_comb_pairs() {
    let out = roundtrip::<VarForbiddenComb>(
        "/begin VAR_FORBIDDEN_COMB Crit1 Val1 Crit2 Val2 /end VAR_FORBIDDEN_COMB",
    );
    assert_eq!(
        out,
        "/begin VAR_FORBIDDEN_COMB\n  Crit1 Val1\n  Crit2 Val2\n/end VAR_FORBIDDEN_COMB\n"
    );
}

#[test]
fn var_forbidden_comb_rejects_dangling_key() {
    let toks = tokenize("/begin VAR_FORBIDDEN_COMB OnlyKey /end VAR_FORBIDDEN_COMB").unwrap();
    let root = build_block_tree(&toks).unwrap();
    assert!(VarForbiddenComb::parse(root.child("VAR_FORBIDDEN_COMB").unwrap()).is_err());
}
