use autors::a2l::block::build_block_tree;
use autors::a2l::error::Result;
use autors::a2l::model::function::{DependentCharacteristic, Frame, Function, Group, RefGroup, RefMeasurement, SubFunction, Virtual, VirtualCharacteristic};
use autors::a2l::node::Node;
use autors::a2l::number::Number;
use autors::a2l::token::Token;
use autors::a2l::writer::{Writer, WriterOptions};
use autors::a2l::token::tokenize as lex;

fn num(x: f64) -> Number {
    let bits = x.to_bits() as i64;
    let single = x as f32;
    let single_bits = single.to_bits() as i32;
    Number {
        text: format!("{}", x),
        key: if bits < 0 { -(bits & i64::MAX) } else { bits },
        nan: x.is_nan(),
        single_text: format!("{}", single),
        single_key: if single_bits < 0 { -i64::from(single_bits & i32::MAX) } else { i64::from(single_bits) },
        rounded: x.round() as i64,
    }
}

fn tokenize(src: &str) -> Result<Vec<Token>> {
    let mut tokens = lex(src)?;
    for t in &mut tokens {
        t.number = t.text.parse::<f64>().ok().map(num);
    }
    Ok(tokens)
}

fn roundtrip<T: Node>(src: &str) -> String {
    let toks = tokenize(src).unwrap();
    let root = build_block_tree(&toks).unwrap();
    let block = root.child(T::keyword()).unwrap();
    let node = T::parse(block).unwrap();
    let mut w = Writer::new(WriterOptions::default());
    node.write_block(&mut w).unwrap();
    w.into_string()
}

#[test]
fn function_full() {
    let src = "/begin FUNCTION F1 \"func desc\" FUNCTION_VERSION \"1.2\" \
               /begin DEF_CHARACTERISTIC C1 C2 /end DEF_CHARACTERISTIC \
               /begin REF_CHARACTERISTIC C3 C4 C5 C6 /end REF_CHARACTERISTIC \
               /begin IN_MEASUREMENT M1 /end IN_MEASUREMENT \
               /begin LOC_MEASUREMENT M2 /end LOC_MEASUREMENT \
               /begin OUT_MEASUREMENT M3 /end OUT_MEASUREMENT \
               /begin VIRTUAL_CHARACTERISTIC \"f(x)\" VC1 /end VIRTUAL_CHARACTERISTIC \
               /begin SUB_FUNCTION SF1 /end SUB_FUNCTION \
               /begin ANNOTATION ANNOTATION_LABEL \"lbl\" /end ANNOTATION \
               /begin IF_DATA XCP /end IF_DATA \
               /end FUNCTION";
    let out = roundtrip::<Function>(src);
    assert_eq!(
        out,
        "/begin FUNCTION F1\n  \"func desc\"\n  FUNCTION_VERSION \"1.2\"\n  \
         /begin DEF_CHARACTERISTIC\n    C1 C2\n  /end DEF_CHARACTERISTIC\n  \
         /begin REF_CHARACTERISTIC\n    C3 C4 C5\n    C6\n  /end REF_CHARACTERISTIC\n  \
         /begin IN_MEASUREMENT\n    M1\n  /end IN_MEASUREMENT\n  \
         /begin LOC_MEASUREMENT\n    M2\n  /end LOC_MEASUREMENT\n  \
         /begin OUT_MEASUREMENT\n    M3\n  /end OUT_MEASUREMENT\n  \
         /begin VIRTUAL_CHARACTERISTIC\n    \"f(x)\"\n    VC1\n  /end VIRTUAL_CHARACTERISTIC\n  \
         /begin SUB_FUNCTION\n    SF1\n  /end SUB_FUNCTION\n  \
         /begin ANNOTATION\n    ANNOTATION_LABEL \"lbl\"\n  /end ANNOTATION\n  \
         /begin IF_DATA\n    XCP\n  /end IF_DATA\n/end FUNCTION\n"
    );
    let toks = tokenize(&out).unwrap();
    let root = build_block_tree(&toks).unwrap();
    let f2 = Function::parse(root.child("FUNCTION").unwrap()).unwrap();
    assert_eq!(f2.named.name, "F1");
    assert_eq!(f2.version.as_deref(), Some("1.2"));
    assert_eq!(f2.children.len(), 9);
}

#[test]
fn function_minimal_no_version() {
    let out = roundtrip::<Function>("/begin FUNCTION F1 \"\" /end FUNCTION");
    assert_eq!(out, "/begin FUNCTION F1\n  \"\"\n/end FUNCTION\n");
}

#[test]
fn function_skips_unknown_flat() {
    let out = roundtrip::<Function>(
        "/begin FUNCTION F \"d\" FOO BAR FUNCTION_VERSION \"2\" /end FUNCTION",
    );
    assert_eq!(
        out,
        "/begin FUNCTION F\n  \"d\"\n  FUNCTION_VERSION \"2\"\n/end FUNCTION\n"
    );
}

#[test]
fn group_full() {
    let src = "/begin GROUP G1 \"grp desc\" ROOT \
               /begin REF_MEASUREMENT M1 M2 M3 M4 /end REF_MEASUREMENT \
               /begin REF_CHARACTERISTIC C1 /end REF_CHARACTERISTIC \
               /begin FUNCTION_LIST F1 F2 /end FUNCTION_LIST \
               /begin SUB_GROUP G2 /end SUB_GROUP \
               /begin ANNOTATION ANNOTATION_ORIGIN \"org\" /end ANNOTATION \
               /begin IF_DATA XCP /end IF_DATA \
               /end GROUP";
    let out = roundtrip::<Group>(src);
    assert_eq!(
        out,
        "/begin GROUP G1\n  \"grp desc\"\n  ROOT\n  \
         /begin REF_MEASUREMENT\n    M1 M2 M3\n    M4\n  /end REF_MEASUREMENT\n  \
         /begin REF_CHARACTERISTIC\n    C1\n  /end REF_CHARACTERISTIC\n  \
         /begin FUNCTION_LIST\n    F1 F2\n  /end FUNCTION_LIST\n  \
         /begin SUB_GROUP\n    G2\n  /end SUB_GROUP\n  \
         /begin ANNOTATION\n    ANNOTATION_ORIGIN \"org\"\n  /end ANNOTATION\n  \
         /begin IF_DATA\n    XCP\n  /end IF_DATA\n/end GROUP\n"
    );
    let toks = tokenize(&out).unwrap();
    let root = build_block_tree(&toks).unwrap();
    let g2 = Group::parse(root.child("GROUP").unwrap()).unwrap();
    assert!(g2.root);
    assert_eq!(g2.children.len(), 6);
}

#[test]
fn group_without_root() {
    let out = roundtrip::<Group>("/begin GROUP G \"d\" /end GROUP");
    assert_eq!(out, "/begin GROUP G\n  \"d\"\n/end GROUP\n");
}

#[test]
fn frame_full() {
    let src = "/begin FRAME Fr1 \"frame desc\" 3 100 FRAME_MEASUREMENT M1 M2 M3 \
               /begin IF_DATA XCP_STUFF /end IF_DATA /end FRAME";
    let out = roundtrip::<Frame>(src);
    assert_eq!(
        out,
        "/begin FRAME Fr1\n  \"frame desc\"\n  3\n  100\n  \
         FRAME_MEASUREMENT M1\n  M2\n  M3\n  \
         /begin IF_DATA\n    XCP_STUFF\n  /end IF_DATA\n/end FRAME\n"
    );
}

#[test]
fn frame_without_measurements() {
    let out = roundtrip::<Frame>("/begin FRAME Fr1 \"d\" 6 10 /end FRAME");
    assert_eq!(out, "/begin FRAME Fr1\n  \"d\"\n  6\n  10\n/end FRAME\n");
}

#[test]
fn frame_hex_params_write_decimal() {
    let out = roundtrip::<Frame>("/begin FRAME F \"d\" 0x3 0x64 /end FRAME");
    assert_eq!(out, "/begin FRAME F\n  \"d\"\n  3\n  100\n/end FRAME\n");
}

#[test]
fn frame_measurement_tag_only_empty_list() {
    let out = roundtrip::<Frame>("/begin FRAME F \"d\" 1 2 FRAME_MEASUREMENT /end FRAME");
    assert_eq!(out, "/begin FRAME F\n  \"d\"\n  1\n  2\n/end FRAME\n");
}

#[test]
fn ref_group_folds_by_columns() {
    let out = roundtrip::<RefGroup>("/begin REF_GROUP A B C D /end REF_GROUP");
    assert_eq!(out, "/begin REF_GROUP\n  A B C\n  D\n/end REF_GROUP\n");
}

#[test]
fn ref_block_empty_tolerated() {
    let out = roundtrip::<RefMeasurement>("/begin REF_MEASUREMENT /end REF_MEASUREMENT");
    assert_eq!(out, "/begin REF_MEASUREMENT\n/end REF_MEASUREMENT\n");
}

#[test]
fn dependent_characteristic_roundtrip() {
    let out = roundtrip::<DependentCharacteristic>(
        "/begin DEPENDENT_CHARACTERISTIC \"XCP_DEFAULT_1\" C1 C2 C3 C4 /end DEPENDENT_CHARACTERISTIC",
    );
    assert_eq!(
        out,
        "/begin DEPENDENT_CHARACTERISTIC\n  \"XCP_DEFAULT_1\"\n  C1 C2 C3\n  \
         C4\n/end DEPENDENT_CHARACTERISTIC\n"
    );
}

#[test]
fn virtual_characteristic_roundtrip() {
    let out = roundtrip::<VirtualCharacteristic>(
        "/begin VIRTUAL_CHARACTERISTIC \"f(x)=x*2\" V1 V2 /end VIRTUAL_CHARACTERISTIC",
    );
    assert_eq!(
        out,
        "/begin VIRTUAL_CHARACTERISTIC\n  \"f(x)=x*2\"\n  V1 V2\n/end VIRTUAL_CHARACTERISTIC\n"
    );
}

#[test]
fn sub_nodes_via_function_children() {
    let out = roundtrip::<SubFunction>("/begin SUB_FUNCTION F1 F2 F3 F4 F5 /end SUB_FUNCTION");
    assert_eq!(
        out,
        "/begin SUB_FUNCTION\n  F1 F2 F3\n  F4 F5\n/end SUB_FUNCTION\n"
    );
    let out = roundtrip::<Virtual>("/begin VIRTUAL M1 M2 /end VIRTUAL");
    assert_eq!(out, "/begin VIRTUAL\n  M1 M2\n/end VIRTUAL\n");
}
