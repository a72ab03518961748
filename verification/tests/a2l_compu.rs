use autors::a2l::block::build_block_tree;
use autors::a2l::error::Result;
use autors::a2l::model::compu::{BitOperation, CompuMethod, CompuTab, CompuVtab, CompuVtabRange, FixAxisParList, Formula, RationalCoeffs};
use autors::a2l::node::Node;
use autors::a2l::number::{Joint, Number};
use autors::a2l::token::Token;
use autors::a2l::writer::{Writer, WriterOptions};
use autors::a2l::token::tokenize as lex;

fn num(x: f64) -> Number {
    let bits = x.to_bits() as i64;
    let single = x as f32;
    let single_bits = single.to_bits() as i32;
    Number {
        text: format!("{}", x),
        key: if bits < 0 { -(bits & i64::MAX) } else { bits },
        nan: x.is_nan(),
        single_text: format!("{}", single),
        single_key: if single_bits < 0 { -i64::from(single_bits & i32::MAX) } else { i64::from(single_bits) },
        rounded: x.round() as i64,
    }
}

fn joint(x: f64, y: f64) -> Joint {
    let inverse = 1.0 / x;
    let quotient = -y / x;
    let slope = 1.0 / inverse;
    Joint {
        inverse: num(inverse),
        quotient: num(quotient),
        slope: num(slope),
        start: num(-slope * quotient),
        offset: num(-inverse * y),
    }
}

fn tokenize(src: &str) -> Result<Vec<Token>> {
    let mut tokens = lex(src)?;
    for t in &mut tokens {
        t.number = t.text.parse::<f64>().ok().map(num);
    }
    for i in 1..tokens.len() {
        let pair = (tokens[i - 1].text.parse(), tokens[i].text.parse());
        if let (Ok(x), Ok(y)) = pair {
            tokens[i - 1].joint = Some(joint(x, y));
        }
    }
    Ok(tokens)
}

fn roundtrip<N: Node>(src: &str, keyword: &str) -> String {
    let toks = tokenize(src).unwrap();
    let root = build_block_tree(&toks).unwrap();
    let block = root.child(keyword).unwrap();
    let node = N::parse(block).unwrap();
    let mut w = Writer::new(WriterOptions::default());
    node.write_block(&mut w).unwrap();
    w.into_string()
}

#[test]
fn compu_method_linear_roundtrip() {
    let out = roundtrip::<CompuMethod>(
        "/begin COMPU_METHOD CM \"desc\" LINEAR \"%4.2\" \"rpm\" \
         COEFFS_LINEAR 0.1 5 STATUS_STRING_REF SSR REF_UNIT U1 /end COMPU_METHOD",
        "COMPU_METHOD",
    );
    assert_eq!(
        out,
        "/begin COMPU_METHOD CM\n  \"desc\"\n  LINEAR\n  \"%4.2\" \"rpm\"\n  \
         COEFFS_LINEAR 0.1 5\n  STATUS_STRING_REF SSR\n  REF_UNIT U1\n/end COMPU_METHOD\n"
    );
}

#[test]
fn compu_method_rat_func_roundtrip() {
    let out = roundtrip::<CompuMethod>(
        "/begin COMPU_METHOD CM2 \"\" RAT_FUNC \"%1.0\" \"\" COEFFS 1 2 3 4 5 6 \
         /end COMPU_METHOD",
        "COMPU_METHOD",
    );
    assert_eq!(
        out,
        "/begin COMPU_METHOD CM2\n  \"\"\n  RAT_FUNC\n  \"%1.0\" \"\"\n  \
         COEFFS 1 2 3 4 5 6\n/end COMPU_METHOD\n"
    );
}

#[test]
fn compu_method_tab_ref_and_inline_formula() {
    let out = roundtrip::<CompuMethod>(
        "/begin COMPU_METHOD CM3 \"d\" TAB_NOINTP \"%1.0\" \"-\" COMPU_TAB_REF T1 \
         FORMULA \"x*2\" /end COMPU_METHOD",
        "COMPU_METHOD",
    );
    assert_eq!(
        out,
        "/begin COMPU_METHOD CM3\n  \"d\"\n  TAB_NOINTP\n  \"%1.0\" \"-\"\n  \
         COMPU_TAB_REF T1\n  /begin FORMULA\n    \"x*2\"\n  /end FORMULA\n/end COMPU_METHOD\n"
    );
}

#[test]
fn compu_method_identical_minimal() {
    let out = roundtrip::<CompuMethod>(
        "/begin COMPU_METHOD CM4 \"\" IDENTICAL \"%1.0\" \"\" /end COMPU_METHOD",
        "COMPU_METHOD",
    );
    assert_eq!(
        out,
        "/begin COMPU_METHOD CM4\n  \"\"\n  IDENTICAL\n  \"%1.0\" \"\"\n/end COMPU_METHOD\n"
    );
}

#[test]
fn compu_method_linear_zero_factor_keeps_identity() {
    let toks = tokenize(
        "/begin COMPU_METHOD Z \"\" LINEAR \"%1.0\" \"\" COEFFS_LINEAR 0 7 /end COMPU_METHOD",
    )
    .unwrap();
    let root = build_block_tree(&toks).unwrap();
    let cm = CompuMethod::parse(root.child("COMPU_METHOD").unwrap()).unwrap();
    assert_eq!(cm.coeffs, RationalCoeffs::default());
}

#[test]
fn compu_tab_roundtrip_sorted_by_key() {
    let out = roundtrip::<CompuTab>(
        "/begin COMPU_TAB T \"table\" TAB_NOINTP 3 2 20 0 0 1 10 \
         DEFAULT_VALUE_NUMERIC -1 /end COMPU_TAB",
        "COMPU_TAB",
    );
    assert_eq!(
        out,
        "/begin COMPU_TAB T\n  \"table\"\n  TAB_NOINTP\n  3\n  0 0\n  1 10\n  2 20\n  \
         DEFAULT_VALUE_NUMERIC -1\n/end COMPU_TAB\n"
    );
}

#[test]
fn compu_tab_tab_intp_roundtrip() {
    let out = roundtrip::<CompuTab>(
        "/begin COMPU_TAB TI \"\" TAB_INTP 2 0 0 10 100.5 /end COMPU_TAB",
        "COMPU_TAB",
    );
    assert_eq!(
        out,
        "/begin COMPU_TAB TI\n  \"\"\n  TAB_INTP\n  2\n  0 0\n  10 100.5\n/end COMPU_TAB\n"
    );
}

#[test]
fn compu_tab_duplicate_key_keeps_first() {
    let toks =
        tokenize("/begin COMPU_TAB D \"\" TAB_NOINTP 2 0 1 0 99 /end COMPU_TAB").unwrap();
    let root = build_block_tree(&toks).unwrap();
    let tab = CompuTab::parse(root.child("COMPU_TAB").unwrap()).unwrap();
    assert_eq!(tab.values, vec![(num(0.0).single(), num(1.0))]);
}

#[test]
fn compu_vtab_roundtrip() {
    let out = roundtrip::<CompuVtab>(
        "/begin COMPU_VTAB VT \"verb\" TAB_VERB 2 1 \"on\" 0 \"off\" \
         DEFAULT_VALUE \"unknown\" /end COMPU_VTAB",
        "COMPU_VTAB",
    );
    assert_eq!(
        out,
        "/begin COMPU_VTAB VT\n  \"verb\"\n  TAB_VERB\n  2\n  0 \"off\"\n  1 \"on\"\n  \
         DEFAULT_VALUE \"unknown\"\n/end COMPU_VTAB\n"
    );
}

#[test]
fn compu_vtab_escapes_values() {
    let out = roundtrip::<CompuVtab>(
        "/begin COMPU_VTAB VE \"\" TAB_VERB 1 0 \"a\\\"b\" /end COMPU_VTAB",
        "COMPU_VTAB",
    );
    assert_eq!(
        out,
        "/begin COMPU_VTAB VE\n  \"\"\n  TAB_VERB\n  1\n  0 \"a\\\"b\"\n/end COMPU_VTAB\n"
    );
}

#[test]
fn compu_vtab_range_roundtrip() {
    let out = roundtrip::<CompuVtabRange>(
        "/begin COMPU_VTAB_RANGE VTR \"ranges\" 2 0 10 \"low\" 10.5 20 \"high\" \
         DEFAULT_VALUE \"?\" /end COMPU_VTAB_RANGE",
        "COMPU_VTAB_RANGE",
    );
    assert_eq!(
        out,
        "/begin COMPU_VTAB_RANGE VTR\n  \"ranges\"\n  2\n  0 10 \"low\"\n  \
         10.5 20 \"high\"\n  DEFAULT_VALUE \"?\"\n/end COMPU_VTAB_RANGE\n"
    );
}

#[test]
fn compu_vtab_range_groups_by_key() {
    let out = roundtrip::<CompuVtabRange>(
        "/begin COMPU_VTAB_RANGE VR2 \"\" 3 0 1 \"a\" 2 3 \"b\" 4 5 \"a\" \
         /end COMPU_VTAB_RANGE",
        "COMPU_VTAB_RANGE",
    );
    assert_eq!(
        out,
        "/begin COMPU_VTAB_RANGE VR2\n  \"\"\n  3\n  0 1 \"a\"\n  4 5 \"a\"\n  \
         2 3 \"b\"\n/end COMPU_VTAB_RANGE\n"
    );
}

#[test]
fn formula_roundtrip() {
    let out = roundtrip::<Formula>(
        "/begin FORMULA \"x*2\" FORMULA_INV \"x/2\" /end FORMULA",
        "FORMULA",
    );
    assert_eq!(
        out,
        "/begin FORMULA\n  \"x*2\"\n  FORMULA_INV \"x/2\"\n/end FORMULA\n"
    );
}

#[test]
fn formula_without_inverse() {
    let out = roundtrip::<Formula>("/begin FORMULA \"sqrt(x)\" /end FORMULA", "FORMULA");
    assert_eq!(out, "/begin FORMULA\n  \"sqrt(x)\"\n/end FORMULA\n");
}

#[test]
fn bit_operation_roundtrip() {
    let out = roundtrip::<BitOperation>(
        "/begin BIT_OPERATION LEFT_SHIFT 3 SIGN_EXTEND /end BIT_OPERATION",
        "BIT_OPERATION",
    );
    assert_eq!(
        out,
        "/begin BIT_OPERATION\n  LEFT_SHIFT 3\n  SIGN_EXTEND\n/end BIT_OPERATION\n"
    );
}

#[test]
fn bit_operation_empty() {
    let out =
        roundtrip::<BitOperation>("/begin BIT_OPERATION /end BIT_OPERATION", "BIT_OPERATION");
    assert_eq!(out, "/begin BIT_OPERATION\n/end BIT_OPERATION\n");
}

#[test]
fn fix_axis_par_list_roundtrip() {
    let out = roundtrip::<FixAxisParList>(
        "/begin FIX_AXIS_PAR_LIST 0 10 20.5 30 /end FIX_AXIS_PAR_LIST",
        "FIX_AXIS_PAR_LIST",
    );
    assert_eq!(
        out,
        "/begin FIX_AXIS_PAR_LIST\n  0\n  10\n  20.5\n  30\n/end FIX_AXIS_PAR_LIST\n"
    );
}
