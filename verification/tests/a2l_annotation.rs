use autors::a2l::block::build_block_tree;
use autors::a2l::error::Result;
use autors::a2l::model::annotation::Annotation;
use autors::a2l::node::Node;
use autors::a2l::number::Number;
use autors::a2l::token::Token;
use autors::a2l::writer::{Writer, WriterOptions};
use autors::a2l::token::tokenize as lex;

fn num(x: f64) -> Number {
    let bits = x.to_bits() as i64;
    let single = x as f32;
    let single_bits = single.to_bits() as i32;
    Number {
        text: format!("{}", x),
        key: if bits < 0 { -(bits & i64::MAX) } else { bits },
        nan: x.is_nan(),
        single_text: format!("{}", single),
        single_key: if single_bits < 0 { -i64::from(single_bits & i32::MAX) } else { i64::from(single_bits) },
        rounded: x.round() as i64,
    }
}

fn tokenize(src: &str) -> Result<Vec<Token>> {
    let mut tokens = lex(src)?;
    for t in &mut tokens {
        t.number = t.text.parse::<f64>().ok().map(num);
    }
    Ok(tokens)
}

fn roundtrip(src: &str) -> String {
    let toks = tokenize(src).unwrap();
    let root = build_block_tree(&toks).unwrap();
    let block = root.child("ANNOTATION").unwrap();
    let ann = Annotation::parse(block).unwrap();
    let mut w = Writer::new(WriterOptions::default());
    ann.write_block(&mut w).unwrap();
    w.into_string()
}

#[test]
fn annotation_roundtrip() {
    let out = roundtrip(
        "/begin ANNOTATION ANNOTATION_LABEL \"lbl\" ANNOTATION_ORIGIN \"org\" /end ANNOTATION",
    );
    assert_eq!(
        out,
        "/begin ANNOTATION\n  ANNOTATION_ORIGIN \"org\"\n  ANNOTATION_LABEL \"lbl\"\n/end ANNOTATION\n"
    );
}

#[test]
fn annotation_escapes() {
    let out = roundtrip("/begin ANNOTATION ANNOTATION_LABEL \"a\\nb\" /end ANNOTATION");
    assert!(out.contains("\"a\\nb\""));
    let toks = tokenize(&out).unwrap();
    let root = build_block_tree(&toks).unwrap();
    let ann = Annotation::parse(root.child("ANNOTATION").unwrap()).unwrap();
    assert_eq!(ann.label.as_deref(), Some("a\nb"));
}
