use autors::a2l::block::build_block_tree;
use autors::a2l::error::Result;
use autors::a2l::model::header::Header;
use autors::a2l::node::Node;
use autors::a2l::number::Number;
use autors::a2l::token::Token;
use autors::a2l::writer::{Writer, WriterOptions};
use autors::a2l::token::tokenize as lex;

fn num(x: f64) -> Number {
    let bits = x.to_bits() as i64;
    let single = x as f32;
    let single_bits = single.to_bits() as i32;
    Number {
        text: format!("{}", x),
        key: if bits < 0 { -(bits & i64::MAX) } else { bits },
        nan: x.is_nan(),
        single_text: format!("{}", single),
        single_key: if single_bits < 0 { -i64::from(single_bits & i32::MAX) } else { i64::from(single_bits) },
        rounded: x.round() as i64,
    }
}

fn tokenize(src: &str) -> Result<Vec<Token>> {
    let mut tokens = lex(src)?;
    for t in &mut tokens {
        t.number = t.text.parse::<f64>().ok().map(num);
    }
    Ok(tokens)
}

fn roundtrip(src: &str) -> String {
    let toks = tokenize(src).unwrap();
    let root = build_block_tree(&toks).unwrap();
    let block = root.child("HEADER").unwrap();
    let header = Header::parse(block).unwrap();
    let mut w = Writer::new(WriterOptions::default());
    header.write_block(&mut w).unwrap();
    w.into_string()
}

#[test]
fn header_full() {
    let out = roundtrip(
        "/begin HEADER \"the comment\" VERSION \"1.0\" PROJECT_NO PRJ123 /end HEADER",
    );
    assert_eq!(
        out,
        "/begin HEADER\n  \"the comment\"\n  VERSION \"1.0\"\n  PROJECT_NO PRJ123\n/end HEADER\n"
    );
}

#[test]
fn header_empty_comment_only() {
    let out = roundtrip("/begin HEADER /end HEADER");
    assert_eq!(out, "/begin HEADER\n  \"\"\n/end HEADER\n");
}

#[test]
fn header_skips_unknown_and_empty_values() {
    let out = roundtrip("/begin HEADER \"c\" FOO BAR VERSION \"\" /end HEADER");
    assert_eq!(out, "/begin HEADER\n  \"c\"\n/end HEADER\n");
}
