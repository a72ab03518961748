use autors::a2l::block::build_block_tree;
use autors::a2l::error::Result;
use autors::a2l::model::transformer::{Transformer, TransformerInObjects, TransformerOutObjects};
use autors::a2l::node::Node;
use autors::a2l::number::Number;
use autors::a2l::token::Token;
use autors::a2l::writer::{Writer, WriterOptions};
use autors::a2l::token::tokenize as lex;

fn num(x: f64) -> Number {
    let bits = x.to_bits() as i64;
    let single = x as f32;
    let single_bits = single.to_bits() as i32;
    Number {
        text: format!("{}", x),
        key: if bits < 0 { -(bits & i64::MAX) } else { bits },
        nan: x.is_nan(),
        single_text: format!("{}", single),
        single_key: if single_bits < 0 { -i64::from(single_bits & i32::MAX) } else { i64::from(single_bits) },
        rounded: x.round() as i64,
    }
}

fn tokenize(src: &str) -> Result<Vec<Token>> {
    let mut tokens = lex(src)?;
    for t in &mut tokens {
        t.number = t.text.parse::<f64>().ok().map(num);
    }
    Ok(tokens)
}

fn roundtrip<T: Node>(src: &str) -> String {
    let toks = tokenize(src).unwrap();
    let root = build_block_tree(&toks).unwrap();
    let block = root.child(T::keyword()).unwrap();
    let node = T::parse(block).unwrap();
    let mut w = Writer::new(WriterOptions::default());
    node.write_block(&mut w).unwrap();
    w.into_string()
}

#[test]
fn transformer_full() {
    let out = roundtrip::<Transformer>(
        "/begin TRANSFORMER Tr1 \"1.0\" \"tr32.dll\" \"tr64.dll\" 100 ON_CHANGE Tr2 /end TRANSFORMER",
    );
    assert_eq!(
        out,
        "/begin TRANSFORMER Tr1\n  \"1.0\"\n  \"tr32.dll\"\n  \"tr64.dll\"\n  100\n  ON_CHANGE\n  Tr2\n/end TRANSFORMER\n"
    );
}

#[test]
fn transformer_default_inverse() {
    let toks = tokenize(
        "/begin TRANSFORMER Tr1 \"1.0\" \"a.dll\" \"b.dll\" 0 ON_USER_REQUEST NO_INVERSE_TRANSFORMER /end TRANSFORMER",
    )
    .unwrap();
    let root = build_block_tree(&toks).unwrap();
    let mut t = Transformer::parse(root.child("TRANSFORMER").unwrap()).unwrap();
    t.inverse_transformer = None;
    let mut w = Writer::new(WriterOptions::default());
    t.write_block(&mut w).unwrap();
    assert_eq!(
        w.into_string(),
        "/begin TRANSFORMER Tr1\n  \"1.0\"\n  \"a.dll\"\n  \"b.dll\"\n  0\n  ON_USER_REQUEST\n  NO_INVERSE_TRANSFORMER\n/end TRANSFORMER\n"
    );
}

#[test]
fn transformer_in_objects_folds_by_columns() {
    let out = roundtrip::<TransformerInObjects>(
        "/begin TRANSFORMER_IN_OBJECTS M1 M2 M3 M4 /end TRANSFORMER_IN_OBJECTS",
    );
    assert_eq!(
        out,
        "/begin TRANSFORMER_IN_OBJECTS\n  M1 M2 M3\n  M4\n/end TRANSFORMER_IN_OBJECTS\n"
    );
}

#[test]
fn transformer_out_objects_empty() {
    let out = roundtrip::<TransformerOutObjects>(
        "/begin TRANSFORMER_OUT_OBJECTS /end TRANSFORMER_OUT_OBJECTS",
    );
    assert_eq!(
        out,
        "/begin TRANSFORMER_OUT_OBJECTS\n/end TRANSFORMER_OUT_OBJECTS\n"
    );
}
