use autors::a2l::block::build_block_tree;
use autors::a2l::error::Result;
use autors::a2l::number::Number;
use autors::a2l::token::Token;
use autors::a2l::token::tokenize as lex;

fn num(x: f64) -> Number {
    let bits = x.to_bits() as i64;
    let single = x as f32;
    let single_bits = single.to_bits() as i32;
    Number {
        text: format!("{}", x),
        key: if bits < 0 { -(bits & i64::MAX) } else { bits },
        nan: x.is_nan(),
        single_text: format!("{}", single),
        single_key: if single_bits < 0 { -i64::from(single_bits & i32::MAX) } else { i64::from(single_bits) },
        rounded: x.round() as i64,
    }
}

fn tokenize(src: &str) -> Result<Vec<Token>> {
    let mut tokens = lex(src)?;
    for t in &mut tokens {
        t.number = t.text.parse::<f64>().ok().map(num);
    }
    Ok(tokens)
}

#[test]
fn builds_nested_tree() {
    let src = "/begin PROJECT P \"d\" /begin MODULE M \"d\" /end MODULE /end PROJECT";
    let toks = tokenize(src).unwrap();
    let root = build_block_tree(&toks).unwrap();
    let proj = root.children()[0];
    assert_eq!(proj.keyword, "PROJECT");
    assert_eq!(proj.params().len(), 2);
    assert_eq!(proj.child("MODULE").unwrap().params().len(), 2);
}

#[test]
fn rejects_mismatched_end() {
    let toks = tokenize("/begin A /end B").unwrap();
    assert!(build_block_tree(&toks).is_err());
}
