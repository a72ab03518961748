use autors::a2l::block::build_block_tree;
use autors::a2l::error::Result;
use autors::a2l::number::Number;
use autors::a2l::params::ParamCursor;
use autors::a2l::token::Token;
use autors::a2l::token::tokenize as lex;

fn num(x: f64) -> Number {
    let bits = x.to_bits() as i64;
    let single = x as f32;
    let single_bits = single.to_bits() as i32;
    Number {
        text: format!("{}", x),
        key: if bits < 0 { -(bits & i64::MAX) } else { bits },
        nan: x.is_nan(),
        single_text: format!("{}", single),
        single_key: if single_bits < 0 { -i64::from(single_bits & i32::MAX) } else { i64::from(single_bits) },
        rounded: x.round() as i64,
    }
}

fn tokenize(src: &str) -> Result<Vec<Token>> {
    let mut tokens = lex(src)?;
    for t in &mut tokens {
        t.number = t.text.parse::<f64>().ok().map(num);
    }
    Ok(tokens)
}

#[test]
fn reads_typed_values() {
    let src = "/begin M Name \"desc\" 0x1F -3 2.5 /end M";
    let toks = tokenize(src).unwrap();
    let root = build_block_tree(&toks).unwrap();
    let block = root.child("M").unwrap();
    let mut cur = ParamCursor::new(block);
    assert_eq!(cur.ident().unwrap(), "Name");
    assert_eq!(cur.string().unwrap(), "desc");
    assert_eq!(cur.uint::<u32>().unwrap(), 31);
    assert_eq!(cur.sint::<i32>().unwrap(), -3);
    assert_eq!(cur.float().unwrap(), num(2.5));
    assert!(cur.is_empty());
}
