use autors::a2l::error::Result;
use autors::a2l::number::Number;
use autors::a2l::token::Token;
use autors::a2l::token::tokenize as lex;

fn num(x: f64) -> Number {
    let bits = x.to_bits() as i64;
    let single = x as f32;
    let single_bits = single.to_bits() as i32;
    Number {
        text: format!("{}", x),
        key: if bits < 0 { -(bits & i64::MAX) } else { bits },
        nan: x.is_nan(),
        single_text: format!("{}", single),
        single_key: if single_bits < 0 { -i64::from(single_bits & i32::MAX) } else { i64::from(single_bits) },
        rounded: x.round() as i64,
    }
}

fn tokenize(src: &str) -> Result<Vec<Token>> {
    let mut tokens = lex(src)?;
    for t in &mut tokens {
        t.number = t.text.parse::<f64>().ok().map(num);
    }
    Ok(tokens)
}

#[test]
fn tokenizes_keywords_strings_and_comments() {
    let src = "/begin ANNOTATION // note\n ANNOTATION_LABEL \"a \\\"b\\\" c\" /* x */ ANNOTATION_ORIGIN \"o\" /end ANNOTATION";
    let toks = tokenize(src).unwrap();
    let texts: Vec<&str> = toks.iter().map(|t| t.text.as_str()).collect();
    assert_eq!(
        texts,
        [
            "/begin",
            "ANNOTATION",
            "ANNOTATION_LABEL",
            "a \\\"b\\\" c",
            "ANNOTATION_ORIGIN",
            "o",
            "/end",
            "ANNOTATION"
        ]
    );
    assert!(toks[3].quoted);
    assert!(!toks[0].quoted);
}

#[test]
fn tracks_lines() {
    let toks = tokenize("A\nB\n\nC").unwrap();
    assert_eq!(toks[0].line, 1);
    assert_eq!(toks[1].line, 2);
    assert_eq!(toks[2].line, 4);
}

#[test]
fn rejects_unterminated_string() {
    assert!(tokenize("\"abc").is_err());
}
