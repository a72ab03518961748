use autors::a2l::error::Result;
use autors::a2l::model::project::Project;
use autors::a2l::number::{Joint, Number};
use autors::a2l::token::Token;
use autors::a2l::token::tokenize as lex;

fn num(x: f64) -> Number {
    let bits = x.to_bits() as i64;
    let single = x as f32;
    let single_bits = single.to_bits() as i32;
    Number {
        text: format!("{}", x),
        key: if bits < 0 { -(bits & i64::MAX) } else { bits },
        nan: x.is_nan(),
        single_text: format!("{}", single),
        single_key: if single_bits < 0 { -i64::from(single_bits & i32::MAX) } else { i64::from(single_bits) },
        rounded: x.round() as i64,
    }
}

fn joint(x: f64, y: f64) -> Joint {
    let inverse = 1.0 / x;
    let quotient = -y / x;
    let slope = 1.0 / inverse;
    Joint {
        inverse: num(inverse),
        quotient: num(quotient),
        slope: num(slope),
        start: num(-slope * quotient),
        offset: num(-inverse * y),
    }
}

fn tokenize(src: &str) -> Result<Vec<Token>> {
    let mut tokens = lex(src)?;
    for t in &mut tokens {
        t.number = t.text.parse::<f64>().ok().map(num);
    }
    for i in 1..tokens.len() {
        let pair = (tokens[i - 1].text.parse(), tokens[i].text.parse());
        if let (Ok(x), Ok(y)) = pair {
            tokens[i - 1].joint = Some(joint(x, y));
        }
    }
    Ok(tokens)
}

const SAMPLE: &str = r#"/begin PROJECT MyProj "demo project"

/begin HEADER
  "header comment"
  VERSION "1.71"
  PROJECT_NO 42
/end HEADER

/begin MODULE M1 "module one"
/end MODULE

/begin MODULE M2 "module two"
/end MODULE
/end PROJECT
"#;

#[test]
fn project_roundtrip() {
    let p = parse_str(SAMPLE).unwrap();
    assert_eq!(p.named.name, "MyProj");
    assert_eq!(p.named.description.as_deref(), Some("demo project"));
    assert!(p.header().is_some());
    assert_eq!(p.modules().len(), 2);
    let out = p.write_string().unwrap();
    let p2 = parse_str(&out).unwrap();
    assert_eq!(p, p2);
}

#[test]
fn missing_project_is_error() {
    assert!(parse_str("/begin MODULE M \"d\" /end MODULE").is_err());
}


fn parse_str(src: &str) -> Result<Project> {
    Project::parse_tokens(&tokenize(src)?)
}
