use autors::a2l::block::{build_block_tree, Item};
use autors::a2l::error::{Error, Result};
use autors::a2l::model::compu::{CompuMethod, CompuTab, CompuVtab, CompuVtabRange};
use autors::a2l::model::enums::{A2lKeyword, DataType};
use autors::a2l::model::module::{ModPar, Module, ModuleChild};
use autors::a2l::model::project::{Project, ProjectChild};
use autors::a2l::model::record_layout::RecordLayout;
use autors::a2l::node::Node;
use autors::a2l::number::{Joint, Number, in_order};
use autors::a2l::params::ParamCursor;
use autors::a2l::token::tokenize as lex;
use autors::a2l::token::Token;
use autors::a2l::writer::{escape_str, unescape_str, Writer, WriterOptions};

fn num(x: f64) -> Number {
    let bits = x.to_bits() as i64;
    let single = x as f32;
    let single_bits = single.to_bits() as i32;
    Number {
        text: format!("{}", x),
        key: if bits < 0 { -(bits & i64::MAX) } else { bits },
        nan: x.is_nan(),
        single_text: format!("{}", single),
        single_key: if single_bits < 0 { -i64::from(single_bits & i32::MAX) } else { i64::from(single_bits) },
        rounded: x.round() as i64,
    }
}

fn joint(x: f64, y: f64) -> Joint {
    let inverse = 1.0 / x;
    let quotient = -y / x;
    let slope = 1.0 / inverse;
    Joint {
        inverse: num(inverse),
        quotient: num(quotient),
        slope: num(slope),
        start: num(-slope * quotient),
        offset: num(-inverse * y),
    }
}

fn tokenize(src: &str) -> Result<Vec<Token>> {
    let mut tokens = lex(src)?;
    for t in &mut tokens {
        t.number = t.text.parse::<f64>().ok().map(num);
    }
    for i in 1..tokens.len() {
        let pair = (tokens[i - 1].text.parse(), tokens[i].text.parse());
        if let (Ok(x), Ok(y)) = pair {
            tokens[i - 1].joint = Some(joint(x, y));
        }
    }
    Ok(tokens)
}


fn parse_project(src: &str) -> Result<Project> {
    Project::parse_tokens(&tokenize(src)?)
}

fn node<T: Node>(src: &str, keyword: &str) -> Result<T> {
    let tokens = tokenize(src)?;
    let root = build_block_tree(&tokens)?;
    T::parse(root.child(keyword).unwrap())
}

fn text<T: Node>(node: &T) -> Result<String> {
    let mut w = Writer::new(WriterOptions::default());
    node.write_block(&mut w)?;
    Ok(w.into_string())
}

fn parse_error(line: u32, message: &str) -> Error {
    Error::Parse { line, message: message.to_string() }
}

const FULL: &str = r#"
/begin PROJECT P "a \"quoted\" project"
  /begin HEADER "head" VERSION "1.0" PROJECT_NO N1 /end HEADER
  /begin MODULE M "module"
    /begin MEASUREMENT Speed "vehicle speed" UWORD CM 1 0.5 0 250.25
      ECU_ADDRESS 0x1234 BYTE_ORDER MSB_FIRST
      /begin ANNOTATION ANNOTATION_LABEL "l" /end ANNOTATION
    /end MEASUREMENT
    /begin COMPU_METHOD CM "d" LINEAR "%4.2" "km/h" COEFFS_LINEAR 0.5 -40 /end COMPU_METHOD
    /begin COMPU_TAB T "tab" TAB_INTP 2 10 1.5 5 0.5 DEFAULT_VALUE_NUMERIC 7 /end COMPU_TAB
    /begin COMPU_VTAB V "vtab" TAB_VERB 2 1 "on" -1 "off" DEFAULT_VALUE "none" /end COMPU_VTAB
    /begin COMPU_VTAB_RANGE R "ranges" 2 0 1 "low" 2 3.5 "high" /end COMPU_VTAB_RANGE
    /begin RECORD_LAYOUT L ALIGNMENT_BYTE 1 FIX_NO_AXIS_PTS_Y 4
      FNC_VALUES 3 FLOAT32_IEEE COLUMN_DIR DIRECT
      AXIS_PTS_X 2 SWORD INDEX_INCR DIRECT NO_AXIS_PTS_X 1 UBYTE
      RESERVED 4 WORD RESERVED 5 BYTE STATIC_RECORD_LAYOUT
    /end RECORD_LAYOUT
    /begin IF_DATA XCP "tail \"x\" \\ end" 0x10 /begin DAQ STATIC "" /end DAQ last /end IF_DATA
  /end MODULE
/end PROJECT
"#;

#[test]
fn whole_project_reads_back() {
    let out = parse_project(FULL).unwrap().write_string().unwrap();
    assert_eq!(parse_project(&out).unwrap().write_string().unwrap(), out);
    // The lines on which nested blocks of unknown kind start count for their equality.
    let flat = FULL.replace("/begin DAQ STATIC \"\" /end DAQ", "");
    let p = parse_project(&flat).unwrap();
    assert_eq!(parse_project(&p.write_string().unwrap()).unwrap(), p);
}

#[test]
fn unsupported_block_keeps_its_strings() {
    let p = parse_project(FULL).unwrap();
    let out = p.write_string().unwrap();
    assert!(out.contains(r#""tail \"x\" \\ end""#));
    assert!(out.contains("/begin DAQ"));
    let unsupported: Vec<_> = p.modules()[0]
        .children
        .iter()
        .filter(|c| matches!(c, ModuleChild::Unsupported(_)))
        .collect();
    assert_eq!(unsupported.len(), 1);
}

#[test]
fn description_escapes_are_undone_and_made() {
    let p = parse_project(FULL).unwrap();
    assert_eq!(p.named.description.as_deref(), Some("a \"quoted\" project"));
    assert!(p.write_string().unwrap().contains(r#""a \"quoted\" project""#));
}

#[test]
fn children_keep_their_order() {
    let p = parse_project(FULL).unwrap();
    assert!(matches!(p.children[0], ProjectChild::Header(_)));
    let m = p.modules()[0];
    assert!(matches!(m.children[0], ModuleChild::Measurement(_)));
    assert!(matches!(m.children[1], ModuleChild::CompuMethod(_)));
    assert!(matches!(m.children[5], ModuleChild::RecordLayout(_)));
    assert_eq!(m.children.len(), 7);
}

#[test]
fn escaped_text_unescapes_to_itself() {
    for s in ["", "plain", "a\"b", "back\\slash", "tab\tnew\nline\r", "\\\"\\n"] {
        assert_eq!(unescape_str(&escape_str(s)), s);
    }
    assert_eq!(escape_str("a\"b"), "a\\\"b");
}

#[test]
fn coefficients_carry_a_linear_conversion() {
    let m: CompuMethod = node(
        "/begin COMPU_METHOD CM \"d\" LINEAR \"%4.2\" \"km\" COEFFS_LINEAR 0.5 -40 /end COMPU_METHOD",
        "COMPU_METHOD",
    )
    .unwrap();
    assert_eq!(m.coeffs.coeffs[1], num(2.0));
    assert_eq!(m.coeffs.coeffs[2], num(80.0));
    assert_eq!(m.coeffs.factor, num(0.5));
    assert_eq!(m.coeffs.offset, num(-40.0));
}

#[test]
fn linear_method_with_coefficients_is_written_with_their_factor() {
    let m: CompuMethod = node(
        "/begin COMPU_METHOD CM \"d\" LINEAR \"%4.2\" \"km\" COEFFS 0 4 -8 0 0 1 /end COMPU_METHOD",
        "COMPU_METHOD",
    )
    .unwrap();
    assert_eq!(m.coeffs.factor, num(0.25));
    assert_eq!(m.coeffs.offset, num(2.0));
    assert_eq!(
        text(&m).unwrap(),
        "/begin COMPU_METHOD CM\n  \"d\"\n  LINEAR\n  \"%4.2\" \"km\"\n  COEFFS_LINEAR 0.25 2\n/end COMPU_METHOD\n"
    );
}

#[test]
fn rational_method_with_a_factor_is_written_with_its_coefficients() {
    let m: CompuMethod = node(
        "/begin COMPU_METHOD CM \"d\" RAT_FUNC \"%4.2\" \"km\" COEFFS_LINEAR 0.5 -40 /end COMPU_METHOD",
        "COMPU_METHOD",
    )
    .unwrap();
    assert_eq!(
        text(&m).unwrap(),
        "/begin COMPU_METHOD CM\n  \"d\"\n  RAT_FUNC\n  \"%4.2\" \"km\"\n  COEFFS 0 2 80 0 0 1\n/end COMPU_METHOD\n"
    );
}

#[test]
fn factor_of_zero_coefficients_is_not_finite() {
    let m: CompuMethod = node(
        "/begin COMPU_METHOD CM \"d\" LINEAR \"%4.2\" \"km\" COEFFS 0 0 1 0 0 1 /end COMPU_METHOD",
        "COMPU_METHOD",
    )
    .unwrap();
    assert_eq!(m.coeffs.factor.text, "inf");
    assert_eq!(m.coeffs.offset.text, "-inf");
}

#[test]
fn table_is_sorted_and_keeps_first_of_equal_keys() {
    let t: CompuTab = node(
        "/begin COMPU_TAB T \"\" TAB_INTP 4 3 30 1 10 3 99 -2 20 /end COMPU_TAB",
        "COMPU_TAB",
    )
    .unwrap();
    assert_eq!(
        t.values,
        vec![
            (num(-2.0).single(), num(20.0)),
            (num(1.0).single(), num(10.0)),
            (num(3.0).single(), num(30.0)),
        ]
    );
    assert_eq!(node::<CompuTab>(&text(&t).unwrap(), "COMPU_TAB").unwrap(), t);
}

#[test]
fn table_keys_are_singles() {
    let t: CompuTab =
        node("/begin COMPU_TAB T \"\" TAB_INTP 1 0.1234567891 2 /end COMPU_TAB", "COMPU_TAB").unwrap();
    let out = text(&t).unwrap();
    assert!(out.contains("0.12345679 2"));
    assert_eq!(node::<CompuTab>(&out, "COMPU_TAB").unwrap(), t);
}

#[test]
fn verbal_table_is_written_by_ascending_keys() {
    let t: CompuVtab = node(
        "/begin COMPU_VTAB V \"\" TAB_VERB 3 5 \"e\" -3 \"a\" 5 \"f\" 2.4 \"c\" /end COMPU_VTAB",
        "COMPU_VTAB",
    )
    .unwrap();
    let out = text(&t).unwrap();
    assert_eq!(
        out,
        "/begin COMPU_VTAB V\n  \"\"\n  TAB_VERB\n  3\n  -3 \"a\"\n  2 \"c\"\n  5 \"e\"\n/end COMPU_VTAB\n"
    );
    assert_eq!(node::<CompuVtab>(&out, "COMPU_VTAB").unwrap(), t);
}

#[test]
fn ranges_of_one_text_come_together() {
    let t: CompuVtabRange = node(
        "/begin COMPU_VTAB_RANGE R \"\" 3 1 2 \"a\" 3 4 \"b\" 5 6 \"a\" /end COMPU_VTAB_RANGE",
        "COMPU_VTAB_RANGE",
    )
    .unwrap();
    let out = text(&t).unwrap();
    assert_eq!(
        out,
        "/begin COMPU_VTAB_RANGE R\n  \"\"\n  3\n  1 2 \"a\"\n  5 6 \"a\"\n  3 4 \"b\"\n/end COMPU_VTAB_RANGE\n"
    );
    assert_eq!(node::<CompuVtabRange>(&out, "COMPU_VTAB_RANGE").unwrap(), t);
    assert_eq!(t.clone(), t);
}

#[test]
fn system_constant_given_twice_keeps_its_place() {
    let m: ModPar = node(
        "/begin MOD_PAR \"\" SYSTEM_CONSTANT \"a\" \"1\" SYSTEM_CONSTANT \"b\" \"2\" \
         SYSTEM_CONSTANT \"a\" \"3\" /end MOD_PAR",
        "MOD_PAR",
    )
    .unwrap();
    let out = text(&m).unwrap();
    assert!(out.contains("SYSTEM_CONSTANT \"a\" \"3\"\n  SYSTEM_CONSTANT \"b\" \"2\"\n"));
    assert_eq!(m.system_constants.len(), 2);
    assert_eq!(text(&m.clone()).unwrap(), out);
}

#[test]
fn layout_entries_are_written_by_position() {
    let l: RecordLayout = node(
        "/begin RECORD_LAYOUT L FNC_VALUES 3 UBYTE ROW_DIR DIRECT NO_AXIS_PTS_X 1 UWORD \
         RESERVED 2 LONG /end RECORD_LAYOUT",
        "RECORD_LAYOUT",
    )
    .unwrap();
    let out = text(&l).unwrap();
    let first = out.find("NO_AXIS_PTS_X 1 UWORD").unwrap();
    let second = out.find("RESERVED 2 LONG").unwrap();
    let third = out.find("FNC_VALUES 3 UBYTE ROW_DIR DIRECT").unwrap();
    assert!(first < second && second < third);
    assert_eq!(node::<RecordLayout>(&out, "RECORD_LAYOUT").unwrap(), l);
}

#[test]
fn reserved_memory_without_a_size_is_not_written() {
    let mut l: RecordLayout =
        node("/begin RECORD_LAYOUT L RESERVED 1 BYTE /end RECORD_LAYOUT", "RECORD_LAYOUT").unwrap();
    l.reserved[0].data_type = DataType::Float64Ieee;
    assert_eq!(
        text(&l),
        Err(Error::Write {
            node: "RECORD_LAYOUT",
            message: "cannot derive DataSize from Float64Ieee".to_string(),
        })
    );
}

#[test]
fn tokens_and_blocks_that_do_not_fit_are_errors() {
    let tree = |s: &str| build_block_tree(&tokenize(s).unwrap()).err();
    assert_eq!(lex("a\n\"b").err(), Some(parse_error(2, "unterminated string")));
    assert_eq!(lex("a /* b").err(), Some(parse_error(1, "unterminated block comment")));
    assert_eq!(tree("\n/begin A"), Some(parse_error(2, "missing /end A")));
    assert_eq!(tree("/begin"), Some(parse_error(1, "expected keyword after /begin")));
    assert_eq!(tree("/begin A /end"), Some(parse_error(1, "expected keyword after /end")));
    assert_eq!(tree("/end A"), Some(parse_error(1, "/end without matching /begin")));
    assert!(tree("/begin A /end B").is_some());
}

#[test]
fn project_must_be_there() {
    assert_eq!(
        parse_project("/begin MODULE M \"\" /end MODULE").err(),
        Some(parse_error(0, "no /begin PROJECT block found"))
    );
}

#[test]
fn values_of_the_wrong_kind_are_errors() {
    assert_eq!(
        node::<CompuTab>("/begin COMPU_TAB T \"\" TAB_INTP 1\nx\" 2 /end COMPU_TAB", "COMPU_TAB").err(),
        Some(parse_error(2, "unterminated string"))
    );
    assert_eq!(
        node::<CompuTab>("/begin COMPU_TAB T \"\" TAB_INTP 1\nx 2 /end COMPU_TAB", "COMPU_TAB").err(),
        Some(parse_error(2, "COMPU_TAB: expected number, got \"x\""))
    );
    assert_eq!(
        node::<CompuTab>("/begin COMPU_TAB T \"\" TAB_INTP -1 /end COMPU_TAB", "COMPU_TAB").err(),
        Some(parse_error(1, "COMPU_TAB: expected unsigned integer, got \"-1\""))
    );
    assert_eq!(
        node::<CompuTab>("/begin COMPU_TAB T \"\" NO_TYPE 1 /end COMPU_TAB", "COMPU_TAB").err(),
        Some(parse_error(1, "unknown conversion type \"NO_TYPE\""))
    );
    assert_eq!(
        node::<CompuTab>("/begin COMPU_TAB T /end COMPU_TAB", "COMPU_TAB").err(),
        Some(parse_error(0, "COMPU_TAB: unexpected end of parameters"))
    );
}

#[test]
fn keywords_are_found_in_any_case() {
    assert_eq!(DataType::from_keyword("uword"), Some(DataType::UWord));
    assert_eq!(DataType::from_keyword("UWORDS"), None);
    assert_eq!(DataType::UWord.as_keyword(), Some("UWORD"));
}

#[test]
fn integers_read_back_from_both_forms() {
    let tokens = tokenize("/begin B 0x1F 31 -7 0xFFFFFFFF 18446744073709551615 /end B").unwrap();
    let root = build_block_tree(&tokens).unwrap();
    let mut c = ParamCursor::new(root.child("B").unwrap());
    assert_eq!(c.uint::<u32>(), Ok(31));
    assert_eq!(c.sint::<i32>(), Ok(31));
    assert_eq!(c.sint::<i64>(), Ok(-7));
    assert_eq!(c.uint::<u32>(), Ok(u32::MAX));
    assert_eq!(c.uint::<u64>(), Ok(u64::MAX));
    assert!(c.uint::<u8>().is_err());
}

#[test]
fn limits_are_put_in_order() {
    assert_eq!(in_order(&num(3.0), &num(-1.5)), (num(-1.5), num(3.0)));
    assert_eq!(in_order(&num(f64::NAN), &num(2.0)), (num(2.0), num(2.0)));
}

const WITH_A2ML: &str = r#"
/begin PROJECT P "p"
  /begin MODULE M "m"
    /begin a2ml block "IF_DATA" taggedunion { } /end a2ml
    /begin UNIT U "d" "km" DERIVED /end UNIT
    /begin IF_DATA XCP /end IF_DATA
  /end MODULE
/end PROJECT
"#;

#[test]
fn a2ml_is_left_out_where_it_is_not_wanted() {
    let p = parse_project(WITH_A2ML).unwrap();
    let on = p.write_string().unwrap();
    assert!(on.contains("/begin a2ml"));
    let options = WriterOptions { write_a2ml: false, ..WriterOptions::default() };
    let off = p.write_string_with(&options).unwrap();
    assert!(!off.to_lowercase().contains("a2ml"));
    let mut without = parse_project(WITH_A2ML).unwrap();
    if let ProjectChild::Module(m) = &mut without.children[0] {
        m.children.remove(0);
    }
    assert_eq!(off, without.write_string().unwrap());
    assert_eq!(parse_project(&off).unwrap(), without);
}

#[test]
fn quoted_text_is_one_token() {
    let text = "a \"b\"\tc\\\n";
    let source = format!("\"{}\"", escape_str(text));
    assert!(!source.contains('\n') && !source.contains('\t'));
    let tokens = lex(&source).unwrap();
    assert_eq!(tokens.len(), 1);
    assert!(tokens[0].quoted);
    assert_eq!(tokens[0].text, escape_str(text));
    assert_eq!(escape_str("plain text 1"), "plain text 1");
}

#[test]
fn failed_reads_step_over_one_parameter() {
    let tokens = tokenize("/begin B x y z /end B").unwrap();
    let root = build_block_tree(&tokens).unwrap();
    let mut c = ParamCursor::new(root.child("B").unwrap());
    assert_eq!(c.uint::<u32>(), Err(parse_error(1, "B: expected unsigned integer, got \"x\"")));
    assert_eq!(c.remaining(), 2);
    assert_eq!(c.float(), Err(parse_error(1, "B: expected number, got \"y\"")));
    assert_eq!(c.remaining(), 1);
    assert_eq!(c.expect("w"), Err(parse_error(1, "B: expected w, got \"z\"")));
    assert_eq!(c.remaining(), 0);
    assert_eq!(c.ident(), Err(parse_error(0, "B: unexpected end of parameters")));
}

#[test]
fn failed_writing_keeps_what_was_written() {
    let mut l: RecordLayout = node(
        "/begin RECORD_LAYOUT L NO_AXIS_PTS_X 1 UBYTE RESERVED 2 BYTE /end RECORD_LAYOUT",
        "RECORD_LAYOUT",
    )
    .unwrap();
    l.reserved[0].data_type = DataType::Unsupported;
    let mut w = Writer::new(WriterOptions::default());
    assert!(w.block(&l).is_err());
    assert_eq!(w.into_string(), "/begin RECORD_LAYOUT\n  L\n  NO_AXIS_PTS_X 1 UBYTE\n");
}

#[test]
fn unsupported_block_keeps_lines_and_numbers() {
    let src = "/begin MODULE M \"\"\n/begin IF_DATA XCP\n 0.5\n/begin DAQ 7\n/end DAQ\n/end IF_DATA\n/end MODULE";
    let tokens = tokenize(src).unwrap();
    let root = build_block_tree(&tokens).unwrap();
    let block = root.child("MODULE").unwrap();
    let m = Module::parse(block).unwrap();
    let ModuleChild::Unsupported(n) = &m.children[0] else {
        panic!("unsupported block expected");
    };
    assert_eq!(n.keyword, "IF_DATA");
    assert_eq!(n.items, block.children()[0].items);
    let Item::Param(t) = &n.items[1] else {
        panic!("parameter expected");
    };
    assert_eq!((t.line, &t.number), (3, &Some(num(0.5))));
    let Item::Child(daq) = &n.items[2] else {
        panic!("block expected");
    };
    assert_eq!(daq.line, 4);
    let Item::Param(t) = &n.clone().items[1] else {
        panic!("parameter expected");
    };
    assert_eq!((t.line, &t.number), (3, &Some(num(0.5))));
}

#[test]
fn copied_device_is_the_same() {
    let m: ModPar = node(
        "/begin MOD_PAR \"d\" VERSION \"1\" EPK \"e\" ADDR_EPK 0x10 SYSTEM_CONSTANT \"a\" \"1\" \
         /begin MEMORY_LAYOUT PRG_DATA 0x1000 0x20 -1 -1 -1 -1 -1 /end MEMORY_LAYOUT \
         /begin CALIBRATION_METHOD \"InCircuit\" 2 /end CALIBRATION_METHOD \
         /begin OTHER x /end OTHER /end MOD_PAR",
        "MOD_PAR",
    )
    .unwrap();
    assert_eq!(m.children.len(), 3);
    assert_eq!(m.clone(), m);
}
