use autors::a2l::block::build_block_tree;
use autors::a2l::error::Result;
use autors::a2l::model::module::{CalibrationHandle, CalibrationMethod, MemoryLayout, MemorySegment, ModCommon, ModPar, Module, Unit, UserRights};
use autors::a2l::node::Node;
use autors::a2l::number::{Joint, Number};
use autors::a2l::token::Token;
use autors::a2l::writer::{Writer, WriterOptions};
use autors::a2l::token::tokenize as lex;

fn num(x: f64) -> Number {
    let bits = x.to_bits() as i64;
    let single = x as f32;
    let single_bits = single.to_bits() as i32;
    Number {
        text: format!("{}", x),
        key: if bits < 0 { -(bits & i64::MAX) } else { bits },
        nan: x.is_nan(),
        single_text: format!("{}", single),
        single_key: if single_bits < 0 { -i64::from(single_bits & i32::MAX) } else { i64::from(single_bits) },
        rounded: x.round() as i64,
    }
}

fn joint(x: f64, y: f64) -> Joint {
    let inverse = 1.0 / x;
    let quotient = -y / x;
    let slope = 1.0 / inverse;
    Joint {
        inverse: num(inverse),
        quotient: num(quotient),
        slope: num(slope),
        start: num(-slope * quotient),
        offset: num(-inverse * y),
    }
}

fn tokenize(src: &str) -> Result<Vec<Token>> {
    let mut tokens = lex(src)?;
    for t in &mut tokens {
        t.number = t.text.parse::<f64>().ok().map(num);
    }
    for i in 1..tokens.len() {
        let pair = (tokens[i - 1].text.parse(), tokens[i].text.parse());
        if let (Ok(x), Ok(y)) = pair {
            tokens[i - 1].joint = Some(joint(x, y));
        }
    }
    Ok(tokens)
}

fn roundtrip<T: Node>(src: &str, keyword: &str) -> String {
    let toks = tokenize(src).unwrap();
    let root = build_block_tree(&toks).unwrap();
    let block = root.child(keyword).unwrap();
    let node = T::parse(block).unwrap();
    let mut w = Writer::new(WriterOptions::default());
    node.write_block(&mut w).unwrap();
    w.into_string()
}

#[test]
fn mod_common_full() {
    let out = roundtrip::<ModCommon>(
        "/begin MOD_COMMON \"cmt\" BYTE_ORDER MSB_FIRST DEPOSIT DIFFERENCE DATA_SIZE 64 \
         ALIGNMENT_BYTE 1 ALIGNMENT_WORD 2 ALIGNMENT_LONG 4 ALIGNMENT_FLOAT32_IEEE 4 \
         ALIGNMENT_FLOAT64_IEEE 8 ALIGNMENT_INT64 8 ALIGNMENT_FLOAT16_IEEE 2 /end MOD_COMMON",
        "MOD_COMMON",
    );
    assert_eq!(
        out,
        "/begin MOD_COMMON\n  \"cmt\"\n  BYTE_ORDER MSB_FIRST\n  DEPOSIT DIFFERENCE\n  \
         DATA_SIZE 64\n  ALIGNMENT_BYTE 1\n  ALIGNMENT_WORD 2\n  ALIGNMENT_LONG 4\n  \
         ALIGNMENT_FLOAT32_IEEE 4\n  ALIGNMENT_FLOAT64_IEEE 8\n  ALIGNMENT_INT64 8\n  \
         ALIGNMENT_FLOAT16_IEEE 2\n/end MOD_COMMON\n"
    );
}

#[test]
fn mod_common_defaults() {
    let out = roundtrip::<ModCommon>("/begin MOD_COMMON \"d\" /end MOD_COMMON", "MOD_COMMON");
    assert_eq!(
        out,
        "/begin MOD_COMMON\n  \"d\"\n  BYTE_ORDER MSB_LAST\n  DEPOSIT ABSOLUTE\n  \
         ALIGNMENT_BYTE 1\n  ALIGNMENT_WORD 2\n  ALIGNMENT_LONG 4\n  ALIGNMENT_FLOAT32_IEEE 4\n  \
         ALIGNMENT_FLOAT64_IEEE 4\n  ALIGNMENT_INT64 8\n  ALIGNMENT_FLOAT16_IEEE 2\n/end MOD_COMMON\n"
    );
}

#[test]
fn mod_common_skips_unknown() {
    let out = roundtrip::<ModCommon>(
        "/begin MOD_COMMON \"d\" FOO 1 BYTE_ORDER MSB_LAST /end MOD_COMMON",
        "MOD_COMMON",
    );
    assert!(out.contains("BYTE_ORDER MSB_LAST"));
    assert!(!out.contains("FOO"));
}

#[test]
fn mod_par_full() {
    let src = "/begin MOD_PAR \"mod desc\" VERSION \"1.0\" SUPPLIER \"sup\" CUSTOMER \"cust\" \
               CUSTOMER_NO \"42\" USER \"user1\" PHONE_NO \"123\" ECU \"ecu1\" CPU \"cpu1\" \
               EPK \"epk1\" ADDR_EPK 0x8000 NO_OF_INTERFACES 2 ECU_CALIBRATION_OFFSET 16 \
               SYSTEM_CONSTANT \"a\" \"1\" SYSTEM_CONSTANT \"b\" \"2\" \
               /begin MEMORY_LAYOUT PRG_CODE 0xC000 0x4000 -1 -1 -1 -1 -1 /end MEMORY_LAYOUT \
               /begin MEMORY_SEGMENT Seg1 \"seg desc\" DATA FLASH INTERN 0x8000 0x1000 -1 -1 -1 -1 -1 /end MEMORY_SEGMENT \
               /begin CALIBRATION_HANDLE 0x100 0x101 CALIBRATION_HANDLE_TEXT \"handle text\" /end CALIBRATION_HANDLE \
               /begin CALIBRATION_METHOD \"InCircuit\" 1 /end CALIBRATION_METHOD \
               /begin IF_DATA XCP_TEST /end IF_DATA \
               /end MOD_PAR";
    let out = roundtrip::<ModPar>(src, "MOD_PAR");
    let expected = "/begin MOD_PAR\n  \"mod desc\"\n  VERSION \"1.0\"\n  SUPPLIER \"sup\"\n  \
        CUSTOMER \"cust\"\n  CUSTOMER_NO \"42\"\n  USER \"user1\"\n  PHONE_NO \"123\"\n  \
        ECU \"ecu1\"\n  CPU \"cpu1\"\n  EPK \"epk1\"\n  ADDR_EPK 0x8000\n  \
        NO_OF_INTERFACES 2\n  ECU_CALIBRATION_OFFSET 16\n  SYSTEM_CONSTANT \"a\" \"1\"\n  \
        SYSTEM_CONSTANT \"b\" \"2\"\n\n  \
        /begin MEMORY_LAYOUT\n    PRG_CODE 0xC000 0x4000 -1 -1 -1 -1 -1\n  /end MEMORY_LAYOUT\n\n  \
        /begin MEMORY_SEGMENT Seg1\n    \"seg desc\"\n    \
        DATA FLASH INTERN 0x8000 0x1000 -1 -1 -1 -1 -1\n  /end MEMORY_SEGMENT\n\n  \
        /begin CALIBRATION_HANDLE\n    CALIBRATION_HANDLE_TEXT \"handle text\"\n    \
        0x100 0x101\n  /end CALIBRATION_HANDLE\n\n  \
        /begin CALIBRATION_METHOD\n    \"InCircuit\"\n    1\n  /end CALIBRATION_METHOD\n\n  \
        /begin IF_DATA\n    XCP_TEST\n  /end IF_DATA\n/end MOD_PAR\n";
    assert_eq!(out, expected);
    let toks = tokenize(&out).unwrap();
    let root = build_block_tree(&toks).unwrap();
    let mp2 = ModPar::parse(root.child("MOD_PAR").unwrap()).unwrap();
    assert_eq!(mp2.system_constants.len(), 2);
    assert_eq!(mp2.children.len(), 5);
    assert_eq!(mp2.epk_address, Some(0x8000));
}

#[test]
fn mod_par_epk_defaults() {
    let out = roundtrip::<ModPar>("/begin MOD_PAR \"d\" /end MOD_PAR", "MOD_PAR");
    assert_eq!(out, "/begin MOD_PAR\n  \"d\"\n/end MOD_PAR\n");
    let toks = tokenize(&out).unwrap();
    let root = build_block_tree(&toks).unwrap();
    let mp = ModPar::parse(root.child("MOD_PAR").unwrap()).unwrap();
    assert_eq!(mp.epk, None);
    assert_eq!(mp.epk_address, None);
}

#[test]
fn mod_par_skips_unknown_flat() {
    let out = roundtrip::<ModPar>(
        "/begin MOD_PAR \"d\" FOO bar VERSION \"2\" /end MOD_PAR",
        "MOD_PAR",
    );
    assert_eq!(
        out,
        "/begin MOD_PAR\n  \"d\"\n  VERSION \"2\"\n/end MOD_PAR\n"
    );
}

#[test]
fn memory_layout_roundtrip() {
    let out = roundtrip::<MemoryLayout>(
        "/begin MEMORY_LAYOUT PRG_DATA 0x8000 0x100 -1 -1 -1 -1 -1 /end MEMORY_LAYOUT",
        "MEMORY_LAYOUT",
    );
    assert_eq!(
        out,
        "/begin MEMORY_LAYOUT\n  PRG_DATA 0x8000 0x100 -1 -1 -1 -1 -1\n/end MEMORY_LAYOUT\n"
    );
}

#[test]
fn memory_segment_roundtrip() {
    let out = roundtrip::<MemorySegment>(
        "/begin MEMORY_SEGMENT Seg1 \"desc\" CODE ROM EXTERN 0xC000 0x2000 0 1 2 3 4 /end MEMORY_SEGMENT",
        "MEMORY_SEGMENT",
    );
    assert_eq!(
        out,
        "/begin MEMORY_SEGMENT Seg1\n  \"desc\"\n  CODE ROM EXTERN 0xC000 0x2000 0 1 2 3 4\n/end MEMORY_SEGMENT\n"
    );
}

#[test]
fn calibration_handle_roundtrip() {
    let out = roundtrip::<CalibrationHandle>(
        "/begin CALIBRATION_HANDLE 0x1 0xA CALIBRATION_HANDLE_TEXT \"note\" /end CALIBRATION_HANDLE",
        "CALIBRATION_HANDLE",
    );
    assert_eq!(
        out,
        "/begin CALIBRATION_HANDLE\n  CALIBRATION_HANDLE_TEXT \"note\"\n  0x1 0xA\n/end CALIBRATION_HANDLE\n"
    );
}

#[test]
fn calibration_handle_no_text() {
    let out = roundtrip::<CalibrationHandle>(
        "/begin CALIBRATION_HANDLE 0x10 /end CALIBRATION_HANDLE",
        "CALIBRATION_HANDLE",
    );
    assert_eq!(
        out,
        "/begin CALIBRATION_HANDLE\n  0x10\n/end CALIBRATION_HANDLE\n"
    );
}

#[test]
fn calibration_method_roundtrip() {
    let out = roundtrip::<CalibrationMethod>(
        "/begin CALIBRATION_METHOD \"InCircuit\" 0x100 /end CALIBRATION_METHOD",
        "CALIBRATION_METHOD",
    );
    assert_eq!(
        out,
        "/begin CALIBRATION_METHOD\n  \"InCircuit\"\n  256\n/end CALIBRATION_METHOD\n"
    );
}

#[test]
fn unit_roundtrip() {
    let out = roundtrip::<Unit>(
        "/begin UNIT Kelvin \"temperature\" \"K\" DERIVED REF_UNIT base \
         UNIT_CONVERSION 1.5 2 SI_EXPONENTS 1 0 0 0 0 0 0 /end UNIT",
        "UNIT",
    );
    assert_eq!(
        out,
        "/begin UNIT Kelvin\n  \"temperature\"\n  \"K\"\n  DERIVED\n  REF_UNIT base\n  \
         UNIT_CONVERSION 1.5 2\n  SI_EXPONENTS 1 0 0 0 0 0 0\n/end UNIT\n"
    );
}

#[test]
fn unit_minimal() {
    let out = roundtrip::<Unit>("/begin UNIT U \"d\" \"%6.3\" EXTENDED_SI /end UNIT", "UNIT");
    assert_eq!(
        out,
        "/begin UNIT U\n  \"d\"\n  \"%6.3\"\n  EXTENDED_SI\n/end UNIT\n"
    );
}

#[test]
fn user_rights_roundtrip() {
    let out = roundtrip::<UserRights>(
        "/begin USER_RIGHTS admin READ_ONLY /begin REF_GROUP g1 g2 g3 g4 /end REF_GROUP \
         /begin FOO x /end FOO /end USER_RIGHTS",
        "USER_RIGHTS",
    );
    assert_eq!(
        out,
        "/begin USER_RIGHTS admin\n  READ_ONLY\n  /begin REF_GROUP\n    g1 g2 g3\n    g4\n  \
         /end REF_GROUP\n  /begin FOO\n    x\n  /end FOO\n/end USER_RIGHTS\n"
    );
}

#[test]
fn user_rights_writable() {
    let out = roundtrip::<UserRights>(
        "/begin USER_RIGHTS guest /begin REF_GROUP g1 /end REF_GROUP /end USER_RIGHTS",
        "USER_RIGHTS",
    );
    assert_eq!(
        out,
        "/begin USER_RIGHTS guest\n  /begin REF_GROUP\n    g1\n  /end REF_GROUP\n/end USER_RIGHTS\n"
    );
}

#[test]
fn module_roundtrip() {
    let out = roundtrip::<Module>(
        "/begin MODULE Mod1 \"desc\" /begin MOD_COMMON \"c\" /end MOD_COMMON \
         /begin MEASUREMENT M \"d\" UBYTE NO_COMPU_METHOD 0 0 0 1 ECU_ADDRESS 0x0 /end MEASUREMENT \
         /end MODULE",
        "MODULE",
    );
    assert_eq!(
        out,
        "/begin MODULE Mod1\n  \"desc\"\n\n  /begin MOD_COMMON\n    \"c\"\n    \
         BYTE_ORDER MSB_LAST\n    DEPOSIT ABSOLUTE\n    \
         ALIGNMENT_BYTE 1\n    ALIGNMENT_WORD 2\n    ALIGNMENT_LONG 4\n    \
         ALIGNMENT_FLOAT32_IEEE 4\n    ALIGNMENT_FLOAT64_IEEE 4\n    ALIGNMENT_INT64 8\n    \
         ALIGNMENT_FLOAT16_IEEE 2\n  /end MOD_COMMON\n\n  \
         /begin MEASUREMENT M\n    \"d\"\n    UBYTE\n    NO_COMPU_METHOD\n    0 0\n    0 1\n    ECU_ADDRESS 0x0\n  \
         /end MEASUREMENT\n/end MODULE\n"
    );
}

#[test]
fn mod_par_description_escapes() {
    let out = roundtrip::<ModPar>("/begin MOD_PAR \"a\\nb\" /end MOD_PAR", "MOD_PAR");
    assert!(out.contains("\"a\\nb\""));
    let toks = tokenize(&out).unwrap();
    let root = build_block_tree(&toks).unwrap();
    let mp = ModPar::parse(root.child("MOD_PAR").unwrap()).unwrap();
    assert_eq!(mp.description.as_deref(), Some("a\nb"));
}
