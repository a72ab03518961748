use autors::a2l::block::{Block, build_block_tree};
use autors::a2l::error::Result;
use autors::a2l::model::annotation::Annotation;
use autors::a2l::model::base::ByteOrder;
use autors::a2l::model::enums::{AddrType, AxisType, CalibrationAccess, DataType, IndexMode, ScalingUnits};
use autors::a2l::model::measurement::{AxisDescr, AxisDescrChild, Blob, FixAxisPar, Instance, Measurement};
use autors::a2l::node::Node;
use autors::a2l::number::Number;
use autors::a2l::token::Token;
use autors::a2l::writer::{Writer, WriterOptions};
use autors::a2l::token::tokenize as lex;

fn num(x: f64) -> Number {
    let bits = x.to_bits() as i64;
    let single = x as f32;
    let single_bits = single.to_bits() as i32;
    Number {
        text: format!("{}", x),
        key: if bits < 0 { -(bits & i64::MAX) } else { bits },
        nan: x.is_nan(),
        single_text: format!("{}", single),
        single_key: if single_bits < 0 { -i64::from(single_bits & i32::MAX) } else { i64::from(single_bits) },
        rounded: x.round() as i64,
    }
}

fn tokenize(src: &str) -> Result<Vec<Token>> {
    let mut tokens = lex(src)?;
    for t in &mut tokens {
        t.number = t.text.parse::<f64>().ok().map(num);
    }
    Ok(tokens)
}

fn block_of(src: &str, keyword: &str) -> Block {
    let toks = tokenize(src).unwrap();
    let root = build_block_tree(&toks).unwrap();
    root.child(keyword).unwrap().clone()
}

fn measurement_roundtrip(src: &str) -> String {
    let m = Measurement::parse(&block_of(src, "MEASUREMENT")).unwrap();
    let mut w = Writer::new(WriterOptions::default());
    m.write_block(&mut w).unwrap();
    w.into_string()
}

#[test]
fn measurement_full_roundtrip() {
    let out = measurement_roundtrip(
        "/begin MEASUREMENT MyMeas \"desc\" UWORD MyConv 4 0.1 0 255 \
         ECU_ADDRESS 0x1000 BIT_MASK 0xFF ERROR_MASK 0x8000 DISCRETE READ_WRITE \
         MATRIX_DIM 2 3 ADDRESS_TYPE PWORD LAYOUT ROW_DIR FORMAT \"%6.2\" \
         PHYS_UNIT \"bar\" BYTE_ORDER MSB_FIRST REF_MEMORY_SEGMENT Seg1 \
         DISPLAY_IDENTIFIER disp CALIBRATION_ACCESS CALIBRATION MAX_REFRESH 3 10 \
         SYMBOL_LINK \"sym\" -4 MODEL_LINK \"mdl\" ECU_ADDRESS_EXTENSION 2 \
         ARRAY_SIZE 6 \
         /begin ANNOTATION ANNOTATION_LABEL \"lbl\" /end ANNOTATION \
         /begin IF_DATA XCP 1 2 3 /end IF_DATA \
         /end MEASUREMENT",
    );
    assert_eq!(
        out,
        "/begin MEASUREMENT MyMeas\n\
         \x20 \"desc\"\n\
         \x20 UWORD\n\
         \x20 MyConv\n\
         \x20 4 0.1\n\
         \x20 0 255\n\
         \x20 ECU_ADDRESS_EXTENSION 2\n\
         \x20 DISPLAY_IDENTIFIER disp\n\
         \x20 CALIBRATION_ACCESS CALIBRATION\n\
         \x20 MAX_REFRESH 3 10\n\
         \x20 SYMBOL_LINK \"sym\" -4\n\
         \x20 MODEL_LINK \"mdl\"\n\
         \x20 FORMAT \"%6.2\"\n\
         \x20 PHYS_UNIT \"bar\"\n\
         \x20 BYTE_ORDER MSB_FIRST\n\
         \x20 REF_MEMORY_SEGMENT Seg1\n\
         \x20 LAYOUT ROW_DIR\n\
         \x20 ECU_ADDRESS 0x1000\n\
         \x20 BIT_MASK 0xFF\n\
         \x20 ERROR_MASK 0x8000\n\
         \x20 DISCRETE\n\
         \x20 READ_WRITE\n\
         \x20 MATRIX_DIM 2 3\n\
         \x20 ADDRESS_TYPE PWORD\n\
         \x20 /begin ANNOTATION\n\
         \x20   ANNOTATION_LABEL \"lbl\"\n\
         \x20 /end ANNOTATION\n\
         \x20 /begin IF_DATA\n\
         \x20   XCP 1 2 3\n\
         \x20 /end IF_DATA\n\
         /end MEASUREMENT\n"
    );
}

#[test]
fn measurement_parse_fields() {
    let m = Measurement::parse(&block_of(
        "/begin MEASUREMENT M \"\" SWORD C 8 0.5 -10 200 \
         ECU_ADDRESS 0x1F MAX_REFRESH 6 5 MATRIX_DIM 2 2 READ_WRITE \
         /end MEASUREMENT",
        "MEASUREMENT",
    ))
    .unwrap();
    assert_eq!(m.named.name, "M");
    assert_eq!(m.named.description.as_deref(), Some(""));
    assert_eq!(m.data_type, DataType::SWord);
    assert_eq!(m.conv.conversion, "C");
    assert_eq!(m.resolution, 8);
    assert_eq!(m.accuracy, num(0.5));
    assert_eq!(m.conv.lower_limit, num(-10.0));
    assert_eq!(m.conv.upper_limit, num(200.0));
    assert_eq!(m.addr.address, Some(0x1F));
    assert_eq!(m.addr.max_refresh_unit, Some(ScalingUnits::Time_1Sec));
    assert_eq!(m.addr.max_refresh_rate, 5);
    assert_eq!(m.matrix_dim.as_deref(), Some(&[2, 2][..]));
    assert!(m.read_write);
    assert!(!m.discrete);
    assert_eq!(m.addr_type, AddrType::DIRECT);
}

#[test]
fn measurement_array_size_becomes_matrix_dim() {
    let out = measurement_roundtrip(
        "/begin MEASUREMENT M \"\" SWORD C 1 0 0 100 ARRAY_SIZE 5 /end MEASUREMENT",
    );
    assert_eq!(
        out,
        "/begin MEASUREMENT M\n\
         \x20 \"\"\n\
         \x20 SWORD\n\
         \x20 C\n\
         \x20 1 0\n\
         \x20 0 100\n\
         \x20 MATRIX_DIM 5 1 1\n\
         /end MEASUREMENT\n"
    );
    let m = Measurement::parse(&block_of(
        "/begin MEASUREMENT M \"\" SWORD C 1 0 0 100 ARRAY_SIZE 1 /end MEASUREMENT",
        "MEASUREMENT",
    ))
    .unwrap();
    assert_eq!(m.matrix_dim, None);
}

#[test]
fn measurement_unset_masks_not_written() {
    let out = measurement_roundtrip(
        "/begin MEASUREMENT M \"\" UWORD C 1 0 0 100 \
         BIT_MASK 0xFFFFFFFFFFFFFFFF ERROR_MASK 0 ADDRESS_TYPE DIRECT \
         /end MEASUREMENT",
    );
    assert_eq!(
        out,
        "/begin MEASUREMENT M\n\
         \x20 \"\"\n\
         \x20 UWORD\n\
         \x20 C\n\
         \x20 1 0\n\
         \x20 0 100\n\
         /end MEASUREMENT\n"
    );
}

#[test]
fn measurement_unknown_tokens_skipped() {
    let m = Measurement::parse(&block_of(
        "/begin MEASUREMENT M \"\" UWORD C 1 0 0 100 FOO_BAR 123 DISCRETE /end MEASUREMENT",
        "MEASUREMENT",
    ))
    .unwrap();
    assert!(m.discrete);
    let mut w = Writer::new(WriterOptions::default());
    m.write_block(&mut w).unwrap();
    assert!(!w.into_string().contains("FOO_BAR"));
}

#[test]
fn measurement_matrix_dim_stops_at_keyword() {
    let m = Measurement::parse(&block_of(
        "/begin MEASUREMENT M \"\" UWORD C 1 0 0 100 MATRIX_DIM 2 3 DISCRETE /end MEASUREMENT",
        "MEASUREMENT",
    ))
    .unwrap();
    assert_eq!(m.matrix_dim.as_deref(), Some(&[2, 3][..]));
    assert!(m.discrete);
}

fn axis_descr_roundtrip(src: &str) -> String {
    let a = AxisDescr::parse(&block_of(src, "AXIS_DESCR")).unwrap();
    let mut w = Writer::new(WriterOptions::default());
    a.write_block(&mut w).unwrap();
    w.into_string()
}

#[test]
fn axis_descr_full_roundtrip() {
    let out = axis_descr_roundtrip(
        "/begin AXIS_DESCR STD_AXIS NO_INPUT_QUANTITY MyConv 16 0 100 \
         AXIS_PTS_REF AxisPts1 CURVE_AXIS_REF Curve1 READ_ONLY EXTENDED_LIMITS -10 200 \
         MAX_GRAD 1.5 STEP_SIZE 0.5 FORMAT \"%4.1\" PHYS_UNIT \"rpm\" \
         BYTE_ORDER MSB_LAST MONOTONY MON_INCREASE DEPOSIT ABSOLUTE \
         FIX_AXIS_PAR 0 1 16 FIX_AXIS_PAR_DIST 0 2.5 16 \
         /end AXIS_DESCR",
    );
    assert_eq!(
        out,
        "/begin AXIS_DESCR\n\
         \x20 STD_AXIS\n\
         \x20 NO_INPUT_QUANTITY\n\
         \x20 MyConv\n\
         \x20 16\n\
         \x20 0 100\n\
         \x20 AXIS_PTS_REF AxisPts1\n\
         \x20 CURVE_AXIS_REF Curve1\n\
         \x20 READ_ONLY\n\
         \x20 EXTENDED_LIMITS -10 200\n\
         \x20 MAX_GRAD 1.5\n\
         \x20 STEP_SIZE 0.5\n\
         \x20 FORMAT \"%4.1\"\n\
         \x20 PHYS_UNIT \"rpm\"\n\
         \x20 BYTE_ORDER MSB_LAST\n\
         \x20 MONOTONY MON_INCREASE\n\
         \x20 DEPOSIT ABSOLUTE\n\
         \x20 FIX_AXIS_PAR 0 1 16\n\
         \x20 FIX_AXIS_PAR_DIST 0 2.5 16\n\
         /end AXIS_DESCR\n"
    );
}

#[test]
fn axis_descr_minimal() {
    let out =
        axis_descr_roundtrip("/begin AXIS_DESCR COM_AXIS Meas1 Conv1 8 -1 1 /end AXIS_DESCR");
    assert_eq!(
        out,
        "/begin AXIS_DESCR\n\
         \x20 COM_AXIS\n\
         \x20 Meas1\n\
         \x20 Conv1\n\
         \x20 8\n\
         \x20 -1 1\n\
         /end AXIS_DESCR\n"
    );
}

#[test]
fn axis_descr_parse_fields_and_annotation() {
    let a = AxisDescr::parse(&block_of(
        "/begin AXIS_DESCR FIX_AXIS NO_INPUT_QUANTITY Conv 4 0 10 \
         BYTE_ORDER MSB_FIRST FIX_AXIS_PAR 1.5 0.5 4 \
         /begin ANNOTATION ANNOTATION_ORIGIN \"org\" /end ANNOTATION \
         /end AXIS_DESCR",
        "AXIS_DESCR",
    ))
    .unwrap();
    assert_eq!(a.axis_type, AxisType::FIX_AXIS);
    assert_eq!(a.input_quantity, "NO_INPUT_QUANTITY");
    assert_eq!(a.max_axis_points, 4);
    assert_eq!(a.byte_order, ByteOrder::MSB_FIRST);
    assert_eq!(
        a.fix_axis_par,
        Some(FixAxisPar {
            offset: num(1.5),
            shift: num(0.5),
            numberapo: 4
        })
    );
    assert!(matches!(
        a.children.as_slice(),
        [AxisDescrChild::Annotation(_)]
    ));
    let mut w = Writer::new(WriterOptions::default());
    a.write_block(&mut w).unwrap();
    assert!(w.into_string().contains("ANNOTATION_ORIGIN \"org\""));
}

#[test]
fn blob_roundtrip() {
    let b = Blob::parse(&block_of(
        "/begin BLOB MyBlob \"blob desc\" 0x4000 0x100 \
         DISPLAY_IDENTIFIER disp MAX_REFRESH 6 5 ADDRESS_TYPE PLONG \
         /end BLOB",
        "BLOB",
    ))
    .unwrap();
    assert_eq!(b.named.name, "MyBlob");
    assert_eq!(b.addr.address, Some(0x4000));
    assert_eq!(b.size, 0x100);
    assert_eq!(b.addr_type, AddrType::PLONG);
    let mut w = Writer::new(WriterOptions::default());
    b.write_block(&mut w).unwrap();
    assert_eq!(
        w.into_string(),
        "/begin BLOB MyBlob\n\
         \x20 \"blob desc\"\n\
         \x20 0x4000\n\
         \x20 0x100\n\
         \x20 DISPLAY_IDENTIFIER disp\n\
         \x20 MAX_REFRESH 6 5\n\
         \x20 ADDRESS_TYPE PLONG\n\
         /end BLOB\n"
    );
}

#[test]
fn blob_minimal_skips_defaults() {
    let b = Blob::parse(&block_of(
        "/begin BLOB B \"\" 0x0 0x10 CALIBRATION_ACCESS OFFLINE_CALIBRATION /end BLOB",
        "BLOB",
    ))
    .unwrap();
    assert_eq!(b.addr.calib_access, CalibrationAccess::OFFLINE_CALIBRATION);
    let mut w = Writer::new(WriterOptions::default());
    b.write_block(&mut w).unwrap();
    assert_eq!(
        w.into_string(),
        "/begin BLOB B\n\
         \x20 \"\"\n\
         \x20 0x0\n\
         \x20 0x10\n\
         \x20 CALIBRATION_ACCESS OFFLINE_CALIBRATION\n\
         /end BLOB\n"
    );
}

#[test]
fn instance_roundtrip() {
    let i = Instance::parse(&block_of(
        "/begin INSTANCE MyInst \"inst desc\" MyTypedef 0x5000 \
         SYMBOL_LINK \"sym\" 4 LAYOUT COLUMN_DIR MATRIX_DIM 2 2 READ_WRITE \
         /begin OVERWRITE X 0 /end OVERWRITE \
         /end INSTANCE",
        "INSTANCE",
    ))
    .unwrap();
    assert_eq!(i.named.name, "MyInst");
    assert_eq!(i.typedef_name, "MyTypedef");
    assert_eq!(i.addr.address, Some(0x5000));
    assert_eq!(i.layout, IndexMode::COLUMN_DIR);
    assert_eq!(i.matrix_dim.as_deref(), Some(&[2, 2][..]));
    assert!(i.read_write);
    let mut w = Writer::new(WriterOptions::default());
    i.write_block(&mut w).unwrap();
    assert_eq!(
        w.into_string(),
        "/begin INSTANCE MyInst\n\
         \x20 \"inst desc\"\n\
         \x20 MyTypedef\n\
         \x20 0x5000\n\
         \x20 SYMBOL_LINK \"sym\" 4\n\
         \x20 LAYOUT COLUMN_DIR\n\
         \x20 READ_WRITE\n\
         \x20 MATRIX_DIM 2 2\n\
         \x20 /begin OVERWRITE\n\
         \x20   X 0\n\
         \x20 /end OVERWRITE\n\
         /end INSTANCE\n"
    );
}

#[test]
fn unknown_enum_value_is_error() {
    assert!(Measurement::parse(&block_of(
        "/begin MEASUREMENT M \"\" BADTYPE C 1 0 0 100 /end MEASUREMENT",
        "MEASUREMENT",
    ))
    .is_err());
    assert!(AxisDescr::parse(&block_of(
        "/begin AXIS_DESCR STD_AXIS Q C 1 0 1 MONOTONY BAD /end AXIS_DESCR",
        "AXIS_DESCR",
    ))
    .is_err());
}
