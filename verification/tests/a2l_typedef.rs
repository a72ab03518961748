use autors::a2l::block::build_block_tree;
use autors::a2l::error::Result;
use autors::a2l::model::typedef::{ArComponent, Overwrite, StructureComponent, TypedefAxis, TypedefBlob, TypedefCharacteristic, TypedefMeasurement, TypedefStructure};
use autors::a2l::node::Node;
use autors::a2l::number::Number;
use autors::a2l::token::Token;
use autors::a2l::writer::{Writer, WriterOptions};
use autors::a2l::token::tokenize as lex;

fn num(x: f64) -> Number {
    let bits = x.to_bits() as i64;
    let single = x as f32;
    let single_bits = single.to_bits() as i32;
    Number {
        text: format!("{}", x),
        key: if bits < 0 { -(bits & i64::MAX) } else { bits },
        nan: x.is_nan(),
        single_text: format!("{}", single),
        single_key: if single_bits < 0 { -i64::from(single_bits & i32::MAX) } else { i64::from(single_bits) },
        rounded: x.round() as i64,
    }
}

fn tokenize(src: &str) -> Result<Vec<Token>> {
    let mut tokens = lex(src)?;
    for t in &mut tokens {
        t.number = t.text.parse::<f64>().ok().map(num);
    }
    Ok(tokens)
}

fn roundtrip<T: Node>(src: &str) -> String {
    let toks = tokenize(src).unwrap();
    let root = build_block_tree(&toks).unwrap();
    let block = root.child(T::keyword()).unwrap();
    let node = T::parse(block).unwrap();
    let mut w = Writer::new(WriterOptions::default());
    node.write_block(&mut w).unwrap();
    w.into_string()
}

#[test]
fn typedef_axis_roundtrip() {
    let out = roundtrip::<TypedefAxis>(
        "/begin TYPEDEF_AXIS Ax \"desc\" InQ RL1 0 Conv1 16 0 100 \
         DEPOSIT ABSOLUTE MONOTONY MON_INCREASE FORMAT \"%6.2\" PHYS_UNIT \"rpm\" \
         BYTE_ORDER MSB_FIRST STEP_SIZE 0.5 EXTENDED_LIMITS 200 -10 /end TYPEDEF_AXIS",
    );
    assert_eq!(
        out,
        "/begin TYPEDEF_AXIS Ax\n\
         \x20 \"desc\"\n\
         \x20 InQ\n\
         \x20 RL1\n\
         \x20 0\n\
         \x20 Conv1\n\
         \x20 16\n\
         \x20 0 100\n\
         \x20 FORMAT \"%6.2\"\n\
         \x20 PHYS_UNIT \"rpm\"\n\
         \x20 BYTE_ORDER MSB_FIRST\n\
         \x20 EXTENDED_LIMITS -10 200\n\
         \x20 STEP_SIZE 0.5\n\
         \x20 MONOTONY MON_INCREASE\n\
         \x20 DEPOSIT ABSOLUTE\n\
         /end TYPEDEF_AXIS\n"
    );
}

#[test]
fn typedef_axis_minimal_and_limit_normalization() {
    let out = roundtrip::<TypedefAxis>(
        "/begin TYPEDEF_AXIS Ax \"\" InQ RL1 0.5 Conv1 4 100 0 /end TYPEDEF_AXIS",
    );
    assert_eq!(
        out,
        "/begin TYPEDEF_AXIS Ax\n\
         \x20 \"\"\n\
         \x20 InQ\n\
         \x20 RL1\n\
         \x20 0.5\n\
         \x20 Conv1\n\
         \x20 4\n\
         \x20 0 100\n\
         /end TYPEDEF_AXIS\n"
    );
}

#[test]
fn typedef_axis_skips_unknown_params_and_bad_enum() {
    let out = roundtrip::<TypedefAxis>(
        "/begin TYPEDEF_AXIS Ax \"\" InQ RL1 0 Conv1 4 0 100 MONOTONY BAD SOMETHING 7 /end TYPEDEF_AXIS",
    );
    assert_eq!(
        out,
        "/begin TYPEDEF_AXIS Ax\n\
         \x20 \"\"\n\
         \x20 InQ\n\
         \x20 RL1\n\
         \x20 0\n\
         \x20 Conv1\n\
         \x20 4\n\
         \x20 0 100\n\
         /end TYPEDEF_AXIS\n"
    );
}

#[test]
fn typedef_blob_roundtrip() {
    let out = roundtrip::<TypedefBlob>(
        "/begin TYPEDEF_BLOB Bl \"blob\" 0x40 ADDRESS_TYPE PBYTE /end TYPEDEF_BLOB",
    );
    assert_eq!(
        out,
        "/begin TYPEDEF_BLOB Bl\n\
         \x20 \"blob\"\n\
         \x20 0x40\n\
         \x20 ADDRESS_TYPE PBYTE\n\
         /end TYPEDEF_BLOB\n"
    );
}

#[test]
fn typedef_blob_default_addr_type_omitted() {
    let out = roundtrip::<TypedefBlob>("/begin TYPEDEF_BLOB B \"\" 16 /end TYPEDEF_BLOB");
    assert_eq!(
        out,
        "/begin TYPEDEF_BLOB B\n\
         \x20 \"\"\n\
         \x20 0x10\n\
         /end TYPEDEF_BLOB\n"
    );
}

#[test]
fn typedef_characteristic_roundtrip() {
    let out = roundtrip::<TypedefCharacteristic>(
        "/begin TYPEDEF_CHARACTERISTIC Ch \"char\" CURVE RL2 0 Conv2 0 255 \
         DISCRETE ENCODING UTF8 BIT_MASK 0xFF NUMBER 6 MATRIX_DIM 2 3 \
         FORMAT \"%4.1\" PHYS_UNIT \"V\" BYTE_ORDER MSB_LAST STEP_SIZE 1 \
         EXTENDED_LIMITS 300 -5 DISPLAY_IDENTIFIER disp /end TYPEDEF_CHARACTERISTIC",
    );
    assert_eq!(
        out,
        "/begin TYPEDEF_CHARACTERISTIC Ch\n\
         \x20 \"char\"\n\
         \x20 CURVE\n\
         \x20 RL2\n\
         \x20 0\n\
         \x20 Conv2\n\
         \x20 0 255\n\
         \x20 FORMAT \"%4.1\"\n\
         \x20 PHYS_UNIT \"V\"\n\
         \x20 BYTE_ORDER MSB_LAST\n\
         \x20 EXTENDED_LIMITS -5 300\n\
         \x20 STEP_SIZE 1\n\
         \x20 BIT_MASK 0xFF\n\
         \x20 NUMBER 6\n\
         \x20 MATRIX_DIM 2 3\n\
         \x20 DISCRETE\n\
         \x20 ENCODING UTF8\n\
         /end TYPEDEF_CHARACTERISTIC\n"
    );
}

#[test]
fn typedef_characteristic_minimal() {
    let out = roundtrip::<TypedefCharacteristic>(
        "/begin TYPEDEF_CHARACTERISTIC C \"\" VAL_BLK RL 1.5 Cv 0 10 /end TYPEDEF_CHARACTERISTIC",
    );
    assert_eq!(
        out,
        "/begin TYPEDEF_CHARACTERISTIC C\n\
         \x20 \"\"\n\
         \x20 VAL_BLK\n\
         \x20 RL\n\
         \x20 1.5\n\
         \x20 Cv\n\
         \x20 0 10\n\
         /end TYPEDEF_CHARACTERISTIC\n"
    );
}

#[test]
fn typedef_measurement_roundtrip() {
    let out = roundtrip::<TypedefMeasurement>(
        "/begin TYPEDEF_MEASUREMENT Me \"meas\" UWORD Conv3 2 0.1 0 65535 \
         ADDRESS_TYPE PLONG BIT_MASK 0xFFFF DISCRETE ERROR_MASK 0x8000 \
         FORMAT \"%5.0\" LAYOUT ROW_DIR MATRIX_DIM 4 PHYS_UNIT \"km/h\" \
         BYTE_ORDER MSB_FIRST /end TYPEDEF_MEASUREMENT",
    );
    assert_eq!(
        out,
        "/begin TYPEDEF_MEASUREMENT Me\n\
         \x20 \"meas\"\n\
         \x20 UWORD\n\
         \x20 Conv3\n\
         \x20 2 0.1\n\
         \x20 0 65535\n\
         \x20 FORMAT \"%5.0\"\n\
         \x20 PHYS_UNIT \"km/h\"\n\
         \x20 BYTE_ORDER MSB_FIRST\n\
         \x20 LAYOUT ROW_DIR\n\
         \x20 BIT_MASK 0xFFFF\n\
         \x20 ERROR_MASK 0x8000\n\
         \x20 DISCRETE\n\
         \x20 MATRIX_DIM 4\n\
         \x20 ADDRESS_TYPE PLONG\n\
         /end TYPEDEF_MEASUREMENT\n"
    );
}

#[test]
fn typedef_measurement_minimal() {
    let out = roundtrip::<TypedefMeasurement>(
        "/begin TYPEDEF_MEASUREMENT Me \"\" UBYTE Conv3 1 0 0 255 /end TYPEDEF_MEASUREMENT",
    );
    assert_eq!(
        out,
        "/begin TYPEDEF_MEASUREMENT Me\n\
         \x20 \"\"\n\
         \x20 UBYTE\n\
         \x20 Conv3\n\
         \x20 1 0\n\
         \x20 0 255\n\
         /end TYPEDEF_MEASUREMENT\n"
    );
}

#[test]
fn typedef_measurement_matrix_dim_caps_at_five() {
    let toks = tokenize(
        "/begin TYPEDEF_MEASUREMENT M \"\" UBYTE C 1 0 0 255 MATRIX_DIM 1 2 3 4 5 6 /end TYPEDEF_MEASUREMENT",
    )
    .unwrap();
    let root = build_block_tree(&toks).unwrap();
    let td = TypedefMeasurement::parse(root.child("TYPEDEF_MEASUREMENT").unwrap()).unwrap();
    assert_eq!(td.matrix_dim, Some(vec![1, 2, 3, 4, 5]));
    let mut w = Writer::new(WriterOptions::default());
    td.write_block(&mut w).unwrap();
    assert!(w.into_string().contains("MATRIX_DIM 1 2 3 4 5\n"));
}

#[test]
fn typedef_structure_roundtrip() {
    let out = roundtrip::<TypedefStructure>(
        "/begin TYPEDEF_STRUCTURE St \"struct\" 0x20 CONSISTENT_EXCHANGE \
         SYMBOL_TYPE_LINK my_type_t ADDRESS_TYPE PWORD \
         /begin STRUCTURE_COMPONENT comp1 TypedefA 0x10 LAYOUT COLUMN_DIR \
         MATRIX_DIM 2 2 SYMBOL_TYPE_LINK comp_t \
         /begin AR_COMPONENT \"comp type\" PROTOTYPE_OF proto /end AR_COMPONENT \
         /end STRUCTURE_COMPONENT \
         /begin IF_DATA X 1 2 /end IF_DATA \
         /end TYPEDEF_STRUCTURE",
    );
    assert_eq!(
        out,
        "/begin TYPEDEF_STRUCTURE St\n\
         \x20 \"struct\"\n\
         \x20 CONSISTENT_EXCHANGE\n\
         \x20 SYMBOL_TYPE_LINK my_type_t\n\
         \x20 0x20\n\
         \x20 ADDRESS_TYPE PWORD\n\
         \x20 /begin STRUCTURE_COMPONENT comp1\n\
         \x20   TypedefA\n\
         \x20   0x10\n\
         \x20   LAYOUT COLUMN_DIR\n\
         \x20   MATRIX_DIM 2 2\n\
         \x20   SYMBOL_TYPE_LINK comp_t\n\
         \x20   /begin AR_COMPONENT\n\
         \x20     \"comp type\"\n\
         \x20     PROTOTYPE_OF proto\n\
         \x20   /end AR_COMPONENT\n\
         \x20 /end STRUCTURE_COMPONENT\n\
         \x20 /begin IF_DATA\n\
         \x20   X 1 2\n\
         \x20 /end IF_DATA\n\
         /end TYPEDEF_STRUCTURE\n"
    );
}

#[test]
fn typedef_structure_minimal() {
    let out = roundtrip::<TypedefStructure>(
        "/begin TYPEDEF_STRUCTURE S \"\" 8 /end TYPEDEF_STRUCTURE",
    );
    assert_eq!(
        out,
        "/begin TYPEDEF_STRUCTURE S\n\
         \x20 \"\"\n\
         \x20 0x8\n\
         /end TYPEDEF_STRUCTURE\n"
    );
}

#[test]
fn structure_component_minimal() {
    let out = roundtrip::<StructureComponent>(
        "/begin STRUCTURE_COMPONENT c TDef 255 /end STRUCTURE_COMPONENT",
    );
    assert_eq!(
        out,
        "/begin STRUCTURE_COMPONENT c\n\
         \x20 TDef\n\
         \x20 0xFF\n\
         /end STRUCTURE_COMPONENT\n"
    );
}

#[test]
fn overwrite_roundtrip() {
    let out = roundtrip::<Overwrite>(
        "/begin OVERWRITE Ov 3 INPUT_QUANTITY Meas1 FORMAT \"%3.1\" CONVERSION Conv4 \
         PHYS_UNIT deg LIMITS 90 -90 MONOTONY STRICT_INCREASE EXTENDED_LIMITS 100 -100 /end OVERWRITE",
    );
    assert_eq!(
        out,
        "/begin OVERWRITE Ov\n\
         \x20 3\n\
         \x20 CONVERSION Conv4\n\
         \x20 FORMAT %3.1\n\
         \x20 PHYS_UNIT deg\n\
         \x20 INPUT_QUANTITY Meas1\n\
         \x20 MONOTONY STRICT_INCREASE\n\
         \x20 LIMITS -90 90\n\
         \x20 EXTENDED_LIMITS -100 100\n\
         /end OVERWRITE\n"
    );
}

#[test]
fn overwrite_minimal_writes_extended_limits_zero() {
    let out = roundtrip::<Overwrite>("/begin OVERWRITE Ov 0 /end OVERWRITE");
    assert_eq!(
        out,
        "/begin OVERWRITE Ov\n\
         \x20 0\n\
         \x20 EXTENDED_LIMITS 0 0\n\
         /end OVERWRITE\n"
    );
}

#[test]
fn ar_component_roundtrip() {
    let out = roundtrip::<ArComponent>(
        "/begin AR_COMPONENT \"sw-c type\" PROTOTYPE_OF proto1 /end AR_COMPONENT",
    );
    assert_eq!(
        out,
        "/begin AR_COMPONENT\n\
         \x20 \"sw-c type\"\n\
         \x20 PROTOTYPE_OF proto1\n\
         /end AR_COMPONENT\n"
    );
}

#[test]
fn ar_component_without_prototype() {
    let out = roundtrip::<ArComponent>("/begin AR_COMPONENT \"sw-c\" /end AR_COMPONENT");
    assert_eq!(
        out,
        "/begin AR_COMPONENT\n\
         \x20 \"sw-c\"\n\
         /end AR_COMPONENT\n"
    );
}
