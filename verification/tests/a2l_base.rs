use autors::a2l::block::{Block, build_block_tree};
use autors::a2l::error::Result;
use autors::a2l::model::base::{AddressFields, ByteOrder, ConversionRefFields, NamedFields, RecordLayoutRefFields, ReferenceFields};
use autors::a2l::model::enums::{A2lKeyword, CalibrationAccess, ScalingUnits};
use autors::a2l::number::Number;
use autors::a2l::params::ParamCursor;
use autors::a2l::token::Token;
use autors::a2l::writer::{Writer, WriterOptions};
use autors::a2l::token::tokenize as lex;

fn num(x: f64) -> Number {
    let bits = x.to_bits() as i64;
    let single = x as f32;
    let single_bits = single.to_bits() as i32;
    Number {
        text: format!("{}", x),
        key: if bits < 0 { -(bits & i64::MAX) } else { bits },
        nan: x.is_nan(),
        single_text: format!("{}", single),
        single_key: if single_bits < 0 { -i64::from(single_bits & i32::MAX) } else { i64::from(single_bits) },
        rounded: x.round() as i64,
    }
}

fn tokenize(src: &str) -> Result<Vec<Token>> {
    let mut tokens = lex(src)?;
    for t in &mut tokens {
        t.number = t.text.parse::<f64>().ok().map(num);
    }
    Ok(tokens)
}

fn block_of(src: &str) -> Block {
    let toks = tokenize(src).unwrap();
    let root = build_block_tree(&toks).unwrap();
    root.child("M").unwrap().clone()
}

fn writer() -> Writer {
    Writer::new(WriterOptions::default())
}

#[test]
fn named_reads_header_and_writes_description() {
    let b = block_of("/begin M MyName \"long desc\" EXTRA /end M");
    let mut cur = ParamCursor::new(&b);
    let mut named = NamedFields::read_header(&mut cur).unwrap();
    assert_eq!(named.name, "MyName");
    assert_eq!(named.description.as_deref(), Some("long desc"));
    assert!(!named.take(&mut cur).unwrap());
    assert_eq!(cur.peek().unwrap().text, "EXTRA");

    let mut w = writer();
    named.write(&mut w).unwrap();
    assert_eq!(w.into_string(), "\"long desc\"\n");
}

#[test]
fn named_writes_empty_description_when_unset() {
    let named = NamedFields::default();
    let mut w = writer();
    named.write(&mut w).unwrap();
    assert_eq!(w.into_string(), "\"\"\n");
}

#[test]
fn address_fields_roundtrip() {
    let b = block_of(
        "/begin M ECU_ADDRESS_EXTENSION 2 DISPLAY_IDENTIFIER disp \
         CALIBRATION_ACCESS OFFLINE_CALIBRATION MAX_REFRESH 3 10 \
         SYMBOL_LINK \"sym\" -4 MODEL_LINK \"mdl\" /end M",
    );
    let mut cur = ParamCursor::new(&b);
    let mut f = AddressFields::default();
    while !cur.is_empty() {
        assert!(f.take(&mut cur).unwrap());
    }
    assert_eq!(f.address_extension, Some(2));
    assert_eq!(f.display_name.as_deref(), Some("disp"));
    assert_eq!(f.calib_access, CalibrationAccess::OFFLINE_CALIBRATION);
    assert_eq!(f.max_refresh_unit, Some(ScalingUnits::Time_1mSec));
    assert_eq!(f.max_refresh_rate, 10);
    assert_eq!(f.symbol_link.as_deref(), Some("sym"));
    assert_eq!(f.symbol_offset, -4);
    assert_eq!(f.model_link.as_deref(), Some("mdl"));

    let mut w = writer();
    f.write(&mut w).unwrap();
    assert_eq!(
        w.into_string(),
        "ECU_ADDRESS_EXTENSION 2\n\
         DISPLAY_IDENTIFIER disp\n\
         CALIBRATION_ACCESS OFFLINE_CALIBRATION\n\
         MAX_REFRESH 3 10\n\
         SYMBOL_LINK \"sym\" -4\n\
         MODEL_LINK \"mdl\"\n"
    );
}

#[test]
fn address_fields_write_skips_defaults() {
    let f = AddressFields::default();
    let mut w = writer();
    f.write(&mut w).unwrap();
    assert_eq!(w.into_string(), "");
}

#[test]
fn address_fields_take_ignores_ecu_address() {
    let b = block_of("/begin M ECU_ADDRESS 0x1000 /end M");
    let mut cur = ParamCursor::new(&b);
    let mut f = AddressFields::default();
    assert!(!f.take(&mut cur).unwrap());
    assert_eq!(cur.peek().unwrap().text, "ECU_ADDRESS");
}

#[test]
fn address_fields_max_refresh_not_set_and_unknown() {
    let b = block_of("/begin M MAX_REFRESH 2147483647 5 /end M");
    let mut cur = ParamCursor::new(&b);
    let mut f = AddressFields::default();
    assert!(f.take(&mut cur).unwrap());
    assert_eq!(f.max_refresh_unit, None);
    let mut w = writer();
    f.write(&mut w).unwrap();
    assert_eq!(w.into_string(), "");

    let b = block_of("/begin M MAX_REFRESH 77 1 /end M");
    let mut cur = ParamCursor::new(&b);
    let mut f = AddressFields::default();
    assert!(f.take(&mut cur).is_err());
}

#[test]
fn conversion_ref_fields_roundtrip() {
    let b = block_of(
        "/begin M FORMAT \"%4.2\" PHYS_UNIT \"bar\" BYTE_ORDER MSB_FIRST \
         REF_MEMORY_SEGMENT Seg1 /end M",
    );
    let mut cur = ParamCursor::new(&b);
    let mut f = ConversionRefFields::default();
    while !cur.is_empty() {
        assert!(f.take(&mut cur).unwrap());
    }
    assert_eq!(f.format.as_deref(), Some("%4.2"));
    assert_eq!(f.phys_unit.as_deref(), Some("bar"));
    assert_eq!(f.byte_order, ByteOrder::MSB_FIRST);
    assert_eq!(f.memory_segment_ref.as_deref(), Some("Seg1"));

    let mut w = writer();
    f.write(&mut w).unwrap();
    assert_eq!(
        w.into_string(),
        "FORMAT \"%4.2\"\nPHYS_UNIT \"bar\"\nBYTE_ORDER MSB_FIRST\nREF_MEMORY_SEGMENT Seg1\n"
    );
}

#[test]
fn conversion_ref_write_limits() {
    let f = ConversionRefFields {
        lower_limit: num(-1.5),
        upper_limit: num(250.0),
        ..Default::default()
    };
    let mut w = writer();
    f.write_limits(&mut w).unwrap();
    assert_eq!(w.into_string(), "-1.5 250\n");
}

#[test]
fn conversion_ref_rejects_unknown_byte_order() {
    let b = block_of("/begin M BYTE_ORDER LSB_FIRST /end M");
    let mut cur = ParamCursor::new(&b);
    let mut f = ConversionRefFields::default();
    assert!(f.take(&mut cur).is_err());
}

#[test]
fn record_layout_ref_fields_roundtrip() {
    let b =
        block_of("/begin M READ_ONLY EXTENDED_LIMITS -10 200 STEP_SIZE 0.5 GUARD_RAILS /end M");
    let mut cur = ParamCursor::new(&b);
    let mut f = RecordLayoutRefFields::default();
    while !cur.is_empty() {
        assert!(f.take(&mut cur).unwrap());
    }
    assert!(f.read_only);
    assert_eq!(f.extended_limits, Some((num(-10.0), num(200.0))));
    assert_eq!(f.step_size, Some(num(0.5)));
    assert!(f.guard_rails);

    let mut w = writer();
    f.write(&mut w).unwrap();
    assert_eq!(
        w.into_string(),
        "READ_ONLY\nEXTENDED_LIMITS -10 200\nSTEP_SIZE 0.5\nGUARD_RAILS\n"
    );
}

#[test]
fn record_layout_ref_write_skips_defaults() {
    let f = RecordLayoutRefFields::default();
    let mut w = writer();
    f.write(&mut w).unwrap();
    assert_eq!(w.into_string(), "");
}

#[test]
fn reference_fields_wrap_by_columns() {
    let b = block_of("/begin M A B C D E /end M");
    let mut cur = ParamCursor::new(&b);
    let mut f = ReferenceFields::default();
    while !cur.is_empty() {
        assert!(f.take(&mut cur).unwrap());
    }
    assert_eq!(f.references, ["A", "B", "C", "D", "E"]);

    let mut w = writer();
    f.write(&mut w).unwrap();
    assert_eq!(w.into_string(), "A B C\nD E\n");
}

#[test]
fn reference_fields_write_skips_empty() {
    let f = ReferenceFields::default();
    let mut w = writer();
    f.write(&mut w).unwrap();
    assert_eq!(w.into_string(), "");
}

#[test]
fn byte_order_keywords() {
    assert_eq!(
        ByteOrder::from_keyword("msb_first"),
        Some(ByteOrder::MSB_FIRST)
    );
    assert_eq!(
        ByteOrder::from_keyword("MSB_LAST"),
        Some(ByteOrder::MSB_LAST)
    );
    assert_eq!(ByteOrder::from_keyword("MSB"), None);
    assert_eq!(ByteOrder::MSB_FIRST.as_keyword(), Some("MSB_FIRST"));
    assert_eq!(ByteOrder::NotSet.as_keyword(), None);
}

#[test]
fn composed_write_order_matches_expected_contract() {
    let named = NamedFields {
        name: "C".to_string(),
        description: Some("d".to_string()),
    };
    let addr = AddressFields {
        calib_access: CalibrationAccess::CALIBRATION,
        ..Default::default()
    };
    let conv = ConversionRefFields {
        conversion: "Conv".to_string(),
        lower_limit: num(0.0),
        upper_limit: num(100.0),
        byte_order: ByteOrder::MSB_LAST,
        ..Default::default()
    };
    let rec = RecordLayoutRefFields {
        record_layout: "RL".to_string(),
        read_only: true,
        ..Default::default()
    };

    let mut w = writer();
    named.write(&mut w).unwrap();
    conv.write_limits(&mut w).unwrap();
    addr.write(&mut w).unwrap();
    conv.write(&mut w).unwrap();
    rec.write(&mut w).unwrap();
    assert_eq!(
        w.into_string(),
        "\"d\"\n0 100\nCALIBRATION_ACCESS CALIBRATION\nBYTE_ORDER MSB_LAST\nREAD_ONLY\n"
    );
}
