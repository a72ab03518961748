use autors::a2l::block::{Block, build_block_tree};
use autors::a2l::error::Result;
use autors::a2l::model::canape::{CalibrationMethod, CanapeAddressUpdate, CanapeExt, MapSymbol, MemorySegment};
use autors::a2l::node::Node;
use autors::a2l::number::Number;
use autors::a2l::token::Token;
use autors::a2l::writer::{Writer, WriterOptions};
use autors::a2l::token::tokenize as lex;

fn num(x: f64) -> Number {
    let bits = x.to_bits() as i64;
    let single = x as f32;
    let single_bits = single.to_bits() as i32;
    Number {
        text: format!("{}", x),
        key: if bits < 0 { -(bits & i64::MAX) } else { bits },
        nan: x.is_nan(),
        single_text: format!("{}", single),
        single_key: if single_bits < 0 { -i64::from(single_bits & i32::MAX) } else { i64::from(single_bits) },
        rounded: x.round() as i64,
    }
}

fn tokenize(src: &str) -> Result<Vec<Token>> {
    let mut tokens = lex(src)?;
    for t in &mut tokens {
        t.number = t.text.parse::<f64>().ok().map(num);
    }
    Ok(tokens)
}

fn parse_child<T: Node>(root: &Block) -> T {
    T::parse(root.child(T::keyword()).unwrap()).unwrap()
}

fn write<T: Node>(node: &T) -> String {
    let mut w = Writer::new(WriterOptions::default());
    node.write_block(&mut w).unwrap();
    w.into_string()
}

fn root_of(src: &str) -> Block {
    let toks = tokenize(src).unwrap();
    build_block_tree(&toks).unwrap()
}

#[test]
fn canape_ext_single_line() {
    let root = root_of(
        "/begin IF_DATA CANAPE_EXT 100 LINK_MAP \"mapname\" 0x4000 0 0 0 1 2 3 DISPLAY 0x123456 0.0 100.0 VIRTUAL_CONVERSION \"convname\" /end IF_DATA",
    );
    let node = parse_child::<CanapeExt>(&root);
    assert_eq!(node.version, 100);
    let lm = node.link_map.as_ref().unwrap();
    assert_eq!(lm.base_address, 0x4000);
    assert_eq!(lm.offset_segment, 0);
    let d = node.display.as_ref().unwrap();
    assert_eq!(d.color, 0x123456);
    assert_eq!(
        write(&node),
        "/begin IF_DATA CANAPE_EXT 100 LINK_MAP \"mapname\" 0x4000 0x0 0 0x0 1 0x2 0x3 DISPLAY 1193046 0 100 VIRTUAL_CONVERSION \"convname\" /end IF_DATA\n"
    );
}

#[test]
fn canape_ext_version_only() {
    let root = root_of("/begin IF_DATA CANAPE_EXT 100 /end IF_DATA");
    let node = parse_child::<CanapeExt>(&root);
    assert_eq!(write(&node), "/begin IF_DATA CANAPE_EXT 100 /end IF_DATA\n");
}

#[test]
fn map_symbol_with_mapping() {
    let root = root_of(
        "/begin MAP_SYMBOL FIRST \"sym1\" 0x1000 LAST \"sym2\" 0x2000 ADDRESS_MAPPING_XCP \"src.map\" \"dst.map\" /end MAP_SYMBOL",
    );
    let node = parse_child::<MapSymbol>(&root);
    assert_eq!(
        write(&node),
        "/begin MAP_SYMBOL FIRST \"sym1\" 0x1000 LAST \"sym2\" 0x2000\nADDRESS_MAPPING_XCP \"src.map\" \"dst.map\"\n\n/end MAP_SYMBOL\n"
    );
}

#[test]
fn memory_segment_first_last_only() {
    let root = root_of(
        "/begin MEMORY_SEGMENT FIRST \"seg1\" 0x3000 LAST \"seg2\" 0x4000 /end MEMORY_SEGMENT",
    );
    let node = parse_child::<MemorySegment>(&root);
    assert_eq!(
        write(&node),
        "/begin MEMORY_SEGMENT FIRST \"seg1\" 0x3000 LAST \"seg2\" 0x4000\n/end MEMORY_SEGMENT\n"
    );
}

#[test]
fn calibration_method_full_with_incircuit_quirk() {
    let root = root_of(
        "/begin CALIBRATION_METHOD AUTOSAR_SINGLE_POINTERED \"asp\" 0x10 ORIGINAL_POINTER_TABLE \"opt\" 0x20 InCircuit2 \"ic\" 0x30 ORIGINAL_POINTER_TABLE \"opt2\" 0x40 FLASH_SECTION 0x8000 0x1000 /end CALIBRATION_METHOD",
    );
    let node = parse_child::<CalibrationMethod>(&root);
    assert!(node.auto_sar_single_pointered.is_some());
    assert!(node.in_circuit2.as_ref().unwrap().flash_section.is_some());
    assert_eq!(
        write(&node),
        "/begin CALIBRATION_METHOD AUTOSAR_SINGLE_POINTERED \"asp\" 0x10 ORIGINAL_POINTER_TABLE \"opt\" 0x20\n InCircuit2 \"ic\" 0x30 AUTOSAR_SINGLE_POINTERED \"opt2\" 0x40 FLASH_SECTION 0x8000 0x1000\n/end CALIBRATION_METHOD\n"
    );
}

#[test]
fn canape_address_update_full() {
    let root = root_of(
        "/begin IF_DATA CANAPE_ADDRESS_UPDATE EPK_ADDRESS \"epk\" 0x5000 ECU_CALIBRATION_OFFSET \"eco\" 0x100 /begin MAP_SYMBOL FIRST \"sym1\" 0x1000 /end MAP_SYMBOL /begin CALIBRATION_METHOD AUTOSAR_SINGLE_POINTERED \"asp\" 0x10 /end CALIBRATION_METHOD /end IF_DATA",
    );
    let node = parse_child::<CanapeAddressUpdate>(&root);
    assert_eq!(node.epk_address.len(), 1);
    assert_eq!(node.ecu_calibration_offset.as_ref().unwrap().offset, 0x100);
    assert_eq!(node.children.len(), 2);
    assert_eq!(
        write(&node),
        "/begin IF_DATA CANAPE_ADDRESS_UPDATE EPK_ADDRESS \"epk\" 0x5000 ECU_CALIBRATION_OFFSET \"eco\" 256\n  /begin MAP_SYMBOL FIRST \"sym1\" 0x1000\n  /end MAP_SYMBOL\n  /begin CALIBRATION_METHOD AUTOSAR_SINGLE_POINTERED \"asp\" 0x10\n  /end CALIBRATION_METHOD\n/end IF_DATA\n"
    );
}

#[test]
fn canape_nodes_read_back() {
    let root = root_of(
        "/begin IF_DATA CANAPE_EXT 100 LINK_MAP \"a \\\"b\\\"\" 0x4000 1 0 0x7FFFFFFF 1 2 3 \
         DISPLAY -5 0.5 100 VIRTUAL_CONVERSION \"conv\" /end IF_DATA",
    );
    let ext = parse_child::<CanapeExt>(&root);
    assert_eq!(ext.link_map.as_ref().unwrap().name, "a \"b\"");
    assert_eq!(parse_child::<CanapeExt>(&root_of(&write(&ext))), ext);
    let root = root_of(
        "/begin IF_DATA CANAPE_ADDRESS_UPDATE EPK_ADDRESS \"e1\" 0x10 EPK_ADDRESS \"e2\" 0x20 \
         ECU_CALIBRATION_OFFSET \"off\" 7 \
         /begin MAP_SYMBOL FIRST \"f\" 1 LAST \"l\" 2 ADDRESS_MAPPING_XCP \"s\" \"d\" /end MAP_SYMBOL \
         /begin MEMORY_SEGMENT LAST \"l\" 3 /end MEMORY_SEGMENT \
         /begin CALIBRATION_METHOD AUTOSAR_SINGLE_POINTERED \"p\" 4 ORIGINAL_POINTER_TABLE \"t\" 5 \
         InCircuit2 \"c\" 6 FLASH_SECTION 0x100 0x200 /end CALIBRATION_METHOD /end IF_DATA",
    );
    let update = parse_child::<CanapeAddressUpdate>(&root);
    assert_eq!(update.children.len(), 3);
    assert_eq!(update.epk_address.len(), 2);
    let again = parse_child::<CanapeAddressUpdate>(&root_of(&write(&update)));
    assert_eq!(again, update);
}

#[test]
fn canape_mapping_without_symbol_runs_into_the_keyword() {
    let map = parse_child::<MapSymbol>(&root_of(
        "/begin MAP_SYMBOL ADDRESS_MAPPING_XCP \"s\" \"d\" /end MAP_SYMBOL",
    ));
    assert!(write(&map).starts_with("/begin MAP_SYMBOLADDRESS_MAPPING_XCP \"s\" \"d\"\n"));
}
