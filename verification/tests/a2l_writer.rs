use autors::a2l::writer::{Writer, WriterOptions, escape_str, unescape_str};

#[test]
fn escape_roundtrip() {
    let src = "a\"b\\c\nd\te\rf";
    let esc = escape_str(src);
    assert_eq!(esc, "a\\\"b\\\\c\\nd\\te\\rf");
    assert_eq!(unescape_str(&esc), src);
}

#[test]
fn tag_value_formats() {
    let mut w = Writer::new(WriterOptions::default());
    w.tag_value(Some("ANNOTATION_LABEL"), Some("hi \"x\""), true);
    w.tag_value(Some("ECU_ADDRESS"), Some("0x100"), false);
    w.tag_value(Some("SKIPPED"), None, false);
    assert_eq!(
        w.into_string(),
        "ANNOTATION_LABEL \"hi \\\"x\\\"\"\nECU_ADDRESS 0x100\n"
    );
}
