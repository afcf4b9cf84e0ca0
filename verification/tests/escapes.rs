use rust_hl7::escape::decode_escapes;
use rust_hl7::text::u64_to_string;
use rust_hl7::{Delimiters, Message};

#[test]
fn decode_recognized_escapes() {
    let d = Delimiters::default();
    assert_eq!(decode_escapes("a\\F\\b", &d), "a|b");
    assert_eq!(decode_escapes("a\\S\\b", &d), "a^b");
    assert_eq!(decode_escapes("a\\T\\b", &d), "a&b");
    assert_eq!(decode_escapes("a\\R\\b", &d), "a~b");
    assert_eq!(decode_escapes("a\\E\\b", &d), "a\\b");
    assert_eq!(decode_escapes("line\\.br\\next", &d), "line\nnext");
}

#[test]
fn decode_keeps_unrecognized_escapes_verbatim() {
    let d = Delimiters::default();
    assert_eq!(decode_escapes("a\\X\\b", &d), "a\\X\\b");
    assert_eq!(decode_escapes("a\\XYZ\\b", &d), "a\\XYZ\\b");
    assert_eq!(decode_escapes("a\\.bX\\b", &d), "a\\.bX\\b");
}

#[test]
fn decode_keeps_unterminated_escape_verbatim() {
    let d = Delimiters::default();
    assert_eq!(decode_escapes("a\\F", &d), "a\\F");
    assert_eq!(decode_escapes("\\", &d), "\\");
}

#[test]
fn decode_plain_text_unchanged() {
    let d = Delimiters::default();
    assert_eq!(decode_escapes("", &d), "");
    assert_eq!(decode_escapes("DOE^JOHN", &d), "DOE^JOHN");
}

#[test]
fn component_decoded_value_on_demand() {
    // Escapes survive parsing untouched and decode when read.
    let text = "MSH|^~\\&|A|B|C|D|20230401||ADT^A01|MSG1|P|2.5\rNTE|1|Smith \\T\\ Jones";
    let d = Delimiters::default();
    let m = Message::parse(text).unwrap();
    let nte = m.get_segment("NTE").unwrap();
    let comment = &nte.field_at(2).unwrap().components[0];
    assert_eq!(comment.value, "Smith \\T\\ Jones");
    assert_eq!(comment.decoded_value(&d), "Smith & Jones");
}

#[test]
fn u64_renders_decimal_digits() {
    assert_eq!(u64_to_string(0), "0");
    assert_eq!(u64_to_string(7), "7");
    assert_eq!(u64_to_string(10), "10");
    assert_eq!(u64_to_string(90210), "90210");
    assert_eq!(u64_to_string(u64::MAX), "18446744073709551615");
}
