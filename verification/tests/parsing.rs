use rust_hl7::adt::AdtMessage;
use rust_hl7::oru::OruMessage;
use rust_hl7::rde::RdeMessage;
use rust_hl7::{Delimiters, HL7Error, Message};

#[test]
fn test_parse_adt_message() {
    let adt_message = r#"MSH|^~\&|SENDING_APP|SENDING_FACILITY|RECEIVING_APP|RECEIVING_FACILITY|20230401123000||ADT^A01|MSG00001|P|2.5
EVN|A01|20230401123000
PID|1||12345^^^MRN||DOE^JOHN^^^^||19800101|M||W|123 MAIN ST^^ANYTOWN^CA^12345||5551234|||||12345678
NK1|1|DOE^JANE^^^^|SPOUSE|555-5678
PV1|1|I|2000^2012^01||||004777^ATTEND^AARON^A|||SUR||||ADM|A0|"#;

    let message = Message::parse(adt_message).unwrap();
    assert_eq!(message.message_type, "ADT^A01");
    assert_eq!(message.version, "2.5");
    assert!(message.is_adt());
    assert!(!message.is_oru());
    assert!(!message.is_rde());

    let adt = AdtMessage::from_hl7(&message).unwrap();
    assert_eq!(adt.event_type, "A01");
    assert_eq!(adt.patient_id, "12345");
    assert_eq!(adt.patient_name, Some("DOE^JOHN^^^^".to_string()));
    assert_eq!(adt.date_of_birth, Some("19800101".to_string()));
    assert_eq!(adt.gender, Some("M".to_string()));
}

#[test]
fn test_parse_oru_message() {
    let oru_message = r#"MSH|^~\&|LAB|FACILITY|EHR|FACILITY|20230401123000||ORU^R01|MSG00002|P|2.5
PID|1||12345^^^MRN||DOE^JOHN^^^^||19800101|M
OBR|1||LAB123456|CBC^COMPLETE BLOOD COUNT^L|||20230401120000
OBX|1|NM|WBC^LEUKOCYTES^L||10.5|10*3/uL|4.0-11.0|N|||F
OBX|2|NM|RBC^ERYTHROCYTES^L||4.5|10*6/uL|4.5-5.9|N|||F"#;

    let message = Message::parse(oru_message).unwrap();
    assert_eq!(message.message_type, "ORU^R01");
    assert_eq!(message.version, "2.5");
    assert!(!message.is_adt());
    assert!(message.is_oru());
    assert!(!message.is_rde());

    let oru = OruMessage::from_hl7(&message).unwrap();
    assert_eq!(oru.patient_id, "12345");
    assert_eq!(oru.observations.len(), 2);

    let obs1 = &oru.observations[0];
    assert_eq!(obs1.test_id, "WBC");
    assert_eq!(obs1.test_name, Some("LEUKOCYTES".to_string()));
    assert_eq!(obs1.value, Some("10.5".to_string()));
    assert_eq!(obs1.units, Some("10*3/uL".to_string()));
    assert_eq!(obs1.reference_range, Some("4.0-11.0".to_string()));

    let obs2 = &oru.observations[1];
    assert_eq!(obs2.test_id, "RBC");
    assert_eq!(obs2.test_name, Some("ERYTHROCYTES".to_string()));
    assert_eq!(obs2.value, Some("4.5".to_string()));
    assert_eq!(obs2.units, Some("10*6/uL".to_string()));
    assert_eq!(obs2.reference_range, Some("4.5-5.9".to_string()));
}

#[test]
fn test_parse_rde_message() {
    let rde_message = r#"MSH|^~\&|PHARMACY|FACILITY|EHR|FACILITY|20230401123000||RDE^O11|MSG00003|P|2.5
PID|1||12345^^^MRN||DOE^JOHN^^^^||19800101|M
ORC|NW|ORD12345|||||||20230401123000|||
RXE|509^MEDROL|2|4MG||TAB|BID||509^MEDROL|10|||||||||||20230401|20230407
RXR|PO|ORAL|SWALLOW
RXE|123^AMOXICILLIN|3|500MG||CAP|TID||123^AMOXICILLIN|21|||||||||||20230401|20230408
RXR|PO|ORAL|SWALLOW"#;

    let message = Message::parse(rde_message).unwrap();
    assert_eq!(message.message_type, "RDE^O11");
    assert_eq!(message.version, "2.5");
    assert!(!message.is_adt());
    assert!(!message.is_oru());
    assert!(message.is_rde());

    let rde = RdeMessage::from_hl7(&message).unwrap();
    assert_eq!(rde.patient_id, "12345");
    assert_eq!(rde.order_control, Some("NW".to_string()));
    assert_eq!(rde.order_number, Some("ORD12345".to_string()));
    assert_eq!(rde.medication_orders.len(), 2);

    // The give code is RXE.2 and the route RXR.1; these payloads carry
    // their codes in RXE.1 and the route word in RXR.3, so the orders
    // surface the literal contents of RXE.2 and RXR.1 instead.
    let med1 = &rde.medication_orders[0];
    assert_eq!(med1.rx_id, "RX1");
    assert_eq!(med1.medication_id, "2");
    assert_eq!(med1.medication_name, None);
    assert_eq!(med1.strength, Some("4MG".to_string()));
    assert_eq!(med1.form, Some("TAB".to_string()));
    assert_eq!(med1.frequency, Some("BID".to_string()));
    assert_eq!(med1.route, Some("PO".to_string()));
    assert_eq!(med1.start_date, Some("20230401".to_string()));
    assert_eq!(med1.stop_date, Some("20230407".to_string()));

    let med2 = &rde.medication_orders[1];
    assert_eq!(med2.rx_id, "RX2");
    assert_eq!(med2.medication_id, "3");
    assert_eq!(med2.medication_name, None);
    assert_eq!(med2.strength, Some("500MG".to_string()));
    assert_eq!(med2.form, Some("CAP".to_string()));
    assert_eq!(med2.frequency, Some("TID".to_string()));
    assert_eq!(med2.route, Some("PO".to_string()));
    assert_eq!(med2.start_date, Some("20230401".to_string()));
    assert_eq!(med2.stop_date, Some("20230408".to_string()));
}

#[test]
fn parse_rejects_empty_input() {
    match Message::parse("") {
        Err(HL7Error::InvalidStructure(m)) => assert_eq!(m, "Empty message"),
        other => panic!("expected invalid structure, got {:?}", other),
    }
}

#[test]
fn parse_rejects_non_msh_first_segment() {
    match Message::parse("FOO|bar") {
        Err(HL7Error::InvalidStructure(m)) => assert_eq!(m, "First segment must be MSH"),
        other => panic!("expected invalid structure, got {:?}", other),
    }
}

#[test]
fn parse_rejects_missing_message_type() {
    match Message::parse("MSH|^~\\&|A|B|C|D") {
        Err(HL7Error::MissingField(m)) => assert_eq!(m, "Message type (MSH.9)"),
        other => panic!("expected missing field, got {:?}", other),
    }
}

#[test]
fn parse_rejects_missing_version() {
    match Message::parse("MSH|^~\\&|A|B|C|D|20230401||ADT^A01|MSG1|P") {
        Err(HL7Error::MissingField(m)) => assert_eq!(m, "Version (MSH.12)"),
        other => panic!("expected missing field, got {:?}", other),
    }
}

#[test]
fn parse_cr_and_lf_agree() {
    let with_cr = "MSH|^~\\&|A|B|C|D|20230401||ADT^A01|MSG1|P|2.5\rPID|1||77^^^MRN||X^Y";
    let with_lf = "MSH|^~\\&|A|B|C|D|20230401||ADT^A01|MSG1|P|2.5\nPID|1||77^^^MRN||X^Y";
    let a = Message::parse(with_cr).unwrap();
    let b = Message::parse(with_lf).unwrap();
    assert_eq!(a.segments.len(), b.segments.len());
    assert_eq!(a.message_type, b.message_type);
    assert_eq!(a.version, b.version);
    let pa = AdtMessage::from_hl7(&a).unwrap();
    let pb = AdtMessage::from_hl7(&b).unwrap();
    assert_eq!(pa.patient_id, pb.patient_id);
    assert_eq!(pa.patient_name, pb.patient_name);
}

#[test]
fn parse_crlf_separators() {
    let text = "MSH|^~\\&|A|B|C|D|20230401||ADT^A01|MSG1|P|2.5\r\nPID|1||77^^^MRN||X^Y";
    let m = Message::parse(text).unwrap();
    assert_eq!(m.segments.len(), 2);
    assert_eq!(m.segments[1].name, "PID");
}

#[test]
fn parse_discards_trailing_empty_segments() {
    let text = "MSH|^~\\&|A|B|C|D|20230401||ADT^A01|MSG1|P|2.5\r\r";
    let m = Message::parse(text).unwrap();
    assert_eq!(m.segments.len(), 1);
}

#[test]
fn msh_field_numbering() {
    let text = "MSH|^~\\&|SENDING_APP|B|C|D|20230401||ADT^A01|MSG1|P|2.5";
    let m = Message::parse(text).unwrap();
    let delimiters = Delimiters::default();
    let msh = m.get_segment("MSH").unwrap();
    assert_eq!(m.segments[0].name, "MSH");
    // MSH.1 is the field delimiter itself, MSH.2 the raw encoding characters.
    assert_eq!(msh.field_at(1).unwrap().raw_value(&delimiters), "|");
    assert_eq!(msh.field_at(2).unwrap().raw_value(&delimiters), "^~\\&");
    assert_eq!(msh.field_at(3).unwrap().raw_value(&delimiters), "SENDING_APP");
    assert_eq!(msh.field_at(9).unwrap().raw_value(&delimiters), "ADT^A01");
    assert_eq!(msh.field_at(12).unwrap().raw_value(&delimiters), "2.5");
}

#[test]
fn subcomponents_and_repetitions() {
    let delimiters = Delimiters::default();
    let field = rust_hl7::parser::parse_field("a&b^c~d^e", &delimiters);
    // First repetition: components of "a&b^c".
    assert_eq!(field.components.len(), 2);
    assert_eq!(field.components[0].value, "a&b");
    assert_eq!(field.components[0].subcomponents, vec!["a".to_string(), "b".to_string()]);
    assert_eq!(field.components[1].value, "c");
    assert!(field.components[1].subcomponents.is_empty());
    // Both repetitions are kept.
    assert_eq!(field.repetitions.len(), 2);
    assert_eq!(field.repetitions[1][0].value, "d");
    assert_eq!(field.repetitions[1][1].value, "e");
    // The raw text is reassembled exactly.
    assert_eq!(field.raw_value(&delimiters), "a&b^c~d^e");
}

#[test]
fn adt_missing_pid_is_missing_field() {
    let text = "MSH|^~\\&|A|B|C|D|20230401||ADT^A01|MSG1|P|2.5\rEVN|A01";
    let m = Message::parse(text).unwrap();
    match AdtMessage::from_hl7(&m) {
        Err(HL7Error::MissingField(f)) => assert_eq!(f, "PID segment"),
        other => panic!("expected missing field, got {:?}", other),
    }
}

#[test]
fn adt_empty_pid3_is_missing_field() {
    let text = "MSH|^~\\&|A|B|C|D|20230401||ADT^A01|MSG1|P|2.5\rPID|1|||X^Y";
    let m = Message::parse(text).unwrap();
    match AdtMessage::from_hl7(&m) {
        Err(HL7Error::MissingField(f)) => assert_eq!(f, "Patient ID (PID.3)"),
        other => panic!("expected missing field, got {:?}", other),
    }
}

#[test]
fn oru_missing_test_id_is_missing_field() {
    let text = "MSH|^~\\&|A|B|C|D|20230401||ORU^R01|MSG1|P|2.5\rPID|1||9||\rOBX|1|NM|";
    let m = Message::parse(text).unwrap();
    match OruMessage::from_hl7(&m) {
        Err(HL7Error::MissingField(f)) => assert_eq!(f, "Test ID (OBX.3)"),
        other => panic!("expected missing field, got {:?}", other),
    }
}

#[test]
fn projections_reject_wrong_type() {
    let text = "MSH|^~\\&|A|B|C|D|20230401||ADT^A01|MSG1|P|2.5\rPID|1||9";
    let m = Message::parse(text).unwrap();
    assert!(matches!(OruMessage::from_hl7(&m), Err(HL7Error::InvalidStructure(_))));
    assert!(matches!(RdeMessage::from_hl7(&m), Err(HL7Error::InvalidStructure(_))));
    assert!(AdtMessage::from_hl7(&m).is_ok());
}

#[test]
fn rde_medication_id_falls_back_to_unknown() {
    // RXE.2, the give code, is absent: the order still comes out.
    let text = "MSH|^~\\&|A|B|C|D|20230401||RDE^O11|MSG1|P|2.5\rPID|1||9\rRXE|1^BID";
    let m = Message::parse(text).unwrap();
    let rde = RdeMessage::from_hl7(&m).unwrap();
    assert_eq!(rde.medication_orders.len(), 1);
    assert_eq!(rde.medication_orders[0].medication_id, "UNKNOWN");
    assert_eq!(rde.medication_orders[0].medication_name, None);
    assert_eq!(rde.medication_orders[0].route, None);
    assert_eq!(rde.medication_orders[0].strength, None);
}

#[test]
fn rde_reads_give_code_and_route() {
    let text = "MSH|^~\\&|A|B|C|D|20230401||RDE^O11|MSG1|P|2.5\rPID|1||9\rORC|NW|ORD1\rRXE|1^BID|509^MEDROL|4|MG|TAB|BID\rRXR|PO^ORAL";
    let m = Message::parse(text).unwrap();
    let rde = RdeMessage::from_hl7(&m).unwrap();
    assert_eq!(rde.medication_orders.len(), 1);
    let med = &rde.medication_orders[0];
    assert_eq!(med.rx_id, "RX1");
    assert_eq!(med.medication_id, "509");
    assert_eq!(med.medication_name, Some("MEDROL".to_string()));
    assert_eq!(med.strength, Some("4MG".to_string()));
    assert_eq!(med.form, Some("TAB".to_string()));
    assert_eq!(med.frequency, Some("BID".to_string()));
    assert_eq!(med.route, Some("PO".to_string()));
}

#[test]
fn rde_strength_concatenates_units() {
    let text = "MSH|^~\\&|A|B|C|D|20230401||RDE^O11|MSG1|P|2.5\rPID|1||9\rRXE|X^NAME||500|MG";
    let m = Message::parse(text).unwrap();
    let rde = RdeMessage::from_hl7(&m).unwrap();
    assert_eq!(rde.medication_orders[0].strength, Some("500MG".to_string()));
}

#[test]
fn get_segments_keeps_document_order() {
    let text = "MSH|^~\\&|A|B|C|D|20230401||ORU^R01|MSG1|P|2.5\rOBX|1|NM|A\rPID|1||9\rOBX|2|NM|B";
    let m = Message::parse(text).unwrap();
    let obxs = m.get_segments("OBX");
    assert_eq!(obxs.len(), 2);
    assert_eq!(obxs[0].first_component_at(1), Some("1".to_string()));
    assert_eq!(obxs[1].first_component_at(1), Some("2".to_string()));
    assert!(m.get_segment("ZZZ").is_none());
}

#[test]
fn event_type_without_caret_is_unknown() {
    let text = "MSH|^~\\&|A|B|C|D|20230401||ADTPLAIN|MSG1|P|2.5\rPID|1||9";
    let m = Message::parse(text).unwrap();
    assert_eq!(m.message_type, "ADTPLAIN");
    let adt = AdtMessage::from_hl7(&m).unwrap();
    assert_eq!(adt.event_type, "UNKNOWN");
}

#[test]
fn message_clone_preserves_the_tree() {
    let text = "MSH|^~\\&|A|B|C|D|20230401||ADT^A01|MSG1|P|2.5\rPID|1||77^^^MRN||X^Y";
    let m = Message::parse(text).unwrap();
    let c = m.clone();
    assert_eq!(c.message_type, m.message_type);
    assert_eq!(c.version, m.version);
    assert_eq!(c.segments.len(), m.segments.len());
    assert_eq!(c.segments[1].fields[2].components[0].value, "77");
}
