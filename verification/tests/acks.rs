use bytes::BytesMut;
use rust_hl7::ack::{
    build_aa_ack, build_ae_ack, extract_control_id, generate_nack, generate_response,
    sanitize_reason,
};
use rust_hl7::adt::AdtMessage;
use rust_hl7::mllp::{extract_mllp_message, wrap_in_mllp};
use rust_hl7::oru::OruMessage;
use rust_hl7::{HL7Error, Message};

const ADT: &str = "MSH|^~\\&|SENDING_APP|SENDING_FACILITY|RECEIVING_APP|RECEIVING_FACILITY|20230401123000||ADT^A01|MSG00001|P|2.5\rEVN|A01|20230401123000\rPID|1||12345^^^MRN||DOE^JOHN^^^^||19800101|M";

#[test]
fn control_id_is_tenth_token_of_first_line() {
    assert_eq!(extract_control_id(ADT), "MSG00001");
    assert_eq!(extract_control_id("FOO|bar"), "UNKNOWN");
    assert_eq!(extract_control_id(""), "UNKNOWN");
}

#[test]
fn aa_ack_has_fixed_shape() {
    let ack = build_aa_ack("MSG00001", "20230401123000");
    assert_eq!(
        ack,
        "MSH|^~\\&|RECEIVING_APP|RECEIVING_FACILITY|SENDING_APP|SENDING_FACILITY|20230401123000||ACK|MSG00001|P|2.5\rMSA|AA|MSG00001|Message processed successfully"
    );
}

#[test]
fn ae_ack_cites_reason() {
    let ack = build_ae_ack("MSG7", "boom", "20230401123000");
    assert_eq!(
        ack,
        "MSH|^~\\&|RECEIVING_APP|RECEIVING_FACILITY|SENDING_APP|SENDING_FACILITY|20230401123000||ACK|MSG7|P|2.5\rMSA|AE|MSG7|Error processing message: boom"
    );
}

#[test]
fn ae_ack_sanitizes_field_delimiters() {
    assert_eq!(sanitize_reason("a|b|c"), "a\\F\\b\\F\\c");
    let ack = build_ae_ack("X", "bad|field", "20230401123000");
    assert!(ack.ends_with("MSA|AE|X|Error processing message: bad\\F\\field"));
}

#[test]
fn generate_response_cites_control_id() {
    let ack = generate_response(ADT);
    assert!(ack.starts_with("MSH|^~\\&|RECEIVING_APP|RECEIVING_FACILITY|SENDING_APP|SENDING_FACILITY|"));
    assert!(ack.contains("||ACK|MSG00001|P|2.5\rMSA|AA|MSG00001|Message processed successfully"));
}

#[test]
fn malformed_msh_yields_ae_ack_and_recovers() {
    let payload = "FOO|bar";
    let err = Message::parse(payload).unwrap_err();
    let reason = err.describe();
    assert_eq!(reason, "Invalid message structure: First segment must be MSH");
    let nack = generate_nack(payload, reason.as_str());
    assert!(nack.contains("MSA|AE|UNKNOWN|Error processing message: Invalid message structure: First segment must be MSH"));
    // The same connection can go on: a well-formed payload still parses.
    assert!(Message::parse(ADT).is_ok());
}

#[test]
fn adt_round_trip_over_the_wire() {
    let mut buf = BytesMut::new();
    buf.extend_from_slice(&wrap_in_mllp(ADT));
    let payload = extract_mllp_message(&mut buf).unwrap().unwrap();
    let text = String::from_utf8(payload).unwrap();
    let message = Message::parse(text.as_str()).unwrap();
    assert_eq!(message.message_type, "ADT^A01");
    assert_eq!(message.version, "2.5");
    assert!(message.is_adt());
    let adt = AdtMessage::from_hl7(&message).unwrap();
    assert_eq!(adt.event_type, "A01");
    assert_eq!(adt.patient_id, "12345");
    assert_eq!(adt.patient_name, Some("DOE^JOHN^^^^".to_string()));
    assert_eq!(adt.date_of_birth, Some("19800101".to_string()));
    assert_eq!(adt.gender, Some("M".to_string()));
    let ack = generate_response(text.as_str());
    assert!(ack.contains("||ACK|MSG00001|P|2.5\rMSA|AA|MSG00001|"));
    // The response goes back framed the same way.
    let framed = wrap_in_mllp(ack.as_str());
    assert_eq!(framed[0], 0x0B);
    assert_eq!(framed[framed.len() - 2], 0x1C);
    assert_eq!(framed[framed.len() - 1], 0x0D);
}

#[test]
fn oru_with_five_obx() {
    let payload = "MSH|^~\\&|LAB|FACILITY|EHR|FACILITY|20230401123000||ORU^R01|MSG00002|P|2.5\rPID|1||12345^^^MRN||DOE^JOHN^^^^||19800101|M\rOBR|1||LAB123456|CBC^COMPLETE BLOOD COUNT^L|||20230401120000\rOBX|1|NM|WBC^LEUKOCYTES^L||10.5|10*3/uL|4.0-11.0|N|||F\rOBX|2|NM|RBC^ERYTHROCYTES^L||4.5|10*6/uL|4.5-5.9|N|||F\rOBX|3|NM|HGB^HEMOGLOBIN^L||14.2|g/dL|13.5-17.5|N|||F\rOBX|4|NM|HCT^HEMATOCRIT^L||42.1|%|41.0-53.0|N|||F\rOBX|5|NM|PLT^PLATELETS^L||250|10*3/uL|150-450|N|||F";
    let message = Message::parse(payload).unwrap();
    let oru = OruMessage::from_hl7(&message).unwrap();
    assert_eq!(oru.observations.len(), 5);
    let first = &oru.observations[0];
    assert_eq!(first.test_id, "WBC");
    assert_eq!(first.test_name, Some("LEUKOCYTES".to_string()));
    assert_eq!(first.value, Some("10.5".to_string()));
    assert_eq!(first.units, Some("10*3/uL".to_string()));
    assert_eq!(first.reference_range, Some("4.0-11.0".to_string()));
    assert_eq!(first.abnormal_flags, Some("N".to_string()));
}

#[test]
fn hl7_error_describe() {
    assert_eq!(
        HL7Error::ParseError("x".to_string()).describe(),
        "Parse error: x"
    );
    assert_eq!(
        HL7Error::InvalidStructure("y".to_string()).describe(),
        "Invalid message structure: y"
    );
    assert_eq!(
        HL7Error::MissingField("z".to_string()).describe(),
        "Missing required field: z"
    );
}
