use bytes::BytesMut;
use rust_hl7::mllp::{extract_mllp_message, frame_payload, wrap_in_mllp, MllpCodec, MllpError};

const VT: u8 = 0x0B;
const FS: u8 = 0x1C;
const CR: u8 = 0x0D;

#[test]
fn encode_then_decode_returns_payload() {
    // The payload holds a CR between segments: only FS CR terminates.
    let payload = b"MSH|^~\\&|A|B|C|D|20230401||ADT^A01|MSG1|P|2.5\rPID|1||9";
    let framed = frame_payload(payload);
    assert_eq!(framed[0], VT);
    assert_eq!(framed[framed.len() - 2], FS);
    assert_eq!(framed[framed.len() - 1], CR);
    let mut buf = BytesMut::from(&framed[..]);
    let got = extract_mllp_message(&mut buf).unwrap().unwrap();
    assert_eq!(&got[..], &payload[..]);
    assert!(buf.is_empty());
}

#[test]
fn wrap_in_mllp_adds_sentinels() {
    let framed = wrap_in_mllp("MSA|AA|1");
    let mut expected = vec![VT];
    expected.extend_from_slice(b"MSA|AA|1");
    expected.push(FS);
    expected.push(CR);
    assert_eq!(framed, expected);
}

#[test]
fn codec_encode_decode_roundtrip() {
    let mut codec = MllpCodec;
    let mut wire = BytesMut::new();
    codec.encode(b"hello\rworld", &mut wire).unwrap();
    let got = codec.decode(&mut wire).unwrap().unwrap();
    assert_eq!(&got[..], b"hello\rworld");
    assert!(wire.is_empty());
}

#[test]
fn pre_frame_noise_without_vt_leaves_buffer() {
    let mut buf = BytesMut::from(&b"some leading garbage"[..]);
    let res = extract_mllp_message(&mut buf).unwrap();
    assert!(res.is_none());
    assert_eq!(&buf[..], b"some leading garbage");
}

#[test]
fn noise_before_vt_is_discarded() {
    let mut buf = BytesMut::from(&b"junk"[..]);
    buf.extend_from_slice(&frame_payload(b"DATA"));
    let got = extract_mllp_message(&mut buf).unwrap().unwrap();
    assert_eq!(&got[..], b"DATA");
    assert!(buf.is_empty());
}

#[test]
fn lone_fs_and_cr_are_data() {
    // FS not followed by CR, and CR not preceded by FS, stay in the payload.
    let payload = [b'a', FS, b'b', CR, b'c'];
    let framed = frame_payload(&payload);
    let mut buf = BytesMut::from(&framed[..]);
    let got = extract_mllp_message(&mut buf).unwrap().unwrap();
    assert_eq!(&got[..], &payload[..]);
}

#[test]
fn partial_frame_over_two_reads() {
    let first = b"\x0BMSH|^~\\&|A|B|C|D|20230401||ADT^A01|MSG00001|P|2.5\rPI";
    let second = b"D|1||99^^^MRN||X^Y\x1C\x0D";
    let mut buf = BytesMut::new();
    buf.extend_from_slice(first);
    assert!(extract_mllp_message(&mut buf).unwrap().is_none());
    buf.extend_from_slice(second);
    let got = extract_mllp_message(&mut buf).unwrap().unwrap();
    let text = String::from_utf8(got).unwrap();
    assert!(text.starts_with("MSH|"));
    assert!(text.contains("PID|1||99^^^MRN"));
    // Exactly one frame came out.
    assert!(extract_mllp_message(&mut buf).unwrap().is_none());
    assert!(buf.is_empty());
}

#[test]
fn buffer_at_bound_still_waits() {
    let mut buf = BytesMut::from(&vec![b'A'; 100_000][..]);
    assert!(extract_mllp_message(&mut buf).unwrap().is_none());
    assert_eq!(buf.len(), 100_000);
}

#[test]
fn oversize_noise_is_invalid_frame() {
    let mut buf = BytesMut::from(&vec![b'A'; 100_001][..]);
    match extract_mllp_message(&mut buf) {
        Err(MllpError::InvalidFrame(m)) => {
            assert_eq!(m, "Buffer exceeds maximum size without valid frame");
        },
        other => panic!("expected invalid frame, got {:?}", other),
    }
}

#[test]
fn oversize_unterminated_frame_is_invalid_frame() {
    let mut data = vec![VT];
    data.extend_from_slice(&vec![b'A'; 100_001]);
    let mut buf = BytesMut::from(&data[..]);
    assert!(matches!(extract_mllp_message(&mut buf), Err(MllpError::InvalidFrame(_))));
}

#[test]
fn two_frames_come_out_one_at_a_time() {
    let mut buf = BytesMut::new();
    buf.extend_from_slice(&frame_payload(b"one"));
    buf.extend_from_slice(&frame_payload(b"two"));
    let a = extract_mllp_message(&mut buf).unwrap().unwrap();
    assert_eq!(&a[..], b"one");
    let b = extract_mllp_message(&mut buf).unwrap().unwrap();
    assert_eq!(&b[..], b"two");
    assert!(extract_mllp_message(&mut buf).unwrap().is_none());
}

#[test]
fn mllp_error_describe() {
    let e = MllpError::InvalidFrame("too big".to_string());
    assert_eq!(e.describe(), "Invalid MLLP frame: too big");
    let h = MllpError::Hl7Error(rust_hl7::HL7Error::ParseError("bad".to_string()));
    assert_eq!(h.describe(), "HL7 error: Parse error: bad");
}
