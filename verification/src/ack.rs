//! HL7 acknowledgment building.
//!
//! An acknowledgment is two segments: an MSH header carrying the
//! current timestamp and the control id taken from the original
//! payload, then an MSA segment that accepts (AA) or rejects (AE)
//! with a reason. The control id is the tenth pipe-delimited token of
//! the original payload's first line, or `UNKNOWN` where the line has
//! no such token. A reason is sanitized before it enters the MSA
//! segment: each field delimiter in it becomes the HL7 escape for
//! one.

use vstd::prelude::*;
use vstd::string::*;

use crate::parser::{find_first_break, first_break, lemma_first_break};
use crate::text::{split_on, split_str};

verus! {

/// The first line of a payload: everything before the first CR or LF.
pub open spec fn spec_first_line(payload: Seq<char>) -> Seq<char> {
    match first_break(payload) {
        None => payload,
        Some(i) => payload.take(i),
    }
}

/// The control id of a payload: the tenth pipe-delimited token of its
/// first line, or `UNKNOWN` where the line has no such token.
pub open spec fn spec_control_id(payload: Seq<char>) -> Seq<char> {
    let toks = split_on(spec_first_line(payload), '|');
    if toks.len() > 9 {
        toks[9]
    } else {
        "UNKNOWN"@
    }
}

/// A reason with every field delimiter replaced by the HL7 escape for
/// one, so that it cannot add fields to the MSA segment.
pub open spec fn spec_sanitize(s: Seq<char>) -> Seq<char>
    decreases s.len(),
{
    if s.len() == 0 {
        Seq::empty()
    } else if s[0] == '|' {
        "\\F\\"@ + spec_sanitize(s.drop_first())
    } else {
        seq![s[0]] + spec_sanitize(s.drop_first())
    }
}

/// Sanitizing one more character appends its rendering.
pub proof fn lemma_sanitize_push(x: Seq<char>, c: char)
    ensures
        spec_sanitize(x.push(c)) == spec_sanitize(x) + (if c == '|' {
            "\\F\\"@
        } else {
            seq![c]
        }),
    decreases x.len(),
{
    let p = x.push(c);
    assert(spec_sanitize(Seq::<char>::empty()) == Seq::<char>::empty());
    if x.len() == 0 {
        assert(p[0] == c);
        assert(p.drop_first() =~= Seq::<char>::empty());
        if c == '|' {
            assert(spec_sanitize(p) =~= spec_sanitize(x) + "\\F\\"@);
        } else {
            assert(spec_sanitize(p) =~= spec_sanitize(x) + seq![c]);
        }
    } else {
        assert(p[0] == x[0]);
        assert(p.drop_first() =~= x.drop_first().push(c));
        lemma_sanitize_push(x.drop_first(), c);
        if c == '|' {
            assert(spec_sanitize(p) =~= spec_sanitize(x) + "\\F\\"@);
        } else {
            assert(spec_sanitize(p) =~= spec_sanitize(x) + seq![c]);
        }
    }
}

/// The positive acknowledgment payload for a control id and timestamp.
pub open spec fn spec_aa_ack(ctrl: Seq<char>, ts: Seq<char>) -> Seq<char> {
    "MSH|^~\\&|RECEIVING_APP|RECEIVING_FACILITY|SENDING_APP|SENDING_FACILITY|"@ + ts + "||ACK|"@
        + ctrl + "|P|2.5\r"@ + "MSA|AA|"@ + ctrl + "|Message processed successfully"@
}

/// The error acknowledgment payload for a control id, a (sanitized)
/// reason, and a timestamp.
pub open spec fn spec_ae_ack(ctrl: Seq<char>, reason: Seq<char>, ts: Seq<char>) -> Seq<char> {
    "MSH|^~\\&|RECEIVING_APP|RECEIVING_FACILITY|SENDING_APP|SENDING_FACILITY|"@ + ts + "||ACK|"@
        + ctrl + "|P|2.5\r"@ + "MSA|AE|"@ + ctrl + "|Error processing message: "@ + reason
}

/// The shape every rendered timestamp has: at least the fourteen
/// characters of `YYYYMMDDHHMMSS`, all decimal digits up to a sign.
pub open spec fn spec_timestamp_shape(ts: Seq<char>) -> bool {
    ts.len() >= 14 && forall|i: int|
        0 <= i < ts.len() ==> (('0' <= #[trigger] ts[i] <= '9') || ts[i] == '-' || ts[i] == '+')
}

/// Relies on chrono's Local::now and its %Y%m%d%H%M%S formatting: the
/// current local time as the year (four or more digits, possibly
/// signed) followed by five zero-padded two-digit numeric fields.
#[verifier::external_body]
fn now_timestamp() -> (r: String)
    ensures
        spec_timestamp_shape(r@),
{
    chrono::Local::now().format("%Y%m%d%H%M%S").to_string()
}

/// The control id of a payload, as `spec_control_id` describes.
pub fn extract_control_id(payload: &str) -> (r: String)
    ensures
        r@ == spec_control_id(payload@),
{
    let n = payload.unicode_len();
    let end = match find_first_break(payload) {
        None => n,
        Some(i) => {
            proof {
                lemma_first_break(payload@);
            }
            i
        },
    };
    let line = payload.substring_char(0, end);
    proof {
        assert(line@ =~= spec_first_line(payload@));
    }
    let toks = split_str(line, '|');
    if toks.len() > 9 {
        let r = toks[9].clone();
        proof {
            assert(toks.deep_view()[9] == toks@[9]@);
        }
        r
    } else {
        String::from_str("UNKNOWN")
    }
}

/// Replaces each field delimiter in a reason by the HL7 escape for one.
pub fn sanitize_reason(s: &str) -> (r: String)
    ensures
        r@ == spec_sanitize(s@),
{
    let n = s.unicode_len();
    let mut out = String::new();
    let mut i: usize = 0;
    proof {
        assert(s@.take(0) =~= Seq::<char>::empty());
        assert(spec_sanitize(Seq::<char>::empty()) == Seq::<char>::empty());
    }
    while i < n
        invariant
            i <= n,
            n as nat == s@.len(),
            out@ == spec_sanitize(s@.take(i as int)),
        decreases n - i,
    {
        let c = s.get_char(i);
        if c == '|' {
            out.append("\\F\\");
        } else {
            let piece = s.substring_char(i, i + 1);
            proof {
                assert(piece@ =~= seq![s@[i as int]]);
            }
            out.append(piece);
        }
        proof {
            assert(s@.take(i as int).push(s@[i as int]) =~= s@.take(i as int + 1));
            lemma_sanitize_push(s@.take(i as int), s@[i as int]);
        }
        i = i + 1;
    }
    proof {
        assert(s@.take(n as int) =~= s@);
    }
    out
}

/// The positive acknowledgment for a control id at a given timestamp.
pub fn build_aa_ack(control_id: &str, timestamp: &str) -> (r: String)
    ensures
        r@ == spec_aa_ack(control_id@, timestamp@),
{
    let mut r = String::from_str(
        "MSH|^~\\&|RECEIVING_APP|RECEIVING_FACILITY|SENDING_APP|SENDING_FACILITY|",
    );
    r.append(timestamp);
    r.append("||ACK|");
    r.append(control_id);
    r.append("|P|2.5\r");
    r.append("MSA|AA|");
    r.append(control_id);
    r.append("|Message processed successfully");
    proof {
        assert(r@ =~= spec_aa_ack(control_id@, timestamp@));
    }
    r
}

/// The error acknowledgment for a control id at a given timestamp,
/// with the reason sanitized on the way in.
pub fn build_ae_ack(control_id: &str, reason: &str, timestamp: &str) -> (r: String)
    ensures
        r@ == spec_ae_ack(control_id@, spec_sanitize(reason@), timestamp@),
{
    let safe = sanitize_reason(reason);
    let mut r = String::from_str(
        "MSH|^~\\&|RECEIVING_APP|RECEIVING_FACILITY|SENDING_APP|SENDING_FACILITY|",
    );
    r.append(timestamp);
    r.append("||ACK|");
    r.append(control_id);
    r.append("|P|2.5\r");
    r.append("MSA|AE|");
    r.append(control_id);
    r.append("|Error processing message: ");
    r.append(safe.as_str());
    proof {
        assert(r@ =~= spec_ae_ack(control_id@, spec_sanitize(reason@), timestamp@));
    }
    r
}

/// The positive acknowledgment for the message carried by `original`,
/// stamped with the current local time: exactly `spec_aa_ack` of the
/// payload's control id and some timestamp of the usual shape.
pub fn generate_response(original: &str) -> (r: String)
    ensures
        exists|ts: Seq<char>|
            spec_timestamp_shape(ts) && r@ == #[trigger] spec_aa_ack(
                spec_control_id(original@),
                ts,
            ),
{
    let control_id = extract_control_id(original);
    let ts = now_timestamp();
    let r = build_aa_ack(control_id.as_str(), ts.as_str());
    proof {
        assert(spec_timestamp_shape(ts@) && r@ == spec_aa_ack(spec_control_id(original@), ts@));
    }
    r
}

/// The error acknowledgment for the message carried by `original`,
/// stamped with the current local time: exactly `spec_ae_ack` of the
/// payload's control id, the sanitized reason, and some timestamp of
/// the usual shape.
pub fn generate_nack(original: &str, error_msg: &str) -> (r: String)
    ensures
        exists|ts: Seq<char>|
            spec_timestamp_shape(ts) && r@ == #[trigger] spec_ae_ack(
                spec_control_id(original@),
                spec_sanitize(error_msg@),
                ts,
            ),
{
    let control_id = extract_control_id(original);
    let ts = now_timestamp();
    let r = build_ae_ack(control_id.as_str(), error_msg, ts.as_str());
    proof {
        assert(spec_timestamp_shape(ts@) && r@ == spec_ae_ack(
            spec_control_id(original@),
            spec_sanitize(error_msg@),
            ts@,
        ));
    }
    r
}

} // verus!
