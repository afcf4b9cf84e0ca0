//! MLLP framing.
//!
//! One frame on the wire is `VT || payload || FS || CR`. The decoder
//! works on a growable byte buffer that the connection loop appends
//! to: it discards pre-frame noise up to the first VT, waits for the
//! two-byte terminator FS CR (a lone CR or FS inside the frame is
//! ordinary data), and yields the bytes strictly between the
//! sentinels. A buffer that grows past the bound without completing a
//! frame is an invalid-frame error. The buffer itself is a `BytesMut`
//! of the bytes crate, held behind trusted wrappers whose contracts
//! speak of the byte sequence it holds.

use vstd::prelude::*;
use vstd::string::*;

use bytes::BytesMut;

use crate::model::{spec_error_text, HL7Error, Hl7ErrorView};
use crate::text::{
    first_index, first_pair_index, free_of, free_of_pair, lemma_first_index,
    lemma_first_index_at, lemma_first_pair_index, lemma_first_pair_index_at,
};

verus! {

/// Start-of-block sentinel (vertical tab).
pub const MLLP_START_BLOCK: u8 = 0x0B;

/// End-of-block sentinel (file separator).
pub const MLLP_END_BLOCK: u8 = 0x1C;

/// The byte that follows the end-of-block sentinel.
pub const MLLP_CARRIAGE_RETURN: u8 = 0x0D;

/// The longest a buffer may grow without completing a frame.
pub const MLLP_MAX_BUFFER: usize = 100000;

/// Spec-level image of `MllpError`.
pub ghost enum MllpErrorView {
    InvalidFrame(Seq<char>),
    Hl7(Hl7ErrorView),
}

/// A framing failure: the buffer bound was exceeded without a
/// complete frame, or an HL7 error carried through the framing layer.
#[derive(Debug)]
pub enum MllpError {
    InvalidFrame(String),
    Hl7Error(HL7Error),
}

impl View for MllpError {
    type V = MllpErrorView;

    open spec fn view(&self) -> MllpErrorView {
        match self {
            MllpError::InvalidFrame(s) => MllpErrorView::InvalidFrame(s@),
            MllpError::Hl7Error(e) => MllpErrorView::Hl7(e@),
        }
    }
}

/// The rendering of a framing error.
pub open spec fn spec_mllp_error_text(e: MllpErrorView) -> Seq<char> {
    match e {
        MllpErrorView::InvalidFrame(s) => "Invalid MLLP frame: "@ + s,
        MllpErrorView::Hl7(h) => "HL7 error: "@ + spec_error_text(h),
    }
}

impl MllpError {
    /// The human-readable rendering of this error.
    pub fn describe(&self) -> (r: String)
        ensures
            r@ == spec_mllp_error_text(self@),
    {
        match self {
            MllpError::InvalidFrame(s) => String::from_str("Invalid MLLP frame: ").concat(
                s.as_str(),
            ),
            MllpError::Hl7Error(e) => String::from_str("HL7 error: ").concat(
                e.describe().as_str(),
            ),
        }
    }
}

/// The bytes a `BytesMut` buffer holds, in order.
pub uninterp spec fn buffered(b: BytesMut) -> Seq<u8>;

#[verifier::external_type_specification]
#[verifier::external_body]
pub struct ExBytesMut(BytesMut);

/// Relies on BytesMut::len of the bytes crate: the number of bytes held.
#[verifier::external_body]
fn bm_len(b: &BytesMut) -> (n: usize)
    ensures
        n == buffered(*b).len(),
{
    b.len()
}

/// Relies on BytesMut's deref to a byte slice: the byte at `i`.
#[verifier::external_body]
fn bm_byte(b: &BytesMut, i: usize) -> (r: u8)
    requires
        i < buffered(*b).len(),
    ensures
        r == buffered(*b)[i as int],
{
    b[i]
}

/// Relies on BytesMut::split_to of the bytes crate: splitting at `n`
/// and keeping the back drops the first `n` bytes.
#[verifier::external_body]
fn bm_advance(b: &mut BytesMut, n: usize)
    requires
        n <= buffered(*old(b)).len(),
    ensures
        buffered(*final(b)) == buffered(*old(b)).skip(n as int),
{
    let _ = b.split_to(n);
}

/// Relies on BytesMut::extend_from_slice of the bytes crate: appends
/// the bytes at the back.
#[verifier::external_body]
fn bm_extend(b: &mut BytesMut, bytes: &[u8])
    ensures
        buffered(*final(b)) == buffered(*old(b)) + bytes@,
{
    b.extend_from_slice(bytes);
}

/// A complete frame around a payload.
pub open spec fn spec_mllp_encode(p: Seq<u8>) -> Seq<u8> {
    seq![MLLP_START_BLOCK] + p + seq![MLLP_END_BLOCK, MLLP_CARRIAGE_RETURN]
}

/// The outcome of one decode step.
#[verifier::ext_equal]
pub ghost struct DecodeOutcome {
    /// The extracted payload, where a complete frame was found.
    pub payload: Option<Seq<u8>>,
    /// The buffer contents after the step.
    pub rest: Seq<u8>,
    /// Whether the buffer bound was exceeded without a complete frame.
    pub overflow: bool,
}

/// One decode step on a buffer: find the first VT (without one the
/// buffer is left alone), discard what precedes it, find the first
/// FS CR window after it, and yield the bytes strictly between the VT
/// and the FS, consuming through the CR. Without a complete frame the
/// step fails exactly when the (trimmed) buffer exceeds the bound.
pub open spec fn spec_mllp_decode(buf: Seq<u8>) -> DecodeOutcome {
    match first_index(buf, MLLP_START_BLOCK) {
        None => DecodeOutcome {
            payload: None,
            rest: buf,
            overflow: buf.len() > MLLP_MAX_BUFFER,
        },
        Some(v) => {
            let t = buf.skip(v);
            match first_pair_index(t, MLLP_END_BLOCK, MLLP_CARRIAGE_RETURN) {
                Some(e) => DecodeOutcome {
                    payload: Some(t.subrange(1, e)),
                    rest: t.skip(e + 2),
                    overflow: false,
                },
                None => DecodeOutcome {
                    payload: None,
                    rest: t,
                    overflow: t.len() > MLLP_MAX_BUFFER,
                },
            }
        },
    }
}

/// What a decode step promises: the buffer afterwards holds the rest,
/// overflow yields the invalid-frame error, and otherwise the step
/// returns exactly the payload `spec_mllp_decode` names, or nothing.
pub open spec fn spec_decode_post(
    before: Seq<u8>,
    after: Seq<u8>,
    res: Result<Option<Vec<u8>>, MllpError>,
) -> bool {
    let o = spec_mllp_decode(before);
    &&& after == o.rest
    &&& (o.overflow ==> (res matches Err(MllpError::InvalidFrame(m)) && m@
        == "Buffer exceeds maximum size without valid frame"@))
    &&& (!o.overflow ==> (res matches Ok(p) && crate::model::opt_view(p) == o.payload))
}

/// The first occurrence of `x` in the buffer, if any.
fn bm_find_byte(b: &BytesMut, x: u8) -> (r: Option<usize>)
    ensures
        match r {
            Some(i) => first_index(buffered(*b), x) == Some(i as int),
            None => first_index(buffered(*b), x) is None,
        },
{
    let n = bm_len(b);
    let mut i: usize = 0;
    while i < n
        invariant
            i <= n,
            n == buffered(*b).len(),
            forall|j: int| 0 <= j < i ==> buffered(*b)[j] != x,
        decreases n - i,
    {
        if bm_byte(b, i) == x {
            proof {
                lemma_first_index_at(buffered(*b), x, i as int);
            }
            return Some(i);
        }
        i = i + 1;
    }
    proof {
        lemma_first_index(buffered(*b), x);
        match first_index(buffered(*b), x) {
            Some(k) => {
                assert(buffered(*b)[k] == x);
            },
            None => {},
        }
    }
    None
}

/// The first FS CR window in the buffer, if any.
fn bm_find_terminator(b: &BytesMut) -> (r: Option<usize>)
    ensures
        match r {
            Some(i) => first_pair_index(
                buffered(*b),
                MLLP_END_BLOCK,
                MLLP_CARRIAGE_RETURN,
            ) == Some(i as int),
            None => first_pair_index(buffered(*b), MLLP_END_BLOCK, MLLP_CARRIAGE_RETURN) is None,
        },
{
    let n = bm_len(b);
    let mut i: usize = 0;
    while i < n && i + 1 < n
        invariant
            i <= n,
            n == buffered(*b).len(),
            forall|j: int|
                #![trigger buffered(*b)[j]]
                0 <= j < i ==> !(buffered(*b)[j] == MLLP_END_BLOCK && buffered(*b)[j + 1]
                    == MLLP_CARRIAGE_RETURN),
        decreases n - i,
    {
        if bm_byte(b, i) == MLLP_END_BLOCK && bm_byte(b, i + 1) == MLLP_CARRIAGE_RETURN {
            proof {
                lemma_first_pair_index_at(
                    buffered(*b),
                    MLLP_END_BLOCK,
                    MLLP_CARRIAGE_RETURN,
                    i as int,
                );
            }
            return Some(i);
        }
        i = i + 1;
    }
    proof {
        lemma_first_pair_index(buffered(*b), MLLP_END_BLOCK, MLLP_CARRIAGE_RETURN);
        match first_pair_index(buffered(*b), MLLP_END_BLOCK, MLLP_CARRIAGE_RETURN) {
            Some(k) => {
                assert(buffered(*b)[k] == MLLP_END_BLOCK);
            },
            None => {},
        }
    }
    None
}

/// One decode step on `src`, as `spec_mllp_decode` describes.
fn decode_buffer(src: &mut BytesMut) -> (res: Result<Option<Vec<u8>>, MllpError>)
    ensures
        spec_decode_post(buffered(*old(src)), buffered(*final(src)), res),
{
    let ghost buf0 = buffered(*old(src));
    match bm_find_byte(src, MLLP_START_BLOCK) {
        None => {
            if bm_len(src) > MLLP_MAX_BUFFER {
                Err(
                    MllpError::InvalidFrame(
                        String::from_str("Buffer exceeds maximum size without valid frame"),
                    ),
                )
            } else {
                Ok(None)
            }
        },
        Some(v) => {
            proof {
                lemma_first_index(buf0, MLLP_START_BLOCK);
            }
            bm_advance(src, v);
            let ghost t = buf0.skip(v as int);
            match bm_find_terminator(src) {
                None => {
                    if bm_len(src) > MLLP_MAX_BUFFER {
                        Err(
                            MllpError::InvalidFrame(
                                String::from_str(
                                    "Buffer exceeds maximum size without valid frame",
                                ),
                            ),
                        )
                    } else {
                        Ok(None)
                    }
                },
                Some(e) => {
                    let total = bm_len(src);
                    proof {
                        lemma_first_pair_index(t, MLLP_END_BLOCK, MLLP_CARRIAGE_RETURN);
                        assert(t[0] == MLLP_START_BLOCK);
                        assert(e >= 1);
                        assert(e + 2 <= total);
                    }
                    let mut payload: Vec<u8> = Vec::new();
                    let mut k: usize = 1;
                    while k < e
                        invariant
                            1 <= k <= e,
                            buffered(*src) == t,
                            e + 1 < t.len(),
                            payload@ =~= t.subrange(1, k as int),
                        decreases e - k,
                    {
                        payload.push(bm_byte(src, k));
                        proof {
                            assert(payload@ =~= t.subrange(1, k as int + 1));
                        }
                        k = k + 1;
                    }
                    bm_advance(src, e + 2);
                    proof {
                        assert(payload@ =~= t.subrange(1, e as int));
                    }
                    Ok(Some(payload))
                },
            }
        },
    }
}

/// The stateless MLLP byte codec.
pub struct MllpCodec;

impl MllpCodec {
    /// One decode step: either a complete payload stripped of its
    /// sentinels, nothing when more bytes are needed, or the
    /// invalid-frame error once the buffer bound is exceeded.
    pub fn decode(&mut self, src: &mut BytesMut) -> (res: Result<Option<Vec<u8>>, MllpError>)
        ensures
            spec_decode_post(buffered(*old(src)), buffered(*final(src)), res),
    {
        decode_buffer(src)
    }

    /// Appends one complete frame around `item` to `dst`.
    pub fn encode(&mut self, item: &[u8], dst: &mut BytesMut) -> (res: Result<(), MllpError>)
        ensures
            buffered(*final(dst)) == buffered(*old(dst)) + spec_mllp_encode(item@),
            res is Ok,
    {
        let framed = frame_payload(item);
        bm_extend(dst, framed.as_slice());
        Ok(())
    }
}

/// Extracts one complete MLLP frame from the buffer, as
/// `spec_mllp_decode` describes.
pub fn extract_mllp_message(buffer: &mut BytesMut) -> (res: Result<Option<Vec<u8>>, MllpError>)
    ensures
        spec_decode_post(buffered(*old(buffer)), buffered(*final(buffer)), res),
{
    decode_buffer(buffer)
}

/// One complete frame around a payload, as a byte vector.
pub fn frame_payload(payload: &[u8]) -> (r: Vec<u8>)
    ensures
        r@ == spec_mllp_encode(payload@),
{
    let mut r: Vec<u8> = Vec::new();
    r.push(MLLP_START_BLOCK);
    r.extend_from_slice(payload);
    r.push(MLLP_END_BLOCK);
    r.push(MLLP_CARRIAGE_RETURN);
    proof {
        assert(r@ =~= spec_mllp_encode(payload@));
    }
    r
}

/// Wraps an HL7 payload string in one MLLP frame.
pub fn wrap_in_mllp(message: &str) -> (r: Vec<u8>)
    ensures
        r@ == spec_mllp_encode(message.spec_bytes()),
{
    frame_payload(message.as_bytes())
}

/// Decoding a buffer of VT-free noise, one complete frame around a
/// terminator-free payload, and arbitrary later bytes yields exactly
/// that payload and leaves exactly the later bytes. In particular a
/// frame completed across several reads is emitted once, whole.
pub proof fn lemma_decode_framed(noise: Seq<u8>, p: Seq<u8>, tail: Seq<u8>)
    requires
        free_of(noise, MLLP_START_BLOCK),
        free_of_pair(p, MLLP_END_BLOCK, MLLP_CARRIAGE_RETURN),
    ensures
        ({
            let o = spec_mllp_decode(noise + spec_mllp_encode(p) + tail);
            o.payload == Some(p) && o.rest == tail && !o.overflow
        }),
{
    let buf = noise + spec_mllp_encode(p) + tail;
    let v = noise.len() as int;
    assert(buf[v] == MLLP_START_BLOCK);
    lemma_first_index_at(buf, MLLP_START_BLOCK, v);
    let t = buf.skip(v);
    assert(t =~= spec_mllp_encode(p) + tail);
    let e = p.len() as int + 1;
    assert(t[0] == MLLP_START_BLOCK);
    assert(t[e] == MLLP_END_BLOCK);
    assert(t[e + 1] == MLLP_CARRIAGE_RETURN);
    assert forall|j: int| #![trigger t[j]] 0 <= j < e implies !(t[j] == MLLP_END_BLOCK && t[j + 1]
        == MLLP_CARRIAGE_RETURN) by {
        if j == 0 {
            assert(t[0] == MLLP_START_BLOCK);
        } else if j < e - 1 {
            assert(t[j] == p[j - 1]);
            assert(t[j + 1] == p[j]);
        } else {
            assert(t[j + 1] == MLLP_END_BLOCK);
        }
    }
    lemma_first_pair_index_at(t, MLLP_END_BLOCK, MLLP_CARRIAGE_RETURN, e);
    assert(t.subrange(1, e) =~= p);
    assert(t.skip(e + 2) =~= tail);
}

/// Round trip: encoding a payload without an internal FS CR and
/// decoding it back yields the payload unchanged and an empty buffer.
pub proof fn lemma_encode_decode_roundtrip(p: Seq<u8>)
    requires
        free_of_pair(p, MLLP_END_BLOCK, MLLP_CARRIAGE_RETURN),
    ensures
        ({
            let o = spec_mllp_decode(spec_mllp_encode(p));
            o.payload == Some(p) && o.rest == Seq::<u8>::empty() && !o.overflow
        }),
{
    assert(Seq::<u8>::empty() + spec_mllp_encode(p) + Seq::<u8>::empty() =~= spec_mllp_encode(p));
    lemma_decode_framed(Seq::empty(), p, Seq::empty());
}

/// No decoded payload holds the frame terminator: the FS CR window
/// never occurs inside a payload, so a payload never ends with FS CR,
/// and a CR alone between segments is never mistaken for the
/// terminator.
pub proof fn lemma_decoded_payload_no_terminator(buf: Seq<u8>)
    ensures
        match spec_mllp_decode(buf).payload {
            Some(p) => free_of_pair(p, MLLP_END_BLOCK, MLLP_CARRIAGE_RETURN),
            None => true,
        },
{
    match first_index(buf, MLLP_START_BLOCK) {
        None => {},
        Some(v) => {
            lemma_first_index(buf, MLLP_START_BLOCK);
            let t = buf.skip(v);
            match first_pair_index(t, MLLP_END_BLOCK, MLLP_CARRIAGE_RETURN) {
                None => {},
                Some(e) => {
                    lemma_first_pair_index(t, MLLP_END_BLOCK, MLLP_CARRIAGE_RETURN);
                    let p = t.subrange(1, e);
                    assert forall|j: int|
                        #![trigger p[j]]
                        0 <= j && j + 1 < p.len() implies !(p[j] == MLLP_END_BLOCK && p[j + 1]
                        == MLLP_CARRIAGE_RETURN) by {
                        assert(t.take(e + 1)[j + 1] == p[j]);
                        assert(t.take(e + 1)[j + 2] == p[j + 1]);
                    }
                },
            }
        },
    }
}

} // verus!
