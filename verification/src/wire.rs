//! Message framing on the daemon socket: a little-endian `u32` counting
//! the bytes after it, the magic `MSO\0`, then the serialized message.
use vstd::prelude::*;
use crate::protocol::WIRE_MAGIC;

verus! {

/// Largest frame body a reader accepts (16 MiB).
pub const MAX_FRAME_LEN: usize = 16777216;

#[derive(Debug, Clone, Copy, PartialEq, Eq, Structural)]
pub enum FrameError {
    /// The length field announces more than `MAX_FRAME_LEN` bytes.
    TooLarge(u32),
    /// The body is shorter than the magic or does not start with it.
    BadMagic,
}

pub open spec fn magic() -> Seq<u8> {
    seq![77u8, 83u8, 79u8, 0u8]
}

/// The four little-endian bytes of `x`.
pub open spec fn le_bytes(x: u32) -> Seq<u8> {
    seq![
        (x % 256) as u8,
        ((x / 256) % 256) as u8,
        ((x / 65536) % 256) as u8,
        ((x / 16777216) % 256) as u8,
    ]
}

/// The value of four little-endian bytes.
pub open spec fn le_value(b: Seq<u8>) -> u32 {
    (b[0] as nat + 256 * b[1] as nat + 65536 * b[2] as nat + 16777216 * b[3] as nat) as u32
}

/// The frame that carries `payload`: its length field counts the magic
/// and the payload, truncated to 32 bits.
pub open spec fn frame(payload: Seq<u8>) -> Seq<u8> {
    le_bytes(((4 + payload.len()) % 0x1_0000_0000) as u32) + magic() + payload
}

/// How many body bytes a reader takes after a length field, or why it
/// refuses the frame.
pub open spec fn body_len(header: Seq<u8>) -> Result<usize, FrameError> {
    let len = le_value(header);
    if len > MAX_FRAME_LEN { Err(FrameError::TooLarge(len)) } else { Ok(len as usize) }
}

/// The payload inside a frame body, or why it is refused.
pub open spec fn body_payload(body: Seq<u8>) -> Result<Seq<u8>, FrameError> {
    if body.len() < 4 || body.subrange(0, 4) != magic() {
        Err(FrameError::BadMagic)
    } else {
        Ok(body.skip(4))
    }
}

/// Frames a serialized message for the socket.
pub fn frame_payload(payload: &[u8]) -> (wire: Vec<u8>)
    requires
        payload@.len() + 8 <= usize::MAX,
    ensures
        wire@ == frame(payload@),
{
    let total = (((4 + payload.len()) as u64) % 0x1_0000_0000u64) as u32;
    let mut wire: Vec<u8> = Vec::new();
    wire.push((total % 256) as u8);
    wire.push(((total / 256) % 256) as u8);
    wire.push(((total / 65536) % 256) as u8);
    wire.push(((total / 16777216) % 256) as u8);
    let mut k: usize = 0;
    while k < 4
        invariant
            k <= 4,
            wire@ == le_bytes(total) + WIRE_MAGIC@.take(k as int),
            WIRE_MAGIC@ == magic(),
        decreases 4 - k,
    {
        wire.push(WIRE_MAGIC[k]);
        k = k + 1;
        assert(wire@ =~= le_bytes(total) + WIRE_MAGIC@.take(k as int));
    }
    let ghost head = wire@;
    let mut i: usize = 0;
    while i < payload.len()
        invariant
            i <= payload@.len(),
            wire@ == head + payload@.take(i as int),
        decreases payload@.len() - i,
    {
        wire.push(payload[i]);
        i = i + 1;
        assert(wire@ =~= head + payload@.take(i as int));
    }
    assert(payload@.take(payload@.len() as int) =~= payload@);
    assert(WIRE_MAGIC@.take(4) =~= magic());
    wire
}

/// The value of a frame's length field.
pub fn declared_len(header: &[u8; 4]) -> (len: u32)
    ensures
        len == le_value(header@),
{
    (header[0] as u32) + 256 * (header[1] as u32) + 65536 * (header[2] as u32) + 16777216 * (header[3] as u32)
}

/// How many body bytes follow a length field; frames over 16 MiB are
/// refused.
pub fn frame_body_len(header: &[u8; 4]) -> (r: Result<usize, FrameError>)
    ensures
        r == body_len(header@),
{
    let len = declared_len(header);
    if len as usize > MAX_FRAME_LEN {
        Err(FrameError::TooLarge(len))
    } else {
        Ok(len as usize)
    }
}

/// Checks the magic of a frame body and hands back the payload after it.
pub fn open_frame(body: &[u8]) -> (r: Result<Vec<u8>, FrameError>)
    ensures
        match (r, body_payload(body@)) {
            (Ok(p), Ok(q)) => p@ == q,
            (Err(e), Err(f)) => e == f,
            _ => false,
        },
{
    if body.len() < 4 {
        return Err(FrameError::BadMagic);
    }
    let mut k: usize = 0;
    while k < 4
        invariant
            body@.len() >= 4,
            k <= 4,
            WIRE_MAGIC@ == magic(),
            forall|j: int| 0 <= j < k ==> body@[j] == magic()[j],
        decreases 4 - k,
    {
        if body[k] != WIRE_MAGIC[k] {
            assert(body@.subrange(0, 4)[k as int] != magic()[k as int]);
            return Err(FrameError::BadMagic);
        }
        k = k + 1;
    }
    assert(body@.subrange(0, 4) =~= magic());
    let mut p: Vec<u8> = Vec::new();
    let mut i: usize = 4;
    while i < body.len()
        invariant
            4 <= i <= body@.len(),
            p@ == body@.subrange(4, i as int),
        decreases body@.len() - i,
    {
        p.push(body[i]);
        i = i + 1;
        assert(p@ =~= body@.subrange(4, i as int));
    }
    assert(p@ =~= body@.skip(4));
    Ok(p)
}

/// A frame read back gives what was framed: for a payload of at most
/// 16 MiB less the magic, the length field admits a body of exactly the
/// magic and the payload, and the body opens to the payload.
pub proof fn lemma_frame_roundtrip(payload: Seq<u8>)
    requires
        payload.len() + 4 <= MAX_FRAME_LEN,
    ensures
        body_len(frame(payload).subrange(0, 4)) == Ok::<usize, FrameError>((payload.len() + 4) as usize),
        frame(payload).len() == 4 + payload.len() + 4,
        body_payload(frame(payload).subrange(4, frame(payload).len() as int)) == Ok::<Seq<u8>, FrameError>(payload),
{
    let f = frame(payload);
    let x = (4 + payload.len()) as u32;
    assert(((4 + payload.len()) % 0x1_0000_0000) as u32 == x);
    assert(f.subrange(0, 4) =~= le_bytes(x));
    assert(le_value(le_bytes(x)) == x) by {
        assert(x as nat == (x % 256) as nat + 256 * ((x / 256) % 256) as nat + 65536 * ((x / 65536) % 256) as nat
            + 16777216 * ((x / 16777216) % 256) as nat) by (nonlinear_arith)
            requires x < 0x1_0000_0000;
    }
    let body = f.subrange(4, f.len() as int);
    assert(body =~= magic() + payload);
    assert(body.subrange(0, 4) =~= magic());
    assert(body.skip(4) =~= payload);
}

} // verus!
