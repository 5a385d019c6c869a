//! The typed wire protocol and its fixed-size binary encoding.
//!
//! Host and device exchange whole frames over a bulk endpoint, one encoded
//! message per transfer.  The encoding is deterministic: one tag byte per
//! enum level, fixed-width integers in network (big-endian) byte order, and
//! a fixed total length per variant, never more than [`MESSAGE_BUF_SIZE`]
//! bytes.  Decoding rejects malformed frames with a distinguishable error
//! instead of producing a default value, and an unknown tag byte (a variant
//! from a future protocol revision) is such an error for that single frame
//! only.  An earlier protocol generation carried bare, correlation-free
//! heartbeat signals; it was dropped in favour of this correlation-id
//! scheme.

use vstd::prelude::*;

verus! {

/// Largest number of bytes an encoded message may occupy: the transfer
/// buffer size of the bulk endpoint, one frame per transfer.
pub const MESSAGE_BUF_SIZE: usize = 64;

/// First tag byte of a [`Message::Command`] frame.
pub const TAG_COMMAND: u8 = 0;

/// First tag byte of a [`Message::Response`] frame.
pub const TAG_RESPONSE: u8 = 1;

/// Second tag byte of a heartbeat command or response.
pub const TAG_HEARTBEAT: u8 = 0;

/// Second tag byte of a [`CommandKind::ToggleLed`] command.
pub const TAG_TOGGLE_LED: u8 = 1;

/// A command sent by the host to the device.
#[derive(Debug, Clone, Copy, PartialEq, Eq, Structural)]
pub enum CommandKind {
    /// Liveness probe ("ping"); carries a nonce that the reply echoes.
    Heartbeat(u32),
    /// Toggle the debug LED.
    ToggleLed,
}

/// A reply sent by the device to the host.
#[derive(Debug, Clone, Copy, PartialEq, Eq, Structural)]
pub enum ResponseKind {
    /// Liveness reply ("pong"); echoes the nonce of the probe.
    Heartbeat(u32),
}

/// One message of the vendor channel protocol.
#[derive(Debug, Clone, Copy, PartialEq, Eq, Structural)]
pub enum Message {
    /// A request from the host; `id` is a correlation identifier chosen by
    /// the sender (0 when unused).
    Command { cmd: CommandKind, id: u32 },
    /// An answer from the device; `to` echoes the `id` of the command being
    /// answered.
    Response { res: ResponseKind, to: u32 },
}

/// Why a frame was rejected by [`Message::deserialize`].
#[derive(Debug, Clone, Copy, PartialEq, Eq, Structural)]
pub enum DecodeError {
    /// The frame ends before the variant's fixed length is reached.
    Truncated,
    /// A tag byte names no variant this protocol revision knows.
    UnknownVariant,
    /// The frame is longer than the variant's fixed length.
    TrailingBytes,
}

/// The four big-endian bytes of `x`, most significant first.
pub open spec fn spec_u32_be(x: u32) -> Seq<u8> {
    seq![
        (x / 0x100_0000) as u8,
        ((x / 0x1_0000) % 0x100) as u8,
        ((x / 0x100) % 0x100) as u8,
        (x % 0x100) as u8,
    ]
}

/// The value read back from four big-endian bytes.
pub open spec fn spec_u32_of_be(b0: u8, b1: u8, b2: u8, b3: u8) -> u32 {
    (b0 * 0x100_0000 + b1 * 0x1_0000 + b2 * 0x100 + b3) as u32
}

/// The encoded form of `m`: tag bytes first, then the fixed-width fields in
/// network byte order.
pub open spec fn spec_encode(m: Message) -> Seq<u8> {
    match m {
        Message::Command { cmd: CommandKind::Heartbeat(n), id } =>
            seq![TAG_COMMAND, TAG_HEARTBEAT] + spec_u32_be(n) + spec_u32_be(id),
        Message::Command { cmd: CommandKind::ToggleLed, id } =>
            seq![TAG_COMMAND, TAG_TOGGLE_LED] + spec_u32_be(id),
        Message::Response { res: ResponseKind::Heartbeat(n), to } =>
            seq![TAG_RESPONSE, TAG_HEARTBEAT] + spec_u32_be(n) + spec_u32_be(to),
    }
}

/// What decoding yields on any byte sequence: the unique message whose
/// encoding is exactly `s`, or the error that classifies `s`.
pub open spec fn spec_decode(s: Seq<u8>) -> Result<Message, DecodeError> {
    if s.len() < 2 {
        Err(DecodeError::Truncated)
    } else if s[0] == TAG_COMMAND {
        if s[1] == TAG_HEARTBEAT {
            if s.len() < 10 {
                Err(DecodeError::Truncated)
            } else if s.len() > 10 {
                Err(DecodeError::TrailingBytes)
            } else {
                Ok(Message::Command {
                    cmd: CommandKind::Heartbeat(spec_u32_of_be(s[2], s[3], s[4], s[5])),
                    id: spec_u32_of_be(s[6], s[7], s[8], s[9]),
                })
            }
        } else if s[1] == TAG_TOGGLE_LED {
            if s.len() < 6 {
                Err(DecodeError::Truncated)
            } else if s.len() > 6 {
                Err(DecodeError::TrailingBytes)
            } else {
                Ok(Message::Command {
                    cmd: CommandKind::ToggleLed,
                    id: spec_u32_of_be(s[2], s[3], s[4], s[5]),
                })
            }
        } else {
            Err(DecodeError::UnknownVariant)
        }
    } else if s[0] == TAG_RESPONSE {
        if s[1] == TAG_HEARTBEAT {
            if s.len() < 10 {
                Err(DecodeError::Truncated)
            } else if s.len() > 10 {
                Err(DecodeError::TrailingBytes)
            } else {
                Ok(Message::Response {
                    res: ResponseKind::Heartbeat(spec_u32_of_be(s[2], s[3], s[4], s[5])),
                    to: spec_u32_of_be(s[6], s[7], s[8], s[9]),
                })
            }
        } else {
            Err(DecodeError::UnknownVariant)
        }
    } else {
        Err(DecodeError::UnknownVariant)
    }
}

/// Appends the four big-endian bytes of `x` to `buf`.
fn push_u32_be(buf: &mut Vec<u8>, x: u32)
    ensures
        final(buf)@ == old(buf)@ + spec_u32_be(x),
{
    assert(x / 0x100_0000 < 0x100) by (bit_vector);
    assert((x / 0x1_0000) % 0x100 < 0x100) by (bit_vector);
    assert((x / 0x100) % 0x100 < 0x100) by (bit_vector);
    buf.push((x / 0x100_0000) as u8);
    buf.push(((x / 0x1_0000) % 0x100) as u8);
    buf.push(((x / 0x100) % 0x100) as u8);
    buf.push((x % 0x100) as u8);
    assert(buf@ =~= old(buf)@ + spec_u32_be(x));
}

/// Reads the big-endian `u32` stored at offset `i` of `buf`.
fn read_u32_be(buf: &[u8], i: usize) -> (r: u32)
    requires
        i + 4 <= buf@.len(),
    ensures
        r == spec_u32_of_be(buf@[i as int], buf@[i + 1], buf@[i + 2], buf@[i + 3]),
{
    (buf[i] as u32) * 0x100_0000 + (buf[i + 1] as u32) * 0x1_0000 + (buf[i + 2] as u32) * 0x100
        + (buf[i + 3] as u32)
}

impl Message {
    /// The heartbeat command the host sends to probe liveness; `id` serves
    /// both as the correlation identifier and as the echoed nonce.
    pub fn request_heartbeat(id: u32) -> (m: Message)
        ensures
            m == (Message::Command { cmd: CommandKind::Heartbeat(id), id }),
    {
        Message::Command { cmd: CommandKind::Heartbeat(id), id }
    }

    /// Encodes `self` into a fresh frame.  Total for every message, and the
    /// frame always fits the transfer buffer.
    pub fn serialize(&self) -> (r: Vec<u8>)
        ensures
            r@ == spec_encode(*self),
            r@.len() <= MESSAGE_BUF_SIZE,
    {
        let mut buf: Vec<u8> = Vec::new();
        match *self {
            Message::Command { cmd, id } => {
                buf.push(TAG_COMMAND);
                match cmd {
                    CommandKind::Heartbeat(n) => {
                        buf.push(TAG_HEARTBEAT);
                        push_u32_be(&mut buf, n);
                        push_u32_be(&mut buf, id);
                    }
                    CommandKind::ToggleLed => {
                        buf.push(TAG_TOGGLE_LED);
                        push_u32_be(&mut buf, id);
                    }
                }
            }
            Message::Response { res, to } => {
                buf.push(TAG_RESPONSE);
                match res {
                    ResponseKind::Heartbeat(n) => {
                        buf.push(TAG_HEARTBEAT);
                        push_u32_be(&mut buf, n);
                        push_u32_be(&mut buf, to);
                    }
                }
            }
        }
        assert(buf@ =~= spec_encode(*self));
        buf
    }

    /// Decodes one frame.  Returns `Ok` exactly on the canonical encodings
    /// that [`spec_encode`] produces, and otherwise the error that
    /// [`spec_decode`] assigns to the frame.
    pub fn deserialize(buf: &[u8]) -> (r: Result<Message, DecodeError>)
        ensures
            r == spec_decode(buf@),
    {
        if buf.len() < 2 {
            Err(DecodeError::Truncated)
        } else if buf[0] == TAG_COMMAND {
            if buf[1] == TAG_HEARTBEAT {
                if buf.len() < 10 {
                    Err(DecodeError::Truncated)
                } else if buf.len() > 10 {
                    Err(DecodeError::TrailingBytes)
                } else {
                    let n = read_u32_be(buf, 2);
                    let id = read_u32_be(buf, 6);
                    Ok(Message::Command { cmd: CommandKind::Heartbeat(n), id })
                }
            } else if buf[1] == TAG_TOGGLE_LED {
                if buf.len() < 6 {
                    Err(DecodeError::Truncated)
                } else if buf.len() > 6 {
                    Err(DecodeError::TrailingBytes)
                } else {
                    let id = read_u32_be(buf, 2);
                    Ok(Message::Command { cmd: CommandKind::ToggleLed, id })
                }
            } else {
                Err(DecodeError::UnknownVariant)
            }
        } else if buf[0] == TAG_RESPONSE {
            if buf[1] == TAG_HEARTBEAT {
                if buf.len() < 10 {
                    Err(DecodeError::Truncated)
                } else if buf.len() > 10 {
                    Err(DecodeError::TrailingBytes)
                } else {
                    let n = read_u32_be(buf, 2);
                    let to = read_u32_be(buf, 6);
                    Ok(Message::Response { res: ResponseKind::Heartbeat(n), to })
                }
            } else {
                Err(DecodeError::UnknownVariant)
            }
        } else {
            Err(DecodeError::UnknownVariant)
        }
    }
}

/// Reassembling the big-endian bytes of `x` gives back `x`.
pub proof fn lemma_u32_be_roundtrip(x: u32)
    ensures
        spec_u32_of_be(
            spec_u32_be(x)[0],
            spec_u32_be(x)[1],
            spec_u32_be(x)[2],
            spec_u32_be(x)[3],
        ) == x,
{
    assert((x / 0x100_0000) * 0x100_0000 + ((x / 0x1_0000) % 0x100) * 0x1_0000 + ((x / 0x100)
        % 0x100) * 0x100 + (x % 0x100) == x) by (bit_vector);
    assert(x / 0x100_0000 < 0x100) by (bit_vector);
    assert((x / 0x1_0000) % 0x100 < 0x100) by (bit_vector);
    assert((x / 0x100) % 0x100 < 0x100) by (bit_vector);
}

/// Round trip: decoding an encoded message gives back that message, for
/// every constructible message value.
pub proof fn lemma_round_trip(m: Message)
    ensures
        spec_decode(spec_encode(m)) == Ok::<Message, DecodeError>(m),
{
    let s = spec_encode(m);
    match m {
        Message::Command { cmd: CommandKind::Heartbeat(n), id } => {
            assert(s.len() == 10);
            lemma_u32_be_roundtrip(n);
            lemma_u32_be_roundtrip(id);
            assert(spec_u32_of_be(s[2], s[3], s[4], s[5]) == n);
            assert(spec_u32_of_be(s[6], s[7], s[8], s[9]) == id);
        }
        Message::Command { cmd: CommandKind::ToggleLed, id } => {
            assert(s.len() == 6);
            lemma_u32_be_roundtrip(id);
            assert(spec_u32_of_be(s[2], s[3], s[4], s[5]) == id);
        }
        Message::Response { res: ResponseKind::Heartbeat(n), to } => {
            assert(s.len() == 10);
            lemma_u32_be_roundtrip(n);
            lemma_u32_be_roundtrip(to);
            assert(spec_u32_of_be(s[2], s[3], s[4], s[5]) == n);
            assert(spec_u32_of_be(s[6], s[7], s[8], s[9]) == to);
        }
    }
}

/// Size bound: no message encodes to more than [`MESSAGE_BUF_SIZE`] bytes.
pub proof fn lemma_encoded_size(m: Message)
    ensures
        spec_encode(m).len() <= MESSAGE_BUF_SIZE,
{
}

/// Splitting a value into big-endian bytes is the inverse of reassembly:
/// four bytes survive the round trip unchanged.
proof fn lemma_u32_of_be_inverse(b0: u8, b1: u8, b2: u8, b3: u8)
    ensures
        spec_u32_be(spec_u32_of_be(b0, b1, b2, b3)) =~= seq![b0, b1, b2, b3],
{
    let x0 = b0 as u32;
    let x1 = b1 as u32;
    let x2 = b2 as u32;
    let x3 = b3 as u32;
    let x = spec_u32_of_be(b0, b1, b2, b3);
    assert(x == x0 * 0x100_0000 + x1 * 0x1_0000 + x2 * 0x100 + x3);
    assert((x0 * 0x100_0000 + x1 * 0x1_0000 + x2 * 0x100 + x3) / 0x100_0000 == x0
        && ((x0 * 0x100_0000 + x1 * 0x1_0000 + x2 * 0x100 + x3) / 0x1_0000) % 0x100 == x1 && ((x0
        * 0x100_0000 + x1 * 0x1_0000 + x2 * 0x100 + x3) / 0x100) % 0x100 == x2 && (x0 * 0x100_0000
        + x1 * 0x1_0000 + x2 * 0x100 + x3) % 0x100 == x3) by (bit_vector)
        requires
            x0 < 0x100,
            x1 < 0x100,
            x2 < 0x100,
            x3 < 0x100,
    ;
}

/// The encoding is canonical: whenever decoding accepts a frame, that
/// frame is byte for byte the encoding of the decoded message — no two
/// distinct frames decode to the same message.
pub proof fn lemma_decode_canonical(s: Seq<u8>, m: Message)
    requires
        spec_decode(s) == Ok::<Message, DecodeError>(m),
    ensures
        spec_encode(m) =~= s,
{
    if s.len() == 6 {
        lemma_u32_of_be_inverse(s[2], s[3], s[4], s[5]);
    } else {
        lemma_u32_of_be_inverse(s[2], s[3], s[4], s[5]);
        lemma_u32_of_be_inverse(s[6], s[7], s[8], s[9]);
    }
}

} // verus!
