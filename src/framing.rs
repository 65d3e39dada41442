use vstd::prelude::*;

use crate::codec::{be32, from_be32, get_be32, lemma_be32_round_trip, push_all, push_be32, copy_range};

verus! {

/// Largest payload an envelope may declare.
pub const MAX_MESSAGE_SIZE: u32 = 1048576;

/// Bytes in an envelope header: a type tag and a 32-bit length.
pub const HEADER_LEN: usize = 5;

/// Why bytes from the peer could not be taken as a protocol message.
#[derive(Debug, Clone, Copy, PartialEq, Eq, Structural)]
pub enum ProtocolError {
    /// The stream ended before the message did.
    Truncated,
    /// The declared payload length is over the cap.
    OversizedMessage,
    /// A message of a type that the current state does not expect.
    UnexpectedMessage,
    /// A payload that does not follow its message's layout.
    Malformed,
    /// A handshake reply that names another session.
    SessionMismatch,
    /// A TransferStart that announces another size than the admitted Meta.
    SizeMismatch,
}

/// One framed message.
#[derive(Debug)]
pub struct Envelope {
    pub msg_type: u8,
    pub payload: Vec<u8>,
}

/// The wire form of an envelope.
pub open spec fn envelope_bytes(msg_type: u8, payload: Seq<u8>) -> Seq<u8> {
    seq![msg_type] + be32(payload.len() as u32) + payload
}

/// The payload length declared by a header.
pub open spec fn declared_length(b: Seq<u8>) -> u32 {
    from_be32(b.subrange(1, 5))
}

/// What the envelope at the start of `b` decodes to.
pub open spec fn parse_envelope(b: Seq<u8>) -> Result<(u8, Seq<u8>), ProtocolError> {
    if b.len() < 5 {
        Err(ProtocolError::Truncated)
    } else if declared_length(b) > MAX_MESSAGE_SIZE {
        Err(ProtocolError::OversizedMessage)
    } else if b.len() < 5 + declared_length(b) {
        Err(ProtocolError::Truncated)
    } else {
        Ok((b[0], b.subrange(5, 5 + declared_length(b))))
    }
}

/// Round trip: an envelope decodes to the type and payload it was encoded
/// from, whatever bytes follow it on the stream.
pub proof fn lemma_envelope_round_trip(msg_type: u8, payload: Seq<u8>, rest: Seq<u8>)
    requires
        payload.len() <= MAX_MESSAGE_SIZE,
    ensures
        parse_envelope(envelope_bytes(msg_type, payload) + rest) == Ok::<(u8, Seq<u8>), ProtocolError>((msg_type, payload)),
        envelope_bytes(msg_type, payload).len() == HEADER_LEN + payload.len(),
{
    let b = envelope_bytes(msg_type, payload) + rest;
    lemma_be32_round_trip(payload.len() as u32);
    assert(b.subrange(1, 5) =~= be32(payload.len() as u32));
    assert(b.subrange(5, 5 + payload.len() as int) =~= payload);
}

/// An envelope whose header declares more than the cap is refused, whatever
/// follows the header.
pub proof fn lemma_oversized_rejected(header: Seq<u8>, rest: Seq<u8>)
    requires
        header.len() == HEADER_LEN,
        declared_length(header) > MAX_MESSAGE_SIZE,
    ensures
        parse_envelope(header + rest) == Err::<(u8, Seq<u8>), ProtocolError>(ProtocolError::OversizedMessage),
{
    assert((header + rest).subrange(1, 5) =~= header.subrange(1, 5));
}

/// The wire form of a message, or why it cannot be sent.
pub open spec fn framed(msg_type: u8, payload: Seq<u8>) -> Result<Seq<u8>, ProtocolError> {
    if payload.len() <= MAX_MESSAGE_SIZE {
        Ok(envelope_bytes(msg_type, payload))
    } else {
        Err(ProtocolError::OversizedMessage)
    }
}

/// The bytes an encoder produced, as a value of `framed`'s kind.
pub open spec fn bytes_of(r: Result<Vec<u8>, ProtocolError>) -> Result<Seq<u8>, ProtocolError> {
    match r {
        Ok(b) => Ok(b@),
        Err(e) => Err(e),
    }
}

/// Frames `payload` under the type tag `msg_type`.
pub fn encode_envelope(msg_type: u8, payload: &[u8]) -> (r: Result<Vec<u8>, ProtocolError>)
    ensures
        payload@.len() <= MAX_MESSAGE_SIZE ==> r == Ok::<Vec<u8>, ProtocolError>(r->Ok_0)
            && r->Ok_0@ == envelope_bytes(msg_type, payload@),
        payload@.len() > MAX_MESSAGE_SIZE ==> r == Err::<Vec<u8>, ProtocolError>(ProtocolError::OversizedMessage),
{
    if payload.len() > MAX_MESSAGE_SIZE as usize {
        return Err(ProtocolError::OversizedMessage);
    }
    let mut out: Vec<u8> = Vec::with_capacity(HEADER_LEN + payload.len());
    out.push(msg_type);
    push_be32(&mut out, payload.len() as u32);
    push_all(&mut out, payload);
    assert(out@ =~= envelope_bytes(msg_type, payload@));
    Ok(out)
}

/// The type tag of the envelope whose header starts `header`.
pub fn read_message_type(header: &[u8]) -> (r: Result<u8, ProtocolError>)
    ensures
        header@.len() >= 1 ==> r == Ok::<u8, ProtocolError>(header@[0]),
        header@.len() == 0 ==> r == Err::<u8, ProtocolError>(ProtocolError::Truncated),
{
    if header.len() == 0 {
        Err(ProtocolError::Truncated)
    } else {
        Ok(header[0])
    }
}

/// The payload length that `header` declares. A length over the cap is
/// refused here, before any room for the payload is made.
pub fn read_message_length(header: &[u8]) -> (r: Result<u32, ProtocolError>)
    ensures
        header@.len() < HEADER_LEN ==> r == Err::<u32, ProtocolError>(ProtocolError::Truncated),
        header@.len() >= HEADER_LEN && declared_length(header@) > MAX_MESSAGE_SIZE ==> r
            == Err::<u32, ProtocolError>(ProtocolError::OversizedMessage),
        header@.len() >= HEADER_LEN && declared_length(header@) <= MAX_MESSAGE_SIZE ==> r
            == Ok::<u32, ProtocolError>(declared_length(header@)),
{
    if header.len() < HEADER_LEN {
        return Err(ProtocolError::Truncated);
    }
    let len = get_be32(header, 1);
    if len > MAX_MESSAGE_SIZE {
        Err(ProtocolError::OversizedMessage)
    } else {
        Ok(len)
    }
}

/// Decodes the envelope at the start of `bytes`; bytes after it are left.
pub fn decode_envelope(bytes: &[u8]) -> (r: Result<Envelope, ProtocolError>)
    ensures
        match r {
            Ok(e) => parse_envelope(bytes@) == Ok::<(u8, Seq<u8>), ProtocolError>((e.msg_type, e.payload@)),
            Err(err) => parse_envelope(bytes@) == Err::<(u8, Seq<u8>), ProtocolError>(err),
        },
{
    let msg_type = read_message_type(bytes)?;
    let len = read_message_length(bytes)?;
    if bytes.len() - HEADER_LEN < len as usize {
        return Err(ProtocolError::Truncated);
    }
    let payload = copy_range(bytes, HEADER_LEN, HEADER_LEN + len as usize);
    Ok(Envelope { msg_type, payload })
}

} // verus!
