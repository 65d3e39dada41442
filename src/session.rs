use vstd::prelude::*;
use vstd::string::StringExecFns;

use crate::framing::{framed, ProtocolError};
use crate::protocol::{
    established_payload, parse_established, parse_meta, parse_preflight_fail, parse_preflight_ok,
    parse_probe, parse_transfer_result, parse_transfer_start, read_established, read_meta,
    read_preflight_fail, read_preflight_ok, read_probe, read_transfer_result, read_transfer_start,
    texts, write_established, ErrorCode, Established, EstablishedView, Meta, PreflightFail,
    PreflightOk, Probe, TransferResult, TransferStart, MSG_ESTABLISHED, MSG_META,
    MSG_PREFLIGHT_FAIL, MSG_PREFLIGHT_OK, MSG_PROBE, MSG_TRANSFER_RESULT, MSG_TRANSFER_START,
};
use crate::text::{decimal, decimal_string};

verus! {

// ---------------------------------------------------------------------------
// Handshake
// ---------------------------------------------------------------------------

/// The receiver's answer to the first message of a connection: an
/// Established that echoes the probe's session id.
pub open spec fn probe_reply(
    msg_type: u8,
    payload: Seq<u8>,
    version: Seq<char>,
    capabilities: Seq<Seq<char>>,
    server_time: u64,
) -> Result<Seq<u8>, ProtocolError> {
    if msg_type != MSG_PROBE {
        Err(ProtocolError::UnexpectedMessage)
    } else {
        match parse_probe(payload) {
            None => Err(ProtocolError::Malformed),
            Some(p) => framed(
                MSG_ESTABLISHED,
                established_payload(
                    EstablishedView { session_id: p.session_id, version, capabilities, server_time },
                ),
            ),
        }
    }
}

/// Answers the first message of a connection, offering `capabilities`;
/// gives the probe's session id with the reply.
pub fn answer_probe(
    msg_type: u8,
    payload: &[u8],
    version: &str,
    capabilities: Vec<String>,
    server_time: u64,
) -> (r: Result<(String, Vec<u8>), ProtocolError>)
    ensures
        match r {
            Ok((session_id, reply)) => probe_reply(msg_type, payload@, version@, texts(capabilities@), server_time) == Ok::<
                Seq<u8>,
                ProtocolError,
            >(reply@) && parse_probe(payload@) is Some && session_id@ == parse_probe(
                payload@,
            )->Some_0.session_id,
            Err(e) => probe_reply(msg_type, payload@, version@, texts(capabilities@), server_time) == Err::<
                Seq<u8>,
                ProtocolError,
            >(e),
        },
{
    if msg_type != MSG_PROBE {
        return Err(ProtocolError::UnexpectedMessage);
    }
    let probe = read_probe(payload)?;
    let session_id = probe.session_id;
    let reply = Established {
        session_id: session_id.clone(),
        version: String::from_str(version),
        capabilities,
        server_time,
    };
    let bytes = write_established(&reply)?;
    Ok((session_id, bytes))
}

/// Checks the reply to `probe`: an Established for the same session.
pub fn check_established(probe: &Probe, msg_type: u8, payload: &[u8]) -> (r: Result<
    Established,
    ProtocolError,
>)
    ensures
        msg_type != MSG_ESTABLISHED ==> r == Err::<Established, ProtocolError>(
            ProtocolError::UnexpectedMessage,
        ),
        msg_type == MSG_ESTABLISHED ==> match parse_established(payload@) {
            None => r == Err::<Established, ProtocolError>(ProtocolError::Malformed),
            Some(e) => if e.session_id == probe.session_id@ {
                r is Ok && r->Ok_0@ == e
            } else {
                r == Err::<Established, ProtocolError>(ProtocolError::SessionMismatch)
            },
        },
{
    if msg_type != MSG_ESTABLISHED {
        return Err(ProtocolError::UnexpectedMessage);
    }
    let reply = read_established(payload)?;
    if reply.session_id != probe.session_id {
        return Err(ProtocolError::SessionMismatch);
    }
    Ok(reply)
}

// ---------------------------------------------------------------------------
// Per-entry message order
// ---------------------------------------------------------------------------

/// Receiver: the message that opens an entry must be a Meta.
pub fn expect_meta(msg_type: u8, payload: &[u8]) -> (r: Result<Meta, ProtocolError>)
    ensures
        msg_type != MSG_META ==> r == Err::<Meta, ProtocolError>(ProtocolError::UnexpectedMessage),
        msg_type == MSG_META ==> match r {
            Ok(m) => parse_meta(payload@) == Some(m@),
            Err(e) => e == ProtocolError::Malformed && parse_meta(payload@) is None,
        },
{
    if msg_type != MSG_META {
        return Err(ProtocolError::UnexpectedMessage);
    }
    read_meta(payload)
}

/// Receiver: an admitted file's bytes are announced by a TransferStart.
pub fn expect_transfer_start(msg_type: u8, payload: &[u8]) -> (r: Result<TransferStart, ProtocolError>)
    ensures
        msg_type != MSG_TRANSFER_START ==> r == Err::<TransferStart, ProtocolError>(
            ProtocolError::UnexpectedMessage,
        ),
        msg_type == MSG_TRANSFER_START ==> match r {
            Ok(m) => parse_transfer_start(payload@) == Some(m@),
            Err(e) => e == ProtocolError::Malformed && parse_transfer_start(payload@) is None,
        },
{
    if msg_type != MSG_TRANSFER_START {
        return Err(ProtocolError::UnexpectedMessage);
    }
    read_transfer_start(payload)
}

/// The receiver's reply to a Meta.
#[derive(Debug)]
pub enum PreflightReply {
    Admitted(PreflightOk),
    Refused(PreflightFail),
}

/// Sender: the reply to a Meta must be a PreflightOk or a PreflightFail.
pub fn wait_for_preflight(msg_type: u8, payload: &[u8]) -> (r: Result<PreflightReply, ProtocolError>)
    ensures
        msg_type == MSG_PREFLIGHT_OK ==> match parse_preflight_ok(payload@) {
            Some(m) => r is Ok && r->Ok_0 is Admitted && r->Ok_0->Admitted_0@ == m,
            None => r == Err::<PreflightReply, ProtocolError>(ProtocolError::Malformed),
        },
        msg_type == MSG_PREFLIGHT_FAIL ==> match parse_preflight_fail(payload@) {
            Some(m) => r is Ok && r->Ok_0 is Refused && r->Ok_0->Refused_0@ == m,
            None => r == Err::<PreflightReply, ProtocolError>(ProtocolError::Malformed),
        },
        msg_type != MSG_PREFLIGHT_OK && msg_type != MSG_PREFLIGHT_FAIL ==> r == Err::<
            PreflightReply,
            ProtocolError,
        >(ProtocolError::UnexpectedMessage),
{
    if msg_type == MSG_PREFLIGHT_OK {
        let m = read_preflight_ok(payload)?;
        Ok(PreflightReply::Admitted(m))
    } else if msg_type == MSG_PREFLIGHT_FAIL {
        let m = read_preflight_fail(payload)?;
        Ok(PreflightReply::Refused(m))
    } else {
        Err(ProtocolError::UnexpectedMessage)
    }
}

/// Sender: the reply to a file's bytes must be a TransferResult.
pub fn expect_transfer_result(msg_type: u8, payload: &[u8]) -> (r: Result<TransferResult, ProtocolError>)
    ensures
        msg_type != MSG_TRANSFER_RESULT ==> r == Err::<TransferResult, ProtocolError>(
            ProtocolError::UnexpectedMessage,
        ),
        msg_type == MSG_TRANSFER_RESULT ==> match r {
            Ok(m) => parse_transfer_result(payload@) == Some(m@),
            Err(e) => e == ProtocolError::Malformed && parse_transfer_result(payload@) is None,
        },
{
    if msg_type != MSG_TRANSFER_RESULT {
        return Err(ProtocolError::UnexpectedMessage);
    }
    read_transfer_result(payload)
}

// ---------------------------------------------------------------------------
// Attempt verdicts
// ---------------------------------------------------------------------------

/// Why a sender's attempt failed.
#[derive(Debug)]
pub enum TransferError {
    /// The peer broke the protocol.
    Protocol(ProtocolError),
    /// The receiver refused an entry, for this reason.
    Refused(String),
    /// The receiver reported a failed file.
    Failed(ErrorCode),
    /// The source yielded another number of bytes than announced.
    SizeMismatch { sent: u64, expected: u64 },
    /// A local or network operation failed, with its message.
    Io(String),
}

/// Sender: a file must yield exactly the bytes its Meta announced.
pub fn check_sent(sent: u64, expected: u64) -> (r: Result<(), TransferError>)
    ensures
        sent == expected ==> r is Ok,
        sent != expected ==> r is Err && r->Err_0 == (TransferError::SizeMismatch { sent, expected }),
{
    if sent != expected {
        Err(TransferError::SizeMismatch { sent, expected })
    } else {
        Ok(())
    }
}

/// Sender: a failed TransferResult fails the attempt.
pub fn result_verdict(result: &TransferResult) -> (r: Result<(), TransferError>)
    ensures
        result.ok ==> r is Ok,
        !result.ok ==> r is Err && r->Err_0 == TransferError::Failed(result.code),
{
    if result.ok {
        Ok(())
    } else {
        Err(TransferError::Failed(result.code))
    }
}

/// Sender: how an attempt stands after some of its entries. A refused entry
/// does not stop the others, but fails the attempt at its end.
#[derive(Debug)]
pub struct AttemptProgress {
    pub entries_done: u64,
    pub first_refusal: Option<String>,
}

impl AttemptProgress {
    pub fn new() -> (r: Self)
        ensures
            r.entries_done == 0,
            r.first_refusal is None,
    {
        AttemptProgress { entries_done: 0, first_refusal: None }
    }

    /// Records the receiver's reply to one entry, and tells whether the
    /// entry's bytes are to be sent: only for an admitted file.
    /// The count of entries saturates at the largest `u64`.
    pub fn record(&mut self, reply: PreflightReply, is_dir: bool) -> (stream: bool)
        ensures
            stream == (reply is Admitted && !is_dir),
            final(self).entries_done == if old(self).entries_done < u64::MAX {
                old(self).entries_done + 1
            } else {
                old(self).entries_done as int
            },
            match reply {
                PreflightReply::Admitted(_) => final(self).first_refusal == old(self).first_refusal,
                PreflightReply::Refused(f) => match old(self).first_refusal {
                    Some(_) => final(self).first_refusal == old(self).first_refusal,
                    None => final(self).first_refusal is Some && final(self).first_refusal->Some_0@
                        == f.reason@,
                },
            },
    {
        if self.entries_done < u64::MAX {
            self.entries_done = self.entries_done + 1;
        }
        match reply {
            PreflightReply::Admitted(_) => !is_dir,
            PreflightReply::Refused(f) => {
                if self.first_refusal.is_none() {
                    self.first_refusal = Some(f.reason);
                }
                false
            },
        }
    }

    /// The attempt succeeds when no entry was refused.
    pub fn verdict(self) -> (r: Result<u64, TransferError>)
        ensures
            match self.first_refusal {
                None => r == Ok::<u64, TransferError>(self.entries_done),
                Some(reason) => r is Err && r->Err_0 is Refused && r->Err_0->Refused_0@ == reason@,
            },
    {
        match self.first_refusal {
            None => Ok(self.entries_done),
            Some(reason) => Err(TransferError::Refused(reason)),
        }
    }
}

pub open spec fn protocol_error_text(e: ProtocolError) -> Seq<char> {
    match e {
        ProtocolError::Truncated => "protocol error: truncated message"@,
        ProtocolError::OversizedMessage => "protocol error: message too large"@,
        ProtocolError::UnexpectedMessage => "protocol error: unexpected message"@,
        ProtocolError::Malformed => "protocol error: malformed message"@,
        ProtocolError::SessionMismatch => "protocol error: session id mismatch"@,
        ProtocolError::SizeMismatch => "protocol error: announced size differs from metadata"@,
    }
}

/// A line of text that describes an error.
pub open spec fn error_text(e: TransferError) -> Seq<char> {
    match e {
        TransferError::Protocol(p) => protocol_error_text(p),
        TransferError::Refused(reason) => reason@,
        TransferError::Failed(_) => "Transfer failed"@,
        TransferError::SizeMismatch { sent, expected } => "File size mismatch: sent "@ + decimal(
            sent as nat,
        ) + " bytes, expected "@ + decimal(expected as nat),
        TransferError::Io(message) => message@,
    }
}

impl TransferError {
    pub fn describe(&self) -> (r: String)
        ensures
            r@ == error_text(*self),
    {
        match self {
            TransferError::Protocol(p) => match p {
                ProtocolError::Truncated => String::from_str("protocol error: truncated message"),
                ProtocolError::OversizedMessage => String::from_str(
                    "protocol error: message too large",
                ),
                ProtocolError::UnexpectedMessage => String::from_str(
                    "protocol error: unexpected message",
                ),
                ProtocolError::Malformed => String::from_str("protocol error: malformed message"),
                ProtocolError::SessionMismatch => String::from_str(
                    "protocol error: session id mismatch",
                ),
                ProtocolError::SizeMismatch => String::from_str(
                    "protocol error: announced size differs from metadata",
                ),
            },
            TransferError::Refused(reason) => reason.clone(),
            TransferError::Failed(_) => String::from_str("Transfer failed"),
            TransferError::SizeMismatch { sent, expected } => {
                let mut s = String::from_str("File size mismatch: sent ");
                let a = decimal_string(*sent);
                s.append(a.as_str());
                s.append(" bytes, expected ");
                let b = decimal_string(*expected);
                s.append(b.as_str());
                s
            },
            TransferError::Io(message) => message.clone(),
        }
    }
}

} // verus!
