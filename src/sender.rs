use vstd::prelude::*;

use crate::framing::{bytes_of, framed, ProtocolError};
use crate::protocol::{
    meta_payload, parse_established, parse_preflight_fail, parse_preflight_ok,
    parse_transfer_result, probe_payload, transfer_start_payload, write_meta, write_probe,
    write_transfer_start, Established, FileMeta, Meta, MetaView, Probe, ProbeView, TransferStart,
    TransferStartView, MSG_ESTABLISHED, MSG_META, MSG_PREFLIGHT_FAIL, MSG_PREFLIGHT_OK, MSG_PROBE,
    MSG_TRANSFER_RESULT, MSG_TRANSFER_START,
};
use crate::session::{
    check_established, check_sent, expect_transfer_result, result_verdict, wait_for_preflight,
    AttemptProgress, PreflightReply, TransferError,
};

verus! {

/// Where a sending connection stands.
pub enum SenderPhase {
    /// The probe went out; the Established reply is due.
    AwaitEstablished,
    /// Between entries.
    Ready,
    /// An entry's Meta went out; the receiver's verdict is due.
    AwaitPreflight { is_dir: bool, size: u64 },
    /// A file's raw bytes are going out.
    Streaming { size: u64, sent: u64 },
    /// All of a file's bytes went out; its TransferResult is due.
    AwaitResult,
    /// The attempt is over.
    Closed,
}

/// The sending side of one attempt. Each method takes one event and says
/// what to do next; a method called out of turn closes the attempt.
pub struct Sender {
    phase: SenderPhase,
    probe: Probe,
    progress: AttemptProgress,
}

pub open spec fn unexpected<T>() -> Result<T, TransferError> {
    Err(TransferError::Protocol(ProtocolError::UnexpectedMessage))
}

impl Sender {
    /// A streamed file never goes past its announced size.
    pub closed spec fn wf(&self) -> bool {
        self.phase is Streaming ==> self.phase->Streaming_sent <= self.phase->Streaming_size
    }

    pub closed spec fn phase(&self) -> SenderPhase {
        self.phase
    }

    /// The probe that opened the connection.
    pub closed spec fn probe(&self) -> ProbeView {
        self.probe@
    }

    /// The reason of the first entry the receiver refused, if any.
    pub closed spec fn first_refusal(&self) -> Option<Seq<char>> {
        match self.progress.first_refusal {
            Some(r) => Some(r@),
            None => None,
        }
    }

    /// Entries the receiver has decided on.
    pub closed spec fn entries_done(&self) -> u64 {
        self.progress.entries_done
    }

    /// Starts an attempt with `probe`; the probe message goes out first.
    pub fn new(probe: Probe) -> (r: (Self, Result<Vec<u8>, ProtocolError>))
        ensures
            r.0.wf(),
            r.0.probe() == probe@,
            r.0.first_refusal() is None,
            r.0.entries_done() == 0,
            bytes_of(r.1) == framed(MSG_PROBE, probe_payload(probe@)),
            r.1 is Ok ==> r.0.phase() is AwaitEstablished,
            r.1 is Err ==> r.0.phase() is Closed,
    {
        let hello = write_probe(&probe);
        let phase = if hello.is_ok() {
            SenderPhase::AwaitEstablished
        } else {
            SenderPhase::Closed
        };
        (Sender { phase, probe, progress: AttemptProgress::new() }, hello)
    }

    pub fn is_closed(&self) -> (r: bool)
        ensures
            r == self.phase() is Closed,
    {
        match self.phase {
            SenderPhase::Closed => true,
            _ => false,
        }
    }

    /// The reply to the probe: an Established for the same session.
    pub fn on_established(&mut self, msg_type: u8, payload: &[u8]) -> (r: Result<Established, ProtocolError>)
        requires
            old(self).wf(),
        ensures
            final(self).wf(),
            final(self).probe() == old(self).probe(),
            final(self).first_refusal() == old(self).first_refusal(),
            final(self).entries_done() == old(self).entries_done(),
            !(old(self).phase() is AwaitEstablished) || msg_type != MSG_ESTABLISHED ==> r == Err::<
                Established,
                ProtocolError,
            >(ProtocolError::UnexpectedMessage),
            old(self).phase() is AwaitEstablished && msg_type == MSG_ESTABLISHED ==> match parse_established(
                payload@,
            ) {
                None => r == Err::<Established, ProtocolError>(ProtocolError::Malformed),
                Some(e) => if e.session_id == old(self).probe().session_id {
                    r is Ok && r->Ok_0@ == e
                } else {
                    r == Err::<Established, ProtocolError>(ProtocolError::SessionMismatch)
                },
            },
            r is Ok ==> final(self).phase() is Ready,
            r is Err ==> final(self).phase() is Closed,
    {
        match self.phase {
            SenderPhase::AwaitEstablished => {},
            _ => {
                self.phase = SenderPhase::Closed;
                return Err(ProtocolError::UnexpectedMessage);
            },
        }
        let r = check_established(&self.probe, msg_type, payload);
        self.phase = if r.is_ok() {
            SenderPhase::Ready
        } else {
            SenderPhase::Closed
        };
        r
    }

    /// Opens an entry: gives its Meta message.
    pub fn send_entry(&mut self, file: FileMeta) -> (r: Result<Vec<u8>, TransferError>)
        requires
            old(self).wf(),
        ensures
            final(self).wf(),
            final(self).probe() == old(self).probe(),
            final(self).first_refusal() == old(self).first_refusal(),
            final(self).entries_done() == old(self).entries_done(),
            !(old(self).phase() is Ready) ==> r == unexpected::<Vec<u8>>() && final(self).phase() is Closed,
            old(self).phase() is Ready ==> match framed(
                MSG_META,
                meta_payload(MetaView { session_id: old(self).probe().session_id, file: file@ }),
            ) {
                Ok(b) => r is Ok && r->Ok_0@ == b && final(self).phase() == (SenderPhase::AwaitPreflight {
                    is_dir: file.is_dir,
                    size: file.size,
                }),
                Err(e) => r == Err::<Vec<u8>, TransferError>(TransferError::Protocol(e)) && final(self).phase() is Closed,
            },
    {
        match self.phase {
            SenderPhase::Ready => {},
            _ => {
                self.phase = SenderPhase::Closed;
                return Err(TransferError::Protocol(ProtocolError::UnexpectedMessage));
            },
        }
        let is_dir = file.is_dir;
        let size = file.size;
        let meta = Meta { session_id: self.probe.session_id.clone(), file };
        match write_meta(&meta) {
            Ok(b) => {
                self.phase = SenderPhase::AwaitPreflight { is_dir, size };
                Ok(b)
            },
            Err(e) => {
                self.phase = SenderPhase::Closed;
                Err(TransferError::Protocol(e))
            },
        }
    }

    /// The receiver's verdict on the open entry, which must name this
    /// session. For an admitted file it gives the TransferStart to send before
    /// the file's bytes; otherwise the next entry may follow. A refusal fails
    /// the attempt only at its end.
    pub fn on_preflight(&mut self, msg_type: u8, payload: &[u8]) -> (r: Result<
        Option<Vec<u8>>,
        TransferError,
    >)
        requires
            old(self).wf(),
        ensures
            final(self).wf(),
            final(self).probe() == old(self).probe(),
            !(old(self).phase() is AwaitPreflight) ==> r == unexpected::<Option<Vec<u8>>>() && final(self).phase() is Closed,
            old(self).phase() is AwaitPreflight ==> ({
                let is_dir = old(self).phase()->AwaitPreflight_is_dir;
                let size = old(self).phase()->AwaitPreflight_size;
                let sid = old(self).probe().session_id;
                if msg_type == MSG_PREFLIGHT_OK && parse_preflight_ok(payload@) is Some
                    && parse_preflight_ok(payload@)->Some_0.session_id == sid {
                    &&& final(self).first_refusal() == old(self).first_refusal()
                    &&& is_dir ==> r == Ok::<Option<Vec<u8>>, TransferError>(None) && final(self).phase() is Ready
                    &&& !is_dir ==> match framed(
                        MSG_TRANSFER_START,
                        transfer_start_payload(TransferStartView { session_id: sid, file_size: size }),
                    ) {
                        Ok(b) => r is Ok && r->Ok_0 is Some && r->Ok_0->Some_0@ == b && final(self).phase()
                            == (SenderPhase::Streaming { size, sent: 0 }),
                        Err(e) => r == Err::<Option<Vec<u8>>, TransferError>(TransferError::Protocol(e))
                            && final(self).phase() is Closed,
                    }
                } else if msg_type == MSG_PREFLIGHT_FAIL && parse_preflight_fail(payload@) is Some
                    && parse_preflight_fail(payload@)->Some_0.session_id == sid {
                    &&& r == Ok::<Option<Vec<u8>>, TransferError>(None)
                    &&& final(self).phase() is Ready
                    &&& final(self).first_refusal() == (match old(self).first_refusal() {
                        Some(f) => Some(f),
                        None => Some(parse_preflight_fail(payload@)->Some_0.reason),
                    })
                } else if (msg_type == MSG_PREFLIGHT_OK && parse_preflight_ok(payload@) is Some) || (
                msg_type == MSG_PREFLIGHT_FAIL && parse_preflight_fail(payload@) is Some) {
                    r == Err::<Option<Vec<u8>>, TransferError>(
                        TransferError::Protocol(ProtocolError::SessionMismatch),
                    ) && final(self).phase() is Closed
                } else if msg_type == MSG_PREFLIGHT_OK || msg_type == MSG_PREFLIGHT_FAIL {
                    r == Err::<Option<Vec<u8>>, TransferError>(
                        TransferError::Protocol(ProtocolError::Malformed),
                    ) && final(self).phase() is Closed
                } else {
                    r == unexpected::<Option<Vec<u8>>>() && final(self).phase() is Closed
                }
            }),
    {
        let (is_dir, size) = match self.phase {
            SenderPhase::AwaitPreflight { is_dir, size } => (is_dir, size),
            _ => {
                self.phase = SenderPhase::Closed;
                return Err(TransferError::Protocol(ProtocolError::UnexpectedMessage));
            },
        };
        let reply = match wait_for_preflight(msg_type, payload) {
            Ok(reply) => reply,
            Err(e) => {
                self.phase = SenderPhase::Closed;
                return Err(TransferError::Protocol(e));
            },
        };
        let same_session = match &reply {
            PreflightReply::Admitted(m) => m.session_id == self.probe.session_id,
            PreflightReply::Refused(f) => f.session_id == self.probe.session_id,
        };
        if !same_session {
            self.phase = SenderPhase::Closed;
            return Err(TransferError::Protocol(ProtocolError::SessionMismatch));
        }
        if self.progress.record(reply, is_dir) {
            let start = TransferStart { session_id: self.probe.session_id.clone(), file_size: size };
            match write_transfer_start(&start) {
                Ok(b) => {
                    self.phase = SenderPhase::Streaming { size, sent: 0 };
                    Ok(Some(b))
                },
                Err(e) => {
                    self.phase = SenderPhase::Closed;
                    Err(TransferError::Protocol(e))
                },
            }
        } else {
            self.phase = SenderPhase::Ready;
            Ok(None)
        }
    }

    /// How many of `available` bytes read from the file may go out: never
    /// past the size the Meta announced.
    pub fn sendable(&self, available: usize) -> (r: usize)
        requires
            self.wf(),
        ensures
            self.phase() is Streaming ==> r as int == if available as int <= self.phase()->Streaming_size
                - self.phase()->Streaming_sent {
                available as int
            } else {
                self.phase()->Streaming_size - self.phase()->Streaming_sent
            },
            !(self.phase() is Streaming) ==> r == 0,
    {
        match self.phase {
            SenderPhase::Streaming { size, sent } => {
                if available as u64 <= size - sent {
                    available
                } else {
                    (size - sent) as usize
                }
            },
            _ => 0,
        }
    }

    /// Records that `n` bytes of the file went out.
    pub fn on_sent(&mut self, n: usize) -> (r: Result<(), TransferError>)
        requires
            old(self).wf(),
        ensures
            final(self).wf(),
            final(self).probe() == old(self).probe(),
            final(self).first_refusal() == old(self).first_refusal(),
            old(self).phase() is Streaming && n as int <= old(self).phase()->Streaming_size - old(self).phase()->Streaming_sent ==> r is Ok && final(self).phase() == (SenderPhase::Streaming {
                size: old(self).phase()->Streaming_size,
                sent: (old(self).phase()->Streaming_sent + n) as u64,
            }),
            !(old(self).phase() is Streaming && n as int <= old(self).phase()->Streaming_size - old(self).phase()->Streaming_sent) ==> r == unexpected::<()>() && final(self).phase() is Closed,
    {
        match self.phase {
            SenderPhase::Streaming { size, sent } => {
                if sent <= size && n as u64 <= size - sent {
                    self.phase = SenderPhase::Streaming { size, sent: sent + n as u64 };
                    return Ok(());
                }
            },
            _ => {},
        }
        self.phase = SenderPhase::Closed;
        Err(TransferError::Protocol(ProtocolError::UnexpectedMessage))
    }

    /// The file's reader reached its end: every announced byte must have
    /// gone out.
    pub fn end_of_file(&mut self) -> (r: Result<(), TransferError>)
        requires
            old(self).wf(),
        ensures
            final(self).wf(),
            final(self).probe() == old(self).probe(),
            final(self).first_refusal() == old(self).first_refusal(),
            !(old(self).phase() is Streaming) ==> r == unexpected::<()>() && final(self).phase() is Closed,
            old(self).phase() is Streaming ==> ({
                let size = old(self).phase()->Streaming_size;
                let sent = old(self).phase()->Streaming_sent;
                if sent == size {
                    r is Ok && final(self).phase() is AwaitResult
                } else {
                    r is Err && r->Err_0 == (TransferError::SizeMismatch { sent, expected: size })
                        && final(self).phase() is Closed
                }
            }),
    {
        let (size, sent) = match self.phase {
            SenderPhase::Streaming { size, sent } => (size, sent),
            _ => {
                self.phase = SenderPhase::Closed;
                return Err(TransferError::Protocol(ProtocolError::UnexpectedMessage));
            },
        };
        match check_sent(sent, size) {
            Ok(()) => {
                self.phase = SenderPhase::AwaitResult;
                Ok(())
            },
            Err(e) => {
                self.phase = SenderPhase::Closed;
                Err(e)
            },
        }
    }

    /// The receiver's TransferResult for the file; a failed one fails the
    /// attempt at once.
    pub fn on_result(&mut self, msg_type: u8, payload: &[u8]) -> (r: Result<(), TransferError>)
        requires
            old(self).wf(),
        ensures
            final(self).wf(),
            final(self).probe() == old(self).probe(),
            final(self).first_refusal() == old(self).first_refusal(),
            !(old(self).phase() is AwaitResult) || msg_type != MSG_TRANSFER_RESULT ==> r
                == unexpected::<()>() && final(self).phase() is Closed,
            old(self).phase() is AwaitResult && msg_type == MSG_TRANSFER_RESULT ==> match parse_transfer_result(
                payload@,
            ) {
                None => r == Err::<(), TransferError>(TransferError::Protocol(ProtocolError::Malformed))
                    && final(self).phase() is Closed,
                Some(t) => if t.session_id != old(self).probe().session_id {
                    r == Err::<(), TransferError>(TransferError::Protocol(ProtocolError::SessionMismatch))
                        && final(self).phase() is Closed
                } else if t.ok {
                    r is Ok && final(self).phase() is Ready
                } else {
                    r == Err::<(), TransferError>(TransferError::Failed(t.code)) && final(self).phase() is Closed
                },
            },
    {
        match self.phase {
            SenderPhase::AwaitResult => {},
            _ => {
                self.phase = SenderPhase::Closed;
                return Err(TransferError::Protocol(ProtocolError::UnexpectedMessage));
            },
        }
        let result = match expect_transfer_result(msg_type, payload) {
            Ok(t) => t,
            Err(e) => {
                self.phase = SenderPhase::Closed;
                return Err(TransferError::Protocol(e));
            },
        };
        if result.session_id != self.probe.session_id {
            self.phase = SenderPhase::Closed;
            return Err(TransferError::Protocol(ProtocolError::SessionMismatch));
        }
        match result_verdict(&result) {
            Ok(()) => {
                self.phase = SenderPhase::Ready;
                Ok(())
            },
            Err(e) => {
                self.phase = SenderPhase::Closed;
                Err(e)
            },
        }
    }

    /// Ends the attempt after its last entry: it succeeds when no entry was
    /// refused, with the number of entries.
    pub fn finish(self) -> (r: Result<u64, TransferError>)
        ensures
            !(self.phase() is Ready) ==> r == unexpected::<u64>(),
            self.phase() is Ready ==> match self.first_refusal() {
                None => r == Ok::<u64, TransferError>(self.entries_done()),
                Some(reason) => r is Err && r->Err_0 is Refused && r->Err_0->Refused_0@ == reason,
            },
    {
        match self.phase {
            SenderPhase::Ready => self.progress.verdict(),
            _ => Err(TransferError::Protocol(ProtocolError::UnexpectedMessage)),
        }
    }
}

} // verus!
