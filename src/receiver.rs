use vstd::prelude::*;

use crate::admission::{
    admission_effect, admission_reply, decide_admission, refuse, refusal, refusal_reason,
    AdmissionEffect, OverwriteMode, PathState,
};
use crate::checksum::digest;
use crate::framing::{bytes_of, framed, ProtocolError};
use crate::protocol::{
    parse_meta, parse_probe, parse_transfer_start, texts, preflight_fail_payload, preflight_ok_payload,
    transfer_result_payload, ErrorCode, FileMeta, PreflightFailView, PreflightOkView,
    TransferResultView, MSG_META, MSG_PREFLIGHT_FAIL, MSG_PREFLIGHT_OK, MSG_TRANSFER_RESULT,
    MSG_TRANSFER_START,
};
use crate::receive::{outcome_message, verified, FileReceive, TransferOutcome, CHUNK_SIZE};
use crate::session::{answer_probe, expect_meta, expect_transfer_start, probe_reply};

verus! {

/// Where a receiving connection stands.
pub enum ReceiverPhase {
    /// The sender's probe is due.
    AwaitProbe,
    /// The next entry's Meta is due; the sender may also close the stream.
    AwaitMeta,
    /// A Meta arrived and the destination is being examined.
    Admitting { is_dir: bool, size: u64, declared: Vec<u8> },
    /// A file was admitted; its TransferStart is due.
    AwaitStart { size: u64, declared: Vec<u8> },
    /// The file's raw bytes are arriving.
    Streaming { declared: Vec<u8> },
    /// The connection is over.
    Closed,
}

/// The receiving side of one connection. Each method takes one event and
/// says what to do next; a method called out of turn closes the session.
pub struct Receiver {
    phase: ReceiverPhase,
    file: FileReceive,
    version: String,
    verify: bool,
    session: String,
    capabilities: Vec<String>,
}

/// What admitting an entry decided: the reply for the sender and the work
/// to do on disk.
pub struct Admission {
    pub reply: Vec<u8>,
    pub effect: AdmissionEffect,
}

/// Why an entry is refused when its final path could not be resolved, or
/// else what the destination's state decides.
pub open spec fn entry_refusal(
    target: Result<PathState, ErrorCode>,
    is_dir: bool,
    size: u64,
    mode: OverwriteMode,
    confirmed: bool,
    available: u64,
) -> Option<ErrorCode> {
    match target {
        Err(code) => Some(code),
        Ok(dest) => refusal(is_dir, size, dest, mode, confirmed, available),
    }
}

/// The reply to an entry, as it reaches the wire.
pub open spec fn entry_reply(
    session_id: Seq<char>,
    target: Result<PathState, ErrorCode>,
    is_dir: bool,
    size: u64,
    mode: OverwriteMode,
    confirmed: bool,
    available: u64,
) -> Result<Seq<u8>, ProtocolError> {
    match entry_refusal(target, is_dir, size, mode, confirmed, available) {
        Some(code) => framed(
            MSG_PREFLIGHT_FAIL,
            preflight_fail_payload(
                PreflightFailView { session_id, code, reason: refusal_reason(code, size, available) },
            ),
        ),
        None => framed(
            MSG_PREFLIGHT_OK,
            preflight_ok_payload(
                PreflightOkView {
                    session_id,
                    destination_exists: target->Ok_0.exists,
                    available_space: if is_dir {
                        0
                    } else {
                        available
                    },
                },
            ),
        ),
    }
}

/// The digest a receiver checks a file against: the declared one, or none
/// when verification is off.
pub open spec fn checked_digest(verify: bool, declared: Seq<u8>) -> Seq<u8> {
    if verify {
        declared
    } else {
        Seq::empty()
    }
}

impl Receiver {
    pub closed spec fn wf(&self) -> bool {
        self.file.wf()
    }

    pub closed spec fn phase(&self) -> ReceiverPhase {
        self.phase
    }

    /// The version this side announces.
    pub closed spec fn version(&self) -> Seq<char> {
        self.version@
    }

    /// The capabilities this side offers in its handshake reply.
    pub closed spec fn capabilities(&self) -> Seq<Seq<char>> {
        texts(self.capabilities@)
    }

    /// The session id the probe announced.
    pub closed spec fn session(&self) -> Seq<char> {
        self.session@
    }

    /// Whether files are checked against the digest their Meta declares.
    pub closed spec fn verify(&self) -> bool {
        self.verify
    }

    /// The bytes of the file being received.
    pub closed spec fn received(&self) -> Seq<u8> {
        self.file.data()
    }

    /// The size of the file being received.
    pub closed spec fn expected(&self) -> u64 {
        self.file.size()
    }

    pub open spec fn same_setup(&self, other: &Receiver) -> bool {
        self.version() == other.version() && self.verify() == other.verify()
    }

    pub open spec fn same_session(&self, other: &Receiver) -> bool {
        self.same_setup(other) && self.session() == other.session()
    }

    pub fn new(version: String, verify: bool, capabilities: Vec<String>) -> (r: Self)
        ensures
            r.wf(),
            r.phase() is AwaitProbe,
            r.version() == version@,
            r.verify() == verify,
            r.capabilities() == texts(capabilities@),
    {
        Receiver {
            phase: ReceiverPhase::AwaitProbe,
            file: FileReceive::new(0),
            version,
            verify,
            session: String::new(),
            capabilities,
        }
    }

    /// Whether the connection is over.
    pub fn is_closed(&self) -> (r: bool)
        ensures
            r == self.phase() is Closed,
    {
        match self.phase {
            ReceiverPhase::Closed => true,
            _ => false,
        }
    }

    /// The first message of the connection; on success the reply goes back
    /// and the probe's session id becomes the session's.
    pub fn on_probe(&mut self, msg_type: u8, payload: &[u8], server_time: u64) -> (r: Result<
        Vec<u8>,
        ProtocolError,
    >)
        requires
            old(self).wf(),
        ensures
            final(self).wf(),
            final(self).same_setup(old(self)),
            old(self).phase() is AwaitProbe ==> bytes_of(r) == probe_reply(
                msg_type,
                payload@,
                old(self).version(),
                old(self).capabilities(),
                server_time,
            ),
            !(old(self).phase() is AwaitProbe) ==> r == Err::<Vec<u8>, ProtocolError>(
                ProtocolError::UnexpectedMessage,
            ),
            r is Ok ==> final(self).phase() is AwaitMeta && parse_probe(payload@) is Some
                && final(self).session() == parse_probe(payload@)->Some_0.session_id,
            r is Err ==> final(self).phase() is Closed,
    {
        match self.phase {
            ReceiverPhase::AwaitProbe => {},
            _ => {
                self.phase = ReceiverPhase::Closed;
                return Err(ProtocolError::UnexpectedMessage);
            },
        }
        let mut capabilities: Vec<String> = Vec::new();
        std::mem::swap(&mut self.capabilities, &mut capabilities);
        match answer_probe(msg_type, payload, self.version.as_str(), capabilities, server_time) {
            Ok((session, reply)) => {
                self.session = session;
                self.phase = ReceiverPhase::AwaitMeta;
                Ok(reply)
            },
            Err(e) => {
                self.phase = ReceiverPhase::Closed;
                Err(e)
            },
        }
    }

    /// The message that opens an entry: its Meta, within this session.
    pub fn on_meta(&mut self, msg_type: u8, payload: &[u8]) -> (r: Result<FileMeta, ProtocolError>)
        requires
            old(self).wf(),
        ensures
            final(self).wf(),
            final(self).same_session(old(self)),
            !(old(self).phase() is AwaitMeta) || msg_type != MSG_META ==> r == Err::<
                FileMeta,
                ProtocolError,
            >(ProtocolError::UnexpectedMessage),
            old(self).phase() is AwaitMeta && msg_type == MSG_META ==> match parse_meta(payload@) {
                None => r == Err::<FileMeta, ProtocolError>(ProtocolError::Malformed),
                Some(m) => if m.session_id == old(self).session() {
                    r is Ok && r->Ok_0@ == m.file
                } else {
                    r == Err::<FileMeta, ProtocolError>(ProtocolError::SessionMismatch)
                },
            },
            r is Err ==> final(self).phase() is Closed,
            r is Ok ==> final(self).phase() is Admitting && final(self).phase()->Admitting_is_dir
                == r->Ok_0.is_dir && final(self).phase()->Admitting_size == r->Ok_0.size
                && final(self).phase()->Admitting_declared@ == checked_digest(
                old(self).verify(),
                r->Ok_0.checksum@,
            ),
    {
        match self.phase {
            ReceiverPhase::AwaitMeta => {},
            _ => {
                self.phase = ReceiverPhase::Closed;
                return Err(ProtocolError::UnexpectedMessage);
            },
        }
        let meta = match expect_meta(msg_type, payload) {
            Ok(meta) => meta,
            Err(e) => {
                self.phase = ReceiverPhase::Closed;
                return Err(e);
            },
        };
        if meta.session_id != self.session {
            self.phase = ReceiverPhase::Closed;
            return Err(ProtocolError::SessionMismatch);
        }
        let file = meta.file;
        let declared = if self.verify {
            file.checksum.clone()
        } else {
            Vec::new()
        };
        self.phase = ReceiverPhase::Admitting { is_dir: file.is_dir, size: file.size, declared };
        Ok(file)
    }

    /// Whether deciding the entry being admitted needs the free space at its
    /// destination: only a file does.
    pub fn needs_space(&self) -> (r: bool)
        ensures
            r == (self.phase() is Admitting && !self.phase()->Admitting_is_dir),
    {
        match self.phase {
            ReceiverPhase::Admitting { is_dir, .. } => !is_dir,
            _ => false,
        }
    }

    /// Decides the entry that is being admitted. `target` is the state of its
    /// final path, or why none could be resolved; `confirmed` and `available`
    /// are as for `decide_admission`.
    pub fn decide_entry(
        &mut self,
        target: Result<PathState, ErrorCode>,
        mode: OverwriteMode,
        confirmed: bool,
        available: u64,
    ) -> (r: Result<Admission, ProtocolError>)
        requires
            old(self).wf(),
        ensures
            final(self).wf(),
            final(self).same_session(old(self)),
            !(old(self).phase() is Admitting) ==> r == Err::<Admission, ProtocolError>(
                ProtocolError::UnexpectedMessage,
            ) && final(self).phase() is Closed,
            old(self).phase() is Admitting ==> ({
                let is_dir = old(self).phase()->Admitting_is_dir;
                let size = old(self).phase()->Admitting_size;
                let refused = entry_refusal(target, is_dir, size, mode, confirmed, available);
                &&& match r {
                    Ok(a) => entry_reply(old(self).session(), target, is_dir, size, mode, confirmed, available) == Ok::<
                        Seq<u8>,
                        ProtocolError,
                    >(a.reply@) && a.effect == (if refused is Some {
                        AdmissionEffect::Skip
                    } else if is_dir {
                        AdmissionEffect::MakeDirectory
                    } else {
                        AdmissionEffect::MakeParentAndReceive
                    }),
                    Err(e) => entry_reply(old(self).session(), target, is_dir, size, mode, confirmed, available) == Err::<
                        Seq<u8>,
                        ProtocolError,
                    >(e),
                }
                &&& r is Err ==> final(self).phase() is Closed
                &&& r is Ok && refused is None && !is_dir ==> final(self).phase() is AwaitStart
                    && final(self).phase()->AwaitStart_size == size
                    && final(self).phase()->AwaitStart_declared
                    == old(self).phase()->Admitting_declared
                &&& r is Ok && (refused is Some || is_dir) ==> final(self).phase() is AwaitMeta
            }),
    {
        let mut phase = ReceiverPhase::Closed;
        std::mem::swap(&mut self.phase, &mut phase);
        let (is_dir, size, declared) = match phase {
            ReceiverPhase::Admitting { is_dir, size, declared } => (is_dir, size, declared),
            _ => return Err(ProtocolError::UnexpectedMessage),
        };
        let decision = match target {
            Err(code) => refuse(code, size, available),
            Ok(dest) => decide_admission(is_dir, size, dest, mode, confirmed, available),
        };
        let effect = admission_effect(is_dir, &decision);
        let reply = match admission_reply(decision, self.session.as_str()) {
            Ok(b) => b,
            Err(e) => return Err(e),
        };
        self.phase = match effect {
            AdmissionEffect::MakeParentAndReceive => ReceiverPhase::AwaitStart { size, declared },
            _ => ReceiverPhase::AwaitMeta,
        };
        Ok(Admission { reply, effect })
    }

    /// The TransferStart of an admitted file; it must announce the admitted
    /// size. Returns that size.
    pub fn on_transfer_start(&mut self, msg_type: u8, payload: &[u8]) -> (r: Result<u64, ProtocolError>)
        requires
            old(self).wf(),
        ensures
            final(self).wf(),
            final(self).same_session(old(self)),
            !(old(self).phase() is AwaitStart) || msg_type != MSG_TRANSFER_START ==> r == Err::<
                u64,
                ProtocolError,
            >(ProtocolError::UnexpectedMessage),
            old(self).phase() is AwaitStart && msg_type == MSG_TRANSFER_START ==> match parse_transfer_start(
                payload@,
            ) {
                None => r == Err::<u64, ProtocolError>(ProtocolError::Malformed),
                Some(t) => if t.session_id != old(self).session() {
                    r == Err::<u64, ProtocolError>(ProtocolError::SessionMismatch)
                } else if t.file_size == old(self).phase()->AwaitStart_size {
                    r == Ok::<u64, ProtocolError>(t.file_size)
                } else {
                    r == Err::<u64, ProtocolError>(ProtocolError::SizeMismatch)
                },
            },
            r is Err ==> final(self).phase() is Closed,
            r is Ok ==> final(self).phase() is Streaming && final(self).phase()->Streaming_declared
                == old(self).phase()->AwaitStart_declared && final(self).received() == Seq::<
                u8,
            >::empty() && final(self).expected() == r->Ok_0,
    {
        let mut phase = ReceiverPhase::Closed;
        std::mem::swap(&mut self.phase, &mut phase);
        let (size, declared) = match phase {
            ReceiverPhase::AwaitStart { size, declared } => (size, declared),
            _ => return Err(ProtocolError::UnexpectedMessage),
        };
        let start = expect_transfer_start(msg_type, payload)?;
        if start.session_id != self.session {
            return Err(ProtocolError::SessionMismatch);
        }
        if start.file_size != size {
            return Err(ProtocolError::SizeMismatch);
        }
        self.file = FileReceive::new(size);
        self.phase = ReceiverPhase::Streaming { declared };
        Ok(size)
    }

    /// How many raw bytes to read next: the rest of the file, at most a
    /// chunk; none outside streaming.
    pub fn next_chunk_len(&self) -> (r: usize)
        requires
            self.wf(),
        ensures
            !(self.phase() is Streaming) ==> r == 0,
            self.phase() is Streaming ==> r as int == if self.expected() - self.received().len()
                < CHUNK_SIZE {
                self.expected() - self.received().len()
            } else {
                CHUNK_SIZE as int
            },
    {
        match self.phase {
            ReceiverPhase::Streaming { .. } => self.file.next_chunk_len(),
            _ => 0,
        }
    }

    /// Raw bytes of the file; never more than it has left.
    pub fn on_chunk(&mut self, chunk: &[u8]) -> (r: Result<(), ProtocolError>)
        requires
            old(self).wf(),
        ensures
            final(self).wf(),
            final(self).same_session(old(self)),
            old(self).phase() is Streaming && chunk@.len() <= old(self).expected() - old(self).received().len() ==> r is Ok && final(self).phase() == old(self).phase()
                && final(self).received() == old(self).received() + chunk@ && final(self).expected()
                == old(self).expected(),
            !(old(self).phase() is Streaming && chunk@.len() <= old(self).expected() - old(self).received().len()) ==> r == Err::<(), ProtocolError>(ProtocolError::UnexpectedMessage)
                && final(self).phase() is Closed,
    {
        let streaming = match self.phase {
            ReceiverPhase::Streaming { .. } => true,
            _ => false,
        };
        if !streaming || chunk.len() as u64 > self.file.size_left() {
            self.phase = ReceiverPhase::Closed;
            return Err(ProtocolError::UnexpectedMessage);
        }
        self.file.accept_chunk(chunk);
        Ok(())
    }

    /// Ends a fully received file: verifies it, and gives the outcome and
    /// the TransferResult to send. The pending write is moved to its final
    /// path only when the outcome is ok, and deleted otherwise.
    pub fn finish_file(&mut self) -> (r: Result<(TransferOutcome, Vec<u8>), ProtocolError>)
        requires
            old(self).wf(),
        ensures
            final(self).wf(),
            final(self).same_session(old(self)),
            !(old(self).phase() is Streaming) ==> r == Err::<(TransferOutcome, Vec<u8>), ProtocolError>(
                ProtocolError::UnexpectedMessage,
            ) && final(self).phase() is Closed,
            old(self).phase() is Streaming && old(self).received().len() < old(self).expected()
                ==> r == Err::<(TransferOutcome, Vec<u8>), ProtocolError>(ProtocolError::Truncated)
                && final(self).phase() is Closed,
            old(self).phase() is Streaming && old(self).received().len() == old(self).expected()
                ==> ({
                let ok = verified(old(self).phase()->Streaming_declared@, digest(old(self).received()));
                let code = if ok {
                    ErrorCode::Unknown
                } else {
                    ErrorCode::ChecksumMismatch
                };
                let reason = if ok {
                    Seq::<char>::empty()
                } else {
                    "checksum mismatch"@
                };
                let reply = framed(
                    MSG_TRANSFER_RESULT,
                    transfer_result_payload(
                        TransferResultView {
                            session_id: old(self).session(),
                            ok,
                            code,
                            reason,
                            checksum: digest(old(self).received()),
                            received_bytes: old(self).expected(),
                        },
                    ),
                );
                match r {
                    Ok((outcome, bytes)) => {
                        &&& final(self).phase() is AwaitMeta
                        &&& outcome.ok == ok
                        &&& outcome.code == code
                        &&& outcome.reason@ == reason
                        &&& outcome.received_bytes == old(self).expected()
                        &&& outcome.checksum@ == digest(old(self).received())
                        &&& reply == Ok::<Seq<u8>, ProtocolError>(bytes@)
                    },
                    Err(e) => reply == Err::<Seq<u8>, ProtocolError>(e) && final(self).phase() is Closed,
                }
            }),
    {
        let mut phase = ReceiverPhase::Closed;
        std::mem::swap(&mut self.phase, &mut phase);
        let declared = match phase {
            ReceiverPhase::Streaming { declared } => declared,
            _ => return Err(ProtocolError::UnexpectedMessage),
        };
        if !self.file.is_complete() {
            return Err(ProtocolError::Truncated);
        }
        let mut file = FileReceive::new(0);
        std::mem::swap(&mut self.file, &mut file);
        let outcome = file.finish(declared.as_slice());
        let reply = outcome_message(&outcome, self.session.as_str())?;
        self.phase = ReceiverPhase::AwaitMeta;
        Ok((outcome, reply))
    }

    /// The sender closed the stream. That is the clean end only between
    /// entries.
    pub fn on_end_of_stream(&mut self) -> (r: Result<(), ProtocolError>)
        requires
            old(self).wf(),
        ensures
            final(self).wf(),
            final(self).same_session(old(self)),
            final(self).phase() is Closed,
            old(self).phase() is AwaitMeta ==> r is Ok,
            !(old(self).phase() is AwaitMeta) ==> r == Err::<(), ProtocolError>(
                ProtocolError::Truncated,
            ),
    {
        let clean = match self.phase {
            ReceiverPhase::AwaitMeta => true,
            _ => false,
        };
        self.phase = ReceiverPhase::Closed;
        if clean {
            Ok(())
        } else {
            Err(ProtocolError::Truncated)
        }
    }
}

} // verus!
