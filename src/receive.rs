use vstd::prelude::*;
use vstd::string::StringExecFns;

use crate::checksum::{digest, StreamingChecksum};
use crate::framing::{bytes_of, framed, ProtocolError};
use crate::protocol::{
    transfer_result_payload, write_transfer_result, ErrorCode, TransferResult, TransferResultView,
    MSG_TRANSFER_RESULT,
};

verus! {

/// Most raw bytes taken from the stream at once.
pub const CHUNK_SIZE: usize = 8192;

/// The verdict on one received file.
#[derive(Debug)]
pub struct TransferOutcome {
    /// Whether the file may be moved to its final path; when false the
    /// pending write is deleted instead.
    pub ok: bool,
    pub code: ErrorCode,
    /// Why the file failed; empty when it did not.
    pub reason: String,
    pub received_bytes: u64,
    /// The digest computed over the received bytes.
    pub checksum: Vec<u8>,
}

/// Whether two byte strings are equal.
pub fn bytes_equal(a: &[u8], b: &[u8]) -> (r: bool)
    ensures
        r == (a@ == b@),
{
    if a.len() != b.len() {
        return false;
    }
    let mut i: usize = 0;
    while i < a.len()
        invariant
            a@.len() == b@.len(),
            i <= a@.len(),
            a@.subrange(0, i as int) == b@.subrange(0, i as int),
        decreases a@.len() - i,
    {
        if a[i] != b[i] {
            assert(a@.subrange(0, i + 1)[i as int] != b@.subrange(0, i + 1)[i as int]);
            return false;
        }
        assert(a@.subrange(0, i + 1) =~= a@.subrange(0, i as int).push(a@[i as int]));
        assert(b@.subrange(0, i + 1) =~= b@.subrange(0, i as int).push(b@[i as int]));
        i = i + 1;
    }
    assert(a@ =~= a@.subrange(0, i as int));
    assert(b@ =~= b@.subrange(0, i as int));
    true
}

/// Whether a file whose bytes digest to `computed` passes verification
/// against the digest the sender declared (none, when empty).
pub open spec fn verified(declared: Seq<u8>, computed: Seq<u8>) -> bool {
    declared.len() == 0 || declared == computed
}

/// A file being received: its announced size and the bytes taken so far.
pub struct FileReceive {
    file_size: u64,
    received: u64,
    checksum: StreamingChecksum,
}

impl FileReceive {
    pub closed spec fn wf(&self) -> bool {
        &&& self.checksum.wf()
        &&& self.checksum@.len() == self.received
        &&& self.received <= self.file_size
    }

    /// The bytes received so far.
    pub closed spec fn data(&self) -> Seq<u8> {
        self.checksum@
    }

    /// The announced size.
    pub closed spec fn size(&self) -> u64 {
        self.file_size
    }

    pub fn new(file_size: u64) -> (r: Self)
        ensures
            r.wf(),
            r.data() == Seq::<u8>::empty(),
            r.size() == file_size,
    {
        FileReceive { file_size, received: 0, checksum: StreamingChecksum::new() }
    }

    pub fn received_bytes(&self) -> (r: u64)
        requires
            self.wf(),
        ensures
            r == self.data().len(),
    {
        self.received
    }

    /// How many bytes the file has left.
    pub fn size_left(&self) -> (r: u64)
        requires
            self.wf(),
        ensures
            r == self.size() - self.data().len(),
    {
        self.file_size - self.received
    }

    /// How many bytes to take next: the rest of the file, at most a chunk.
    pub fn next_chunk_len(&self) -> (r: usize)
        requires
            self.wf(),
        ensures
            r as int == if self.size() - self.data().len() < CHUNK_SIZE {
                self.size() - self.data().len()
            } else {
                CHUNK_SIZE as int
            },
    {
        let rest = self.file_size - self.received;
        if rest < CHUNK_SIZE as u64 {
            rest as usize
        } else {
            CHUNK_SIZE
        }
    }

    /// Takes bytes from the stream; never more than the file has left.
    pub fn accept_chunk(&mut self, chunk: &[u8])
        requires
            old(self).wf(),
            chunk@.len() <= old(self).size() - old(self).data().len(),
        ensures
            final(self).wf(),
            final(self).data() == old(self).data() + chunk@,
            final(self).size() == old(self).size(),
    {
        self.checksum.update(chunk);
        self.received = self.received + chunk.len() as u64;
    }

    pub fn is_complete(&self) -> (r: bool)
        requires
            self.wf(),
        ensures
            r == (self.data().len() == self.size()),
    {
        self.received == self.file_size
    }

    /// Verifies a complete file against the digest the sender declared.
    pub fn finish(self, declared: &[u8]) -> (r: TransferOutcome)
        requires
            self.wf(),
            self.data().len() == self.size(),
        ensures
            r.checksum@ == digest(self.data()),
            r.ok == verified(declared@, digest(self.data())),
            r.code == (if r.ok {
                ErrorCode::Unknown
            } else {
                ErrorCode::ChecksumMismatch
            }),
            r.reason@ == (if r.ok {
                Seq::<char>::empty()
            } else {
                "checksum mismatch"@
            }),
            r.received_bytes == self.size(),
    {
        let received_bytes = self.received;
        let computed = self.checksum.finalize();
        let ok = declared.len() == 0 || bytes_equal(declared, computed.as_slice());
        TransferOutcome {
            ok,
            code: if ok {
                ErrorCode::Unknown
            } else {
                ErrorCode::ChecksumMismatch
            },
            reason: if ok {
                String::new()
            } else {
                String::from_str("checksum mismatch")
            },
            received_bytes,
            checksum: computed,
        }
    }
}

/// The framed TransferResult that reports an outcome to the sender.
pub fn outcome_message(outcome: &TransferOutcome, session_id: &str) -> (r: Result<
    Vec<u8>,
    ProtocolError,
>)
    ensures
        bytes_of(r) == framed(
            MSG_TRANSFER_RESULT,
            transfer_result_payload(
                TransferResultView {
                    session_id: session_id@,
                    ok: outcome.ok,
                    code: outcome.code,
                    reason: outcome.reason@,
                    checksum: outcome.checksum@,
                    received_bytes: outcome.received_bytes,
                },
            ),
        ),
{
    write_transfer_result(
        &TransferResult {
            session_id: String::from_str(session_id),
            ok: outcome.ok,
            code: outcome.code,
            reason: outcome.reason.clone(),
            checksum: outcome.checksum.clone(),
            received_bytes: outcome.received_bytes,
        },
    )
}

} // verus!
