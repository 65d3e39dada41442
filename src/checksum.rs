use std::collections::hash_map::DefaultHasher;
use std::hash::Hasher;
use vstd::prelude::*;
use vstd::std_specs::hash::DefaultHasherAdditionalSpecFns;

use crate::codec::{be64, push_be64};

verus! {

/// Number of bytes in a digest.
pub const DIGEST_LEN: usize = 8;

/// The writes that feed `data` to a hasher one byte at a time.
pub open spec fn byte_writes(data: Seq<u8>) -> Seq<Seq<u8>> {
    Seq::new(data.len(), |i: int| seq![data[i]])
}

/// The digest of `data`: the hasher's result after it was fed `data`
/// one byte at a time, as eight big-endian bytes.
pub open spec fn digest(data: Seq<u8>) -> Seq<u8> {
    be64(DefaultHasher::spec_finish(byte_writes(data)))
}

/// The bytes a checksum has been fed after `chunks` were given to
/// `update` in order, starting from `fed`.
pub open spec fn fed_after(fed: Seq<u8>, chunks: Seq<Seq<u8>>) -> Seq<u8>
    decreases chunks.len(),
{
    if chunks.len() == 0 {
        fed
    } else {
        fed_after(fed + chunks[0], chunks.drop_first())
    }
}

proof fn lemma_byte_writes_append(a: Seq<u8>, b: Seq<u8>)
    ensures
        byte_writes(a + b) == byte_writes(a) + byte_writes(b),
{
    assert(byte_writes(a + b) =~= byte_writes(a) + byte_writes(b));
}

proof fn lemma_fed_after_flatten(fed: Seq<u8>, chunks: Seq<Seq<u8>>)
    ensures
        fed_after(fed, chunks) == fed + chunks.flatten(),
    decreases chunks.len(),
{
    if chunks.len() == 0 {
        assert(fed + chunks.flatten() =~= fed);
    } else {
        lemma_fed_after_flatten(fed + chunks[0], chunks.drop_first());
        assert(chunks.flatten() == chunks[0] + chunks.drop_first().flatten());
        assert(fed + chunks[0] + chunks.drop_first().flatten() =~= fed + chunks.flatten());
    }
}

/// Streaming equivalence: a checksum fed `chunks` one after another, from
/// a fresh start, finalizes to the digest of their concatenation.
pub proof fn lemma_streaming_equivalence(chunks: Seq<Seq<u8>>)
    ensures
        digest(fed_after(Seq::empty(), chunks)) == digest(chunks.flatten()),
{
    lemma_fed_after_flatten(Seq::empty(), chunks);
    assert(Seq::<u8>::empty() + chunks.flatten() =~= chunks.flatten());
}

/// A checksum that is fed data in pieces of any size.
pub struct StreamingChecksum {
    hasher: DefaultHasher,
    fed: Ghost<Seq<u8>>,
}

impl View for StreamingChecksum {
    type V = Seq<u8>;

    /// All bytes fed so far, in order.
    closed spec fn view(&self) -> Seq<u8> {
        self.fed@
    }
}

impl StreamingChecksum {
    /// The hasher has seen exactly the fed bytes, one write per byte.
    pub closed spec fn wf(&self) -> bool {
        self.hasher@ == byte_writes(self.fed@)
    }

    pub fn new() -> (r: Self)
        ensures
            r.wf(),
            r@ == Seq::<u8>::empty(),
    {
        let r = StreamingChecksum { hasher: DefaultHasher::new(), fed: Ghost(Seq::empty()) };
        assert(r.hasher@ =~= byte_writes(r.fed@));
        r
    }

    pub fn update(&mut self, data: &[u8])
        requires
            old(self).wf(),
        ensures
            final(self).wf(),
            final(self)@ == old(self)@ + data@,
    {
        let mut i: usize = 0;
        while i < data.len()
            invariant
                i <= data@.len(),
                self.wf(),
                self@ == old(self)@ + data@.subrange(0, i as int),
            decreases data@.len() - i,
        {
            let b = data[i];
            let one: [u8; 1] = [b];
            proof {
                assert(one@ =~= seq![b]);
                lemma_byte_writes_append(self.fed@, seq![b]);
                assert(byte_writes(seq![b]) =~= seq![seq![b]]);
            }
            self.hasher.write(one.as_slice());
            self.fed = Ghost(self.fed@ + seq![b]);
            assert(self.hasher@ =~= byte_writes(self.fed@));
            i = i + 1;
            assert(self@ =~= old(self)@ + data@.subrange(0, i as int));
        }
        assert(data@.subrange(0, i as int) =~= data@);
    }

    pub fn finalize(self) -> (r: Vec<u8>)
        requires
            self.wf(),
        ensures
            r@ == digest(self@),
            r@.len() == DIGEST_LEN,
    {
        let h = self.hasher.finish();
        let mut r: Vec<u8> = Vec::with_capacity(DIGEST_LEN);
        push_be64(&mut r, h);
        assert(r@ =~= be64(h));
        r
    }
}

/// Digest of `data` in one call.
pub fn calculate_bytes_checksum(data: &[u8]) -> (r: Vec<u8>)
    ensures
        r@ == digest(data@),
        r@.len() == DIGEST_LEN,
{
    let mut c = StreamingChecksum::new();
    c.update(data);
    assert(Seq::<u8>::empty() + data@ =~= data@);
    c.finalize()
}

} // verus!
