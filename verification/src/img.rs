//! The image source: an open, readable stream over decoded image bytes
//! with a known size and an optional expected content digest.

use vstd::prelude::*;
use crate::digest::digest_view;

verus! {

/// An in-memory image source. Reading advances a cursor; a read past the
/// end returns zero bytes rather than an error.
///
/// The declared size is what the source announces before writing begins;
/// consumers use it for progress only, and rely on the end of the stream,
/// never on a byte counter, to know when the data is exhausted.
pub struct ImageStream {
    data: Vec<u8>,
    size: u64,
    pos: usize,
    sha256: Option<[u8; 32]>,
}

impl ImageStream {
    /// The decoded image bytes this stream ranges over.
    pub closed spec fn bytes(self) -> Seq<u8> {
        self.data@
    }

    /// The size the source declares before writing begins.
    pub closed spec fn declared_size(self) -> u64 {
        self.size
    }

    /// The read cursor.
    pub closed spec fn cursor(self) -> int {
        self.pos as int
    }

    /// The expected digest of the bytes, if one is known; absence means
    /// verification is skipped.
    pub closed spec fn digest(self) -> Option<Seq<u8>> {
        digest_view(self.sha256)
    }

    /// The cursor never passes the end of the data.
    pub closed spec fn wf(self) -> bool {
        self.pos <= self.data.len()
    }

    /// Open a stream over `data` with an optional expected digest; the
    /// declared size is the data's own length.
    pub fn new(data: Vec<u8>, sha256: Option<[u8; 32]>) -> (r: Self)
        ensures
            r.wf(),
            r.bytes() == data@,
            r.declared_size() == data@.len(),
            r.cursor() == 0,
            r.digest() == digest_view(sha256),
    {
        let size = data.len() as u64;
        Self { data, size, pos: 0, sha256 }
    }

    /// Open a stream whose container announced its own logical size,
    /// which may differ from the bytes actually delivered; the end of
    /// the stream, not this number, decides when the data is exhausted.
    pub fn new_with_size(data: Vec<u8>, size: u64, sha256: Option<[u8; 32]>) -> (r: Self)
        ensures
            r.wf(),
            r.bytes() == data@,
            r.declared_size() == size,
            r.cursor() == 0,
            r.digest() == digest_view(sha256),
    {
        Self { data, size, pos: 0, sha256 }
    }

    /// The stream ranges over bytes held in memory, so their number
    /// always fits the machine word and hence a 64-bit count.
    pub proof fn lemma_bytes_bound(self)
        ensures
            self.bytes().len() <= u64::MAX,
    {
        broadcast use vstd::std_specs::vec::axiom_spec_len;

        assert(vstd::std_specs::vec::spec_vec_len(&self.data) == self.data@.len());
    }

    /// The declared total, known before writing begins.
    pub fn size(&self) -> (r: u64)
        ensures
            r == self.declared_size(),
    {
        self.size
    }

    /// The expected digest, if any.
    pub fn sha256(&self) -> (r: Option<[u8; 32]>)
        ensures
            digest_view(r) == self.digest(),
    {
        self.sha256
    }

    /// Read up to `max` bytes at the cursor. The returned chunk is empty
    /// exactly when the stream was already at its end.
    pub fn read_chunk(&mut self, max: usize) -> (chunk: Vec<u8>)
        requires
            old(self).wf(),
            max > 0,
        ensures
            final(self).wf(),
            final(self).bytes() == old(self).bytes(),
            final(self).declared_size() == old(self).declared_size(),
            final(self).digest() == old(self).digest(),
            chunk@ == old(self).bytes().subrange(
                old(self).cursor(),
                old(self).cursor() + chunk@.len(),
            ),
            chunk@.len() == if old(self).bytes().len() - old(self).cursor() < max {
                old(self).bytes().len() - old(self).cursor()
            } else {
                max as int
            },
            final(self).cursor() == old(self).cursor() + chunk@.len(),
            (chunk@.len() == 0 <==> old(self).cursor() == old(self).bytes().len()),
    {
        let remaining = self.data.len() - self.pos;
        let n = if remaining < max {
            remaining
        } else {
            max
        };
        let mut chunk: Vec<u8> = Vec::new();
        let mut i: usize = 0;
        while i < n
            invariant
                0 <= i <= n,
                self.pos + n <= self.data.len(),
                chunk@ == self.data@.subrange(self.pos as int, self.pos + i),
            decreases n - i,
        {
            chunk.push(self.data[self.pos + i]);
            assert(chunk@ =~= self.data@.subrange(self.pos as int, self.pos + i + 1));
            i = i + 1;
        }
        self.pos = self.pos + n;
        chunk
    }
}

} // verus!
