//! The request body: a forward-only byte stream, or a safe "absent"
//! variant for requests built from headers alone.

use vstd::prelude::*;
use crate::error::Error;

verus! {

/// A forward-only reader over the bytes the connection holds for one
/// request. Reading consumes from the front; no byte is handed out twice
/// and none is skipped.
pub struct BufferSource {
    bytes: Vec<u8>,
    pos: usize,
}

impl View for BufferSource {
    type V = Seq<u8>;

    /// The bytes not yet read.
    closed spec fn view(&self) -> Seq<u8> {
        self.bytes@.skip(self.pos as int)
    }
}

impl BufferSource {
    #[verifier::type_invariant]
    spec fn inv(&self) -> bool {
        self.pos <= self.bytes@.len()
    }

    /// A reader over the given bytes.
    pub fn new(bytes: Vec<u8>) -> (s: BufferSource)
        ensures
            s@ == bytes@,
    {
        let ghost b = bytes@;
        let s = BufferSource { bytes, pos: 0 };
        proof {
            assert(s@ =~= b);
        }
        s
    }

    /// How many bytes are left to read.
    pub fn remaining(&self) -> (n: usize)
        ensures
            n == self@.len(),
    {
        proof {
            use_type_invariant(self);
        }
        self.bytes.len() - self.pos
    }

    /// Hands out the next `max` bytes, or all that are left if fewer:
    /// exactly the front of what remained, in order.
    pub fn read(&mut self, max: usize) -> (chunk: Vec<u8>)
        ensures
            chunk@.len() == if max as int <= old(self)@.len() {
                max as int
            } else {
                old(self)@.len() as int
            },
            old(self)@ == chunk@ + final(self)@,
    {
        proof {
            use_type_invariant(&*self);
        }
        let avail = self.bytes.len() - self.pos;
        let n = if max <= avail {
            max
        } else {
            avail
        };
        let mut chunk: Vec<u8> = Vec::new();
        let mut i: usize = 0;
        while i < n
            invariant
                0 <= i <= n,
                self.pos + n <= self.bytes@.len(),
                self.bytes@.len() <= usize::MAX,
                chunk@ == self.bytes@.subrange(self.pos as int, self.pos + i),
            decreases n - i,
        {
            chunk.push(self.bytes[self.pos + i]);
            proof {
                assert(chunk@ =~= self.bytes@.subrange(self.pos as int, self.pos + i + 1));
            }
            i = i + 1;
        }
        self.pos = self.pos + n;
        proof {
            assert(old(self)@ =~= chunk@ + self@);
        }
        chunk
    }
}

/// The body of a request: live, wrapping a reader over the bytes the
/// connection handed over, or absent.
pub struct Body {
    source: Option<BufferSource>,
}

impl View for Body {
    type V = Option<Seq<u8>>;

    /// The bytes still to be read, or nothing for an absent body.
    closed spec fn view(&self) -> Option<Seq<u8>> {
        match self.source {
            Some(s) => Some(s@),
            None => None,
        }
    }
}

impl Body {
    /// A live body over a reader.
    pub fn new(reader: BufferSource) -> (b: Body)
        ensures
            b@ == Some(reader@),
    {
        Body { source: Some(reader) }
    }

    /// An absent body: every read on it fails, none blocks.
    pub fn empty() -> (b: Body)
        ensures
            b@ == None::<Seq<u8>>,
    {
        Body { source: None }
    }

    /// Whether this body has a live source.
    pub fn is_live(&self) -> (r: bool)
        ensures
            r == (self@ is Some),
    {
        match &self.source {
            Some(_) => true,
            None => false,
        }
    }

    /// Reads up to `max` bytes.
    ///
    /// An absent body fails with `BodyUnavailable` on every read, never
    /// changing state, so any number of reads behave alike. A live body
    /// hands out exactly the front of what remained, in order: no byte is
    /// reordered, duplicated or lost.
    pub fn read(&mut self, max: usize) -> (r: Result<Vec<u8>, Error>)
        ensures
            match old(self)@ {
                None => r == Err::<Vec<u8>, Error>(Error::BodyUnavailable) && final(self)@
                    == None::<Seq<u8>>,
                Some(bytes) => {
                    &&& r matches Ok(chunk) && {
                        &&& chunk@.len() == if max as int <= bytes.len() {
                            max as int
                        } else {
                            bytes.len() as int
                        }
                        &&& final(self)@ matches Some(rest) && bytes == chunk@ + rest
                    }
                },
            },
    {
        match &mut self.source {
            Some(src) => Ok(src.read(max)),
            None => Err(Error::BodyUnavailable),
        }
    }
}

/// Successive reads lose, duplicate and reorder nothing: if one read hands
/// back `c1` leaving `mid`, and a later read hands back `c2` leaving
/// `rest`, then the original contents were exactly `c1`, then `c2`, then
/// `rest`.
pub proof fn lemma_reads_accumulate(
    orig: Seq<u8>,
    c1: Seq<u8>,
    mid: Seq<u8>,
    c2: Seq<u8>,
    rest: Seq<u8>,
)
    requires
        orig == c1 + mid,
        mid == c2 + rest,
    ensures
        orig == (c1 + c2) + rest,
{
    assert(orig =~= (c1 + c2) + rest);
}

} // verus!
