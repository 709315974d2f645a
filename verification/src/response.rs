//! Accumulating a control-channel response.
//!
//! The control protocol has no length prefix or terminator: the client reads
//! into a fixed-size buffer and infers the end of the message from a short
//! read, one that returns fewer bytes than the buffer holds.  A response
//! whose length is an exact multiple of the buffer size is therefore read as
//! incomplete and costs an extra round; that heuristic belongs to the
//! protocol and is kept as it stands.  The accumulated response is emitted as
//! one line, with every embedded newline removed.

use vstd::prelude::*;

verus! {

/// `s` with every newline byte removed.
pub open spec fn strip_nl(s: Seq<u8>) -> Seq<u8>
    decreases s.len(),
{
    if s.len() == 0 {
        Seq::empty()
    } else if s[0] == '\n' as u8 {
        strip_nl(s.drop_first())
    } else {
        seq![s[0]] + strip_nl(s.drop_first())
    }
}

/// Newline stripping distributes over concatenation: accumulating chunks and
/// stripping at the end equals stripping the full response.
pub proof fn lemma_strip_nl_concat(a: Seq<u8>, b: Seq<u8>)
    ensures
        strip_nl(a + b) == strip_nl(a) + strip_nl(b),
    decreases a.len(),
{
    if a.len() == 0 {
        assert(a + b =~= b);
        assert(strip_nl(a) + strip_nl(b) =~= strip_nl(b));
    } else {
        assert((a + b).drop_first() =~= a.drop_first() + b);
        lemma_strip_nl_concat(a.drop_first(), b);
        assert((a + b)[0] == a[0]);
        if a[0] != '\n' as u8 {
            assert(seq![a[0]] + (strip_nl(a.drop_first()) + strip_nl(b)) =~= (seq![a[0]]
                + strip_nl(a.drop_first())) + strip_nl(b));
        }
    }
}

/// A copy of `s` with every newline byte removed.
pub fn strip_newlines(s: &[u8]) -> (r: Vec<u8>)
    ensures
        r@ == strip_nl(s@),
{
    let len = s.len();
    let mut r: Vec<u8> = Vec::new();
    let mut j: usize = 0;
    proof {
        assert(s@.subrange(0, len as int) =~= s@);
    }
    while j < len
        invariant
            len == s@.len(),
            0 <= j <= len,
            r@ + strip_nl(s@.subrange(j as int, len as int)) == strip_nl(s@),
        decreases len - j,
    {
        let ghost tail = s@.subrange(j as int, len as int);
        proof {
            assert(tail.drop_first() =~= s@.subrange(j as int + 1, len as int));
        }
        let b = *vstd::slice::slice_index_get(s, j);
        if b != '\n' as u8 {
            r.push(b);
            proof {
                assert(r@ + strip_nl(tail.drop_first()) =~= (r@.drop_last() + seq![b])
                    + strip_nl(tail.drop_first()));
                assert((r@.drop_last() + seq![b]) + strip_nl(tail.drop_first()) =~= r@.drop_last()
                    + (seq![b] + strip_nl(tail.drop_first())));
            }
        }
        j = j + 1;
    }
    proof {
        assert(s@.subrange(len as int, len as int) =~= Seq::<u8>::empty());
        assert(r@ + strip_nl(s@.subrange(len as int, len as int)) =~= r@);
    }
    r
}

/// One control-channel response under accumulation.
///
/// Chunks are pushed in read order; the response is complete as soon as a
/// chunk is shorter than the read buffer that produced it.
pub struct ResponseBuilder {
    data: Vec<u8>,
    done: bool,
}

impl ResponseBuilder {
    /// The bytes accumulated so far.
    pub closed spec fn bytes(self) -> Seq<u8> {
        self.data@
    }

    /// A short read has ended the message.
    pub closed spec fn is_done(self) -> bool {
        self.done
    }

    /// An empty accumulator, awaiting the first read.
    pub fn new() -> (b: ResponseBuilder)
        ensures
            b.bytes() == Seq::<u8>::empty(),
            !b.is_done(),
    {
        ResponseBuilder { data: Vec::new(), done: false }
    }

    /// Take one read's worth of bytes.  `buf_size` is the capacity of the
    /// read buffer: a chunk that does not fill it ends the message.
    pub fn push_chunk(&mut self, chunk: &[u8], buf_size: usize)
        requires
            !old(self).is_done(),
        ensures
            final(self).bytes() == old(self).bytes() + chunk@,
            final(self).is_done() == (chunk@.len() < buf_size),
    {
        self.data.extend_from_slice(chunk);
        self.done = chunk.len() < buf_size;
    }

    /// Whether a short read has ended the message.
    pub fn complete(&self) -> (c: bool)
        ensures
            c == self.is_done(),
    {
        self.done
    }

    /// The response as a single output line: the accumulated bytes with
    /// every embedded newline removed.
    pub fn output_line(&self) -> (r: Vec<u8>)
        ensures
            r@ == strip_nl(self.bytes()),
    {
        strip_newlines(self.data.as_slice())
    }
}

} // verus!
