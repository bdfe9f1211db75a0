use vstd::prelude::*;
use vstd::string::StringExecFns;
use vstd::utf8::{
    decode_first_scalar, decode_utf8, length_of_first_scalar, partial_valid_utf8, pop_first_scalar,
    valid_utf8,
};

verus! {

broadcast use vstd::utf8::group_utf8_lib;

/// Size of the decoder's working buffer, in bytes.
pub const CAPACITY: usize = 256;

/// Length of the longest prefix of `w` that is valid UTF-8.
pub open spec fn valid_prefix_len(w: Seq<u8>) -> nat
    decreases w.len(),
{
    if w.len() == 0 || valid_utf8(w) {
        w.len()
    } else {
        valid_prefix_len(w.drop_last())
    }
}

/// The text emitted and the bytes held back when `chunk` arrives while
/// `pending` is held back: the longest valid prefix of the two is decoded,
/// the rest waits for the next chunk.
pub open spec fn feed_result(pending: Seq<u8>, chunk: Seq<u8>) -> (Seq<char>, Seq<u8>) {
    let w = pending + chunk;
    let v = valid_prefix_len(w) as int;
    (decode_utf8(w.take(v)), w.skip(v))
}

/// All text emitted, and what is held back at the end, when `chunks` arrive
/// one after the other while `pending` is held back.
pub open spec fn decode_chunks(pending: Seq<u8>, chunks: Seq<Seq<u8>>) -> (Seq<char>, Seq<u8>)
    decreases chunks.len(),
{
    if chunks.len() == 0 {
        (Seq::<char>::empty(), pending)
    } else {
        let (text, held) = feed_result(pending, chunks[0]);
        let (rest, last) = decode_chunks(held, chunks.drop_first());
        (text + rest, last)
    }
}

/// Relies on core::str::from_utf8: `Ok` holds the text exactly when the bytes
/// are valid UTF-8; otherwise `Utf8Error::valid_up_to` is the largest index up
/// to which they are.
#[verifier::external_body]
fn utf8_text(bytes: &[u8]) -> (r: Result<String, usize>)
    ensures
        match r {
            Ok(text) => valid_utf8(bytes@) && text@ == decode_utf8(bytes@),
            Err(n) => {
                &&& !valid_utf8(bytes@)
                &&& partial_valid_utf8(bytes@, n as int)
                &&& forall|i: int| n < i <= bytes@.len() ==> !partial_valid_utf8(bytes@, i)
            },
        },
{
    match core::str::from_utf8(bytes) {
        Ok(text) => Ok(text.to_string()),
        Err(e) => Err(e.valid_up_to()),
    }
}

/// The longest valid prefix is the largest `n` at which the prefix is valid.
proof fn lemma_valid_prefix_len(w: Seq<u8>, n: int)
    requires
        partial_valid_utf8(w, n),
        forall|i: int| n < i <= w.len() ==> !partial_valid_utf8(w, i),
    ensures
        valid_prefix_len(w) == n,
    decreases w.len(),
{
    assert(w.subrange(0, w.len() as int) =~= w);
    if w.len() == 0 || valid_utf8(w) {
        if n < w.len() {
            assert(partial_valid_utf8(w, w.len() as int));
        }
    } else {
        let d = w.drop_last();
        assert(n < w.len());
        assert(d.subrange(0, n) =~= w.subrange(0, n));
        assert forall|i: int| n < i <= d.len() implies !partial_valid_utf8(d, i) by {
            assert(d.subrange(0, i) =~= w.subrange(0, i));
            assert(!partial_valid_utf8(w, i));
        }
        lemma_valid_prefix_len(d, n);
    }
}

/// The longest valid prefix of valid UTF-8 is all of it.
proof fn lemma_valid_prefix_len_all(w: Seq<u8>)
    ensures
        valid_utf8(w) ==> valid_prefix_len(w) == w.len(),
{
}

/// The longest valid prefix is valid and fits in the sequence.
proof fn lemma_valid_prefix_valid(w: Seq<u8>)
    ensures
        valid_prefix_len(w) <= w.len(),
        valid_utf8(w.take(valid_prefix_len(w) as int)),
    decreases w.len(),
{
    if w.len() == 0 || valid_utf8(w) {
        assert(w.take(w.len() as int) =~= w);
    } else {
        let d = w.drop_last();
        lemma_valid_prefix_valid(d);
        assert(d.take(valid_prefix_len(d) as int) =~= w.take(valid_prefix_len(d) as int));
    }
}

/// What follows valid UTF-8 inside valid UTF-8 is valid, and decodes apart.
proof fn lemma_valid_suffix(a: Seq<u8>, b: Seq<u8>)
    requires
        valid_utf8(a),
        valid_utf8(a + b),
    ensures
        valid_utf8(b),
        decode_utf8(a + b) == decode_utf8(a) + decode_utf8(b),
    decreases a.len(),
{
    let ab = a + b;
    if a.len() == 0 {
        assert(ab =~= b);
        assert(decode_utf8(a) + decode_utf8(b) =~= decode_utf8(b));
    } else {
        assert(forall|i: int| 0 <= i < a.len() ==> ab[i] == a[i]);
        let k = length_of_first_scalar(a);
        assert(length_of_first_scalar(ab) == k);
        assert(decode_first_scalar(ab) == decode_first_scalar(a));
        assert(pop_first_scalar(ab) =~= pop_first_scalar(a) + b);
        lemma_valid_suffix(pop_first_scalar(a), b);
        let c = seq![decode_first_scalar(a) as char];
        assert(c + (decode_utf8(pop_first_scalar(a)) + decode_utf8(b))
            =~= (c + decode_utf8(pop_first_scalar(a))) + decode_utf8(b));
    }
}

/// What a step holds back is empty, or is not valid UTF-8.
proof fn lemma_held_back(w: Seq<u8>)
    ensures
        ({
            let v = valid_prefix_len(w) as int;
            w.skip(v).len() == 0 || !valid_utf8(w.skip(v))
        }),
{
    lemma_valid_prefix_valid(w);
    let v = valid_prefix_len(w) as int;
    if v < w.len() && valid_utf8(w.skip(v)) {
        assert(w.take(v) + w.skip(v) =~= w);
        assert(valid_utf8(w));
    }
}

proof fn lemma_decode_chunks_valid(pending: Seq<u8>, chunks: Seq<Seq<u8>>)
    requires
        pending.len() == 0 || !valid_utf8(pending),
        valid_utf8(pending + chunks.flatten()),
    ensures
        decode_chunks(pending, chunks) == (decode_utf8(pending + chunks.flatten()), Seq::<u8>::empty()),
    decreases chunks.len(),
{
    if chunks.len() == 0 {
        assert(pending + chunks.flatten() =~= pending);
        assert(pending =~= Seq::<u8>::empty());
    } else {
        let w = pending + chunks[0];
        let v = valid_prefix_len(w) as int;
        let e = w.take(v);
        let held = w.skip(v);
        let rest = chunks.drop_first();
        lemma_valid_prefix_valid(w);
        lemma_held_back(w);
        assert(chunks.flatten() == chunks[0] + rest.flatten());
        assert(pending + chunks.flatten() =~= e + (held + rest.flatten()));
        lemma_valid_suffix(e, held + rest.flatten());
        lemma_decode_chunks_valid(held, rest);
    }
}

/// Chunks that together are valid UTF-8, cut anywhere (inside a character
/// too), come out as exactly their text, with nothing held back at the end.
pub proof fn lemma_chunks_round_trip(chunks: Seq<Seq<u8>>)
    requires
        valid_utf8(chunks.flatten()),
    ensures
        decode_chunks(Seq::<u8>::empty(), chunks) == (decode_utf8(chunks.flatten()), Seq::<u8>::empty()),
{
    assert(Seq::<u8>::empty() + chunks.flatten() =~= chunks.flatten());
    lemma_decode_chunks_valid(Seq::<u8>::empty(), chunks);
}

/// What to do after one read of the response body.
pub enum DecodeStep {
    /// Print this text and read again.
    Emit(String),
    /// The read failed: read again, nothing changed.
    Retry,
    /// The body ended; this many bytes were read in all.
    End(usize),
}

/// Whether an HTTP status code reports success.
pub fn is_success_status(status: u16) -> (r: bool)
    ensures
        r == (200 <= status <= 299),
{
    200 <= status && status <= 299
}

/// Reassembles text from a byte stream read in bounded chunks, holding back
/// an incomplete character at the end of a chunk until the next one arrives.
pub struct ChunkedTextDecoder {
    carry: Vec<u8>,
    total: usize,
}

impl ChunkedTextDecoder {
    /// The bytes held back from earlier chunks.
    pub closed spec fn pending(&self) -> Seq<u8> {
        self.carry@
    }

    /// The number of bytes fed so far.
    pub closed spec fn fed(&self) -> nat {
        self.total as nat
    }

    pub closed spec fn wf(&self) -> bool {
        self.carry@.len() <= CAPACITY
    }

    /// A decoder that has seen no bytes.
    pub fn new() -> (d: Self)
        ensures
            d.wf(),
            d.pending() == Seq::<u8>::empty(),
            d.fed() == 0,
    {
        ChunkedTextDecoder { carry: Vec::new(), total: 0 }
    }

    /// How many bytes are held back at the start of the buffer.
    pub fn offset(&self) -> (r: usize)
        requires
            self.wf(),
        ensures
            r == self.pending().len(),
    {
        self.carry.len()
    }

    /// How many new bytes the next read may bring.
    pub fn room(&self) -> (r: usize)
        requires
            self.wf(),
        ensures
            r == CAPACITY - self.pending().len(),
    {
        CAPACITY - self.carry.len()
    }

    /// The number of bytes fed so far.
    pub fn total(&self) -> (r: usize)
        ensures
            r == self.fed(),
    {
        self.total
    }

    /// Takes the bytes of one read, returns the text that they complete and
    /// holds back what follows the longest valid prefix.
    pub fn feed(&mut self, chunk: &[u8]) -> (text: String)
        requires
            old(self).wf(),
            old(self).pending().len() + chunk@.len() <= CAPACITY,
            old(self).fed() + chunk@.len() <= usize::MAX,
        ensures
            final(self).wf(),
            (text@, final(self).pending()) == feed_result(old(self).pending(), chunk@),
            final(self).fed() == old(self).fed() + chunk@.len(),
    {
        let ghost w = self.carry@ + chunk@;
        let mut i: usize = 0;
        while i < chunk.len()
            invariant
                i <= chunk@.len(),
                self.carry@ == old(self).carry@ + chunk@.take(i as int),
                self.total == old(self).total,
            decreases chunk@.len() - i,
        {
            self.carry.push(chunk[i]);
            i += 1;
            proof {
                assert(chunk@.take(i as int) =~= chunk@.take(i - 1) + seq![chunk@[i - 1]]);
            }
        }
        assert(chunk@.take(chunk@.len() as int) =~= chunk@);
        self.total = self.total + chunk.len();
        match utf8_text(self.carry.as_slice()) {
            Ok(text) => {
                proof {
                    lemma_valid_prefix_len_all(w);
                    assert(w.take(w.len() as int) =~= w);
                    assert(w.skip(w.len() as int) =~= Seq::<u8>::empty());
                }
                self.carry.clear();
                text
            },
            Err(n) => {
                proof {
                    lemma_valid_prefix_len(w, n as int);
                }
                let mut rest: Vec<u8> = Vec::new();
                let mut j: usize = n;
                while j < self.carry.len()
                    invariant
                        n <= j <= self.carry@.len(),
                        self.carry@ == w,
                        rest@ == w.subrange(n as int, j as int),
                    decreases self.carry@.len() - j,
                {
                    rest.push(self.carry[j]);
                    j += 1;
                    proof {
                        assert(w.subrange(n as int, j as int) =~= w.subrange(n as int, j - 1) + seq![w[j - 1]]);
                    }
                }
                let mut prefix: Vec<u8> = Vec::new();
                let mut k: usize = 0;
                while k < n
                    invariant
                        k <= n <= self.carry@.len(),
                        self.carry@ == w,
                        prefix@ == w.take(k as int),
                    decreases n - k,
                {
                    prefix.push(self.carry[k]);
                    k += 1;
                    proof {
                        assert(w.take(k as int) =~= w.take(k - 1) + seq![w[k - 1]]);
                    }
                }
                proof {
                    assert(w.subrange(n as int, w.len() as int) =~= w.skip(n as int));
                    assert(w.subrange(0, n as int) =~= w.take(n as int));
                }
                self.carry = rest;
                match utf8_text(prefix.as_slice()) {
                    Ok(text) => text,
                    Err(_) => {
                        proof {
                            assert(false);
                        }
                        String::from_str("")
                    },
                }
            },
        }
    }

    /// Takes the outcome of one read: `None` when it failed, otherwise the
    /// bytes it brought, none of them meaning that the body has ended.
    pub fn on_read(&mut self, read: Option<&[u8]>) -> (r: DecodeStep)
        requires
            old(self).wf(),
            read matches Some(chunk) ==> old(self).pending().len() + chunk@.len() <= CAPACITY
                && old(self).fed() + chunk@.len() <= usize::MAX,
        ensures
            final(self).wf(),
            match read {
                None => r is Retry && *final(self) == *old(self),
                Some(chunk) => if chunk@.len() == 0 {
                    r == DecodeStep::End(old(self).fed() as usize) && *final(self) == *old(self)
                } else {
                    &&& r matches DecodeStep::Emit(text)
                    &&& (text@, final(self).pending()) == feed_result(old(self).pending(), chunk@)
                    &&& final(self).fed() == old(self).fed() + chunk@.len()
                },
            },
    {
        match read {
            None => DecodeStep::Retry,
            Some(chunk) => {
                if chunk.len() == 0 {
                    DecodeStep::End(self.total)
                } else {
                    DecodeStep::Emit(self.feed(chunk))
                }
            },
        }
    }

    /// Ends the stream: bytes still held back are dropped, and the number of
    /// bytes fed is returned.
    pub fn finish(self) -> (r: usize)
        ensures
            r == self.fed(),
    {
        self.total
    }
}

} // verus!
