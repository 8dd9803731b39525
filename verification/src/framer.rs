//! The serial transport framer: raw byte chunks are reassembled into
//! null-terminated frames (several chunks may form one frame, one chunk may
//! hold several frames), and responses are encoded and framed for the write
//! back to the host.

use vstd::prelude::*;
use vstd::utf8::encode_utf8;
use crate::b64::{b64_of, encode_b64};

verus! {

/// The framer's step function over one chunk: `cur` is the frame being
/// accumulated; a `0x00` byte closes it, and the bytes after it belong to
/// the next frame. Yields the frames completed within the chunk and the
/// bytes left pending.
pub open spec fn frames_rec(s: Seq<u8>, cur: Seq<u8>) -> (Seq<Seq<u8>>, Seq<u8>)
    decreases s.len(),
{
    if s.len() == 0 {
        (Seq::empty(), cur)
    } else if s[0] == 0 {
        let sub = frames_rec(s.skip(1), Seq::empty());
        (seq![cur] + sub.0, sub.1)
    } else {
        frames_rec(s.skip(1), cur.push(s[0]))
    }
}

/// Reassembles null-terminated frames from raw byte chunks: bytes
/// accumulate until a `0x00` terminator; bytes after the terminator stay
/// buffered for the next frame, never discarded.
pub struct FrameBuffer {
    buf: Vec<u8>,
}

impl FrameBuffer {
    /// The bytes of the still-incomplete frame.
    pub closed spec fn pending(self) -> Seq<u8> {
        self.buf@
    }

    /// No terminator ever stays in the pending buffer.
    pub open spec fn wf(self) -> bool {
        forall|i: int| 0 <= i < self.pending().len() ==> self.pending()[i] != 0
    }

    /// A fresh framer with nothing pending.
    pub fn new() -> (r: FrameBuffer)
        ensures
            r.pending() == Seq::<u8>::empty(),
            r.wf(),
    {
        FrameBuffer { buf: Vec::new() }
    }

    /// Feeds one chunk of raw bytes and returns the frames it completes, in
    /// order, exactly as `frames_rec` describes; what follows the last
    /// terminator stays pending.
    pub fn push_chunk(&mut self, chunk: &[u8]) -> (frames: Vec<Vec<u8>>)
        requires
            old(self).wf(),
        ensures
            final(self).wf(),
            frames.deep_view() == frames_rec(chunk@, old(self).pending()).0,
            final(self).pending() == frames_rec(chunk@, old(self).pending()).1,
    {
        let ghost orig = self.buf@;
        let mut frames: Vec<Vec<u8>> = Vec::new();
        let mut i: usize = 0;
        let n = chunk.len();
        proof {
            assert(chunk@.skip(0) =~= chunk@);
            assert(frames.deep_view() + frames_rec(chunk@, orig).0 =~= frames_rec(chunk@, orig).0);
        }
        while i < n
            invariant
                i <= n,
                n == chunk@.len(),
                self.wf(),
                frames_rec(chunk@, orig).0 == frames.deep_view() + frames_rec(
                    chunk@.skip(i as int),
                    self.buf@,
                ).0,
                frames_rec(chunk@, orig).1 == frames_rec(chunk@.skip(i as int), self.buf@).1,
            decreases n - i,
        {
            let ghost rem = chunk@.skip(i as int);
            let ghost pre = *self;
            let c = chunk[i];
            assert(rem[0] == c);
            proof {
                assert(rem.skip(1) =~= chunk@.skip(i + 1));
            }
            if c == 0 {
                let ghost prev = frames.deep_view();
                let ghost done_bytes = self.buf@;
                let mut done: Vec<u8> = Vec::new();
                core::mem::swap(&mut done, &mut self.buf);
                proof {
                    assert(done.deep_view() =~= done_bytes);
                    assert(self.buf@ =~= Seq::<u8>::empty());
                }
                frames.push(done);
                proof {
                    assert(frames.deep_view() =~= prev.push(done_bytes));
                    assert(prev.push(done_bytes) =~= prev + seq![done_bytes]);
                    assert(frames.deep_view() + frames_rec(chunk@.skip(i + 1), self.buf@).0
                        =~= prev + (seq![done_bytes] + frames_rec(rem.skip(1), Seq::empty()).0));
                }
            } else {
                self.buf.push(c);
                proof {
                    assert(pre.wf());
                    assert(self.pending() == pre.pending().push(c));
                    assert forall|j: int| 0 <= j < self.pending().len() implies self.pending()[j]
                        != 0 by {
                        if j < pre.pending().len() {
                            assert(pre.pending()[j] != 0);
                            assert(self.pending()[j] == pre.pending()[j]);
                        } else {
                            assert(self.pending()[j] == c);
                        }
                    }
                }
            }
            i = i + 1;
        }
        proof {
            assert(chunk@.skip(i as int).len() == 0);
            assert(frames.deep_view() =~= frames_rec(chunk@, orig).0);
        }
        frames
    }
}

/// Chunking independence: feeding bytes `a` and then bytes `b` completes the
/// same frames, in the same order, and leaves the same bytes pending, as
/// feeding `a + b` in one chunk.
pub proof fn lemma_chunking_independent(pending: Seq<u8>, a: Seq<u8>, b: Seq<u8>)
    ensures
        frames_rec(a + b, pending).0 == frames_rec(a, pending).0 + frames_rec(
            b,
            frames_rec(a, pending).1,
        ).0,
        frames_rec(a + b, pending).1 == frames_rec(b, frames_rec(a, pending).1).1,
    decreases a.len(),
{
    if a.len() == 0 {
        assert(a + b =~= b);
        assert(frames_rec(a, pending).0 =~= Seq::<Seq<u8>>::empty());
        assert(frames_rec(a, pending).1 == pending);
        assert(frames_rec(a, pending).0 + frames_rec(b, pending).0 =~= frames_rec(b, pending).0);
    } else {
        assert((a + b)[0] == a[0]);
        assert((a + b).skip(1) =~= a.skip(1) + b);
        if a[0] == 0 {
            lemma_chunking_independent(Seq::empty(), a.skip(1), b);
            assert(frames_rec(a + b, pending).0 =~= seq![pending] + frames_rec(
                a.skip(1) + b,
                Seq::empty(),
            ).0);
            assert(frames_rec(a, pending).0 =~= seq![pending] + frames_rec(
                a.skip(1),
                Seq::empty(),
            ).0);
            assert(frames_rec(a + b, pending).0 =~= frames_rec(a, pending).0 + frames_rec(
                b,
                frames_rec(a, pending).1,
            ).0);
        } else {
            lemma_chunking_independent(pending.push(a[0]), a.skip(1), b);
        }
    }
}

/// The view of a command result as the response encoder's contract speaks of
/// it.
pub open spec fn result_view(r: Result<String, String>) -> Result<Seq<char>, Seq<char>> {
    match r {
        Ok(s) => Ok(s@),
        Err(e) => Err(e@),
    }
}

/// The response text for a command result: the payload followed by `OK` on
/// success, or the base64 of the error message followed by a line break and
/// `ERR` on failure.
pub open spec fn render_response(r: Result<Seq<char>, Seq<char>>) -> Seq<char> {
    match r {
        Ok(payload) => payload + "OK"@,
        Err(msg) => b64_of(encode_utf8(msg)) + "\nERR"@,
    }
}

/// Encodes one response frame, ready for the transport write: the response
/// text as UTF-8 bytes, closed with the `0x00` frame terminator.
pub fn encode_response(res: &Result<String, String>) -> (out: Vec<u8>)
    ensures
        out@ == encode_utf8(render_response(result_view(*res))) + seq![0u8],
{
    let text: String = match res {
        Ok(s) => {
            let mut t = s.clone();
            t.append("OK");
            t
        },
        Err(e) => {
            let mut t = encode_b64(e.as_str().as_bytes());
            t.append("\nERR");
            t
        },
    };
    let mut out = text.as_str().as_bytes_vec();
    out.push(0);
    proof {
        assert(out@ =~= encode_utf8(render_response(result_view(*res))) + seq![0u8]);
    }
    out
}

} // verus!
