//! Collecting the request head from a stream of chunks.

use vstd::prelude::*;
use vstd::slice::{slice_subrange, slice_to_vec};

use crate::http::byte_lines::{
    double_crlf, find_from, first_index, index_from, lemma_first_index_is, lemma_first_index_none,
    lemma_index_from, stands_at,
};

verus! {

/// Maximum size of the request line and headers, the final empty line
/// counted. Enough for any sane `Proxy-Authorization` and browser header
/// bloat, small enough that an unterminated header cannot exhaust memory.
pub const MAX_HEADER_BYTES: usize = 16384;

/// What the bytes received so far amount to.
#[derive(Clone, Copy, Debug, PartialEq, Eq, Structural)]
pub enum HeaderProgress {
    /// No end of the header block yet, and still room for it.
    NeedMore,
    /// The header block is longer than [`MAX_HEADER_BYTES`].
    TooLarge,
    /// The header block, its final empty line counted, is this long.
    Complete(usize),
}

/// What a stream that begins with `bytes` amounts to: the first `\r\n\r\n`
/// ends the header block, which may not be longer than the limit.
pub open spec fn header_progress(bytes: Seq<u8>) -> HeaderProgress {
    match first_index(bytes, double_crlf()) {
        Some(p) => if p + 4 > MAX_HEADER_BYTES {
            HeaderProgress::TooLarge
        } else {
            HeaderProgress::Complete((p + 4) as usize)
        },
        None => if bytes.len() > MAX_HEADER_BYTES {
            HeaderProgress::TooLarge
        } else {
            HeaderProgress::NeedMore
        },
    }
}

/// What a reader that stops at the first decision makes of `chunks`, after
/// it has seen `seen`.
pub open spec fn progress_of_chunks(seen: Seq<u8>, chunks: Seq<Seq<u8>>) -> HeaderProgress
    decreases chunks.len(),
{
    if chunks.len() == 0 {
        header_progress(seen)
    } else {
        let now = seen + chunks[0];
        if header_progress(now) == HeaderProgress::NeedMore {
            progress_of_chunks(now, chunks.skip(1))
        } else {
            header_progress(now)
        }
    }
}

/// All chunks in one piece.
pub open spec fn joined(chunks: Seq<Seq<u8>>) -> Seq<u8>
    decreases chunks.len(),
{
    if chunks.len() == 0 {
        seq![]
    } else {
        chunks[0] + joined(chunks.skip(1))
    }
}

/// Extending a stream does not move what already stood in it.
proof fn lemma_stands_at_extended(a: Seq<u8>, b: Seq<u8>, pat: Seq<u8>, i: int)
    requires
        i + pat.len() <= a.len(),
    ensures
        stands_at(a + b, pat, i) == stands_at(a, pat, i),
{
    if 0 <= i {
        assert((a + b).subrange(i, i + pat.len()) =~= a.subrange(i, i + pat.len()));
    }
}

/// Once a stream has been decided, no further byte changes the decision.
pub proof fn decided_header_is_final(a: Seq<u8>, b: Seq<u8>)
    requires
        header_progress(a) != HeaderProgress::NeedMore,
    ensures
        header_progress(a + b) == header_progress(a),
{
    let pat = double_crlf();
    lemma_index_from(a, pat, 0);
    lemma_index_from(a + b, pat, 0);
    match first_index(a, pat) {
        Some(p) => {
            lemma_stands_at_extended(a, b, pat, p);
            assert forall|j: int| 0 <= j < p implies !stands_at(a + b, pat, j) by {
                lemma_stands_at_extended(a, b, pat, j);
            }
            lemma_first_index_is(a + b, pat, p);
        },
        None => {
            match first_index(a + b, pat) {
                Some(q) => {
                    if q + 4 <= a.len() {
                        lemma_stands_at_extended(a, b, pat, q);
                    }
                },
                None => {},
            }
        },
    }
}

/// However the stream is cut into chunks, the decision is that of the whole
/// stream.
pub proof fn header_is_independent_of_chunking(seen: Seq<u8>, chunks: Seq<Seq<u8>>)
    requires
        header_progress(seen) == HeaderProgress::NeedMore,
    ensures
        progress_of_chunks(seen, chunks) == header_progress(seen + joined(chunks)),
    decreases chunks.len(),
{
    if chunks.len() == 0 {
        assert(seen + joined(chunks) =~= seen);
    } else {
        let now = seen + chunks[0];
        let rest = chunks.skip(1);
        assert(seen + joined(chunks) =~= now + joined(rest));
        if header_progress(now) == HeaderProgress::NeedMore {
            header_is_independent_of_chunking(now, rest);
        } else {
            decided_header_is_final(now, joined(rest));
        }
    }
}

/// The bytes received while the header block is still open.
pub struct HeaderBuffer {
    buf: Vec<u8>,
}

impl View for HeaderBuffer {
    type V = Seq<u8>;

    closed spec fn view(&self) -> Seq<u8> {
        self.buf@
    }
}

impl HeaderBuffer {
    /// An empty buffer.
    pub fn new() -> (r: Self)
        ensures
            r@ == Seq::<u8>::empty(),
    {
        HeaderBuffer { buf: Vec::new() }
    }

    /// Appends one chunk and decides. Only the part of the buffer that the
    /// chunk can have completed is scanned.
    pub fn push(&mut self, chunk: &[u8]) -> (r: HeaderProgress)
        requires
            header_progress(old(self)@) == HeaderProgress::NeedMore,
        ensures
            final(self)@ == old(self)@ + chunk@,
            r == header_progress(final(self)@),
    {
        let ghost before = self.buf@;
        let ghost pat = double_crlf();
        let len: usize = self.buf.len();
        let scan_from: usize = if len > 3 {
            len - 3
        } else {
            0
        };
        self.buf.extend_from_slice(chunk);
        let pattern: [u8; 4] = [13, 10, 13, 10];
        assert(pattern@ =~= pat);
        let found = find_from(self.buf.as_slice(), &pattern, scan_from);
        proof {
            let after = self.buf@;
            assert(after =~= before + chunk@);
            lemma_index_from(before, pat, 0);
            lemma_index_from(after, pat, scan_from as int);
            assert forall|j: int| 0 <= j < scan_from implies !stands_at(after, pat, j) by {
                lemma_stands_at_extended(before, chunk@, pat, j);
            }
            match index_from(after, pat, scan_from as int) {
                Some(i) => lemma_first_index_is(after, pat, i),
                None => lemma_first_index_none(after, pat),
            }
        }
        match found {
            Some(pos) => {
                if pos > MAX_HEADER_BYTES - 4 {
                    HeaderProgress::TooLarge
                } else {
                    HeaderProgress::Complete(pos + 4)
                }
            },
            None => {
                if self.buf.len() > MAX_HEADER_BYTES {
                    HeaderProgress::TooLarge
                } else {
                    HeaderProgress::NeedMore
                }
            },
        }
    }

    /// Takes a complete buffer apart: the header block without its final
    /// empty line, and the bytes that the client pipelined past it.
    pub fn split(self, header_end: usize) -> (r: (Vec<u8>, Vec<u8>))
        requires
            header_progress(self@) == HeaderProgress::Complete(header_end),
        ensures
            r.0@ == self@.subrange(0, header_end - 4),
            r.1@ == self@.subrange(header_end as int, self@.len() as int),
            self@ == r.0@ + double_crlf() + r.1@,
    {
        proof {
            lemma_index_from(self.buf@, double_crlf(), 0);
        }
        let bytes = self.buf.as_slice();
        let head = slice_to_vec(slice_subrange(bytes, 0, header_end - 4));
        let pipelined = slice_to_vec(slice_subrange(bytes, header_end, bytes.len()));
        assert(self.buf@ =~= head@ + double_crlf() + pipelined@) by {
            let p = header_end - 4;
            assert forall|k: int| 0 <= k < 4 implies self.buf@[p + k] == double_crlf()[k] by {
                assert(self.buf@.subrange(p, p + 4)[k] == self.buf@[p + k]);
            }
        }
        (head, pipelined)
    }
}

} // verus!
