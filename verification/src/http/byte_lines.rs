//! Byte patterns and CRLF-delimited lines.

use vstd::prelude::*;
use vstd::slice::slice_subrange;

verus! {

/// Whether `pat` stands in `s` at index `i`.
pub open spec fn stands_at(s: Seq<u8>, pat: Seq<u8>, i: int) -> bool {
    0 <= i && i + pat.len() <= s.len() && s.subrange(i, i + pat.len()) == pat
}

/// The first index not before `from` at which `pat` stands in `s`.
pub open spec fn index_from(s: Seq<u8>, pat: Seq<u8>, from: int) -> Option<int>
    decreases s.len() - from + 1,
{
    if from + pat.len() > s.len() {
        None
    } else if stands_at(s, pat, from) {
        Some(from)
    } else {
        index_from(s, pat, from + 1)
    }
}

/// The first index at which `pat` stands in `s`.
pub open spec fn first_index(s: Seq<u8>, pat: Seq<u8>) -> Option<int> {
    index_from(s, pat, 0)
}

/// Carriage return, line feed.
pub open spec fn crlf() -> Seq<u8> {
    seq![13u8, 10u8]
}

/// The empty line that ends a header block, with the line end before it.
pub open spec fn double_crlf() -> Seq<u8> {
    seq![13u8, 10u8, 13u8, 10u8]
}

/// `index_from` is the least index from `from` on at which the pattern stands.
pub proof fn lemma_index_from(s: Seq<u8>, pat: Seq<u8>, from: int)
    requires
        0 <= from,
    ensures
        match index_from(s, pat, from) {
            Some(i) => from <= i && stands_at(s, pat, i) && forall|j: int|
                from <= j < i ==> !stands_at(s, pat, j),
            None => forall|j: int| from <= j ==> !stands_at(s, pat, j),
        },
    decreases s.len() - from + 1,
{
    if from + pat.len() <= s.len() && !stands_at(s, pat, from) {
        lemma_index_from(s, pat, from + 1);
    }
}

/// An index at which the pattern stands, with none before it, is the first.
pub proof fn lemma_first_index_is(s: Seq<u8>, pat: Seq<u8>, i: int)
    requires
        stands_at(s, pat, i),
        forall|j: int| 0 <= j < i ==> !stands_at(s, pat, j),
    ensures
        first_index(s, pat) == Some(i),
{
    lemma_index_from(s, pat, 0);
}

/// A pattern that stands nowhere has no first index.
pub proof fn lemma_first_index_none(s: Seq<u8>, pat: Seq<u8>)
    requires
        forall|j: int| 0 <= j ==> !stands_at(s, pat, j),
    ensures
        first_index(s, pat) is None,
{
    lemma_index_from(s, pat, 0);
}

/// Whether `pat` stands in `buf` at `at`.
fn matches_at(buf: &[u8], pat: &[u8], at: usize) -> (r: bool)
    requires
        at + pat@.len() <= buf@.len(),
    ensures
        r == stands_at(buf@, pat@, at as int),
{
    let len: usize = buf.len();
    let mut k: usize = 0;
    while k < pat.len()
        invariant
            k <= pat@.len(),
            len == buf@.len(),
            at + pat@.len() <= len,
            forall|j: int| 0 <= j < k ==> buf@[at + j] == pat@[j],
        decreases pat@.len() - k,
    {
        if buf[at + k] != pat[k] {
            assert(buf@.subrange(at as int, at + pat@.len())[k as int] != pat@[k as int]);
            return false;
        }
        k += 1;
    }
    assert(buf@.subrange(at as int, at + pat@.len()) =~= pat@);
    true
}

/// The first place at which `pat` stands in `buf`, from `from` on.
pub fn find_from(buf: &[u8], pat: &[u8], from: usize) -> (r: Option<usize>)
    ensures
        match r {
            Some(p) => index_from(buf@, pat@, from as int) == Some(p as int),
            None => index_from(buf@, pat@, from as int) is None,
        },
{
    if pat.len() > buf.len() {
        return None;
    }
    let last: usize = buf.len() - pat.len();
    let mut at: usize = from;
    while at <= last
        invariant
            last + pat@.len() == buf@.len(),
            from <= at,
            index_from(buf@, pat@, from as int) == index_from(buf@, pat@, at as int),
        decreases last + 1 - at,
    {
        if matches_at(buf, pat, at) {
            return Some(at);
        }
        if at == last {
            assert(index_from(buf@, pat@, at + 1) is None);
            return None;
        }
        at += 1;
    }
    None
}

/// The place of the first `\r\n\r\n`.
pub fn find_double_crlf(buf: &[u8]) -> (r: Option<usize>)
    ensures
        match r {
            Some(p) => first_index(buf@, double_crlf()) == Some(p as int),
            None => first_index(buf@, double_crlf()) is None,
        },
{
    let pat: [u8; 4] = [13, 10, 13, 10];
    assert(pat@ =~= double_crlf());
    find_from(buf, &pat, 0)
}

/// The CRLF-delimited lines of a block. A block that does not end in CRLF has
/// its last piece as a line; an empty block has no line.
pub open spec fn lines_of(block: Seq<u8>) -> Seq<Seq<u8>>
    decreases block.len(),
{
    if block.len() == 0 {
        seq![]
    } else {
        match first_index(block, crlf()) {
            Some(p) => {
                proof {
                    lemma_index_from(block, crlf(), 0);
                }
                seq![block.subrange(0, p)] + lines_of(block.subrange(p + 2, block.len() as int))
            },
            None => seq![block],
        }
    }
}

/// A block is its first line, CRLF, and what is left; the line holds no CRLF.
proof fn lemma_first_line(block: Seq<u8>)
    requires
        first_index(block, crlf()) is Some,
    ensures
        ({
            let p = first_index(block, crlf())->0;
            let line = block.subrange(0, p);
            &&& 0 <= p <= block.len() - 2
            &&& block == line + crlf() + block.subrange(p + 2, block.len() as int)
            &&& first_index(line, crlf()) is None
        }),
{
    lemma_index_from(block, crlf(), 0);
    let p = first_index(block, crlf())->0;
    let line = block.subrange(0, p);
    assert(block =~= line + crlf() + block.subrange(p + 2, block.len() as int)) by {
        assert(block.subrange(p, p + 2) == crlf());
        assert(block[p] == block.subrange(p, p + 2)[0]);
        assert(block[p + 1] == block.subrange(p, p + 2)[1]);
    }
    assert forall|j: int| 0 <= j implies !stands_at(line, crlf(), j) by {
        if j + 2 <= line.len() {
            assert(line.subrange(j, j + 2) =~= block.subrange(j, j + 2));
            assert(!stands_at(block, crlf(), j));
        }
    }
    lemma_first_index_none(line, crlf());
}

/// Walks the CRLF-delimited lines of a byte block without a line table.
pub struct ByteLines<'a> {
    pub rest: &'a [u8],
}

impl<'a> ByteLines<'a> {
    /// The next line, or `None` when the block is exhausted.
    pub fn next(&mut self) -> (r: Option<&'a [u8]>)
        ensures
            r is None <==> old(self).rest@.len() == 0,
            r is None <==> lines_of(old(self).rest@).len() == 0,
            r is None ==> final(self).rest@ == old(self).rest@,
            r matches Some(line) ==> {
                &&& first_index(line@, crlf()) is None
                &&& match first_index(old(self).rest@, crlf()) {
                    Some(_) => old(self).rest@ == line@ + crlf() + final(self).rest@,
                    None => line@ == old(self).rest@ && final(self).rest@.len() == 0,
                }
                &&& lines_of(old(self).rest@) == seq![line@] + lines_of(final(self).rest@)
                &&& final(self).rest@.len() < old(self).rest@.len()
            },
    {
        if self.rest.len() == 0 {
            return None;
        }
        let pat: [u8; 2] = [13, 10];
        assert(pat@ =~= crlf());
        let found = find_from(self.rest, &pat, 0);
        let block = self.rest;
        proof {
            lemma_index_from(block@, crlf(), 0);
        }
        match found {
            Some(pos) => {
                let line = slice_subrange(block, 0, pos);
                self.rest = slice_subrange(block, pos + 2, block.len());
                proof {
                    lemma_first_line(block@);
                }
                Some(line)
            },
            None => {
                self.rest = slice_subrange(block, block.len(), block.len());
                assert(lines_of(self.rest@) =~= seq![]);
                assert(lines_of(block@) =~= seq![block@] + lines_of(self.rest@));
                Some(block)
            },
        }
    }
}

/// Lines put together again with CRLF between any two.
pub open spec fn joined_lines(lines: Seq<Seq<u8>>) -> Seq<u8>
    decreases lines.len(),
{
    if lines.len() == 0 {
        seq![]
    } else if lines.len() == 1 {
        lines[0]
    } else {
        lines[0] + crlf() + joined_lines(lines.skip(1))
    }
}

/// No byte of a block is lost in its lines: put together they are the block,
/// but for a CRLF at its very end. No line holds a CRLF.
pub proof fn lines_are_the_block(block: Seq<u8>)
    ensures
        joined_lines(lines_of(block)) == block || (lines_of(block).len() > 0 && joined_lines(
            lines_of(block),
        ) + crlf() == block),
        forall|i: int|
            0 <= i < lines_of(block).len() ==> first_index(#[trigger] lines_of(block)[i], crlf())
                is None,
    decreases block.len(),
{
    if block.len() > 0 {
        lemma_index_from(block, crlf(), 0);
        match first_index(block, crlf()) {
            Some(p) => {
                let line = block.subrange(0, p);
                let rest = block.subrange(p + 2, block.len() as int);
                lines_are_the_block(rest);
                lemma_first_line(block);
                let lines = lines_of(block);
                assert(lines.skip(1) =~= lines_of(rest));
                if lines_of(rest).len() == 0 {
                    assert(rest.len() == 0) by {
                        if rest.len() > 0 {
                            lemma_index_from(rest, crlf(), 0);
                        }
                    }
                    assert(joined_lines(lines) + crlf() =~= block);
                } else {
                    if joined_lines(lines_of(rest)) == rest {
                        assert(joined_lines(lines) =~= block);
                    } else {
                        assert(joined_lines(lines) + crlf() =~= block);
                    }
                }
            },
            None => {},
        }
    }
}

} // verus!
