//! Server-Sent Events framing: bytes are buffered until a newline, each
//! complete line is decoded and classified, and data payloads are handed on.
use vstd::prelude::*;
use crate::text::{has_prefix, slice_chars, trim, trim_bounds};

verus! {

/// Splits a byte stream at `\n`: the complete lines (without their
/// newline) and the bytes after the last newline.
pub open spec fn split_lines(s: Seq<u8>) -> (Seq<Seq<u8>>, Seq<u8>)
    decreases s.len(),
{
    if s.len() == 0 {
        (Seq::empty(), Seq::empty())
    } else {
        let prev = split_lines(s.drop_last());
        if s.last() == 10u8 {
            (prev.0.push(prev.1), Seq::empty())
        } else {
            (prev.0, prev.1.push(s.last()))
        }
    }
}

pub open spec fn lines_view(v: Seq<Vec<u8>>) -> Seq<Seq<u8>> {
    v.map_values(|l: Vec<u8>| l@)
}

/// Collects bytes until complete lines can be handed out.
pub struct LineBuffer {
    pending: Vec<u8>,
    consumed: Ghost<Seq<u8>>,
}

impl LineBuffer {
    /// Every byte fed so far.
    pub closed spec fn consumed(&self) -> Seq<u8> {
        self.consumed@
    }

    pub closed spec fn wf(&self) -> bool {
        split_lines(self.consumed@).1 == self.pending@
    }

    pub fn new() -> (r: LineBuffer)
        ensures
            r.wf(),
            r.consumed() == Seq::<u8>::empty(),
    {
        LineBuffer { pending: Vec::new(), consumed: Ghost(Seq::empty()) }
    }

    /// Takes the next chunk and returns the lines it completes, in order.
    pub fn feed(&mut self, chunk: &[u8]) -> (lines: Vec<Vec<u8>>)
        requires
            old(self).wf(),
        ensures
            final(self).wf(),
            final(self).consumed() == old(self).consumed() + chunk@,
            split_lines(old(self).consumed()).0 + lines_view(lines@) == split_lines(
                final(self).consumed(),
            ).0,
    {
        let ghost start = self.consumed@;
        let mut pending: Vec<u8> = Vec::new();
        std::mem::swap(&mut pending, &mut self.pending);
        let mut out: Vec<Vec<u8>> = Vec::new();
        let mut k: usize = 0;
        assert(start + chunk@.subrange(0, 0) =~= start);
        assert(lines_view(out@) =~= Seq::<Seq<u8>>::empty());
        while k < chunk.len()
            invariant
                k <= chunk@.len(),
                split_lines(start + chunk@.subrange(0, k as int)) == (
                    split_lines(start).0 + lines_view(out@),
                    pending@,
                ),
            decreases chunk@.len() - k,
        {
            let ghost before = start + chunk@.subrange(0, k as int);
            let b = chunk[k];
            assert(start + chunk@.subrange(0, k + 1) =~= before.push(b));
            assert(before.push(b).drop_last() =~= before);
            if b == 10u8 {
                let mut line: Vec<u8> = Vec::new();
                std::mem::swap(&mut line, &mut pending);
                let ghost o = out@;
                out.push(line);
                assert(lines_view(out@) =~= lines_view(o).push(line@));
                assert(split_lines(start).0 + lines_view(out@) =~= (split_lines(start).0
                    + lines_view(o)).push(line@));
            } else {
                pending.push(b);
            }
            k = k + 1;
        }
        assert(chunk@.subrange(0, k as int) =~= chunk@);
        self.pending = pending;
        self.consumed = Ghost(start + chunk@);
        out
    }
}

/// Concatenation of a sequence of chunks.
pub open spec fn joined(chunks: Seq<Seq<u8>>) -> Seq<u8>
    decreases chunks.len(),
{
    if chunks.len() == 0 {
        Seq::empty()
    } else {
        joined(chunks.drop_last()) + chunks.last()
    }
}

/// The lines that `LineBuffer::feed` hands out, call after call, when a
/// fresh buffer is fed `chunks` one after another.
pub open spec fn fed_lines(chunks: Seq<Seq<u8>>) -> Seq<Seq<u8>>
    decreases chunks.len(),
{
    if chunks.len() == 0 {
        Seq::empty()
    } else {
        let before = joined(chunks.drop_last());
        fed_lines(chunks.drop_last()) + split_lines(before + chunks.last()).0.skip(
            split_lines(before).0.len() as int,
        )
    }
}

/// The lines of a prefix of a stream are a prefix of the lines of the stream.
pub proof fn lemma_lines_prefix(a: Seq<u8>, b: Seq<u8>)
    ensures
        split_lines(a).0.len() <= split_lines(a + b).0.len(),
        split_lines(a + b).0.subrange(0, split_lines(a).0.len() as int) == split_lines(a).0,
    decreases b.len(),
{
    if b.len() == 0 {
        assert(a + b =~= a);
        assert(split_lines(a).0.subrange(0, split_lines(a).0.len() as int) =~= split_lines(a).0);
    } else {
        let b1 = b.drop_last();
        lemma_lines_prefix(a, b1);
        assert((a + b).drop_last() =~= a + b1);
        let p = split_lines(a + b1).0;
        let n = split_lines(a).0.len() as int;
        if (a + b).last() == 10u8 {
            assert(p.push(split_lines(a + b1).1).subrange(0, n) =~= p.subrange(0, n));
        }
    }
}

/// Chunking does not matter: whatever chunks a byte stream is cut into,
/// a line buffer hands out the same lines as for the whole stream at once.
pub proof fn lemma_chunking_invariant(chunks: Seq<Seq<u8>>)
    ensures
        fed_lines(chunks) == split_lines(joined(chunks)).0,
    decreases chunks.len(),
{
    if chunks.len() > 0 {
        let before = joined(chunks.drop_last());
        lemma_chunking_invariant(chunks.drop_last());
        lemma_lines_prefix(before, chunks.last());
        let whole = split_lines(before + chunks.last()).0;
        let n = split_lines(before).0.len() as int;
        assert(whole.subrange(0, n) + whole.skip(n) =~= whole);
    }
}

/// Two ways of cutting one byte stream into chunks give the same lines.
pub proof fn lemma_same_stream_same_lines(a: Seq<Seq<u8>>, b: Seq<Seq<u8>>)
    requires
        joined(a) == joined(b),
    ensures
        fed_lines(a) == fed_lines(b),
{
    lemma_chunking_invariant(a);
    lemma_chunking_invariant(b);
}

/// The payload of an SSE line: the line is trimmed; empty lines and
/// comments (`:`) carry none; a `data: ` line carries what follows the prefix.
pub open spec fn data_payload(line: Seq<char>) -> Option<Seq<char>> {
    let t = trim(line);
    if t.len() == 0 || t[0] == ':' {
        None
    } else if t.len() >= 6 && t.subrange(0, 6) == "data: "@ {
        Some(t.subrange(6, t.len() as int))
    } else {
        None
    }
}

/// Classifies one SSE line and returns its data payload, if any.
pub fn sse_payload(line: &str) -> (r: Option<String>)
    ensures
        match r {
            Some(p) => data_payload(line@) == Some(p@),
            None => data_payload(line@) is None,
        },
{
    let (lo, hi) = trim_bounds(line);
    let t = slice_chars(line, lo, hi);
    let ts = t.as_str();
    if hi == lo {
        return None;
    }
    proof {
        reveal_strlit("data: ");
    }
    if has_prefix(ts, "data: ") {
        let n = hi - lo;
        assert(t@[0] == t@.subrange(0, 6)[0]);
        Some(slice_chars(ts, 6, n))
    } else {
        None
    }
}

} // verus!
