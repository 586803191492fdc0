//! The memory context placed before a user message: recalled entries as
//! `- ` lines under a header, ended by a blank line.
use vstd::prelude::*;
use crate::text::{append, owned};
use vstd::string::StrSliceExecFns;

verus! {

/// One entry recalled from memory.
#[derive(Debug, Clone, PartialEq, Eq)]
pub struct MemoryEntry {
    pub key: String,
    pub content: String,
}

pub open spec fn entry_line(e: MemoryEntry) -> Seq<char> {
    "- "@ + e.key@ + ": "@ + e.content@ + "\n"@
}

pub open spec fn entry_lines(es: Seq<MemoryEntry>) -> Seq<char>
    decreases es.len(),
{
    if es.len() == 0 {
        Seq::empty()
    } else {
        entry_lines(es.drop_last()) + entry_line(es.last())
    }
}

/// The context block for the recalled entries; empty when there are none.
pub open spec fn context_of(es: Seq<MemoryEntry>) -> Seq<char> {
    if es.len() == 0 {
        Seq::empty()
    } else {
        "[Memory context]\n"@ + entry_lines(es) + "\n"@
    }
}

/// Formats recalled entries as a context block.
pub fn build_context(entries: &Vec<MemoryEntry>) -> (r: String)
    ensures
        r@ == context_of(entries@),
{
    if entries.len() == 0 {
        return String::new();
    }
    let mut lines = String::new();
    let mut k: usize = 0;
    while k < entries.len()
        invariant
            k <= entries@.len(),
            lines@ == entry_lines(entries@.subrange(0, k as int)),
        decreases entries@.len() - k,
    {
        assert(entries@.subrange(0, k + 1).drop_last() =~= entries@.subrange(0, k as int));
        append(&mut lines, "- ");
        append(&mut lines, entries[k].key.as_str());
        append(&mut lines, ": ");
        append(&mut lines, entries[k].content.as_str());
        append(&mut lines, "\n");
        k = k + 1;
    }
    assert(entries@.subrange(0, k as int) =~= entries@);
    let mut out = owned("[Memory context]\n");
    append(&mut out, lines.as_str());
    append(&mut out, "\n");
    out
}

/// Whether a line starting with `- ` begins at index `i`.
pub open spec fn bullet_at(s: Seq<char>, i: int) -> bool {
    &&& 0 <= i
    &&& i + 2 <= s.len()
    &&& (i == 0 || s[i - 1] == '\n')
    &&& s[i] == '-'
    &&& s[i + 1] == ' '
}

/// The number of lines starting with `- ` that begin before index `k`.
pub open spec fn bullets_before(s: Seq<char>, k: int) -> nat
    decreases k,
{
    if k <= 0 {
        0
    } else {
        bullets_before(s, k - 1) + if bullet_at(s, k - 1) { 1nat } else { 0nat }
    }
}

/// The number of lines of a context block that start with `- `.
pub fn recall_count(context: &str) -> (r: usize)
    ensures
        r == bullets_before(context@, context@.len() as int),
{
    let n = context.unicode_len();
    let mut count: usize = 0;
    let mut i: usize = 0;
    while i < n
        invariant
            n == context@.len(),
            i <= n,
            count == bullets_before(context@, i as int),
            count <= i,
        decreases n - i,
    {
        if (i == 0 || context.get_char(i - 1) == '\n') && 2 <= n - i && context.get_char(i) == '-'
            && context.get_char(i + 1) == ' ' {
            count = count + 1;
        }
        i = i + 1;
    }
    count
}

} // verus!
