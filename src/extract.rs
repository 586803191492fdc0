//! Tool-call extraction: a reply is split into prose and the bodies of
//! `<tool_call>...</tool_call>` blocks; each body is a JSON object with a
//! `name` and an `arguments` object.
use vstd::prelude::*;
use crate::dispatch::ParsedToolCall;
use crate::json::{is_json, json_member, json_member_of, json_str, json_valid, opt_text, str_of};
use crate::text::{append, owned, same_text, slice_chars, trim, trimmed};
use vstd::string::StrSliceExecFns;

verus! {

pub open spec fn open_tag() -> Seq<char> {
    "<tool_call>"@
}

pub open spec fn close_tag() -> Seq<char> {
    "</tool_call>"@
}

pub open spec fn matches_at(s: Seq<char>, p: Seq<char>, i: int) -> bool {
    0 <= i && i + p.len() <= s.len() && s.subrange(i, i + p.len()) == p
}

/// The first index at or after `i` where `p` occurs in `s`, or -1.
pub open spec fn find_from(s: Seq<char>, p: Seq<char>, i: int) -> int
    decreases s.len() + 1 - i,
{
    if i < 0 || i + p.len() > s.len() {
        -1
    } else if matches_at(s, p, i) {
        i
    } else {
        find_from(s, p, i + 1)
    }
}

fn find_text(s: &str, p: &str, from: usize) -> (r: Option<usize>)
    requires
        from <= s@.len(),
    ensures
        match r {
            Some(i) => find_from(s@, p@, from as int) == i && from <= i && i + p@.len() <= s@.len(),
            None => find_from(s@, p@, from as int) == -1,
        },
{
    let n = s.unicode_len();
    let m = p.unicode_len();
    let mut i = from;
    while i <= n && m <= n - i
        invariant
            n == s@.len(),
            m == p@.len(),
            from <= i,
            i <= n + 1,
            find_from(s@, p@, from as int) == find_from(s@, p@, i as int),
        decreases n + 1 - i,
    {
        let window = s.substring_char(i, i + m);
        if same_text(window, p) {
            return Some(i);
        }
        proof {
            if m == 0 {
                assert(window@ =~= p@);
            }
        }
        i = i + 1;
    }
    None
}

/// The pieces of `s` from `pos` on: the prose segments between blocks (the
/// last one running to the end, or holding an unclosed block), and the
/// bodies of the complete blocks, in order.
pub open spec fn segments_from(s: Seq<char>, pos: int) -> (Seq<Seq<char>>, Seq<Seq<char>>)
    decreases s.len() - pos,
{
    if pos < 0 || pos > s.len() {
        (Seq::empty(), Seq::empty())
    } else {
        let open = find_from(s, open_tag(), pos);
        let close = if open < 0 {
            -1
        } else {
            find_from(s, close_tag(), open + open_tag().len())
        };
        let next = close + close_tag().len();
        if open < 0 || close < 0 || next <= pos || next > s.len() {
            (seq![s.subrange(pos, s.len() as int)], Seq::empty())
        } else {
            let rest = segments_from(s, next);
            (
                seq![s.subrange(pos, open)] + rest.0,
                seq![s.subrange(open + open_tag().len(), close)] + rest.1,
            )
        }
    }
}

pub open spec fn texts_view(v: Seq<String>) -> Seq<Seq<char>> {
    v.map_values(|s: String| s@)
}

/// Splits a reply into its prose segments and the bodies of its complete
/// tool blocks.
pub fn split_tool_blocks(s: &str) -> (r: (Vec<String>, Vec<String>))
    ensures
        (texts_view(r.0@), texts_view(r.1@)) == segments_from(s@, 0),
{
    proof {
        reveal_strlit("<tool_call>");
        reveal_strlit("</tool_call>");
        assert("<tool_call>"@.len() == 11);
        assert("</tool_call>"@.len() == 12);
    }
    let n = s.unicode_len();
    let mut parts: Vec<String> = Vec::new();
    let mut bodies: Vec<String> = Vec::new();
    let mut pos: usize = 0;
    assert(texts_view(parts@) =~= Seq::<Seq<char>>::empty());
    assert(texts_view(bodies@) =~= Seq::<Seq<char>>::empty());
    loop
        invariant
            n == s@.len(),
            pos <= n,
            segments_from(s@, 0) == (
                texts_view(parts@) + segments_from(s@, pos as int).0,
                texts_view(bodies@) + segments_from(s@, pos as int).1,
            ),
        decreases n - pos,
    {
        proof {
            reveal_strlit("<tool_call>");
            reveal_strlit("</tool_call>");
        }
        let ghost before_parts = parts@;
        let ghost before_bodies = bodies@;
        let open = find_text(s, "<tool_call>", pos);
        let close = match open {
            Some(o) => find_text(s, "</tool_call>", o + 11),
            None => None,
        };
        match (open, close) {
            (Some(o), Some(c)) => {
                let ghost rest = segments_from(s@, (c + 12) as int);
                parts.push(slice_chars(s, pos, o));
                bodies.push(slice_chars(s, o + 11, c));
                assert(texts_view(parts@) =~= texts_view(before_parts).push(
                    s@.subrange(pos as int, o as int),
                ));
                assert(texts_view(bodies@) =~= texts_view(before_bodies).push(
                    s@.subrange(o + 11, c as int),
                ));
                assert(texts_view(parts@) + rest.0 =~= texts_view(before_parts) + (seq![
                    s@.subrange(pos as int, o as int),
                ] + rest.0));
                assert(texts_view(bodies@) + rest.1 =~= texts_view(before_bodies) + (seq![
                    s@.subrange(o + 11, c as int),
                ] + rest.1));
                pos = c + 12;
            },
            _ => {
                parts.push(slice_chars(s, pos, n));
                assert(texts_view(parts@) =~= texts_view(before_parts) + seq![
                    s@.subrange(pos as int, n as int),
                ]);
                assert(texts_view(bodies@) =~= texts_view(bodies@) + Seq::<Seq<char>>::empty());
                return (parts, bodies);
            },
        }
    }
}

/// The prose of a reply: its trimmed, non-empty segments joined by newlines.
pub open spec fn join_prose(parts: Seq<Seq<char>>) -> Seq<char>
    decreases parts.len(),
{
    if parts.len() == 0 {
        Seq::empty()
    } else {
        let p = join_prose(parts.drop_last());
        let t = trim(parts.last());
        if t.len() == 0 {
            p
        } else if p.len() == 0 {
            t
        } else {
            p + "\n"@ + t
        }
    }
}

/// Joins trimmed, non-empty prose segments with newlines.
pub fn prose_of(parts: &Vec<String>) -> (r: String)
    ensures
        r@ == join_prose(texts_view(parts@)),
{
    let ghost pv = texts_view(parts@);
    let mut out = String::new();
    let mut k: usize = 0;
    while k < parts.len()
        invariant
            k <= parts@.len(),
            pv == texts_view(parts@),
            out@ == join_prose(pv.subrange(0, k as int)),
        decreases parts@.len() - k,
    {
        assert(pv.subrange(0, k + 1).drop_last() =~= pv.subrange(0, k as int));
        let t = trimmed(parts[k].as_str());
        if t.as_str().unicode_len() > 0 {
            if out.as_str().unicode_len() > 0 {
                append(&mut out, "\n");
            }
            append(&mut out, t.as_str());
        }
        k = k + 1;
    }
    assert(pv.subrange(0, k as int) =~= pv);
    out
}

/// The call a block body holds: `None` when the trimmed body is not JSON;
/// otherwise its `name` string (empty when missing) and its `arguments` as
/// JSON text (`{}` when missing).
pub open spec fn block_call(body: Seq<char>) -> Option<(Seq<char>, Seq<char>)> {
    let t = trim(body);
    if json_valid(t) {
        Some(
            (
                match str_of(json_member_of(t, "name"@)) {
                    Some(n) => n,
                    None => Seq::<char>::empty(),
                },
                match json_member_of(t, "arguments"@) {
                    Some(a) => a,
                    None => "{}"@,
                },
            ),
        )
    } else {
        None
    }
}

/// The calls of a sequence of block bodies, in order, skipping bodies that
/// are not JSON.
pub open spec fn calls_of(bodies: Seq<Seq<char>>) -> Seq<(Seq<char>, Seq<char>)>
    decreases bodies.len(),
{
    if bodies.len() == 0 {
        Seq::empty()
    } else {
        match block_call(bodies.last()) {
            Some(c) => calls_of(bodies.drop_last()).push(c),
            None => calls_of(bodies.drop_last()),
        }
    }
}

pub open spec fn calls_view(v: Seq<ParsedToolCall>) -> Seq<(Seq<char>, Seq<char>)> {
    v.map_values(|c: ParsedToolCall| c@)
}

/// Reads one block body.
pub fn call_from_block(body: &str) -> (r: Option<ParsedToolCall>)
    ensures
        match r {
            Some(c) => block_call(body@) == Some(c@),
            None => block_call(body@) is None,
        },
{
    let t = trimmed(body);
    if !is_json(t.as_str()) {
        return None;
    }
    let name = match json_member(t.as_str(), "name") {
        Some(n) => json_str(n.as_str()),
        None => None,
    };
    let arguments = json_member(t.as_str(), "arguments");
    Some(tool_call_of(name, arguments))
}

/// A call from the `name` and the `arguments` read out of a block: a
/// missing name reads as empty, missing arguments as `{}`.
pub fn tool_call_of(name: Option<String>, arguments: Option<String>) -> (r: ParsedToolCall)
    ensures
        r.name@ == match opt_text(name) {
            Some(n) => n,
            None => Seq::<char>::empty(),
        },
        r.arguments@ == match opt_text(arguments) {
            Some(a) => a,
            None => "{}"@,
        },
{
    let name = match name {
        Some(n) => n,
        None => String::new(),
    };
    let arguments = match arguments {
        Some(a) => a,
        None => owned("{}"),
    };
    ParsedToolCall { name, arguments }
}

/// Splits a finished reply into its prose and its tool calls in order of
/// appearance. Blocks whose body is not JSON are dropped. With no complete
/// block, the prose is the whole reply, trimmed, and there are no calls.
pub fn parse_tool_calls(response: &str) -> (r: (String, Vec<ParsedToolCall>))
    ensures
        r.0@ == join_prose(segments_from(response@, 0).0),
        calls_view(r.1@) == calls_of(segments_from(response@, 0).1),
{
    let (parts, bodies) = split_tool_blocks(response);
    let prose = prose_of(&parts);
    let ghost bv = texts_view(bodies@);
    let mut calls: Vec<ParsedToolCall> = Vec::new();
    let mut k: usize = 0;
    assert(calls_view(calls@) =~= calls_of(bv.subrange(0, 0)));
    while k < bodies.len()
        invariant
            k <= bodies@.len(),
            bv == texts_view(bodies@),
            calls_view(calls@) == calls_of(bv.subrange(0, k as int)),
        decreases bodies@.len() - k,
    {
        assert(bv.subrange(0, k + 1).drop_last() =~= bv.subrange(0, k as int));
        assert(bv.subrange(0, k + 1).last() == bodies@[k as int]@);
        let ghost cv = calls_view(calls@);
        if let Some(c) = call_from_block(bodies[k].as_str()) {
            calls.push(c);
            assert(calls_view(calls@) =~= cv.push(calls@.last()@));
        }
        k = k + 1;
    }
    assert(bv.subrange(0, k as int) =~= bv);
    (prose, calls)
}

/// Without a complete tool block, a reply is all prose: the reply trimmed.
pub proof fn lemma_no_blocks_all_prose(s: Seq<char>)
    requires
        find_from(s, open_tag(), 0) == -1,
    ensures
        segments_from(s, 0).1.len() == 0,
        join_prose(segments_from(s, 0).0) == trim(s),
{
    assert(s.subrange(0, s.len() as int) =~= s);
    let parts = segments_from(s, 0).0;
    assert(parts == seq![s]);
    assert(parts.drop_last() =~= Seq::<Seq<char>>::empty());
    assert(join_prose(parts.drop_last()) == Seq::<char>::empty());
}

} // verus!
