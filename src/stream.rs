//! Decoding a provider's streamed reply: SSE lines in, text deltas out.
use vstd::prelude::*;
use crate::json::{
    element_of, json_element, json_member, json_member_of, json_str, member_of, opt_text, str_of,
};
use crate::sse::{data_payload, lines_view, split_lines, sse_payload, LineBuffer};
use crate::text::{append, same_text};
use vstd::string::StrSliceExecFns;

verus! {

/// What `String::from_utf8_lossy` makes of a byte sequence.
pub uninterp spec fn utf8_lossy(b: Seq<u8>) -> Seq<char>;

/// Relies on `String::from_utf8_lossy`: decodes UTF-8, putting U+FFFD for
/// each invalid sequence; the result depends on the bytes alone.
#[verifier::external_body]
fn lossy_text(b: &[u8]) -> (r: String)
    ensures
        r@ == utf8_lossy(b@),
{
    String::from_utf8_lossy(b).into_owned()
}

/// The two wire formats a provider may speak.
#[derive(Debug, Clone, Copy, PartialEq, Eq, Structural)]
pub enum Dialect {
    /// OpenAI-compatible chat completions.
    OpenAiCompat,
    /// Anthropic Messages.
    Anthropic,
}

/// A text kept only when it is not empty.
pub open spec fn nonempty_of(o: Option<Seq<char>>) -> Option<Seq<char>> {
    match o {
        Some(t) => if t.len() > 0 {
            Some(t)
        } else {
            None
        },
        None => None,
    }
}

/// The payload that ends an OpenAI-compatible stream: literally `[DONE]`.
pub open spec fn is_done_payload(p: Seq<char>) -> bool {
    p == "[DONE]"@
}

/// The delta of an OpenAI-compatible payload: `choices[0].delta.content`
/// when it is a non-empty string.
pub open spec fn openai_delta_of(p: Seq<char>) -> Option<Seq<char>> {
    if is_done_payload(p) {
        None
    } else {
        nonempty_of(
            str_of(
                member_of(
                    member_of(element_of(json_member_of(p, "choices"@), 0), "delta"@),
                    "content"@,
                ),
            ),
        )
    }
}

/// The delta of an Anthropic payload: `delta.text` of a
/// `content_block_delta` event when it is a non-empty string.
pub open spec fn anthropic_delta_of(p: Seq<char>) -> Option<Seq<char>> {
    if str_of(json_member_of(p, "type"@)) == Some("content_block_delta"@) {
        nonempty_of(str_of(member_of(json_member_of(p, "delta"@), "text"@)))
    } else {
        None
    }
}

/// The delta one complete SSE line carries in a dialect.
pub open spec fn line_delta_of(d: Dialect, line: Seq<u8>) -> Option<Seq<char>> {
    match data_payload(utf8_lossy(line)) {
        None => None,
        Some(p) => match d {
            Dialect::OpenAiCompat => openai_delta_of(p),
            Dialect::Anthropic => anthropic_delta_of(p),
        },
    }
}

/// Whether a line ends the stream: a `[DONE]` payload in the
/// OpenAI-compatible dialect.
pub open spec fn ends_stream(d: Dialect, line: Seq<u8>) -> bool {
    d == Dialect::OpenAiCompat && match data_payload(utf8_lossy(line)) {
        Some(p) => is_done_payload(p),
        None => false,
    }
}

/// Whether the stream has ended within these lines.
pub open spec fn stream_ended(d: Dialect, lines: Seq<Seq<u8>>) -> bool
    decreases lines.len(),
{
    if lines.len() == 0 {
        false
    } else {
        stream_ended(d, lines.drop_last()) || ends_stream(d, lines.last())
    }
}

/// The deltas of a sequence of lines, in order, up to the end of the stream.
pub open spec fn stream_deltas(d: Dialect, lines: Seq<Seq<u8>>) -> Seq<Seq<char>>
    decreases lines.len(),
{
    if lines.len() == 0 {
        Seq::empty()
    } else {
        let prev = stream_deltas(d, lines.drop_last());
        if stream_ended(d, lines.drop_last()) {
            prev
        } else {
            match line_delta_of(d, lines.last()) {
                Some(t) => prev.push(t),
                None => prev,
            }
        }
    }
}

/// Keeps a text only when it is not empty.
pub fn nonempty_text(text: Option<String>) -> (r: Option<String>)
    ensures
        opt_text(r) == nonempty_of(opt_text(text)),
{
    match text {
        Some(s) => if s.as_str().unicode_len() > 0 {
            Some(s)
        } else {
            None
        },
        None => None,
    }
}

/// The text delta of an OpenAI-compatible payload.
pub fn openai_delta(payload: &str) -> (r: Option<String>)
    ensures
        opt_text(r) == openai_delta_of(payload@),
{
    if same_text(payload, "[DONE]") {
        return None;
    }
    let choices = json_member(payload, "choices");
    let first = match choices {
        Some(c) => json_element(c.as_str(), 0),
        None => None,
    };
    let delta = match first {
        Some(f) => json_member(f.as_str(), "delta"),
        None => None,
    };
    let content = match delta {
        Some(d) => json_member(d.as_str(), "content"),
        None => None,
    };
    let text = match content {
        Some(c) => json_str(c.as_str()),
        None => None,
    };
    nonempty_text(text)
}

/// The delta of an Anthropic event, given its `type` and its `delta.text`:
/// only a `content_block_delta` with non-empty text carries one.
pub fn content_block_text(event_type: Option<String>, text: Option<String>) -> (r: Option<String>)
    ensures
        opt_text(r) == if opt_text(event_type) == Some("content_block_delta"@) {
            nonempty_of(opt_text(text))
        } else {
            None
        },
{
    match event_type {
        Some(k) => if same_text(k.as_str(), "content_block_delta") {
            nonempty_text(text)
        } else {
            None
        },
        None => None,
    }
}

/// The text delta of an Anthropic payload.
pub fn anthropic_delta(payload: &str) -> (r: Option<String>)
    ensures
        opt_text(r) == anthropic_delta_of(payload@),
{
    let kind = match json_member(payload, "type") {
        Some(k) => json_str(k.as_str()),
        None => None,
    };
    let text = match json_member(payload, "delta") {
        Some(d) => match json_member(d.as_str(), "text") {
            Some(t) => json_str(t.as_str()),
            None => None,
        },
        None => None,
    };
    content_block_text(kind, text)
}

/// The text delta of one complete SSE line, and whether the line ends the
/// stream.
pub fn line_delta(dialect: Dialect, line: &[u8]) -> (r: (Option<String>, bool))
    ensures
        opt_text(r.0) == line_delta_of(dialect, line@),
        r.1 == ends_stream(dialect, line@),
{
    let text = lossy_text(line);
    match sse_payload(text.as_str()) {
        None => (None, false),
        Some(payload) => match dialect {
            Dialect::OpenAiCompat => {
                let done = same_text(payload.as_str(), "[DONE]");
                (openai_delta(payload.as_str()), done)
            },
            Dialect::Anthropic => (anthropic_delta(payload.as_str()), false),
        },
    }
}

/// The concatenation of a sequence of texts.
pub open spec fn concat(s: Seq<Seq<char>>) -> Seq<char>
    decreases s.len(),
{
    if s.len() == 0 {
        Seq::empty()
    } else {
        concat(s.drop_last()) + s.last()
    }
}

pub open spec fn texts_view(v: Seq<String>) -> Seq<Seq<char>> {
    v.map_values(|s: String| s@)
}

/// Decodes one streamed reply: it hands out the delta of each complete line
/// until the stream ends, and accumulates them as the reply text.
pub struct StreamDecoder {
    dialect: Dialect,
    lines: LineBuffer,
    text: String,
    done: bool,
    emitted: Ghost<Seq<Seq<char>>>,
}

impl StreamDecoder {
    pub closed spec fn wf(&self) -> bool {
        let all = split_lines(self.lines.consumed()).0;
        &&& self.lines.wf()
        &&& self.done == stream_ended(self.dialect, all)
        &&& self.emitted@ == stream_deltas(self.dialect, all)
        &&& self.text@ == concat(self.emitted@)
    }

    pub closed spec fn text_view(&self) -> Seq<char> {
        self.text@
    }

    /// Every delta handed out so far.
    pub closed spec fn emitted(&self) -> Seq<Seq<char>> {
        self.emitted@
    }

    /// Every byte fed so far.
    pub closed spec fn consumed(&self) -> Seq<u8> {
        self.lines.consumed()
    }

    pub closed spec fn dialect_spec(&self) -> Dialect {
        self.dialect
    }

    pub fn new(dialect: Dialect) -> (r: StreamDecoder)
        ensures
            r.wf(),
            r.dialect_spec() == dialect,
            r.text_view() == Seq::<char>::empty(),
            r.emitted() == Seq::<Seq<char>>::empty(),
            r.consumed() == Seq::<u8>::empty(),
    {
        StreamDecoder {
            dialect,
            lines: LineBuffer::new(),
            text: String::new(),
            done: false,
            emitted: Ghost(Seq::empty()),
        }
    }

    /// Takes the next chunk of the response body and returns the deltas of
    /// the lines it completes, in order; each is also appended to the text.
    /// Nothing is handed out after the stream has ended.
    pub fn feed(&mut self, chunk: &[u8]) -> (deltas: Vec<String>)
        requires
            old(self).wf(),
        ensures
            final(self).wf(),
            final(self).dialect_spec() == old(self).dialect_spec(),
            final(self).consumed() == old(self).consumed() + chunk@,
            old(self).emitted() + texts_view(deltas@) == final(self).emitted(),
            final(self).emitted() == stream_deltas(
                final(self).dialect_spec(),
                split_lines(final(self).consumed()).0,
            ),
            final(self).text_view() == concat(final(self).emitted()),
            final(self).text_view() == old(self).text_view() + concat(texts_view(deltas@)),
    {
        let ghost t0 = self.text@;
        let ghost e0 = self.emitted@;
        let ghost l0 = split_lines(self.lines.consumed()).0;
        let lines = self.lines.feed(chunk);
        let ghost c1 = self.lines.consumed();
        let ghost d0 = self.dialect;
        let ghost lv = lines_view(lines@);
        let mut deltas: Vec<String> = Vec::new();
        let mut k: usize = 0;
        assert(texts_view(deltas@) =~= Seq::<Seq<char>>::empty());
        assert(l0 + lv.subrange(0, 0) =~= l0);
        assert(e0 + texts_view(deltas@) =~= e0);
        while k < lines.len()
            invariant
                k <= lines@.len(),
                lv == lines_view(lines@),
                l0 + lv == split_lines(c1).0,
                self.lines.wf(),
                self.lines.consumed() == c1,
                self.dialect == d0,
                self.done == stream_ended(d0, l0 + lv.subrange(0, k as int)),
                self.emitted@ == stream_deltas(d0, l0 + lv.subrange(0, k as int)),
                self.emitted@ == e0 + texts_view(deltas@),
                self.text@ == concat(self.emitted@),
                t0 == concat(e0),
            decreases lines@.len() - k,
        {
            let ghost before = l0 + lv.subrange(0, k as int);
            assert((l0 + lv.subrange(0, k + 1)).drop_last() =~= before);
            assert((l0 + lv.subrange(0, k + 1)).last() == lines@[k as int]@);
            if !self.done {
                let (d, ends) = line_delta(self.dialect, lines[k].as_slice());
                if let Some(t) = d {
                    let ghost em = self.emitted@;
                    let ghost dv = texts_view(deltas@);
                    append(&mut self.text, t.as_str());
                    self.emitted = Ghost(em.push(t@));
                    assert(em.push(t@).drop_last() =~= em);
                    deltas.push(t);
                    assert(texts_view(deltas@) =~= dv.push(deltas@.last()@));
                    assert(e0 + texts_view(deltas@) =~= (e0 + dv).push(t@));
                }
                self.done = ends;
            }
            k = k + 1;
        }
        assert(lv.subrange(0, k as int) =~= lv);
        proof {
            lemma_concat_append(e0, texts_view(deltas@));
        }
        deltas
    }

    /// The reply text accumulated so far.
    pub fn text(&self) -> (r: &str)
        ensures
            r@ == self.text_view(),
    {
        self.text.as_str()
    }
}

/// Concatenation distributes over appending sequences of texts.
pub proof fn lemma_concat_append(a: Seq<Seq<char>>, b: Seq<Seq<char>>)
    ensures
        concat(a + b) == concat(a) + concat(b),
    decreases b.len(),
{
    if b.len() == 0 {
        assert(a + b =~= a);
        assert(concat(a) + concat(b) =~= concat(a));
    } else {
        lemma_concat_append(a, b.drop_last());
        assert((a + b).drop_last() =~= a + b.drop_last());
        assert(concat(a) + concat(b.drop_last()) + b.last() =~= concat(a) + (concat(
            b.drop_last(),
        ) + b.last()));
    }
}

/// Chunking does not matter for the reply: two decoders of one dialect that
/// were fed the same bytes, in whatever chunks, have handed out the same
/// deltas and hold the same text.
pub proof fn lemma_decoders_agree(a: &StreamDecoder, b: &StreamDecoder)
    requires
        a.wf(),
        b.wf(),
        a.dialect_spec() == b.dialect_spec(),
        a.consumed() == b.consumed(),
    ensures
        a.emitted() == b.emitted(),
        a.text_view() == b.text_view(),
{
}

} // verus!
