//! Server-sent events, decoded as their bytes arrive. An event keeps the lines
//! that it was read from.
use vstd::prelude::*;
use vstd::string::*;
use crate::text::{
    clone_opt, find_char, from_utf8_lossy, index_of, join, joined, lemma_texts_empty, opt_text,
    push_text, starts_with, str_eq, text_of, texts, to_chars, utf8_lossy,
};

verus! {

#[derive(Clone, Debug, PartialEq, Eq)]
pub struct AnthropicSseEvent {
    pub event: Option<String>,
    pub data: String,
    pub raw: Vec<String>,
}

/// What an event holds: its name, its data, and the lines that it was read from.
pub struct SseEvent {
    pub event: Option<Seq<char>>,
    pub data: Seq<char>,
    pub raw: Seq<Seq<char>>,
}

impl View for AnthropicSseEvent {
    type V = SseEvent;

    open spec fn view(&self) -> SseEvent {
        SseEvent { event: opt_text(self.event), data: self.data@, raw: texts(self.raw@) }
    }
}

pub open spec fn sse_events(s: Seq<AnthropicSseEvent>) -> Seq<SseEvent> {
    Seq::new(s.len(), |i: int| s[i]@)
}

#[derive(Debug)]
struct SseDecoderState {
    event: Option<String>,
    data: Vec<String>,
    raw: Vec<String>,
}

/// What was read of an event that is not complete.
pub struct Pending {
    pub event: Option<Seq<char>>,
    pub data: Seq<Seq<char>>,
    pub raw: Seq<Seq<char>>,
}

impl View for SseDecoderState {
    type V = Pending;

    closed spec fn view(&self) -> Pending {
        Pending { event: opt_text(self.event), data: texts(self.data@), raw: texts(self.raw@) }
    }
}

// ---------------------------------------------------------------------------
// Lines
// ---------------------------------------------------------------------------

/// Completes an event that has a name or data.
pub open spec fn flushed(p: Pending) -> (Pending, Option<SseEvent>) {
    if p.event is None && p.data.len() == 0 {
        (p, None)
    } else {
        (
            Pending { event: None, data: Seq::empty(), raw: Seq::empty() },
            Some(SseEvent { event: p.event, data: joined(p.data, "\n"@), raw: p.raw }),
        )
    }
}

/// The name and the value of a field. One space after the colon is no part of
/// the value.
pub open spec fn field_of(line: Seq<char>) -> (Seq<char>, Seq<char>) {
    let i = index_of(line, ':');
    if i < line.len() {
        let value = line.skip(i + 1);
        (
            line.take(i),
            if value.len() > 0 && value[0] == ' ' {
                value.skip(1)
            } else {
                value
            },
        )
    } else {
        (line, Seq::empty())
    }
}

/// Takes one line: an empty one completes an event, one that starts with a colon
/// is a comment, and any other is a field.
pub open spec fn line_decoded(p: Pending, line: Seq<char>) -> (Pending, Option<SseEvent>) {
    if line.len() == 0 {
        flushed(p)
    } else {
        let kept = Pending { raw: p.raw.push(line), ..p };
        let (name, value) = field_of(line);
        (
            if line[0] == ':' {
                kept
            } else if name == "event"@ {
                Pending { event: Some(value), ..kept }
            } else if name == "data"@ {
                Pending { data: kept.data.push(value), ..kept }
            } else {
                kept
            },
            None,
        )
    }
}

fn flush_sse_event(state: &mut SseDecoderState) -> (r: Option<AnthropicSseEvent>)
    ensures
        (final(state)@, opt_event(r)) == flushed(old(state)@),
{
    proof {
        assert(texts(state.data@).len() == state.data@.len());
    }
    if state.event.is_none() && state.data.len() == 0 {
        return None;
    }
    let event = AnthropicSseEvent {
        event: clone_opt(&state.event),
        data: join(&state.data, "\n"),
        raw: crate::text::clone_texts(&state.raw),
    };
    state.event = None;
    state.data = Vec::new();
    state.raw = Vec::new();
    proof {
        lemma_texts_empty();
        assert(texts(state.data@) =~= Seq::<Seq<char>>::empty());
        assert(texts(state.raw@) =~= Seq::<Seq<char>>::empty());
    }
    Some(event)
}

pub open spec fn opt_event(r: Option<AnthropicSseEvent>) -> Option<SseEvent> {
    match r {
        Some(event) => Some(event@),
        None => None,
    }
}

fn split_field(line: &str) -> (r: (String, String))
    ensures
        (r.0@, r.1@) == field_of(line@),
{
    let cs = to_chars(line);
    match find_char(line, ':') {
        Some(i) => {
            let n: usize = cs.len();
            let start: usize = if i + 1 < n && cs[i + 1] == ' ' {
                i + 2
            } else {
                i + 1
            };
            let name = text_of(&cs, 0, i);
            let value = text_of(&cs, start, n);
            proof {
                assert(name@ =~= line@.take(i as int));
                let rest = line@.skip(i + 1);
                if start == i + 2 {
                    assert(rest[0] == ' ');
                    assert(value@ =~= rest.skip(1));
                } else {
                    assert(value@ =~= rest);
                }
            }
            (name, value)
        },
        None => (line.to_owned(), String::new()),
    }
}

fn decode_sse_line(line: &str, state: &mut SseDecoderState) -> (r: Option<AnthropicSseEvent>)
    ensures
        (final(state)@, opt_event(r)) == line_decoded(old(state)@, line@),
{
    if line.is_empty() {
        return flush_sse_event(state);
    }
    push_text(&mut state.raw, line.to_owned());
    proof {
        reveal_strlit(":");
        assert(":"@.len() == 1);
        let start = line@.subrange(0, 1);
        assert(start[0] == line@[0]);
        assert(line@[0] == ':' ==> ":"@ =~= start);
    }
    if starts_with(line, ":") {
        return None;
    }
    let (name, value) = split_field(line);
    if str_eq(name.as_str(), "event") {
        state.event = Some(value);
    } else if str_eq(name.as_str(), "data") {
        push_text(&mut state.data, value);
    }
    None
}

// ---------------------------------------------------------------------------
// Bytes
// ---------------------------------------------------------------------------

pub open spec fn is_break(b: u8) -> bool {
    b == 10 || b == 13
}

/// The position of the first byte that ends a line, or the length.
pub open spec fn break_index(s: Seq<u8>) -> int
    decreases s.len(),
{
    if s.len() == 0 || is_break(s[0]) {
        0
    } else {
        1 + break_index(s.drop_first())
    }
}

pub proof fn lemma_break_index(s: Seq<u8>)
    ensures
        0 <= break_index(s) <= s.len(),
        break_index(s) < s.len() ==> is_break(s[break_index(s)]),
        forall|j: int| 0 <= j < break_index(s) ==> !is_break(#[trigger] s[j]),
    decreases s.len(),
{
    if s.len() > 0 && !is_break(s[0]) {
        let rest = s.drop_first();
        lemma_break_index(rest);
        assert forall|j: int| 0 <= j < break_index(s) implies !is_break(#[trigger] s[j]) by {
            if j > 0 {
                assert(rest[j - 1] == s[j]);
            }
        }
    }
}

pub open spec fn ends_line(c: char) -> bool {
    c == '\r' || c == '\n'
}

/// A text without the ends of lines at its end.
pub open spec fn trimmed_breaks(s: Seq<char>) -> Seq<char>
    decreases s.len(),
{
    if s.len() > 0 && ends_line(s.last()) {
        trimmed_breaks(s.drop_last())
    } else {
        s
    }
}

/// What was decoded: the events, what was read of the next one, and the bytes
/// of a line that is not complete.
pub struct Decoded {
    pub events: Seq<SseEvent>,
    pub pending: Pending,
    pub buffer: Seq<u8>,
}

/// Takes a line and adds the event that it completes.
pub open spec fn line_taken(d: Decoded, line: Seq<char>) -> Decoded {
    let (pending, event) = line_decoded(d.pending, line);
    Decoded {
        events: match event {
            Some(event) => d.events.push(event),
            None => d.events,
        },
        pending,
        ..d
    }
}

/// Takes every line that the buffer holds whole.
pub open spec fn buffer_decoded(d: Decoded) -> Decoded
    decreases d.buffer.len(),
{
    let i = break_index(d.buffer);
    if 0 <= i < d.buffer.len() {
        let line = trimmed_breaks(utf8_lossy(d.buffer.take(i + 1)));
        buffer_decoded(line_taken(Decoded { buffer: d.buffer.skip(i + 1), ..d }, line))
    } else {
        d
    }
}

fn trim_breaks(s: &str) -> (r: String)
    ensures
        r@ == trimmed_breaks(s@),
{
    let cs = to_chars(s);
    let mut n: usize = cs.len();
    proof {
        assert(s@.take(n as int) =~= s@);
    }
    while n > 0 && (cs[n - 1] == '\r' || cs[n - 1] == '\n')
        invariant
            n <= cs@.len(),
            cs@ == s@,
            trimmed_breaks(s@) == trimmed_breaks(s@.take(n as int)),
        decreases n,
    {
        proof {
            assert(s@.take(n as int).drop_last() =~= s@.take(n - 1));
        }
        n -= 1;
    }
    let r = text_of(&cs, 0, n);
    proof {
        assert(r@ =~= s@.take(n as int));
    }
    r
}

fn next_line_break_index(buffer: &Vec<u8>) -> (r: Option<usize>)
    ensures
        match r {
            Some(i) => i < buffer@.len() && i == break_index(buffer@),
            None => break_index(buffer@) == buffer@.len(),
        },
{
    let mut i: usize = 0;
    proof {
        lemma_break_index(buffer@);
    }
    while i < buffer.len()
        invariant
            i <= buffer@.len(),
            i <= break_index(buffer@) <= buffer@.len(),
            forall|j: int| 0 <= j < break_index(buffer@) ==> !is_break(#[trigger] buffer@[j]),
            break_index(buffer@) < buffer@.len() ==> is_break(buffer@[break_index(buffer@)]),
        decreases buffer.len() - i,
    {
        if buffer[i] == 10 || buffer[i] == 13 {
            proof {
                assert(is_break(buffer@[i as int]));
            }
            return Some(i);
        }
        i += 1;
    }
    None
}

fn bytes_of(bytes: &Vec<u8>, from: usize, to: usize) -> (r: Vec<u8>)
    requires
        from <= to <= bytes@.len(),
    ensures
        r@ == bytes@.subrange(from as int, to as int),
{
    let mut r: Vec<u8> = Vec::new();
    let mut i: usize = from;
    while i < to
        invariant
            from <= i <= to <= bytes@.len(),
            r@ == bytes@.subrange(from as int, i as int),
        decreases to - i,
    {
        r.push(bytes[i]);
        proof {
            assert(bytes@.subrange(from as int, i + 1) =~= bytes@.subrange(
                from as int,
                i as int,
            ).push(bytes@[i as int]));
        }
        i += 1;
    }
    r
}

/// Decodes events from bytes that arrive piece by piece.
#[derive(Debug)]
pub struct AnthropicSseDecoder {
    buffer: Vec<u8>,
    state: SseDecoderState,
}

impl Default for AnthropicSseDecoder {
    fn default() -> (r: Self)
        ensures
            r.buffered() == Seq::<u8>::empty(),
            r.pending() == (Pending { event: None, data: Seq::empty(), raw: Seq::empty() }),
    {
        AnthropicSseDecoder::new()
    }
}

impl AnthropicSseDecoder {
    pub closed spec fn buffered(&self) -> Seq<u8> {
        self.buffer@
    }

    pub closed spec fn pending(&self) -> Pending {
        self.state@
    }

    pub fn new() -> (r: Self)
        ensures
            r.buffered() == Seq::<u8>::empty(),
            r.pending() == (Pending { event: None, data: Seq::empty(), raw: Seq::empty() }),
    {
        let r = AnthropicSseDecoder {
            buffer: Vec::new(),
            state: SseDecoderState { event: None, data: Vec::new(), raw: Vec::new() },
        };
        proof {
            lemma_texts_empty();
            assert(texts(r.state.data@) =~= Seq::<Seq<char>>::empty());
            assert(texts(r.state.raw@) =~= Seq::<Seq<char>>::empty());
        }
        r
    }

    /// Takes bytes and gives the events that they complete.
    pub fn push(&mut self, chunk: &Vec<u8>) -> (r: Vec<AnthropicSseEvent>)
        ensures
            ({
                let d = buffer_decoded(
                    Decoded {
                        events: Seq::empty(),
                        pending: old(self).pending(),
                        buffer: old(self).buffered() + chunk@,
                    },
                );
                &&& sse_events(r@) == d.events
                &&& final(self).pending() == d.pending
                &&& final(self).buffered() == d.buffer
            }),
    {
        let mut i: usize = 0;
        proof {
            assert(self.buffer@ + chunk@.take(0) =~= self.buffer@);
        }
        while i < chunk.len()
            invariant
                i <= chunk@.len(),
                self.buffer@ == old(self).buffer@ + chunk@.take(i as int),
                self.state == old(self).state,
            decreases chunk.len() - i,
        {
            self.buffer.push(chunk[i]);
            proof {
                assert(self.buffer@ =~= old(self).buffer@ + chunk@.take(i + 1));
            }
            i += 1;
        }
        let mut events: Vec<AnthropicSseEvent> = Vec::new();
        proof {
            assert(chunk@.take(chunk@.len() as int) =~= chunk@);
            assert(sse_events(events@) =~= Seq::<SseEvent>::empty());
        }
        let ghost end = buffer_decoded(
            Decoded {
                events: Seq::empty(),
                pending: self.state@,
                buffer: self.buffer@,
            },
        );
        loop
            invariant
                end == buffer_decoded(
                    Decoded {
                        events: sse_events(events@),
                        pending: self.state@,
                        buffer: self.buffer@,
                    },
                ),
            ensures
                end == (Decoded {
                    events: sse_events(events@),
                    pending: self.state@,
                    buffer: self.buffer@,
                }),
            decreases self.buffer@.len(),
        {
            match next_line_break_index(&self.buffer) {
                Some(at) => {
                    let n: usize = self.buffer.len();
                    let head = bytes_of(&self.buffer, 0, at + 1);
                    let tail = bytes_of(&self.buffer, at + 1, n);
                    proof {
                        assert(head@ =~= self.buffer@.take(at + 1));
                        assert(tail@ =~= self.buffer@.skip(at + 1));
                    }
                    let text = from_utf8_lossy(head.as_slice());
                    let line = trim_breaks(text.as_str());
                    self.buffer = tail;
                    let ghost before = sse_events(events@);
                    if let Some(event) = decode_sse_line(line.as_str(), &mut self.state) {
                        let ghost view = event@;
                        events.push(event);
                        proof {
                            assert(sse_events(events@) =~= before.push(view));
                        }
                    }
                },
                None => {
                    break ;
                },
            }
        }
        events
    }

    /// Completes what was read of an event; a line that is not complete is lost.
    pub fn end(&mut self) -> (r: Option<AnthropicSseEvent>)
        ensures
            (final(self).pending(), opt_event(r)) == flushed(old(self).pending()),
            final(self).buffered() == Seq::<u8>::empty(),
    {
        let trailing = flush_sse_event(&mut self.state);
        self.buffer = Vec::new();
        trailing
    }
}

proof fn lemma_buffer_decoded_extends(d: Decoded, more: Seq<u8>)
    ensures
        buffer_decoded(Decoded { buffer: d.buffer + more, ..d }) == buffer_decoded(
            Decoded { buffer: buffer_decoded(d).buffer + more, ..buffer_decoded(d) },
        ),
    decreases d.buffer.len(),
{
    lemma_break_index(d.buffer);
    let i = break_index(d.buffer);
    if i < d.buffer.len() {
        let whole = d.buffer + more;
        lemma_break_is(whole, i);
        assert(whole.take(i + 1) =~= d.buffer.take(i + 1));
        assert(whole.skip(i + 1) =~= d.buffer.skip(i + 1) + more);
        let line = trimmed_breaks(utf8_lossy(d.buffer.take(i + 1)));
        let next = line_taken(Decoded { buffer: d.buffer.skip(i + 1), ..d }, line);
        lemma_buffer_decoded_extends(next, more);
    }
}

proof fn lemma_break_is(s: Seq<u8>, i: int)
    requires
        0 <= i < s.len(),
        is_break(s[i]),
        forall|j: int| 0 <= j < i ==> !is_break(#[trigger] s[j]),
    ensures
        break_index(s) == i,
{
    lemma_break_index(s);
    let k = break_index(s);
    if k < i {
        assert(!is_break(s[k]));
    } else if k > i {
        assert(!is_break(s[i]));
    }
}

/// It does not matter where a stream of bytes is cut: two pieces give the events
/// that they give as one.
pub proof fn law_pieces_do_not_matter(d: Decoded, a: Seq<u8>, b: Seq<u8>)
    ensures
        ({
            let first = buffer_decoded(Decoded { buffer: d.buffer + a, ..d });
            buffer_decoded(Decoded { buffer: first.buffer + b, ..first }) == buffer_decoded(
                Decoded { buffer: d.buffer + (a + b), ..d },
            )
        }),
{
    assert(d.buffer + (a + b) =~= (d.buffer + a) + b);
    lemma_buffer_decoded_extends(Decoded { buffer: d.buffer + a, ..d }, b);
}

} // verus!
