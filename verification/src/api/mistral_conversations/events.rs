//! The events of a stream: how bytes are framed into events, and what an event
//! says.
use vstd::prelude::*;
use vstd::string::*;
use crate::json::{
    array_at, as_object, entries, get, get_array, get_number, get_number_or_zero, get_object,
    get_str, get_str_or_empty, get_value, has_entry, has_key, is_parser, items, json_stringify,
    json_text, number_at, number_or_zero, object_at, parse_with, parser_of, str_at, text_or_empty,
    Entries, Json, Value,
};
use crate::number::{greater, lesser, whole, Number};
use crate::text::{
    from_utf8_lossy, is_blank, join, joined, lemma_texts_empty, opt_text, push_text, skip_chars,
    starts_with, str_eq, texts, trim, trim_start, trimmed, trimmed_start, utf8_lossy, blank,
};

verus! {

// ---------------------------------------------------------------------------
// What an event says
// ---------------------------------------------------------------------------

#[derive(Clone, Debug, PartialEq, Eq)]
pub enum MistralContentChunk {
    Text { text: String },
    Image { image_url: String },
    Thinking { thinking: Vec<String> },
}

#[derive(Clone, Debug, PartialEq, Eq)]
pub enum MistralContentItems {
    Text(String),
    Chunks(Vec<MistralContentChunk>),
}

#[derive(Clone, Debug, PartialEq, Eq)]
pub struct MistralToolCallDelta {
    pub id: Option<String>,
    pub index: Option<Number>,
    pub name: String,
    pub arguments: String,
}

#[derive(Clone, Debug, PartialEq, Eq)]
pub struct MistralDelta {
    pub content: Option<MistralContentItems>,
    pub tool_calls: Vec<MistralToolCallDelta>,
}

#[derive(Clone, Debug, PartialEq, Eq)]
pub struct MistralChoice {
    pub finish_reason: Option<String>,
    pub delta: MistralDelta,
}

#[derive(Clone, Copy, Debug, PartialEq, Eq)]
pub struct MistralUsage {
    pub prompt_tokens: Number,
    pub completion_tokens: Number,
    pub total_tokens: Number,
    pub cached_tokens: Number,
}

#[derive(Clone, Debug, PartialEq, Eq)]
pub struct MistralCompletionEvent {
    pub id: Option<String>,
    pub usage: Option<MistralUsage>,
    pub choices: Vec<MistralChoice>,
}

#[derive(Clone, Debug, PartialEq, Eq)]
pub enum MistralEvent {
    Done,
    Data(MistralCompletionEvent),
}

pub enum Chunk {
    Text(Seq<char>),
    Image(Seq<char>),
    Thinking(Seq<Seq<char>>),
}

pub enum Said {
    Text(Seq<char>),
    Chunks(Seq<Chunk>),
}

pub struct CallDelta {
    pub id: Option<Seq<char>>,
    pub index: Option<Number>,
    pub name: Seq<char>,
    pub arguments: Seq<char>,
}

pub struct Choice {
    pub finish_reason: Option<Seq<char>>,
    pub content: Option<Said>,
    pub tool_calls: Seq<CallDelta>,
}

pub struct Completion {
    pub id: Option<Seq<char>>,
    pub usage: Option<MistralUsage>,
    pub choices: Seq<Choice>,
}

pub enum StreamEvent {
    Done,
    Data(Completion),
}

impl View for MistralContentChunk {
    type V = Chunk;

    open spec fn view(&self) -> Chunk {
        match *self {
            MistralContentChunk::Text { text } => Chunk::Text(text@),
            MistralContentChunk::Image { image_url } => Chunk::Image(image_url@),
            MistralContentChunk::Thinking { thinking } => Chunk::Thinking(texts(thinking@)),
        }
    }
}

pub open spec fn chunks(s: Seq<MistralContentChunk>) -> Seq<Chunk> {
    Seq::new(s.len(), |i: int| s[i]@)
}

impl View for MistralContentItems {
    type V = Said;

    open spec fn view(&self) -> Said {
        match *self {
            MistralContentItems::Text(text) => Said::Text(text@),
            MistralContentItems::Chunks(list) => Said::Chunks(chunks(list@)),
        }
    }
}

impl View for MistralToolCallDelta {
    type V = CallDelta;

    open spec fn view(&self) -> CallDelta {
        CallDelta {
            id: opt_text(self.id),
            index: self.index,
            name: self.name@,
            arguments: self.arguments@,
        }
    }
}

pub open spec fn call_deltas(s: Seq<MistralToolCallDelta>) -> Seq<CallDelta> {
    Seq::new(s.len(), |i: int| s[i]@)
}

impl View for MistralChoice {
    type V = Choice;

    open spec fn view(&self) -> Choice {
        Choice {
            finish_reason: opt_text(self.finish_reason),
            content: match self.delta.content {
                Some(content) => Some(content@),
                None => None,
            },
            tool_calls: call_deltas(self.delta.tool_calls@),
        }
    }
}

pub open spec fn choices(s: Seq<MistralChoice>) -> Seq<Choice> {
    Seq::new(s.len(), |i: int| s[i]@)
}

impl View for MistralCompletionEvent {
    type V = Completion;

    open spec fn view(&self) -> Completion {
        Completion {
            id: opt_text(self.id),
            usage: self.usage,
            choices: choices(self.choices@),
        }
    }
}

pub open spec fn completions(s: Seq<MistralCompletionEvent>) -> Seq<Completion> {
    Seq::new(s.len(), |i: int| s[i]@)
}

impl View for MistralEvent {
    type V = StreamEvent;

    open spec fn view(&self) -> StreamEvent {
        match *self {
            MistralEvent::Done => StreamEvent::Done,
            MistralEvent::Data(event) => StreamEvent::Data(event@),
        }
    }
}

// ---------------------------------------------------------------------------
// Usage
// ---------------------------------------------------------------------------

pub open spec fn detail(e: Entries, group: Seq<char>, key: Seq<char>) -> Option<Number> {
    match object_at(e, group) {
        Some(group) => number_at(group, key),
        None => None,
    }
}

/// The tokens that a cache held, under the first of the names that is there.
pub open spec fn cached_tokens(e: Entries) -> Number {
    match detail(e, "promptTokensDetails"@, "cachedTokens"@) {
        Some(n) => n,
        None => match detail(e, "prompt_tokens_details"@, "cached_tokens"@) {
            Some(n) => n,
            None => match detail(e, "promptTokenDetails"@, "cachedTokens"@) {
                Some(n) => n,
                None => match detail(e, "prompt_token_details"@, "cached_tokens"@) {
                    Some(n) => n,
                    None => match number_at(e, "numCachedTokens"@) {
                        Some(n) => n,
                        None => number_or_zero(number_at(e, "num_cached_tokens"@)),
                    },
                },
            },
        },
    }
}

pub open spec fn parsed_usage(e: Entries) -> MistralUsage {
    let prompt_tokens = number_or_zero(number_at(e, "prompt_tokens"@));
    MistralUsage {
        prompt_tokens,
        completion_tokens: number_or_zero(number_at(e, "completion_tokens"@)),
        total_tokens: number_or_zero(number_at(e, "total_tokens"@)),
        cached_tokens: greater(lesser(cached_tokens(e), prompt_tokens), whole(0)),
    }
}

fn get_detail(e: &Vec<(String, Value)>, group: &str, key: &str) -> (r: Option<Number>)
    ensures
        r == detail(entries(e@), group@, key@),
{
    match get_object(e, group) {
        Some(group) => get_number(group, key),
        None => None,
    }
}

pub fn extract_cached_tokens(e: &Vec<(String, Value)>) -> (r: Number)
    ensures
        r == cached_tokens(entries(e@)),
{
    if let Some(n) = get_detail(e, "promptTokensDetails", "cachedTokens") {
        return n;
    }
    if let Some(n) = get_detail(e, "prompt_tokens_details", "cached_tokens") {
        return n;
    }
    if let Some(n) = get_detail(e, "promptTokenDetails", "cachedTokens") {
        return n;
    }
    if let Some(n) = get_detail(e, "prompt_token_details", "cached_tokens") {
        return n;
    }
    if let Some(n) = get_number(e, "numCachedTokens") {
        return n;
    }
    get_number_or_zero(e, "num_cached_tokens")
}

pub fn parse_usage(e: &Vec<(String, Value)>) -> (r: MistralUsage)
    ensures
        r == parsed_usage(entries(e@)),
{
    let prompt_tokens = get_number_or_zero(e, "prompt_tokens");
    MistralUsage {
        prompt_tokens,
        completion_tokens: get_number_or_zero(e, "completion_tokens"),
        total_tokens: get_number_or_zero(e, "total_tokens"),
        cached_tokens: extract_cached_tokens(e).min(prompt_tokens).max(Number::zero()),
    }
}

/// The tokens that a cache held are none of those that were not in the prompt.
pub proof fn law_cached_tokens_are_prompt_tokens(e: Entries)
    ensures
        0 <= parsed_usage(e).cached_tokens.nanos,
        parsed_usage(e).prompt_tokens.nanos >= 0 ==> parsed_usage(e).cached_tokens.nanos
            <= parsed_usage(e).prompt_tokens.nanos,
{
}

// ---------------------------------------------------------------------------
// Parsing
// ---------------------------------------------------------------------------

/// The texts of a list of thinking parts.
pub open spec fn thinking_texts(list: Seq<Json>) -> Seq<Seq<char>>
    decreases list.len(),
{
    if list.len() == 0 {
        Seq::empty()
    } else {
        let before = thinking_texts(list.drop_last());
        match as_object(list.last()) {
            Some(e) => match str_at(e, "text"@) {
                Some(text) => before.push(text),
                None => before,
            },
            None => before,
        }
    }
}

pub open spec fn parsed_chunk(e: Entries) -> Option<Chunk> {
    match str_at(e, "type"@) {
        None => None,
        Some(kind) => if kind == "thinking"@ {
            Some(
                Chunk::Thinking(
                    match array_at(e, "thinking"@) {
                        Some(list) => thinking_texts(list),
                        None => Seq::empty(),
                    },
                ),
            )
        } else if kind == "text"@ {
            Some(Chunk::Text(text_or_empty(str_at(e, "text"@))))
        } else if kind == "image_url"@ {
            Some(Chunk::Image(text_or_empty(str_at(e, "image_url"@))))
        } else {
            None
        },
    }
}

pub open spec fn parsed_chunks(list: Seq<Json>) -> Seq<Chunk>
    decreases list.len(),
{
    if list.len() == 0 {
        Seq::empty()
    } else {
        let before = parsed_chunks(list.drop_last());
        match as_object(list.last()) {
            Some(e) => match parsed_chunk(e) {
                Some(chunk) => before.push(chunk),
                None => before,
            },
            None => before,
        }
    }
}

/// What a delta says, where it says anything.
pub open spec fn parsed_content(delta: Entries) -> Option<Said> {
    if !has_key(delta, "content"@) {
        None
    } else {
        match str_at(delta, "content"@) {
            Some(text) => Some(Said::Text(text)),
            None => Some(
                Said::Chunks(
                    match array_at(delta, "content"@) {
                        Some(list) => parsed_chunks(list),
                        None => Seq::empty(),
                    },
                ),
            ),
        }
    }
}

pub open spec fn parsed_call(e: Entries) -> Option<CallDelta> {
    match object_at(e, "function"@) {
        None => None,
        Some(function) => Some(
            CallDelta {
                id: str_at(e, "id"@),
                index: number_at(e, "index"@),
                name: text_or_empty(str_at(function, "name"@)),
                arguments: match object_at(function, "arguments"@) {
                    Some(_) => json_text(get(function, "arguments"@)->0),
                    None => text_or_empty(str_at(function, "arguments"@)),
                },
            },
        ),
    }
}

pub open spec fn parsed_calls(list: Seq<Json>) -> Seq<CallDelta>
    decreases list.len(),
{
    if list.len() == 0 {
        Seq::empty()
    } else {
        let before = parsed_calls(list.drop_last());
        match as_object(list.last()) {
            Some(e) => match parsed_call(e) {
                Some(call) => before.push(call),
                None => before,
            },
            None => before,
        }
    }
}

pub open spec fn parsed_choice(e: Entries) -> Option<Choice> {
    match object_at(e, "delta"@) {
        None => None,
        Some(delta) => Some(
            Choice {
                finish_reason: str_at(e, "finish_reason"@),
                content: parsed_content(delta),
                tool_calls: match array_at(delta, "tool_calls"@) {
                    Some(list) => parsed_calls(list),
                    None => Seq::empty(),
                },
            },
        ),
    }
}

pub open spec fn parsed_choices(list: Seq<Json>) -> Seq<Choice>
    decreases list.len(),
{
    if list.len() == 0 {
        Seq::empty()
    } else {
        let before = parsed_choices(list.drop_last());
        match as_object(list.last()) {
            Some(e) => match parsed_choice(e) {
                Some(choice) => before.push(choice),
                None => before,
            },
            None => before,
        }
    }
}

pub open spec fn parsed_completion(e: Entries) -> Completion {
    Completion {
        id: str_at(e, "id"@),
        usage: match object_at(e, "usage"@) {
            Some(usage) => Some(parsed_usage(usage)),
            None => None,
        },
        choices: match array_at(e, "choices"@) {
            Some(list) => parsed_choices(list),
            None => Seq::empty(),
        },
    }
}

fn collect_thinking(list: &Vec<Value>) -> (r: Vec<String>)
    ensures
        texts(r@) == thinking_texts(items(list@)),
{
    let mut r: Vec<String> = Vec::new();
    let mut i: usize = 0;
    proof {
        lemma_texts_empty();
    }
    while i < list.len()
        invariant
            i <= list@.len(),
            texts(r@) == thinking_texts(items(list@).take(i as int)),
        decreases list.len() - i,
    {
        proof {
            assert(items(list@).take(i + 1).drop_last() =~= items(list@).take(i as int));
            assert(items(list@).take(i + 1).last() == list@[i as int]@);
        }
        if let Some(e) = list[i].as_object() {
            if let Some(text) = get_str(e, "text") {
                push_text(&mut r, text);
            }
        }
        i += 1;
    }
    proof {
        assert(items(list@).take(list@.len() as int) =~= items(list@));
    }
    r
}

fn parse_content_chunk(e: &Vec<(String, Value)>) -> (r: Option<MistralContentChunk>)
    ensures
        match r {
            Some(chunk) => parsed_chunk(entries(e@)) == Some(chunk@),
            None => parsed_chunk(entries(e@)) is None,
        },
{
    let kind = match get_str(e, "type") {
        Some(kind) => kind,
        None => {
            return None;
        },
    };
    if str_eq(kind.as_str(), "thinking") {
        let thinking = match get_array(e, "thinking") {
            Some(list) => collect_thinking(list),
            None => {
                proof {
                    lemma_texts_empty();
                }
                Vec::new()
            },
        };
        Some(MistralContentChunk::Thinking { thinking })
    } else if str_eq(kind.as_str(), "text") {
        Some(MistralContentChunk::Text { text: get_str_or_empty(e, "text") })
    } else if str_eq(kind.as_str(), "image_url") {
        Some(MistralContentChunk::Image { image_url: get_str_or_empty(e, "image_url") })
    } else {
        None
    }
}

fn parse_chunks(list: &Vec<Value>) -> (r: Vec<MistralContentChunk>)
    ensures
        chunks(r@) == parsed_chunks(items(list@)),
{
    let mut r: Vec<MistralContentChunk> = Vec::new();
    let mut i: usize = 0;
    proof {
        assert(chunks(r@) =~= Seq::<Chunk>::empty());
    }
    while i < list.len()
        invariant
            i <= list@.len(),
            chunks(r@) == parsed_chunks(items(list@).take(i as int)),
        decreases list.len() - i,
    {
        proof {
            assert(items(list@).take(i + 1).drop_last() =~= items(list@).take(i as int));
            assert(items(list@).take(i + 1).last() == list@[i as int]@);
        }
        let ghost before = chunks(r@);
        if let Some(e) = list[i].as_object() {
            if let Some(chunk) = parse_content_chunk(e) {
                let ghost view = chunk@;
                r.push(chunk);
                proof {
                    assert(chunks(r@) =~= before.push(view));
                }
            }
        }
        i += 1;
    }
    proof {
        assert(items(list@).take(list@.len() as int) =~= items(list@));
    }
    r
}

fn parse_content(delta: &Vec<(String, Value)>) -> (r: Option<MistralContentItems>)
    ensures
        match r {
            Some(content) => parsed_content(entries(delta@)) == Some(content@),
            None => parsed_content(entries(delta@)) is None,
        },
{
    if !has_entry(delta, "content") {
        return None;
    }
    if let Some(text) = get_str(delta, "content") {
        return Some(MistralContentItems::Text(text));
    }
    let list = match get_array(delta, "content") {
        Some(list) => parse_chunks(list),
        None => {
            let list: Vec<MistralContentChunk> = Vec::new();
            proof {
                assert(chunks(list@) =~= Seq::<Chunk>::empty());
            }
            list
        },
    };
    Some(MistralContentItems::Chunks(list))
}

fn parse_tool_call_delta(e: &Vec<(String, Value)>) -> (r: Option<MistralToolCallDelta>)
    ensures
        match r {
            Some(call) => parsed_call(entries(e@)) == Some(call@),
            None => parsed_call(entries(e@)) is None,
        },
{
    let function = match get_object(e, "function") {
        Some(function) => function,
        None => {
            return None;
        },
    };
    let arguments = match get_object(function, "arguments") {
        Some(_) => match get_value(function, "arguments") {
            Some(value) => json_stringify(value),
            None => String::new(),
        },
        None => get_str_or_empty(function, "arguments"),
    };
    Some(
        MistralToolCallDelta {
            id: get_str(e, "id"),
            index: get_number(e, "index"),
            name: get_str_or_empty(function, "name"),
            arguments,
        },
    )
}

fn parse_calls(list: &Vec<Value>) -> (r: Vec<MistralToolCallDelta>)
    ensures
        call_deltas(r@) == parsed_calls(items(list@)),
{
    let mut r: Vec<MistralToolCallDelta> = Vec::new();
    let mut i: usize = 0;
    proof {
        assert(call_deltas(r@) =~= Seq::<CallDelta>::empty());
    }
    while i < list.len()
        invariant
            i <= list@.len(),
            call_deltas(r@) == parsed_calls(items(list@).take(i as int)),
        decreases list.len() - i,
    {
        proof {
            assert(items(list@).take(i + 1).drop_last() =~= items(list@).take(i as int));
            assert(items(list@).take(i + 1).last() == list@[i as int]@);
        }
        let ghost before = call_deltas(r@);
        if let Some(e) = list[i].as_object() {
            if let Some(call) = parse_tool_call_delta(e) {
                let ghost view = call@;
                r.push(call);
                proof {
                    assert(call_deltas(r@) =~= before.push(view));
                }
            }
        }
        i += 1;
    }
    proof {
        assert(items(list@).take(list@.len() as int) =~= items(list@));
    }
    r
}

fn parse_choice(e: &Vec<(String, Value)>) -> (r: Option<MistralChoice>)
    ensures
        match r {
            Some(choice) => parsed_choice(entries(e@)) == Some(choice@),
            None => parsed_choice(entries(e@)) is None,
        },
{
    let delta = match get_object(e, "delta") {
        Some(delta) => delta,
        None => {
            return None;
        },
    };
    let tool_calls = match get_array(delta, "tool_calls") {
        Some(list) => parse_calls(list),
        None => {
            let list: Vec<MistralToolCallDelta> = Vec::new();
            proof {
                assert(call_deltas(list@) =~= Seq::<CallDelta>::empty());
            }
            list
        },
    };
    Some(
        MistralChoice {
            finish_reason: get_str(e, "finish_reason"),
            delta: MistralDelta { content: parse_content(delta), tool_calls },
        },
    )
}

fn parse_choices(list: &Vec<Value>) -> (r: Vec<MistralChoice>)
    ensures
        choices(r@) == parsed_choices(items(list@)),
{
    let mut r: Vec<MistralChoice> = Vec::new();
    let mut i: usize = 0;
    proof {
        assert(choices(r@) =~= Seq::<Choice>::empty());
    }
    while i < list.len()
        invariant
            i <= list@.len(),
            choices(r@) == parsed_choices(items(list@).take(i as int)),
        decreases list.len() - i,
    {
        proof {
            assert(items(list@).take(i + 1).drop_last() =~= items(list@).take(i as int));
            assert(items(list@).take(i + 1).last() == list@[i as int]@);
        }
        let ghost before = choices(r@);
        if let Some(e) = list[i].as_object() {
            if let Some(choice) = parse_choice(e) {
                let ghost view = choice@;
                r.push(choice);
                proof {
                    assert(choices(r@) =~= before.push(view));
                }
            }
        }
        i += 1;
    }
    proof {
        assert(items(list@).take(list@.len() as int) =~= items(list@));
    }
    r
}

fn parse_completion_event(e: &Vec<(String, Value)>) -> (r: MistralCompletionEvent)
    ensures
        r@ == parsed_completion(entries(e@)),
{
    MistralCompletionEvent {
        id: get_str(e, "id"),
        usage: match get_object(e, "usage") {
            Some(usage) => Some(parse_usage(usage)),
            None => None,
        },
        choices: match get_array(e, "choices") {
            Some(list) => parse_choices(list),
            None => {
                let list: Vec<MistralChoice> = Vec::new();
                proof {
                    assert(choices(list@) =~= Seq::<Choice>::empty());
                }
                list
            },
        },
    }
}

// ---------------------------------------------------------------------------
// Events
// ---------------------------------------------------------------------------

pub open spec fn ends_line(c: char) -> bool {
    c == '\r' || c == '\n'
}

/// The lines of a text.
pub open spec fn lines(s: Seq<char>) -> Seq<Seq<char>>
    decreases s.len(),
{
    if s.len() == 0 {
        Seq::<Seq<char>>::empty().push(Seq::empty())
    } else {
        let before = lines(s.drop_last());
        if ends_line(s.last()) {
            before.push(Seq::empty())
        } else {
            before.drop_last().push(before.last().push(s.last()))
        }
    }
}

/// The data of an event: what follows `data:` on each line that starts so.
pub open spec fn data_lines(list: Seq<Seq<char>>) -> Seq<Seq<char>>
    decreases list.len(),
{
    if list.len() == 0 {
        Seq::empty()
    } else {
        let before = data_lines(list.drop_last());
        if "data:"@.is_prefix_of(list.last()) {
            before.push(trimmed_start(list.last().skip(5)))
        } else {
            before
        }
    }
}

pub open spec fn event_data(raw: Seq<char>) -> Seq<char> {
    trimmed(joined(data_lines(lines(raw)), "\n"@))
}

/// What an event says: nothing, that the stream is over, or a completion; or
/// that it is not valid.
pub open spec fn parsed_event(raw: Seq<char>, parse: spec_fn(Seq<char>) -> Option<Json>) -> Result<
    Option<StreamEvent>,
    Seq<char>,
> {
    let data = event_data(raw);
    if data.len() == 0 {
        Ok(None)
    } else if data == "[DONE]"@ {
        Ok(Some(StreamEvent::Done))
    } else {
        match parse(data) {
            Some(json) => match as_object(json) {
                Some(e) => if array_at(e, "choices"@) is Some {
                    Ok(Some(StreamEvent::Data(parsed_completion(e))))
                } else {
                    Err("Invalid Mistral streaming event"@)
                },
                None => Err("Invalid Mistral streaming event"@),
            },
            None => Err("Invalid Mistral streaming event"@),
        }
    }
}

pub open spec fn res_event(r: Result<Option<MistralEvent>, String>) -> Result<
    Option<StreamEvent>,
    Seq<char>,
> {
    match r {
        Ok(Some(event)) => Ok(Some(event@)),
        Ok(None) => Ok(None),
        Err(e) => Err(e@),
    }
}

fn split_lines(s: &str) -> (r: Vec<String>)
    ensures
        texts(r@) == lines(s@),
{
    let mut r: Vec<String> = Vec::new();
    let mut line = String::new();
    proof {
        lemma_texts_empty();
        assert(line@ =~= Seq::<char>::empty());
    }
    for c in it: s.chars()
        invariant
            it.seq() == s@,
            texts(r@).push(line@) == lines(s@.take(it.index() as int)),
    {
        let ghost before = texts(r@);
        let ghost part = line@;
        proof {
            let next = s@.take(it.index() as int + 1);
            assert(next.drop_last() =~= s@.take(it.index() as int));
            assert(next.last() == c);
            assert(before.push(part).drop_last() =~= before);
        }
        if c == '\r' || c == '\n' {
            push_text(&mut r, line);
            line = String::new();
            proof {
                assert(line@ =~= Seq::<char>::empty());
            }
        } else {
            line.push(c);
        }
    }
    proof {
        assert(s@.take(s@.len() as int) =~= s@);
    }
    push_text(&mut r, line);
    r
}

fn collect_data(list: &Vec<String>) -> (r: Vec<String>)
    ensures
        texts(r@) == data_lines(texts(list@)),
{
    let mut r: Vec<String> = Vec::new();
    let mut i: usize = 0;
    proof {
        lemma_texts_empty();
        reveal_strlit("data:");
    }
    while i < list.len()
        invariant
            i <= list@.len(),
            "data:"@.len() == 5,
            texts(r@) == data_lines(texts(list@).take(i as int)),
        decreases list.len() - i,
    {
        proof {
            assert(texts(list@).take(i + 1).drop_last() =~= texts(list@).take(i as int));
            assert(texts(list@).take(i + 1).last() == list@[i as int]@);
        }
        if starts_with(list[i].as_str(), "data:") {
            let rest = skip_chars(list[i].as_str(), 5);
            push_text(&mut r, trim_start(rest.as_str()));
        }
        i += 1;
    }
    proof {
        assert(texts(list@).take(list@.len() as int) =~= texts(list@));
    }
    r
}

pub fn parse_mistral_event<P: Fn(&str) -> Option<Value>>(raw: &str, parse: &P) -> (r: Result<
    Option<MistralEvent>,
    String,
>)
    requires
        is_parser(*parse),
    ensures
        res_event(r) == parsed_event(raw@, parser_of(*parse)),
{
    let list = split_lines(raw);
    let data = collect_data(&list);
    let text = trim(join(&data, "\n").as_str());
    if text.as_str().is_empty() {
        return Ok(None);
    }
    if str_eq(text.as_str(), "[DONE]") {
        return Ok(Some(MistralEvent::Done));
    }
    match parse_with(parse, text.as_str()) {
        Some(json) => match json.as_object() {
            Some(e) => if get_array(e, "choices").is_some() {
                Ok(Some(MistralEvent::Data(parse_completion_event(e))))
            } else {
                Err("Invalid Mistral streaming event".to_owned())
            },
            None => Err("Invalid Mistral streaming event".to_owned()),
        },
        None => Err("Invalid Mistral streaming event".to_owned()),
    }
}

// ---------------------------------------------------------------------------
// Framing
// ---------------------------------------------------------------------------

pub open spec fn byte_at(s: Seq<u8>, i: int, b: u8) -> bool {
    i < s.len() && s[i] == b
}

/// The length of the boundary that stands at a position: two ends of lines,
/// where `\r\n`, `\r` and `\n` each end one, the longest that is there. Zero
/// where there is none.
pub open spec fn boundary_len(s: Seq<u8>, i: int) -> int {
    if byte_at(s, i, 13) && byte_at(s, i + 1, 10) && byte_at(s, i + 2, 13) && byte_at(s, i + 3, 10) {
        4
    } else if byte_at(s, i, 13) && byte_at(s, i + 1, 10) && (byte_at(s, i + 2, 13) || byte_at(
        s,
        i + 2,
        10,
    )) {
        3
    } else if byte_at(s, i, 13) && byte_at(s, i + 1, 13) && byte_at(s, i + 2, 10) {
        3
    } else if byte_at(s, i, 10) && byte_at(s, i + 1, 13) && byte_at(s, i + 2, 10) {
        3
    } else if byte_at(s, i, 13) && byte_at(s, i + 1, 13) {
        2
    } else if byte_at(s, i, 10) && (byte_at(s, i + 1, 13) || byte_at(s, i + 1, 10)) {
        2
    } else {
        0
    }
}

/// Whether the first boundary of a buffer stands at a position.
pub open spec fn is_boundary(s: Seq<u8>, i: int) -> bool {
    &&& 0 <= i < s.len()
    &&& boundary_len(s, i) > 0
    &&& forall|j: int| 0 <= j < i ==> boundary_len(s, j) == 0
}

pub open spec fn has_boundary(s: Seq<u8>) -> bool {
    exists|i: int| is_boundary(s, i)
}

fn has_byte(s: &Vec<u8>, i: usize, n: usize, b: u8) -> (r: bool)
    requires
        i <= s@.len(),
        n < 4,
    ensures
        r == byte_at(s@, i + n, b),
{
    let len: usize = s.len();
    n < len - i && s[i + n] == b
}

fn boundary_at(s: &Vec<u8>, i: usize) -> (r: usize)
    requires
        i < s@.len(),
    ensures
        r == boundary_len(s@, i as int),
        i + r <= s@.len(),
{
    if has_byte(s, i, 0, 13) {
        if has_byte(s, i, 1, 10) {
            if has_byte(s, i, 2, 13) {
                if has_byte(s, i, 3, 10) {
                    4
                } else {
                    3
                }
            } else if has_byte(s, i, 2, 10) {
                3
            } else {
                0
            }
        } else if has_byte(s, i, 1, 13) {
            if has_byte(s, i, 2, 10) {
                3
            } else {
                2
            }
        } else {
            0
        }
    } else if has_byte(s, i, 0, 10) {
        if has_byte(s, i, 1, 13) {
            if has_byte(s, i, 2, 10) {
                3
            } else {
                2
            }
        } else if has_byte(s, i, 1, 10) {
            2
        } else {
            0
        }
    } else {
        0
    }
}

/// The position and the length of the first boundary of a buffer.
pub fn find_mistral_event_boundary(buffer: &Vec<u8>) -> (r: Option<(usize, usize)>)
    ensures
        match r {
            Some((index, length)) => is_boundary(buffer@, index as int) && length == boundary_len(
                buffer@,
                index as int,
            ) && index + length <= buffer@.len(),
            None => !has_boundary(buffer@),
        },
{
    let mut i: usize = 0;
    while i < buffer.len()
        invariant
            i <= buffer@.len(),
            forall|j: int| 0 <= j < i ==> boundary_len(buffer@, j) == 0,
        decreases buffer.len() - i,
    {
        let length: usize = boundary_at(buffer, i);
        if length > 0 {
            return Some((i, length));
        }
        i += 1;
    }
    None
}

/// The position of the first boundary of a buffer that has one.
pub open spec fn boundary_index(s: Seq<u8>) -> int {
    choose|i: int| is_boundary(s, i)
}

proof fn lemma_boundary_is(s: Seq<u8>, i: int)
    requires
        is_boundary(s, i),
    ensures
        has_boundary(s),
        boundary_index(s) == i,
{
    let j = boundary_index(s);
    assert(is_boundary(s, j));
    if j < i {
        assert(boundary_len(s, j) == 0);
    } else if i < j {
        assert(boundary_len(s, i) == 0);
    }
}

/// The bytes after the first boundary of a buffer.
pub open spec fn after_boundary(s: Seq<u8>) -> Seq<u8> {
    s.skip(boundary_index(s) + boundary_len(s, boundary_index(s)))
}

pub proof fn lemma_boundary_shrinks(s: Seq<u8>)
    requires
        has_boundary(s),
    ensures
        is_boundary(s, boundary_index(s)),
        boundary_index(s) + boundary_len(s, boundary_index(s)) <= s.len(),
        after_boundary(s).len() < s.len(),
{
    let i = boundary_index(s);
    assert(is_boundary(s, i));
}

/// The events that a buffer holds whole, in order, and the bytes that are left.
pub open spec fn framed(s: Seq<u8>) -> (Seq<Seq<char>>, Seq<u8>)
    decreases s.len(),
{
    if has_boundary(s) {
        proof {
            lemma_boundary_shrinks(s);
        }
        let (rest, left) = framed(after_boundary(s));
        (
            Seq::<Seq<char>>::empty().push(utf8_lossy(s.take(boundary_index(s)))) + rest,
            left,
        )
    } else {
        (Seq::empty(), s)
    }
}

/// What was read of a stream: the completions, and whether it is over.
pub struct Collected {
    pub events: Seq<Completion>,
    pub done: bool,
}

/// Takes one event. Nothing counts after the end, and neither does an event that
/// is empty or not valid.
pub open spec fn event_collected(
    c: Collected,
    raw: Seq<char>,
    parse: spec_fn(Seq<char>) -> Option<Json>,
) -> Collected {
    if c.done {
        c
    } else {
        match parsed_event(raw, parse) {
            Ok(Some(StreamEvent::Done)) => Collected { done: true, ..c },
            Ok(Some(StreamEvent::Data(event))) => Collected { events: c.events.push(event), ..c },
            _ => c,
        }
    }
}

pub open spec fn events_collected(
    c: Collected,
    list: Seq<Seq<char>>,
    parse: spec_fn(Seq<char>) -> Option<Json>,
) -> Collected
    decreases list.len(),
{
    if list.len() == 0 {
        c
    } else {
        events_collected(event_collected(c, list[0], parse), list.drop_first(), parse)
    }
}

/// Frames a stream of bytes into events and collects what they say.
#[derive(Debug)]
pub struct MistralEventReader {
    buffer: Vec<u8>,
    events: Vec<MistralCompletionEvent>,
    done: bool,
}

impl MistralEventReader {
    pub closed spec fn buffered(&self) -> Seq<u8> {
        self.buffer@
    }

    pub closed spec fn collected(&self) -> Collected {
        Collected { events: completions(self.events@), done: self.done }
    }

    pub fn new() -> (r: Self)
        ensures
            r.buffered() == Seq::<u8>::empty(),
            r.collected() == (Collected { events: Seq::empty(), done: false }),
    {
        let r = MistralEventReader { buffer: Vec::new(), events: Vec::new(), done: false };
        proof {
            assert(completions(r.events@) =~= Seq::<Completion>::empty());
        }
        r
    }

    fn collect<P: Fn(&str) -> Option<Value>>(&mut self, raw: &str, parse: &P)
        requires
            is_parser(*parse),
        ensures
            final(self).collected() == event_collected(
                old(self).collected(),
                raw@,
                parser_of(*parse),
            ),
            final(self).buffered() == old(self).buffered(),
    {
        if self.done {
            return ;
        }
        match parse_mistral_event(raw, parse) {
            Ok(Some(MistralEvent::Done)) => {
                self.done = true;
            },
            Ok(Some(MistralEvent::Data(event))) => {
                let ghost view = event@;
                self.events.push(event);
                proof {
                    assert(completions(self.events@) =~= completions(old(self).events@).push(view));
                }
            },
            _ => {},
        }
    }

    fn drain_events<P: Fn(&str) -> Option<Value>>(&mut self, parse: &P)
        requires
            is_parser(*parse),
        ensures
            final(self).collected() == events_collected(
                old(self).collected(),
                framed(old(self).buffered()).0,
                parser_of(*parse),
            ),
            final(self).buffered() == framed(old(self).buffered()).1,
    {
        let ghost end = events_collected(
            self.collected(),
            framed(self.buffered()).0,
            parser_of(*parse),
        );
        let ghost left = framed(self.buffered()).1;
        loop
            invariant
                is_parser(*parse),
                end == events_collected(
                    self.collected(),
                    framed(self.buffered()).0,
                    parser_of(*parse),
                ),
                left == framed(self.buffered()).1,
            ensures
                !has_boundary(self.buffered()),
                end == self.collected(),
                left == self.buffered(),
            decreases self.buffer@.len(),
        {
            match find_mistral_event_boundary(&self.buffer) {
                Some((index, length)) => {
                    let ghost bytes = self.buffer@;
                    proof {
                        lemma_boundary_is(bytes, index as int);
                    }
                    let len: usize = self.buffer.len();
                    let head = self.take_bytes(0, index);
                    let tail = self.take_bytes(index + length, len);
                    let raw = from_utf8_lossy(head.as_slice());
                    self.buffer = tail;
                    proof {
                        assert(head@ =~= bytes.take(index as int));
                        assert(tail@ =~= after_boundary(bytes));
                        let (rest, l) = framed(after_boundary(bytes));
                        let all = framed(bytes).0;
                        assert(all =~= Seq::<Seq<char>>::empty().push(raw@) + rest);
                        assert(all[0] == raw@);
                        assert(all.drop_first() =~= rest);
                    }
                    self.collect(raw.as_str(), parse);
                },
                None => {
                    break ;
                },
            }
        }
    }

    fn take_bytes(&self, from: usize, to: usize) -> (r: Vec<u8>)
        requires
            from <= to <= self.buffer@.len(),
        ensures
            r@ == self.buffer@.subrange(from as int, to as int),
    {
        let mut r: Vec<u8> = Vec::new();
        let mut i: usize = from;
        while i < to
            invariant
                from <= i <= to <= self.buffer@.len(),
                r@ == self.buffer@.subrange(from as int, i as int),
            decreases to - i,
        {
            r.push(self.buffer[i]);
            proof {
                assert(self.buffer@.subrange(from as int, i + 1) =~= self.buffer@.subrange(
                    from as int,
                    i as int,
                ).push(self.buffer@[i as int]));
            }
            i += 1;
        }
        r
    }

    /// Takes bytes that were read.
    pub fn feed<P: Fn(&str) -> Option<Value>>(&mut self, bytes: &Vec<u8>, parse: &P)
        requires
            is_parser(*parse),
        ensures
            ({
                let (events, left) = framed(old(self).buffered() + bytes@);
                &&& final(self).collected() == events_collected(
                    old(self).collected(),
                    events,
                    parser_of(*parse),
                )
                &&& final(self).buffered() == left
            }),
    {
        let mut i: usize = 0;
        proof {
            assert(self.buffer@ + bytes@.take(0) =~= self.buffer@);
        }
        while i < bytes.len()
            invariant
                i <= bytes@.len(),
                self.buffer@ == old(self).buffer@ + bytes@.take(i as int),
                self.events == old(self).events,
                self.done == old(self).done,
            decreases bytes.len() - i,
        {
            self.buffer.push(bytes[i]);
            proof {
                assert(self.buffer@ =~= old(self).buffer@ + bytes@.take(i + 1));
            }
            i += 1;
        }
        proof {
            assert(bytes@.take(bytes@.len() as int) =~= bytes@);
        }
        self.drain_events(parse);
    }

    /// Takes the end of a stream: an event that no boundary follows counts too.
    pub fn finish<P: Fn(&str) -> Option<Value>>(&mut self, parse: &P)
        requires
            is_parser(*parse),
        ensures
            ({
                let (events, left) = framed(old(self).buffered());
                let before = events_collected(old(self).collected(), events, parser_of(*parse));
                &&& final(self).collected() == if is_blank(utf8_lossy(left)) {
                    before
                } else {
                    event_collected(before, utf8_lossy(left), parser_of(*parse))
                }
                &&& final(self).buffered() == left
            }),
    {
        self.drain_events(parse);
        let tail = from_utf8_lossy(self.buffer.as_slice());
        if !blank(tail.as_str()) {
            self.collect(tail.as_str(), parse);
        }
    }

    /// The completions that were collected.
    pub fn into_events(self) -> (r: Vec<MistralCompletionEvent>)
        ensures
            completions(r@) == self.collected().events,
    {
        self.events
    }
}

} // verus!
