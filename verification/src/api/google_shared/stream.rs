//! How the chunks of a streamed reply become content and events.
use vstd::prelude::*;
use vstd::string::*;
use crate::api::finish::{check_stopped_raw, outcome, raw_stop_error};
use crate::api::google_shared::{
    is_thinking_part, is_thought, map_stop_reason, mapped_stop, part_text, part_text_value,
    retain_thought_signature, retained,
};
use crate::json::{
    array_at, as_object, entries, get, get_array, get_number_or_zero, get_object, get_str,
    get_str_or_empty, get_value, is_parser, items, json_stringify, json_text, new_entries,
    no_entries, number_at, number_or_zero, object, object_at, parse_with, parser_of, str_at,
    text_or_empty, Entries, Json, Value,
};
use crate::number::{excess, sum, whole, Number};
use crate::text::{
    borrow_opt, cat2, cat5, clone_opt, decimal, decimal_text, lemma_decimal, opt_text, str_eq,
};
use crate::types::{
    calls_tool, emit, events, is_pricer, no_cost, price_with, priced, pricing_of, with_block,
    with_block_at, zero_cost, AssistantMessage, AssistantMessageEvent, Block, Content, Event,
    Pricing, Reply, StopReason, TextBlock, TextContent, ThinkingBlock, ThinkingContent, ToolCall,
    ToolCallBlock, Usage, UsageCost,
};

verus! {

/// The interface that a reply comes from.
#[derive(Clone, Copy, Debug, PartialEq, Eq, Structural)]
pub enum GoogleInterface {
    GenerativeAi,
    Vertex,
}

// ---------------------------------------------------------------------------
// Parts
// ---------------------------------------------------------------------------

/// What a streamed part says: a text, whether it is a thought, and its
/// signature; and a call: the function, its arguments, the identifier that it
/// was given, and its signature.
#[derive(Debug, PartialEq, Eq)]
pub struct ParsedPart {
    pub text: Option<(String, bool, Option<String>)>,
    pub function_call: Option<(String, Value, Option<String>, Option<String>)>,
}

/// What a parsed part holds.
pub struct Parsed {
    pub text: Option<(Seq<char>, bool, Option<Seq<char>>)>,
    pub function_call: Option<(Seq<char>, Json, Option<Seq<char>>, Option<Seq<char>>)>,
}

impl View for ParsedPart {
    type V = Parsed;

    open spec fn view(&self) -> Parsed {
        Parsed {
            text: match self.text {
                Some((text, thought, signature)) => Some((text@, thought, opt_text(signature))),
                None => None,
            },
            function_call: match self.function_call {
                Some((name, args, id, signature)) => Some(
                    (name@, args@, opt_text(id), opt_text(signature)),
                ),
                None => None,
            },
        }
    }
}

/// The signature of a part.
pub open spec fn part_signature(part: Json) -> Option<Seq<char>> {
    match as_object(part) {
        Some(e) => str_at(e, "thoughtSignature"@),
        None => None,
    }
}

/// The entries of the call in a part. The Vertex interface takes a call that is
/// no object as one without entries.
pub open spec fn call_entries(part: Json, interface: GoogleInterface) -> Option<Entries> {
    match as_object(part) {
        Some(e) => match get(e, "functionCall"@) {
            Some(call) => match as_object(call) {
                Some(entries) => Some(entries),
                None => if interface == GoogleInterface::Vertex {
                    Some(no_entries())
                } else {
                    None
                },
            },
            None => None,
        },
        None => None,
    }
}

/// What a part says.
pub open spec fn parsed(part: Json, interface: GoogleInterface) -> Parsed {
    Parsed {
        text: match part_text(part) {
            Some(text) => Some((text, is_thought(part), part_signature(part))),
            None => None,
        },
        function_call: match call_entries(part, interface) {
            Some(call) => Some(
                (
                    text_or_empty(str_at(call, "name"@)),
                    match get(call, "args"@) {
                        Some(args) => args,
                        None => Json::Object(no_entries()),
                    },
                    str_at(call, "id"@),
                    part_signature(part),
                ),
            ),
            None => None,
        },
    }
}

fn read_signature(part: &Value) -> (r: Option<String>)
    ensures
        opt_text(r) == part_signature(part@),
{
    match part.as_object() {
        Some(e) => get_str(e, "thoughtSignature"),
        None => None,
    }
}

fn read_call(call: &Vec<(String, Value)>, signature: Option<String>) -> (r: (
    String,
    Value,
    Option<String>,
    Option<String>,
))
    ensures
        r.0@ == text_or_empty(str_at(entries(call@), "name"@)),
        r.1@ == (match get(entries(call@), "args"@) {
            Some(args) => args,
            None => Json::Object(no_entries()),
        }),
        opt_text(r.2) == str_at(entries(call@), "id"@),
        r.3 == signature,
{
    let name = get_str_or_empty(call, "name");
    let args = match get_value(call, "args") {
        Some(args) => args.clone(),
        None => object(new_entries()),
    };
    let id = get_str(call, "id");
    (name, args, id, signature)
}

/// Reads a streamed part.
pub fn read_part(part: &Value, interface: GoogleInterface) -> (r: ParsedPart)
    ensures
        r@ == parsed(part@, interface),
{
    let text = match part_text_value(part) {
        Some(text) => Some((text, is_thinking_part(part), read_signature(part))),
        None => None,
    };
    let function_call = match part.as_object() {
        Some(e) => match get_value(e, "functionCall") {
            Some(call) => match call.as_object() {
                Some(call) => Some(read_call(call, read_signature(part))),
                None => match interface {
                    GoogleInterface::Vertex => Some(
                        read_call(&new_entries(), read_signature(part)),
                    ),
                    GoogleInterface::GenerativeAi => None,
                },
            },
            None => None,
        },
        None => None,
    };
    ParsedPart { text, function_call }
}

// ---------------------------------------------------------------------------
// State
// ---------------------------------------------------------------------------

/// The block that is streamed, if there is one: whether it is a thought.
#[derive(Clone, Copy, Debug, PartialEq, Eq, Structural)]
pub struct GoogleStreamState {
    pub thinking: Option<bool>,
}

impl GoogleStreamState {
    /// No block is streamed yet.
    pub fn new() -> (r: Self)
        ensures
            r.thinking is None,
    {
        GoogleStreamState { thinking: None }
    }
}

/// How far a stream has come: the reply, what was sent, the block that is
/// streamed, and how many identifiers have been made.
pub struct Progress {
    pub reply: Reply,
    pub sent: Seq<Event>,
    pub thinking: Option<bool>,
    pub made: u64,
}

pub open spec fn progress(
    output: AssistantMessage,
    sent: Seq<AssistantMessageEvent>,
    state: GoogleStreamState,
    made: u64,
) -> Progress {
    Progress { reply: output@, sent: events(sent), thinking: state.thinking, made }
}

/// The block that is streamed is the last block of the reply.
pub open spec fn progress_wf(p: Progress) -> bool {
    match p.thinking {
        Some(true) => p.reply.content.len() > 0 && p.reply.content.last() is Thinking,
        Some(false) => p.reply.content.len() > 0 && p.reply.content.last() is Text,
        None => true,
    }
}

/// The position of the last block.
pub open spec fn last_index(m: Reply) -> int {
    m.content.len() - 1
}

/// What a block says.
pub open spec fn words(b: Block) -> Seq<char> {
    match b {
        Block::Text(t) => t.text,
        Block::Thinking(t) => t.thinking,
        _ => Seq::empty(),
    }
}

/// The end of the block that is streamed.
pub open spec fn block_ended(p: Progress) -> Progress {
    match p.thinking {
        Some(thinking) => {
            let content_index = last_index(p.reply);
            let content = words(p.reply.content.last());
            Progress {
                sent: p.sent.push(
                    if thinking {
                        Event::ThinkingEnd { content_index, content, partial: p.reply }
                    } else {
                        Event::TextEnd { content_index, content, partial: p.reply }
                    },
                ),
                thinking: None,
                ..p
            }
        },
        None => p,
    }
}

/// The begin of a block.
pub open spec fn block_begun(p: Progress, thinking: bool) -> Progress {
    let reply = with_block(
        p.reply,
        if thinking {
            Block::Thinking(
                ThinkingBlock {
                    thinking: Seq::empty(),
                    thinking_signature: None,
                    redacted: None,
                },
            )
        } else {
            Block::Text(TextBlock { text: Seq::empty(), text_signature: None })
        },
    );
    let content_index = last_index(reply);
    Progress {
        reply,
        sent: p.sent.push(
            if thinking {
                Event::ThinkingStart { content_index, partial: reply }
            } else {
                Event::TextStart { content_index, partial: reply }
            },
        ),
        thinking: Some(thinking),
        ..p
    }
}

/// A block with more text, and with a signature if one came.
pub open spec fn block_grown(b: Block, delta: Seq<char>, signature: Option<Seq<char>>) -> Block {
    match b {
        Block::Text(t) => Block::Text(
            TextBlock {
                text: t.text + delta,
                text_signature: retained(t.text_signature, signature),
            },
        ),
        Block::Thinking(t) => Block::Thinking(
            ThinkingBlock {
                thinking: t.thinking + delta,
                thinking_signature: retained(t.thinking_signature, signature),
                ..t
            },
        ),
        _ => b,
    }
}

/// A block that other text belongs in ends, and one for this text begins.
pub open spec fn block_ready(p: Progress, thinking: bool) -> Progress {
    if p.thinking == Some(thinking) {
        p
    } else {
        block_begun(block_ended(p), thinking)
    }
}

/// A text that was streamed.
pub open spec fn text_streamed(
    p: Progress,
    delta: Seq<char>,
    thinking: bool,
    signature: Option<Seq<char>>,
) -> Progress {
    let ready = block_ready(p, thinking);
    let content_index = last_index(ready.reply);
    let reply = with_block_at(
        ready.reply,
        content_index,
        block_grown(ready.reply.content.last(), delta, signature),
    );
    Progress {
        reply,
        sent: ready.sent.push(
            if thinking {
                Event::ThinkingDelta { content_index, delta, partial: reply }
            } else {
                Event::TextDelta { content_index, delta, partial: reply }
            },
        ),
        ..ready
    }
}

/// Whether a reply has a call with an identifier.
pub open spec fn has_call(m: Reply, id: Seq<char>) -> bool {
    exists|i: int| 0 <= i < m.content.len() && is_call_with(#[trigger] m.content[i], id)
}

pub open spec fn is_call_with(b: Block, id: Seq<char>) -> bool {
    match b {
        Block::ToolCall(c) => c.id == id,
        _ => false,
    }
}

/// Whether a call keeps the identifier that it was given: one that no call of
/// the reply has.
pub open spec fn keeps_id(m: Reply, given: Option<Seq<char>>) -> bool {
    match given {
        Some(id) => !has_call(m, id),
        None => false,
    }
}

/// The count behind a count.
pub open spec fn next_count(made: u64) -> u64 {
    if made == u64::MAX {
        0
    } else {
        (made + 1) as u64
    }
}

/// The number in the next identifier that is made: the interfaces count from
/// one and from zero.
pub open spec fn id_number(made: u64, interface: GoogleInterface) -> u64 {
    match interface {
        GoogleInterface::GenerativeAi => next_count(made),
        GoogleInterface::Vertex => made,
    }
}

/// An identifier for a call that has none of its own.
pub open spec fn made_id(name: Seq<char>, now: u64, number: u64) -> Seq<char> {
    name + "_"@ + decimal(now as nat) + "_"@ + decimal(number as nat)
}

/// A call that was streamed.
pub open spec fn call_streamed(
    p: Progress,
    call: (Seq<char>, Json, Option<Seq<char>>, Option<Seq<char>>),
    interface: GoogleInterface,
    now: u64,
) -> Progress {
    let (name, arguments, given, thought_signature) = call;
    let ended = block_ended(p);
    let keeps = keeps_id(ended.reply, given);
    let tool_call = ToolCallBlock {
        id: if keeps {
            given.unwrap()
        } else {
            made_id(name, now, id_number(p.made, interface))
        },
        name,
        arguments,
        thought_signature,
        namespace: None,
    };
    let reply = with_block(ended.reply, Block::ToolCall(tool_call));
    let content_index = last_index(reply);
    Progress {
        reply,
        sent: ended.sent.push(Event::ToolCallStart { content_index, partial: reply }).push(
            Event::ToolCallDelta { content_index, delta: json_text(arguments), partial: reply },
        ).push(Event::ToolCallEnd { content_index, tool_call, partial: reply }),
        made: if keeps {
            p.made
        } else {
            next_count(p.made)
        },
        ..ended
    }
}

/// A part that was streamed: its text, then its call.
pub open spec fn part_streamed(
    p: Progress,
    part: Parsed,
    interface: GoogleInterface,
    now: u64,
) -> Progress {
    let said = match part.text {
        Some((text, thinking, signature)) => text_streamed(p, text, thinking, signature),
        None => p,
    };
    match part.function_call {
        Some(call) => call_streamed(said, call, interface, now),
        None => said,
    }
}

/// The parts of a chunk in turn.
pub open spec fn parts_streamed(
    p: Progress,
    parts: Seq<Json>,
    interface: GoogleInterface,
    now: u64,
) -> Progress
    decreases parts.len(),
{
    if parts.len() == 0 {
        p
    } else {
        part_streamed(
            parts_streamed(p, parts.drop_last(), interface, now),
            parsed(parts.last(), interface),
            interface,
            now,
        )
    }
}

/// The end of a reply. A reply that calls a tool ends so that the tool is used.
pub open spec fn finish_taken(m: Reply, reason: Option<Seq<char>>) -> Reply {
    match reason {
        Some(reason) => Reply {
            raw_stop_reason: Some(reason),
            stop_reason: if calls_tool(m) {
                StopReason::ToolUse
            } else {
                mapped_stop(reason)
            },
            ..m
        },
        None => m,
    }
}

/// The first candidate of a chunk.
pub open spec fn candidate_of(e: Entries) -> Option<Entries> {
    match array_at(e, "candidates"@) {
        Some(list) => if list.len() > 0 {
            as_object(list[0])
        } else {
            None
        },
        None => None,
    }
}

/// The parts of a candidate.
pub open spec fn candidate_parts(candidate: Entries) -> Seq<Json> {
    match object_at(candidate, "content"@) {
        Some(content) => match array_at(content, "parts"@) {
            Some(parts) => parts,
            None => Seq::empty(),
        },
        None => Seq::empty(),
    }
}

/// The identifier of the response: the first that is not empty.
pub open spec fn response_id(known: Option<Seq<char>>, e: Entries) -> Option<Seq<char>> {
    match known {
        Some(_) => known,
        None => match str_at(e, "responseId"@) {
            Some(id) if id.len() == 0 => None,
            id => id,
        },
    }
}

/// The counts that a chunk reports. The Vertex interface takes counts that are
/// no object as zeros.
pub open spec fn usage_entries(e: Entries, interface: GoogleInterface) -> Option<Entries> {
    match get(e, "usageMetadata"@) {
        Some(usage) => match as_object(usage) {
            Some(usage) => Some(usage),
            None => if interface == GoogleInterface::Vertex {
                Some(no_entries())
            } else {
                None
            },
        },
        None => None,
    }
}

/// The usage of a reply. Tokens that were read from a cache are no input, and
/// thoughts are output.
pub open spec fn usage_of(u: Entries) -> Usage {
    let cached = number_or_zero(number_at(u, "cachedContentTokenCount"@));
    let thoughts = number_or_zero(number_at(u, "thoughtsTokenCount"@));
    Usage {
        input: excess(number_or_zero(number_at(u, "promptTokenCount"@)), cached),
        output: sum(number_or_zero(number_at(u, "candidatesTokenCount"@)), thoughts),
        cache_read: cached,
        cache_write: whole(0),
        cache_write_1h: None,
        reasoning: Some(thoughts),
        total_tokens: number_or_zero(number_at(u, "totalTokenCount"@)),
        cost: no_cost(),
    }
}

pub open spec fn usage_taken(
    m: Reply,
    e: Entries,
    interface: GoogleInterface,
    price: Pricing,
) -> Reply {
    match usage_entries(e, interface) {
        Some(u) => Reply { usage: priced(usage_of(u), price), ..m },
        None => m,
    }
}

/// A candidate that was streamed: its parts, then the reason why it ended.
pub open spec fn candidate_taken(
    p: Progress,
    candidate: Entries,
    interface: GoogleInterface,
    now: u64,
) -> Progress {
    let streamed = parts_streamed(p, candidate_parts(candidate), interface, now);
    Progress {
        reply: finish_taken(streamed.reply, str_at(candidate, "finishReason"@)),
        ..streamed
    }
}

/// A chunk that was streamed.
#[verifier::opaque]
pub open spec fn chunk_taken(
    p: Progress,
    chunk: Json,
    interface: GoogleInterface,
    now: u64,
    price: Pricing,
) -> Progress {
    match as_object(chunk) {
        Some(e) => {
            let known = Progress {
                reply: Reply {
                    response_id: response_id(p.reply.response_id, e),
                    ..p.reply
                },
                ..p
            };
            let streamed = match candidate_of(e) {
                Some(candidate) => candidate_taken(known, candidate, interface, now),
                None => known,
            };
            Progress { reply: usage_taken(streamed.reply, e, interface, price), ..streamed }
        },
        None => p,
    }
}

/// The data of an event: a chunk, or nothing where it cannot be read.
pub open spec fn data_taken(
    p: Progress,
    data: Seq<char>,
    interface: GoogleInterface,
    now: u64,
    parse: spec_fn(Seq<char>) -> Option<Json>,
    price: Pricing,
) -> Progress {
    match parse(data) {
        Some(chunk) => chunk_taken(p, chunk, interface, now, price),
        None => p,
    }
}

/// What is said of a stream that ends without a reason.
pub open spec fn no_reason(interface: GoogleInterface) -> Seq<char> {
    match interface {
        GoogleInterface::GenerativeAi => "Google stream ended without a finish reason"@,
        GoogleInterface::Vertex => "Google Vertex stream ended without a finish reason"@,
    }
}

// ---------------------------------------------------------------------------
// Steps
// ---------------------------------------------------------------------------

fn last_words(output: &AssistantMessage, i: usize) -> (r: String)
    requires
        i < output.content@.len(),
    ensures
        r@ == words(output@.content[i as int]),
{
    match &output.content[i] {
        Content::Text(t) => t.text.clone(),
        Content::Thinking(t) => t.thinking.clone(),
        _ => String::new(),
    }
}

fn end_block(
    output: &AssistantMessage,
    sent: &mut Vec<AssistantMessageEvent>,
    state: &mut GoogleStreamState,
    Ghost(made): Ghost<u64>,
)
    requires
        progress_wf(progress(*output, old(sent)@, *old(state), made)),
    ensures
        progress(*output, final(sent)@, *final(state), made) == block_ended(
            progress(*output, old(sent)@, *old(state), made),
        ),
{
    match state.thinking {
        Some(thinking) => {
            assert(output@.content.len() == output.content@.len());
            let content_index: usize = output.content.len() - 1;
            let content = last_words(output, content_index);
            state.thinking = None;
            if thinking {
                emit(
                    sent,
                    AssistantMessageEvent::ThinkingEnd {
                        content_index,
                        content,
                        partial: output.clone(),
                    },
                );
            } else {
                emit(
                    sent,
                    AssistantMessageEvent::TextEnd {
                        content_index,
                        content,
                        partial: output.clone(),
                    },
                );
            }
        },
        None => {},
    }
}

fn begin_block(
    output: &mut AssistantMessage,
    sent: &mut Vec<AssistantMessageEvent>,
    state: &mut GoogleStreamState,
    thinking: bool,
    Ghost(made): Ghost<u64>,
)
    ensures
        progress(*final(output), final(sent)@, *final(state), made) == block_begun(
            progress(*old(output), old(sent)@, *old(state), made),
            thinking,
        ),
        progress_wf(progress(*final(output), final(sent)@, *final(state), made)),
{
    state.thinking = Some(thinking);
    if thinking {
        let block = Content::Thinking(
            ThinkingContent { thinking: String::new(), thinking_signature: None, redacted: None },
        );
        assert(block@->Thinking_0.thinking =~= Seq::<char>::empty());
        output.push_content(block);
        let content_index: usize = output.content.len() - 1;
        emit(
            sent,
            AssistantMessageEvent::ThinkingStart { content_index, partial: output.clone() },
        );
    } else {
        let block = Content::Text(TextContent { text: String::new(), text_signature: None });
        assert(block@->Text_0.text =~= Seq::<char>::empty());
        output.push_content(block);
        let content_index: usize = output.content.len() - 1;
        emit(sent, AssistantMessageEvent::TextStart { content_index, partial: output.clone() });
    }
}

fn stream_text(
    output: &mut AssistantMessage,
    sent: &mut Vec<AssistantMessageEvent>,
    state: &mut GoogleStreamState,
    delta: &str,
    thinking: bool,
    signature: &Option<String>,
    Ghost(made): Ghost<u64>,
)
    requires
        progress_wf(progress(*old(output), old(sent)@, *old(state), made)),
    ensures
        progress(*final(output), final(sent)@, *final(state), made) == text_streamed(
            progress(*old(output), old(sent)@, *old(state), made),
            delta@,
            thinking,
            opt_text(*signature),
        ),
        progress_wf(progress(*final(output), final(sent)@, *final(state), made)),
{
    let ghost start = progress(*output, sent@, *state, made);
    let same = match state.thinking {
        Some(current) => current == thinking,
        None => false,
    };
    if !same {
        end_block(output, sent, state, Ghost(made));
        begin_block(output, sent, state, thinking, Ghost(made));
    }
    let ghost ready = progress(*output, sent@, *state, made);
    assert(ready == block_ready(start, thinking));
    assert(output@.content.len() == output.content@.len());
    let content_index: usize = output.content.len() - 1;
    let block = match &output.content[content_index] {
        Content::Text(t) => Content::Text(
            TextContent {
                text: cat2(t.text.as_str(), delta),
                text_signature: retain_thought_signature(
                    clone_opt(&t.text_signature),
                    borrow_opt(signature),
                ),
            },
        ),
        Content::Thinking(t) => Content::Thinking(
            ThinkingContent {
                thinking: cat2(t.thinking.as_str(), delta),
                thinking_signature: retain_thought_signature(
                    clone_opt(&t.thinking_signature),
                    borrow_opt(signature),
                ),
                redacted: t.redacted,
            },
        ),
        other => other.clone(),
    };
    proof {
        assert(ready.reply.content[content_index as int] == output.content@[content_index as int]@);
        assert(block@ == block_grown(ready.reply.content.last(), delta@, opt_text(*signature)));
    }
    output.set_content(content_index, block);
    if thinking {
        emit(
            sent,
            AssistantMessageEvent::ThinkingDelta {
                content_index,
                delta: delta.to_owned(),
                partial: output.clone(),
            },
        );
    } else {
        emit(
            sent,
            AssistantMessageEvent::TextDelta {
                content_index,
                delta: delta.to_owned(),
                partial: output.clone(),
            },
        );
    }
}

fn find_call(output: &AssistantMessage, id: &str) -> (r: bool)
    ensures
        r == has_call(output@, id@),
{
    let mut i: usize = 0;
    while i < output.content.len()
        invariant
            i <= output.content@.len(),
            forall|j: int| 0 <= j < i ==> !is_call_with(#[trigger] output@.content[j], id@),
        decreases output.content.len() - i,
    {
        let found = match &output.content[i] {
            Content::ToolCall(call) => str_eq(call.id.as_str(), id),
            _ => false,
        };
        proof {
            assert(output@.content[i as int] == output.content@[i as int]@);
            assert(found == is_call_with(output@.content[i as int], id@));
        }
        if found {
            return true;
        }
        i += 1;
    }
    false
}

fn count_on(made: u64) -> (r: u64)
    ensures
        r == next_count(made),
{
    if made == u64::MAX {
        0
    } else {
        made + 1
    }
}

fn make_id(name: &str, now: u64, number: u64) -> (r: String)
    ensures
        r@ == made_id(name@, now, number),
{
    cat5(
        name,
        "_",
        decimal_text(now as u128).as_str(),
        "_",
        decimal_text(number as u128).as_str(),
    )
}

fn stream_call(
    output: &mut AssistantMessage,
    sent: &mut Vec<AssistantMessageEvent>,
    state: &mut GoogleStreamState,
    made: &mut u64,
    call: &(String, Value, Option<String>, Option<String>),
    interface: GoogleInterface,
    now: u64,
)
    requires
        progress_wf(progress(*old(output), old(sent)@, *old(state), *old(made))),
    ensures
        progress(*final(output), final(sent)@, *final(state), *final(made)) == call_streamed(
            progress(*old(output), old(sent)@, *old(state), *old(made)),
            (call.0@, call.1@, opt_text(call.2), opt_text(call.3)),
            interface,
            now,
        ),
        progress_wf(progress(*final(output), final(sent)@, *final(state), *final(made))),
{
    let ghost start = *made;
    end_block(output, sent, state, Ghost(start));
    let kept = match &call.2 {
        Some(id) => if find_call(output, id.as_str()) {
            None
        } else {
            Some(id.clone())
        },
        None => None,
    };
    let id = match kept {
        Some(id) => id,
        None => {
            let number: u64 = match interface {
                GoogleInterface::GenerativeAi => count_on(*made),
                GoogleInterface::Vertex => *made,
            };
            *made = count_on(*made);
            make_id(call.0.as_str(), now, number)
        },
    };
    let tool_call = ToolCall {
        id,
        name: call.0.clone(),
        arguments: call.1.clone(),
        thought_signature: clone_opt(&call.3),
        namespace: None,
    };
    output.push_content(Content::ToolCall(tool_call.clone()));
    let content_index: usize = output.content.len() - 1;
    emit(sent, AssistantMessageEvent::ToolCallStart { content_index, partial: output.clone() });
    emit(
        sent,
        AssistantMessageEvent::ToolCallDelta {
            content_index,
            delta: json_stringify(&call.1),
            partial: output.clone(),
        },
    );
    emit(
        sent,
        AssistantMessageEvent::ToolCallEnd { content_index, tool_call, partial: output.clone() },
    );
}

fn stream_part(
    output: &mut AssistantMessage,
    sent: &mut Vec<AssistantMessageEvent>,
    state: &mut GoogleStreamState,
    made: &mut u64,
    part: &ParsedPart,
    interface: GoogleInterface,
    now: u64,
)
    requires
        progress_wf(progress(*old(output), old(sent)@, *old(state), *old(made))),
    ensures
        progress(*final(output), final(sent)@, *final(state), *final(made)) == part_streamed(
            progress(*old(output), old(sent)@, *old(state), *old(made)),
            part@,
            interface,
            now,
        ),
        progress_wf(progress(*final(output), final(sent)@, *final(state), *final(made))),
{
    match &part.text {
        Some((text, thinking, signature)) => {
            let ghost count = *made;
            stream_text(output, sent, state, text.as_str(), *thinking, signature, Ghost(count));
        },
        None => {},
    }
    match &part.function_call {
        Some(call) => {
            stream_call(output, sent, state, made, call, interface, now);
        },
        None => {},
    }
}

fn stream_parts(
    output: &mut AssistantMessage,
    sent: &mut Vec<AssistantMessageEvent>,
    state: &mut GoogleStreamState,
    made: &mut u64,
    parts: &Vec<Value>,
    interface: GoogleInterface,
    now: u64,
)
    requires
        progress_wf(progress(*old(output), old(sent)@, *old(state), *old(made))),
    ensures
        progress(*final(output), final(sent)@, *final(state), *final(made)) == parts_streamed(
            progress(*old(output), old(sent)@, *old(state), *old(made)),
            items(parts@),
            interface,
            now,
        ),
        progress_wf(progress(*final(output), final(sent)@, *final(state), *final(made))),
{
    let ghost start = progress(*output, sent@, *state, *made);
    let ghost list = items(parts@);
    let mut i: usize = 0;
    while i < parts.len()
        invariant
            i <= parts@.len(),
            list == items(parts@),
            progress(*output, sent@, *state, *made) == parts_streamed(
                start,
                list.take(i as int),
                interface,
                now,
            ),
            progress_wf(progress(*output, sent@, *state, *made)),
        decreases parts.len() - i,
    {
        proof {
            assert(list.take(i + 1).drop_last() =~= list.take(i as int));
            assert(list.take(i + 1).last() == parts@[i as int]@);
        }
        let part = read_part(&parts[i], interface);
        stream_part(output, sent, state, made, &part, interface, now);
        i += 1;
    }
    proof {
        assert(list.take(parts@.len() as int) =~= list);
    }
}

fn take_finish(output: &mut AssistantMessage, reason: Option<String>)
    ensures
        final(output)@ == finish_taken(old(output)@, opt_text(reason)),
        final(output)@.content == old(output)@.content,
{
    match reason {
        Some(reason) => {
            output.stop_reason = if output.has_tool_call() {
                StopReason::ToolUse
            } else {
                map_stop_reason(reason.as_str())
            };
            output.raw_stop_reason = Some(reason);
        },
        None => {},
    }
}

fn take_candidate(
    output: &mut AssistantMessage,
    sent: &mut Vec<AssistantMessageEvent>,
    state: &mut GoogleStreamState,
    made: &mut u64,
    candidate: &Vec<(String, Value)>,
    interface: GoogleInterface,
    now: u64,
)
    requires
        progress_wf(progress(*old(output), old(sent)@, *old(state), *old(made))),
    ensures
        progress(*final(output), final(sent)@, *final(state), *final(made)) == candidate_taken(
            progress(*old(output), old(sent)@, *old(state), *old(made)),
            entries(candidate@),
            interface,
            now,
        ),
        progress_wf(progress(*final(output), final(sent)@, *final(state), *final(made))),
{
    if let Some(content) = get_object(candidate, "content") {
        if let Some(parts) = get_array(content, "parts") {
            stream_parts(output, sent, state, made, parts, interface, now);
        }
    }
    take_finish(output, get_str(candidate, "finishReason"));
}

fn read_usage(u: &Vec<(String, Value)>) -> (r: Usage)
    ensures
        r == usage_of(entries(u@)),
{
    let cached = get_number_or_zero(u, "cachedContentTokenCount");
    let thoughts = get_number_or_zero(u, "thoughtsTokenCount");
    Usage {
        input: get_number_or_zero(u, "promptTokenCount").less(cached),
        output: get_number_or_zero(u, "candidatesTokenCount").plus(thoughts),
        cache_read: cached,
        cache_write: Number::zero(),
        cache_write_1h: None,
        reasoning: Some(thoughts),
        total_tokens: get_number_or_zero(u, "totalTokenCount"),
        cost: zero_cost(),
    }
}

fn take_usage<Q: Fn(Usage) -> UsageCost>(
    output: &mut AssistantMessage,
    e: &Vec<(String, Value)>,
    interface: GoogleInterface,
    price: &Q,
)
    requires
        is_pricer(*price),
    ensures
        final(output)@ == usage_taken(old(output)@, entries(e@), interface, pricing_of(*price)),
{
    if let Some(usage) = get_value(e, "usageMetadata") {
        match usage.as_object() {
            Some(u) => {
                output.usage = price_with(read_usage(u), price);
            },
            None => match interface {
                GoogleInterface::Vertex => {
                    output.usage = price_with(read_usage(&new_entries()), price);
                },
                GoogleInterface::GenerativeAi => {},
            },
        }
    }
}

fn take_response_id(output: &mut AssistantMessage, e: &Vec<(String, Value)>)
    ensures
        final(output)@ == (Reply {
            response_id: response_id(old(output)@.response_id, entries(e@)),
            ..old(output)@
        }),
{
    if output.response_id.is_none() {
        match get_str(e, "responseId") {
            Some(id) => {
                if !id.as_str().is_empty() {
                    output.response_id = Some(id);
                }
            },
            None => {},
        }
    }
}

/// Takes a chunk of a reply. `made` counts the identifiers that have been made
/// for calls without one of their own, and `now` is the time in milliseconds.
pub fn process_chunk<Q: Fn(Usage) -> UsageCost>(
    output: &mut AssistantMessage,
    sent: &mut Vec<AssistantMessageEvent>,
    state: &mut GoogleStreamState,
    made: &mut u64,
    chunk: &Value,
    interface: GoogleInterface,
    now: u64,
    price: &Q,
)
    requires
        is_pricer(*price),
        progress_wf(progress(*old(output), old(sent)@, *old(state), *old(made))),
    ensures
        progress(*final(output), final(sent)@, *final(state), *final(made)) == chunk_taken(
            progress(*old(output), old(sent)@, *old(state), *old(made)),
            chunk@,
            interface,
            now,
            pricing_of(*price),
        ),
        progress_wf(progress(*final(output), final(sent)@, *final(state), *final(made))),
{
    proof {
        reveal(chunk_taken);
    }
    match chunk.as_object() {
        Some(e) => {
            take_response_id(output, e);
            if let Some(candidates) = get_array(e, "candidates") {
                proof {
                    assert(items(candidates@).len() == candidates@.len());
                }
                if candidates.len() > 0 {
                    if let Some(candidate) = candidates[0].as_object() {
                        take_candidate(output, sent, state, made, candidate, interface, now);
                    }
                }
            }
            take_usage(output, e, interface, price);
        },
        None => {},
    }
}

/// Takes the data of an event of the stream.
pub fn process_data<P: Fn(&str) -> Option<Value>, Q: Fn(Usage) -> UsageCost>(
    output: &mut AssistantMessage,
    sent: &mut Vec<AssistantMessageEvent>,
    state: &mut GoogleStreamState,
    made: &mut u64,
    data: &str,
    interface: GoogleInterface,
    now: u64,
    parse: &P,
    price: &Q,
)
    requires
        is_parser(*parse),
        is_pricer(*price),
        progress_wf(progress(*old(output), old(sent)@, *old(state), *old(made))),
    ensures
        progress(*final(output), final(sent)@, *final(state), *final(made)) == data_taken(
            progress(*old(output), old(sent)@, *old(state), *old(made)),
            data@,
            interface,
            now,
            parser_of(*parse),
            pricing_of(*price),
        ),
        progress_wf(progress(*final(output), final(sent)@, *final(state), *final(made))),
{
    if let Some(chunk) = parse_with(parse, data) {
        process_chunk(output, sent, state, made, &chunk, interface, now, price);
    }
}

/// Ends the block that is streamed when the stream is over, and says whether
/// the reply ended well.
pub fn finish_stream(
    output: &AssistantMessage,
    sent: &mut Vec<AssistantMessageEvent>,
    state: &mut GoogleStreamState,
    interface: GoogleInterface,
) -> (r: Result<(), String>)
    requires
        progress_wf(progress(*output, old(sent)@, *old(state), 0)),
    ensures
        progress(*output, final(sent)@, *final(state), 0) == block_ended(
            progress(*output, old(sent)@, *old(state), 0),
        ),
        outcome(r) == raw_stop_error(output@, no_reason(interface)),
{
    end_block(output, sent, state, Ghost(0u64));
    match interface {
        GoogleInterface::GenerativeAi => check_stopped_raw(
            output,
            "Google stream ended without a finish reason",
        ),
        GoogleInterface::Vertex => check_stopped_raw(
            output,
            "Google Vertex stream ended without a finish reason",
        ),
    }
}

// ---------------------------------------------------------------------------
// Laws
// ---------------------------------------------------------------------------

/// Whether a stream goes on from where it was: what was sent stays sent, and
/// every block but the one that is streamed stays as it was.
pub open spec fn goes_on(p: Progress, q: Progress) -> bool {
    &&& p.sent.is_prefix_of(q.sent)
    &&& p.reply.content.len() <= q.reply.content.len()
    &&& forall|i: int|
        0 <= i < p.reply.content.len() && (i < p.reply.content.len() - 1 || p.thinking is None)
            ==> q.reply.content[i] == #[trigger] p.reply.content[i]
    &&& q.thinking is Some ==> q.reply.content.len() > p.reply.content.len() || p.thinking is Some
}

proof fn lemma_goes_on(p: Progress, q: Progress, r: Progress)
    requires
        goes_on(p, q),
        goes_on(q, r),
    ensures
        goes_on(p, r),
{
    assert forall|i: int|
        0 <= i < p.reply.content.len() && (i < p.reply.content.len() - 1 || p.thinking
            is None) implies r.reply.content[i] == #[trigger] p.reply.content[i] by {
        assert(q.reply.content[i] == p.reply.content[i]);
    }
}

proof fn lemma_part_goes_on(p: Progress, part: Parsed, interface: GoogleInterface, now: u64)
    requires
        progress_wf(p),
    ensures
        goes_on(p, part_streamed(p, part, interface, now)),
        progress_wf(part_streamed(p, part, interface, now)),
{
    let said = match part.text {
        Some((text, thinking, signature)) => text_streamed(p, text, thinking, signature),
        None => p,
    };
    if let Some((text, thinking, signature)) = part.text {
        let ended = block_ended(p);
        assert(goes_on(p, ended));
        let ready = block_ready(p, thinking);
        assert(goes_on(p, ready));
        assert(goes_on(ready, said));
        lemma_goes_on(p, ready, said);
    }
    if let Some(call) = part.function_call {
        let after = call_streamed(said, call, interface, now);
        assert(goes_on(said, after));
        lemma_goes_on(p, said, after);
    }
}

proof fn lemma_parts_go_on(p: Progress, parts: Seq<Json>, interface: GoogleInterface, now: u64)
    requires
        progress_wf(p),
    ensures
        goes_on(p, parts_streamed(p, parts, interface, now)),
        progress_wf(parts_streamed(p, parts, interface, now)),
    decreases parts.len(),
{
    if parts.len() > 0 {
        let before = parts_streamed(p, parts.drop_last(), interface, now);
        lemma_parts_go_on(p, parts.drop_last(), interface, now);
        lemma_part_goes_on(before, parsed(parts.last(), interface), interface, now);
        lemma_goes_on(p, before, parts_streamed(p, parts, interface, now));
    }
}

/// A chunk takes nothing back: the events that were sent stay, and every block
/// stays as it was, except that the one that is streamed may grow.
pub proof fn law_chunk_takes_nothing_back(
    p: Progress,
    chunk: Json,
    interface: GoogleInterface,
    now: u64,
    price: Pricing,
)
    requires
        progress_wf(p),
    ensures
        goes_on(p, chunk_taken(p, chunk, interface, now, price)),
        progress_wf(chunk_taken(p, chunk, interface, now, price)),
{
    reveal(chunk_taken);
    if let Some(e) = as_object(chunk) {
        let known = Progress {
            reply: Reply { response_id: response_id(p.reply.response_id, e), ..p.reply },
            ..p
        };
        assert(goes_on(p, known));
        if let Some(candidate) = candidate_of(e) {
            lemma_parts_go_on(known, candidate_parts(candidate), interface, now);
            let streamed = candidate_taken(known, candidate, interface, now);
            assert(goes_on(known, streamed));
            lemma_goes_on(p, known, streamed);
        }
    }
}

/// A reply that has called a tool by the time it ends asks for that tool,
/// whatever reason the provider gives.
pub proof fn law_call_asks_for_the_tool(m: Reply, reason: Seq<char>)
    requires
        calls_tool(m),
    ensures
        finish_taken(m, Some(reason)).stop_reason == StopReason::ToolUse,
        raw_stop_error(finish_taken(m, Some(reason)), Seq::empty()) is None,
{
}

/// A call keeps the identifier that it was given exactly if no earlier call of
/// the reply has it, so no two calls of a reply share a given identifier.
pub proof fn law_given_ids_are_kept_apart(
    p: Progress,
    call: (Seq<char>, Json, Option<Seq<char>>, Option<Seq<char>>),
    interface: GoogleInterface,
    now: u64,
)
    requires
        call.2 is Some,
        call.2 != Some(made_id(call.0, now, id_number(p.made, interface))),
    ensures
        ({
            let after = call_streamed(p, call, interface, now);
            after.reply.content.last()->ToolCall_0.id == call.2.unwrap() <==> !has_call(
                p.reply,
                call.2.unwrap(),
            )
        }),
{
}

/// Whether an identifier has the form of one that is made, with a number.
pub open spec fn is_made(id: Seq<char>, number: u64) -> bool {
    exists|name: Seq<char>, now: u64| id == made_id(name, now, number)
}

/// Whether no two calls of a reply share an identifier.
pub open spec fn calls_apart(m: Reply) -> bool {
    forall|i: int, j: int|
        #![trigger m.content[i], m.content[j]]
        0 <= i < j < m.content.len() && m.content[i] is ToolCall && m.content[j] is ToolCall
            ==> m.content[i]->ToolCall_0.id != m.content[j]->ToolCall_0.id
}

/// Whether every identifier of a reply that has the form of one that is made has
/// a number below a limit.
pub open spec fn made_below(m: Reply, limit: int) -> bool {
    forall|i: int, number: u64|
        #![trigger m.content[i], is_made(m.content[i]->ToolCall_0.id, number)]
        0 <= i < m.content.len() && m.content[i] is ToolCall && is_made(
            m.content[i]->ToolCall_0.id,
            number,
        ) ==> number < limit
}

/// The number of the next identifier that is made, before the count runs over.
pub open spec fn next_number(made: u64, interface: GoogleInterface) -> int {
    match interface {
        GoogleInterface::GenerativeAi => made + 1,
        GoogleInterface::Vertex => made as int,
    }
}

/// Whether a reply keeps its calls apart from each other and from those that get
/// an identifier next.
pub open spec fn ids_apart(p: Progress, interface: GoogleInterface) -> bool {
    &&& calls_apart(p.reply)
    &&& made_below(p.reply, next_number(p.made, interface))
}

/// Whether a part gives its call an identifier that has the form of one that is
/// made.
pub open spec fn gives_made_id(part: Parsed) -> bool {
    part.function_call matches Some(call) && call.2 matches Some(id) && exists|number: u64|
        is_made(id, number)
}

/// An identifier that is made has one number only.
proof fn lemma_made_id_has_one_number(id: Seq<char>, a: u64, b: u64)
    requires
        is_made(id, a),
        is_made(id, b),
    ensures
        a == b,
{
    let (x, s) = choose|name: Seq<char>, now: u64| id == made_id(name, now, a);
    let (y, t) = choose|name: Seq<char>, now: u64| id == made_id(name, now, b);
    let (da, db) = (decimal(a as nat), decimal(b as nat));
    lemma_decimal(a as nat);
    lemma_decimal(b as nat);
    reveal_strlit("_");
    let n = id.len();
    assert(id[n - 1 - da.len()] == '_');
    assert(id[n - 1 - db.len()] == '_');
    if da.len() < db.len() {
        assert(id[n - 1 - da.len()] == db[db.len() - 1 - da.len()]);
    } else if db.len() < da.len() {
        assert(id[n - 1 - db.len()] == da[da.len() - 1 - db.len()]);
    } else {
        assert(da =~= id.skip(n - da.len()));
        assert(db =~= id.skip(n - db.len()));
    }
}

/// Text keeps the calls apart: it touches no call.
proof fn lemma_text_keeps_apart(
    p: Progress,
    delta: Seq<char>,
    thinking: bool,
    signature: Option<Seq<char>>,
    interface: GoogleInterface,
)
    requires
        progress_wf(p),
        ids_apart(p, interface),
    ensures
        ids_apart(text_streamed(p, delta, thinking, signature), interface),
        text_streamed(p, delta, thinking, signature).made == p.made,
{
    let after = text_streamed(p, delta, thinking, signature);
    let n = p.reply.content.len();
    assert forall|i: int|
        0 <= i < after.reply.content.len() && (#[trigger] after.reply.content[i])
            is ToolCall implies i < n && after.reply.content[i] == p.reply.content[i] by {}
    assert forall|i: int, number: u64|
        #![trigger after.reply.content[i], is_made(after.reply.content[i]->ToolCall_0.id, number)]
        0 <= i < after.reply.content.len() && after.reply.content[i] is ToolCall && is_made(
            after.reply.content[i]->ToolCall_0.id,
            number,
        ) implies number < next_number(after.made, interface) by {
        assert(is_made(p.reply.content[i]->ToolCall_0.id, number));
    }
}

/// A call stays apart from those before it.
proof fn lemma_call_keeps_apart(
    p: Progress,
    call: (Seq<char>, Json, Option<Seq<char>>, Option<Seq<char>>),
    interface: GoogleInterface,
    now: u64,
)
    requires
        ids_apart(p, interface),
        p.made < u64::MAX,
        call.2 matches Some(id) ==> !exists|number: u64| is_made(id, number),
    ensures
        ids_apart(call_streamed(p, call, interface, now), interface),
{
    let after = call_streamed(p, call, interface, now);
    let n = p.reply.content.len() as int;
    let id = after.reply.content[n]->ToolCall_0.id;
    let number = id_number(p.made, interface);
    let keeps = keeps_id(block_ended(p).reply, call.2);
    if !keeps {
        assert(is_made(id, number));
    }
    assert forall|i: int| 0 <= i < n && p.reply.content[i] is ToolCall implies (
    #[trigger] p.reply.content[i])->ToolCall_0.id != id by {
        if keeps {
            if p.reply.content[i]->ToolCall_0.id == id {
                assert(is_call_with(p.reply.content[i], id));
            }
        } else if p.reply.content[i]->ToolCall_0.id == id {
            assert(is_made(p.reply.content[i]->ToolCall_0.id, number));
        }
    }
    assert forall|i: int, other: u64|
        #![trigger after.reply.content[i], is_made(after.reply.content[i]->ToolCall_0.id, other)]
        0 <= i < after.reply.content.len() && after.reply.content[i] is ToolCall && is_made(
            after.reply.content[i]->ToolCall_0.id,
            other,
        ) implies other < next_number(after.made, interface) by {
        if i < n {
            assert(after.reply.content[i] == p.reply.content[i]);
            assert(is_made(p.reply.content[i]->ToolCall_0.id, other));
        } else if !keeps {
            lemma_made_id_has_one_number(id, number, other);
        }
    }
}

proof fn lemma_parts_keep_apart(
    p: Progress,
    parts: Seq<Json>,
    interface: GoogleInterface,
    now: u64,
)
    requires
        progress_wf(p),
        ids_apart(p, interface),
        p.made + parts.len() <= u64::MAX,
        forall|i: int|
            0 <= i < parts.len() ==> !gives_made_id(parsed(#[trigger] parts[i], interface)),
    ensures
        ids_apart(parts_streamed(p, parts, interface, now), interface),
        parts_streamed(p, parts, interface, now).made <= p.made + parts.len(),
    decreases parts.len(),
{
    if parts.len() > 0 {
        let rest = parts.drop_last();
        assert forall|i: int| 0 <= i < rest.len() implies !gives_made_id(
            parsed(#[trigger] rest[i], interface),
        ) by {
            assert(rest[i] == parts[i]);
        }
        lemma_parts_keep_apart(p, rest, interface, now);
        lemma_parts_go_on(p, rest, interface, now);
        let before = parts_streamed(p, rest, interface, now);
        let part = parsed(parts.last(), interface);
        assert(!gives_made_id(parsed(parts[parts.len() - 1], interface)));
        let said = match part.text {
            Some((text, thinking, signature)) => text_streamed(before, text, thinking, signature),
            None => before,
        };
        if let Some((text, thinking, signature)) = part.text {
            lemma_text_keeps_apart(before, text, thinking, signature, interface);
        }
        if let Some(call) = part.function_call {
            lemma_call_keeps_apart(said, call, interface, now);
        }
    }
}

/// All calls of a reply stay apart: where a chunk gives no call an identifier
/// that has the form of one that is made, no two calls share an identifier after
/// it, whether theirs were given or made.
pub proof fn law_calls_stay_apart(
    p: Progress,
    chunk: Entries,
    interface: GoogleInterface,
    now: u64,
    price: Pricing,
)
    requires
        progress_wf(p),
        ids_apart(p, interface),
        candidate_of(chunk) matches Some(candidate) ==> {
            let parts = candidate_parts(candidate);
            &&& p.made + parts.len() <= u64::MAX
            &&& forall|i: int|
                0 <= i < parts.len() ==> !gives_made_id(parsed(#[trigger] parts[i], interface))
        },
    ensures
        calls_apart(chunk_taken(p, Json::Object(chunk), interface, now, price).reply),
        ids_apart(chunk_taken(p, Json::Object(chunk), interface, now, price), interface),
{
    reveal(chunk_taken);
    let known = Progress {
        reply: Reply { response_id: response_id(p.reply.response_id, chunk), ..p.reply },
        ..p
    };
    assert(ids_apart(known, interface));
    if let Some(candidate) = candidate_of(chunk) {
        lemma_parts_keep_apart(known, candidate_parts(candidate), interface, now);
    }
}

/// A call is sent whole: it is put behind the blocks of the reply, and its
/// start, its arguments and its end are sent in this order.
pub proof fn law_call_is_sent_whole(
    p: Progress,
    call: (Seq<char>, Json, Option<Seq<char>>, Option<Seq<char>>),
    interface: GoogleInterface,
    now: u64,
)
    ensures
        ({
            let after = call_streamed(p, call, interface, now);
            let n = p.reply.content.len() as int;
            let sent = block_ended(p).sent;
            &&& after.reply.content == p.reply.content.push(after.reply.content[n])
            &&& after.reply.content[n] matches Block::ToolCall(tool_call) && tool_call.name
                == call.0 && tool_call.arguments == call.1
            &&& after.sent.len() == sent.len() + 3
            &&& sent.is_prefix_of(after.sent)
            &&& after.sent[sent.len() as int] is ToolCallStart
            &&& after.sent[sent.len() as int + 1] is ToolCallDelta
            &&& after.sent[sent.len() as int + 2] is ToolCallEnd
        }),
{
}

} // verus!
