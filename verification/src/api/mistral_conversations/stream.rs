//! How the completions of a stream build a reply.
use vstd::prelude::*;
use vstd::string::*;
use super::events::{
    call_deltas, choices, chunks, completions, CallDelta, Chunk, Completion, MistralCompletionEvent,
    MistralContentChunk, MistralContentItems, MistralToolCallDelta, MistralUsage, Said,
};
use super::ids::{candidate, derive_mistral_tool_call_id};
use crate::api::finish::{check_stopped, outcome, stop_error};
use crate::api::headers::Pairs;
use crate::json::{
    find_key, get, is_reader, lemma_key_index, lemma_key_index_is, new_entries, no_entries, object,
    read_with, reader_of, with_entry, Json, Value,
};
use crate::number::{difference, greater, number_text, sum, whole, Number};
use crate::text::{borrow_opt, cat2, cat3, clone_opt, join, joined, opt_is, opt_text, str_eq};
use crate::types::{
    arguments_set, emit, events, is_pricer, pairs, price_with, priced, pricing_of, with_block,
    with_block_at, AssistantMessage, AssistantMessageEvent, Block, Content, Event, Pricing, Reply,
    StopReason, TextBlock, TextContent, ThinkingBlock, ThinkingContent, ToolCall, ToolCallBlock,
    Usage, UsageCost,
};

verus! {

/// The stop reason that a finish reason stands for, and the error that goes
/// with it.
pub open spec fn stop_reason_of(reason: Seq<char>) -> (StopReason, Option<Seq<char>>) {
    if reason == "stop"@ {
        (StopReason::Stop, None)
    } else if reason == "length"@ || reason == "model_length"@ {
        (StopReason::Length, None)
    } else if reason == "tool_calls"@ {
        (StopReason::ToolUse, None)
    } else {
        (StopReason::Error, Some("Provider stopped with: "@ + reason))
    }
}

pub fn map_chat_stop_reason(reason: &str) -> (r: (StopReason, Option<String>))
    ensures
        (r.0, opt_text(r.1)) == stop_reason_of(reason@),
{
    if str_eq(reason, "stop") {
        (StopReason::Stop, None)
    } else if str_eq(reason, "length") || str_eq(reason, "model_length") {
        (StopReason::Length, None)
    } else if str_eq(reason, "tool_calls") {
        (StopReason::ToolUse, None)
    } else {
        (StopReason::Error, Some(cat2("Provider stopped with: ", reason)))
    }
}

// ---------------------------------------------------------------------------
// State
// ---------------------------------------------------------------------------

enum CurrentBlock {
    Text(String),
    Thinking(String),
}

/// The block that is streamed.
pub enum Current {
    Text(Seq<char>),
    Thinking(Seq<char>),
}

impl View for CurrentBlock {
    type V = Current;

    closed spec fn view(&self) -> Current {
        match *self {
            CurrentBlock::Text(text) => Current::Text(text@),
            CurrentBlock::Thinking(text) => Current::Thinking(text@),
        }
    }
}

struct ChatState {
    current_block: Option<CurrentBlock>,
    tool_blocks_by_key: Vec<(String, usize)>,
    partial_args_by_key: Vec<(String, String)>,
}

/// How far a stream has come: the reply, what was sent, the block that is
/// streamed, and for each key of a tool call its position in the reply and the
/// text of its arguments.
pub struct Progress {
    pub reply: Reply,
    pub sent: Seq<Event>,
    pub current: Option<Current>,
    pub positions: Seq<(Seq<char>, int)>,
    pub partial: Pairs,
}

spec fn positions(s: Seq<(String, usize)>) -> Seq<(Seq<char>, int)> {
    Seq::new(s.len(), |i: int| (s[i].0@, s[i].1 as int))
}

spec fn progress(
    output: AssistantMessage,
    sent: Seq<AssistantMessageEvent>,
    state: ChatState,
) -> Progress {
    Progress {
        reply: output@,
        sent: events(sent),
        current: match state.current_block {
            Some(block) => Some(block@),
            None => None,
        },
        positions: positions(state.tool_blocks_by_key@),
        partial: pairs(state.partial_args_by_key@),
    }
}

/// The block that is streamed is the last block of the reply and holds what was
/// streamed so far, and every position that is remembered is one of a tool call.
pub open spec fn progress_wf(p: Progress) -> bool {
    &&& match p.current {
        Some(Current::Text(text)) => p.reply.content.len() > 0 && p.reply.content.last() == Block::Text(
            TextBlock { text, text_signature: None },
        ),
        Some(Current::Thinking(thinking)) => p.reply.content.len() > 0 && p.reply.content.last()
            == Block::Thinking(
            ThinkingBlock { thinking, thinking_signature: None, redacted: None },
        ),
        None => true,
    }
    &&& forall|i: int|
        0 <= i < p.positions.len() ==> is_call_at(p.reply, (#[trigger] p.positions[i]).1)
}

pub open spec fn is_call_at(m: Reply, at: int) -> bool {
    0 <= at < m.content.len() && m.content[at] is ToolCall
}

pub open spec fn last_index(m: Reply) -> int {
    m.content.len() - 1
}

// ---------------------------------------------------------------------------
// Steps
// ---------------------------------------------------------------------------

/// Sends the end of the block that is streamed.
pub open spec fn current_finished(p: Progress) -> Progress {
    match p.current {
        Some(Current::Text(content)) => Progress {
            sent: p.sent.push(
                Event::TextEnd { content_index: last_index(p.reply), content, partial: p.reply },
            ),
            ..p
        },
        Some(Current::Thinking(content)) => Progress {
            sent: p.sent.push(
                Event::ThinkingEnd { content_index: last_index(p.reply), content, partial: p.reply },
            ),
            ..p
        },
        None => p,
    }
}

pub open spec fn text_begun(p: Progress) -> Progress {
    if p.current matches Some(Current::Text(_)) {
        p
    } else {
        let ended = current_finished(p);
        let reply = with_block(
            ended.reply,
            Block::Text(TextBlock { text: Seq::empty(), text_signature: None }),
        );
        Progress {
            reply,
            sent: ended.sent.push(
                Event::TextStart { content_index: last_index(reply), partial: reply },
            ),
            current: Some(Current::Text(Seq::empty())),
            ..ended
        }
    }
}

/// Streams text.
pub open spec fn text_streamed(p: Progress, delta: Seq<char>) -> Progress {
    let begun = text_begun(p);
    let text = begun.current->0->Text_0 + delta;
    let reply = with_block_at(
        begun.reply,
        last_index(begun.reply),
        Block::Text(TextBlock { text, text_signature: None }),
    );
    Progress {
        reply,
        sent: begun.sent.push(
            Event::TextDelta { content_index: last_index(reply), delta, partial: reply },
        ),
        current: Some(Current::Text(text)),
        ..begun
    }
}

pub open spec fn thinking_begun(p: Progress) -> Progress {
    if p.current matches Some(Current::Thinking(_)) {
        p
    } else {
        let ended = current_finished(p);
        let reply = with_block(
            ended.reply,
            Block::Thinking(
                ThinkingBlock {
                    thinking: Seq::empty(),
                    thinking_signature: None,
                    redacted: None,
                },
            ),
        );
        Progress {
            reply,
            sent: ended.sent.push(
                Event::ThinkingStart { content_index: last_index(reply), partial: reply },
            ),
            current: Some(Current::Thinking(Seq::empty())),
            ..ended
        }
    }
}

/// Streams thinking.
pub open spec fn thinking_streamed(p: Progress, delta: Seq<char>) -> Progress {
    let begun = thinking_begun(p);
    let thinking = begun.current->0->Thinking_0 + delta;
    let reply = with_block_at(
        begun.reply,
        last_index(begun.reply),
        Block::Thinking(ThinkingBlock { thinking, thinking_signature: None, redacted: None }),
    );
    Progress {
        reply,
        sent: begun.sent.push(
            Event::ThinkingDelta { content_index: last_index(reply), delta, partial: reply },
        ),
        current: Some(Current::Thinking(thinking)),
        ..begun
    }
}

/// Streams a chunk: text, thinking that is not empty, and nothing of an image.
pub open spec fn chunk_streamed(p: Progress, chunk: Chunk) -> Progress {
    match chunk {
        Chunk::Text(text) => text_streamed(p, text),
        Chunk::Thinking(parts) => if joined(parts, ""@).len() == 0 {
            p
        } else {
            thinking_streamed(p, joined(parts, ""@))
        },
        Chunk::Image(_) => p,
    }
}

pub open spec fn chunks_streamed(p: Progress, list: Seq<Chunk>) -> Progress
    decreases list.len(),
{
    if list.len() == 0 {
        p
    } else {
        chunk_streamed(chunks_streamed(p, list.drop_last()), list.last())
    }
}

pub open spec fn said(p: Progress, content: Option<Said>) -> Progress {
    match content {
        Some(Said::Text(text)) => text_streamed(p, text),
        Some(Said::Chunks(list)) => chunks_streamed(p, list),
        None => p,
    }
}

pub open spec fn index_text(d: CallDelta) -> Seq<char> {
    number_text(
        match d.index {
            Some(index) => index,
            None => whole(0),
        },
    )
}

/// The id of a call: its own, or one derived from its index.
pub open spec fn call_id(d: CallDelta) -> Seq<char> {
    match d.id {
        Some(id) => if id != "null"@ {
            id
        } else {
            candidate("toolcall:"@ + index_text(d), 0)
        },
        None => candidate("toolcall:"@ + index_text(d), 0),
    }
}

pub open spec fn call_key(d: CallDelta) -> Seq<char> {
    call_id(d) + ":"@ + index_text(d)
}

/// Ends the block that is streamed, if there is one.
pub open spec fn current_left(p: Progress) -> Progress {
    Progress { current: None, ..current_finished(p) }
}

/// Finds or begins the call of a delta.
pub open spec fn call_begun(p: Progress, d: CallDelta) -> Progress {
    match get(p.positions, call_key(d)) {
        Some(_) => p,
        None => {
            let reply = with_block(
                p.reply,
                Block::ToolCall(
                    ToolCallBlock {
                        id: call_id(d),
                        name: d.name,
                        arguments: Json::Object(no_entries()),
                        thought_signature: None,
                        namespace: None,
                    },
                ),
            );
            Progress {
                reply,
                sent: p.sent.push(
                    Event::ToolCallStart { content_index: last_index(reply), partial: reply },
                ),
                positions: p.positions.push((call_key(d), last_index(reply))),
                ..p
            }
        },
    }
}

pub open spec fn arguments_so_far(partial: Pairs, key: Seq<char>) -> Seq<char> {
    match get(partial, key) {
        Some(text) => text,
        None => Seq::empty(),
    }
}

/// Streams the arguments of a call.
pub open spec fn call_streamed(
    p: Progress,
    d: CallDelta,
    read: spec_fn(Seq<char>) -> Json,
) -> Progress {
    let begun = call_begun(current_left(p), d);
    let key = call_key(d);
    let at = get(begun.positions, key)->0;
    let text = arguments_so_far(begun.partial, key) + d.arguments;
    let reply = arguments_set(begun.reply, at, read(text));
    Progress {
        reply,
        sent: begun.sent.push(
            Event::ToolCallDelta { content_index: at, delta: d.arguments, partial: reply },
        ),
        partial: with_entry(begun.partial, key, text),
        ..begun
    }
}

pub open spec fn calls_streamed(
    p: Progress,
    list: Seq<CallDelta>,
    read: spec_fn(Seq<char>) -> Json,
) -> Progress
    decreases list.len(),
{
    if list.len() == 0 {
        p
    } else {
        call_streamed(calls_streamed(p, list.drop_last(), read), list.last(), read)
    }
}

/// The usage with what a completion reports; tokens that a cache held are no
/// input.
pub open spec fn usage_taken(u: Usage, reported: MistralUsage) -> Usage {
    let input = greater(difference(reported.prompt_tokens, reported.cached_tokens), whole(0));
    Usage {
        input,
        output: reported.completion_tokens,
        cache_read: reported.cached_tokens,
        cache_write: whole(0),
        total_tokens: if reported.total_tokens != whole(0) {
            reported.total_tokens
        } else {
            sum(
                sum(sum(input, reported.completion_tokens), reported.cached_tokens),
                whole(0),
            )
        },
        ..u
    }
}

/// The reply with what a completion says of the response as a whole. The first
/// id that is not empty is kept.
pub open spec fn head_taken(m: Reply, c: Completion, price: Pricing) -> Reply {
    Reply {
        response_id: if m.response_id is None && c.id != Some(""@) {
            c.id
        } else {
            m.response_id
        },
        usage: match c.usage {
            Some(usage) => priced(usage_taken(m.usage, usage), price),
            None => m.usage,
        },
        ..m
    }
}

pub open spec fn end_taken(m: Reply, finish_reason: Option<Seq<char>>) -> Reply {
    match finish_reason {
        Some(reason) => {
            let (stop_reason, error) = stop_reason_of(reason);
            Reply {
                raw_stop_reason: Some(reason),
                stop_reason,
                error_message: if error is Some {
                    error
                } else {
                    m.error_message
                },
                ..m
            }
        },
        None => m,
    }
}

/// What one completion does.
#[verifier::opaque]
pub open spec fn completion_taken(
    p: Progress,
    c: Completion,
    read: spec_fn(Seq<char>) -> Json,
    price: Pricing,
) -> Progress {
    let headed = Progress { reply: head_taken(p.reply, c, price), ..p };
    if c.choices.len() == 0 {
        headed
    } else {
        let choice = c.choices[0];
        let ended = Progress { reply: end_taken(headed.reply, choice.finish_reason), ..headed };
        calls_streamed(said(ended, choice.content), choice.tool_calls, read)
    }
}

pub open spec fn completions_taken(
    p: Progress,
    list: Seq<Completion>,
    read: spec_fn(Seq<char>) -> Json,
    price: Pricing,
) -> Progress
    decreases list.len(),
{
    if list.len() == 0 {
        p
    } else {
        completion_taken(
            completions_taken(p, list.drop_last(), read, price),
            list.last(),
            read,
            price,
        )
    }
}

/// Sends the ends of the tool calls, in the order in which they began.
pub open spec fn calls_ended(m: Reply, sent: Seq<Event>, list: Seq<(Seq<char>, int)>) -> Seq<Event>
    decreases list.len(),
{
    if list.len() == 0 {
        sent
    } else {
        let before = calls_ended(m, sent, list.drop_last());
        match m.content[list.last().1] {
            Block::ToolCall(tool_call) => before.push(
                Event::ToolCallEnd { content_index: list.last().1, tool_call, partial: m },
            ),
            _ => before,
        }
    }
}

/// A stream that has just begun.
pub open spec fn at_start(reply: Reply, sent: Seq<Event>) -> Progress {
    Progress {
        reply,
        sent,
        current: None,
        positions: Seq::empty(),
        partial: Seq::empty(),
    }
}

/// What the completions of a stream make of a reply, and what is sent of it.
pub open spec fn consumed(
    reply: Reply,
    sent: Seq<Event>,
    list: Seq<Completion>,
    read: spec_fn(Seq<char>) -> Json,
    price: Pricing,
) -> (Reply, Seq<Event>) {
    let p = current_finished(completions_taken(at_start(reply, sent), list, read, price));
    (p.reply, calls_ended(p.reply, p.sent, p.positions))
}

// ---------------------------------------------------------------------------
// Their execution
// ---------------------------------------------------------------------------

fn finish_current_block(
    output: &AssistantMessage,
    sent: &mut Vec<AssistantMessageEvent>,
    state: &ChatState,
)
    requires
        progress_wf(progress(*output, old(sent)@, *state)),
    ensures
        progress(*output, final(sent)@, *state) == current_finished(
            progress(*output, old(sent)@, *state),
        ),
{
    match &state.current_block {
        Some(CurrentBlock::Text(text)) => {
            emit(
                sent,
                AssistantMessageEvent::TextEnd {
                    content_index: output.content.len() - 1,
                    content: text.clone(),
                    partial: output.clone(),
                },
            );
        },
        Some(CurrentBlock::Thinking(thinking)) => {
            emit(
                sent,
                AssistantMessageEvent::ThinkingEnd {
                    content_index: output.content.len() - 1,
                    content: thinking.clone(),
                    partial: output.clone(),
                },
            );
        },
        None => {},
    }
}

fn stream_text(
    output: &mut AssistantMessage,
    sent: &mut Vec<AssistantMessageEvent>,
    state: &mut ChatState,
    delta: &str,
)
    requires
        progress_wf(progress(*old(output), old(sent)@, *old(state))),
    ensures
        progress(*final(output), final(sent)@, *final(state)) == text_streamed(
            progress(*old(output), old(sent)@, *old(state)),
            delta@,
        ),
        progress_wf(progress(*final(output), final(sent)@, *final(state))),
{
    let ghost before = progress(*output, sent@, *state);
    let text = match &state.current_block {
        Some(CurrentBlock::Text(text)) => cat2(text.as_str(), delta),
        _ => {
            finish_current_block(output, sent, state);
            output.push_content(
                Content::Text(TextContent { text: String::new(), text_signature: None }),
            );
            emit(
                sent,
                AssistantMessageEvent::TextStart {
                    content_index: output.content.len() - 1,
                    partial: output.clone(),
                },
            );
            proof {
                assert(Seq::<char>::empty() + delta@ =~= delta@);
            }
            delta.to_owned()
        },
    };
    proof {
        let begun = text_begun(before);
        assert(output@ == begun.reply);
        assert(events(sent@) == begun.sent);
        assert(text@ == begun.current->0->Text_0 + delta@);
    }
    let at: usize = output.content.len() - 1;
    output.set_content(
        at,
        Content::Text(TextContent { text: text.clone(), text_signature: None }),
    );
    state.current_block = Some(CurrentBlock::Text(text));
    emit(
        sent,
        AssistantMessageEvent::TextDelta {
            content_index: at,
            delta: delta.to_owned(),
            partial: output.clone(),
        },
    );
    proof {
        let after = progress(*output, sent@, *state);
        assert forall|i: int| 0 <= i < after.positions.len() implies is_call_at(
            after.reply,
            (#[trigger] after.positions[i]).1,
        ) by {
            assert(is_call_at(before.reply, before.positions[i].1));
        }
    }
}

fn stream_thinking(
    output: &mut AssistantMessage,
    sent: &mut Vec<AssistantMessageEvent>,
    state: &mut ChatState,
    delta: &str,
)
    requires
        progress_wf(progress(*old(output), old(sent)@, *old(state))),
    ensures
        progress(*final(output), final(sent)@, *final(state)) == thinking_streamed(
            progress(*old(output), old(sent)@, *old(state)),
            delta@,
        ),
        progress_wf(progress(*final(output), final(sent)@, *final(state))),
{
    let ghost before = progress(*output, sent@, *state);
    let thinking = match &state.current_block {
        Some(CurrentBlock::Thinking(thinking)) => cat2(thinking.as_str(), delta),
        _ => {
            finish_current_block(output, sent, state);
            output.push_content(
                Content::Thinking(
                    ThinkingContent {
                        thinking: String::new(),
                        thinking_signature: None,
                        redacted: None,
                    },
                ),
            );
            emit(
                sent,
                AssistantMessageEvent::ThinkingStart {
                    content_index: output.content.len() - 1,
                    partial: output.clone(),
                },
            );
            proof {
                assert(Seq::<char>::empty() + delta@ =~= delta@);
            }
            delta.to_owned()
        },
    };
    proof {
        let begun = thinking_begun(before);
        assert(output@ == begun.reply);
        assert(events(sent@) == begun.sent);
        assert(thinking@ == begun.current->0->Thinking_0 + delta@);
    }
    let at: usize = output.content.len() - 1;
    output.set_content(
        at,
        Content::Thinking(
            ThinkingContent {
                thinking: thinking.clone(),
                thinking_signature: None,
                redacted: None,
            },
        ),
    );
    state.current_block = Some(CurrentBlock::Thinking(thinking));
    emit(
        sent,
        AssistantMessageEvent::ThinkingDelta {
            content_index: at,
            delta: delta.to_owned(),
            partial: output.clone(),
        },
    );
    proof {
        let after = progress(*output, sent@, *state);
        assert forall|i: int| 0 <= i < after.positions.len() implies is_call_at(
            after.reply,
            (#[trigger] after.positions[i]).1,
        ) by {
            assert(is_call_at(before.reply, before.positions[i].1));
        }
    }
}

fn stream_chunk(
    output: &mut AssistantMessage,
    sent: &mut Vec<AssistantMessageEvent>,
    state: &mut ChatState,
    chunk: &MistralContentChunk,
)
    requires
        progress_wf(progress(*old(output), old(sent)@, *old(state))),
    ensures
        progress(*final(output), final(sent)@, *final(state)) == chunk_streamed(
            progress(*old(output), old(sent)@, *old(state)),
            chunk@,
        ),
        progress_wf(progress(*final(output), final(sent)@, *final(state))),
{
    match chunk {
        MistralContentChunk::Text { text } => stream_text(output, sent, state, text.as_str()),
        MistralContentChunk::Thinking { thinking } => {
            let delta = join(thinking, "");
            if !delta.as_str().is_empty() {
                stream_thinking(output, sent, state, delta.as_str());
            }
        },
        MistralContentChunk::Image { .. } => {},
    }
}

fn stream_chunks(
    output: &mut AssistantMessage,
    sent: &mut Vec<AssistantMessageEvent>,
    state: &mut ChatState,
    list: &Vec<MistralContentChunk>,
)
    requires
        progress_wf(progress(*old(output), old(sent)@, *old(state))),
    ensures
        progress(*final(output), final(sent)@, *final(state)) == chunks_streamed(
            progress(*old(output), old(sent)@, *old(state)),
            chunks(list@),
        ),
        progress_wf(progress(*final(output), final(sent)@, *final(state))),
{
    let mut i: usize = 0;
    while i < list.len()
        invariant
            i <= list@.len(),
            progress_wf(progress(*output, sent@, *state)),
            progress(*output, sent@, *state) == chunks_streamed(
                progress(*old(output), old(sent)@, *old(state)),
                chunks(list@).take(i as int),
            ),
        decreases list.len() - i,
    {
        proof {
            assert(chunks(list@).take(i + 1).drop_last() =~= chunks(list@).take(i as int));
            assert(chunks(list@).take(i + 1).last() == list@[i as int]@);
        }
        stream_chunk(output, sent, state, &list[i]);
        i += 1;
    }
    proof {
        assert(chunks(list@).take(list@.len() as int) =~= chunks(list@));
    }
}

fn make_index_text(d: &MistralToolCallDelta) -> (r: String)
    ensures
        r@ == index_text(d@),
{
    let index = match d.index {
        Some(index) => index,
        None => Number::zero(),
    };
    index.text()
}

fn make_call_id(d: &MistralToolCallDelta) -> (r: String)
    ensures
        r@ == call_id(d@),
{
    if let Some(id) = &d.id {
        if !str_eq(id.as_str(), "null") {
            return id.clone();
        }
    }
    let seed = cat2("toolcall:", make_index_text(d).as_str());
    derive_mistral_tool_call_id(seed.as_str(), 0)
}

fn find_position(list: &Vec<(String, usize)>, key: &str) -> (r: Option<usize>)
    ensures
        match r {
            Some(at) => get(positions(list@), key@) == Some(at as int),
            None => get(positions(list@), key@) is None,
        },
{
    match find_key(list, key) {
        Some(i) => {
            proof {
                lemma_key_index_is(positions(list@), key@, i as int);
            }
            Some(list[i].1)
        },
        None => {
            proof {
                lemma_key_index_is(positions(list@), key@, list@.len() as int);
            }
            None
        },
    }
}

fn find_partial(list: &Vec<(String, String)>, key: &str) -> (r: String)
    ensures
        r@ == arguments_so_far(pairs(list@), key@),
{
    match find_key(list, key) {
        Some(i) => {
            proof {
                lemma_key_index_is(pairs(list@), key@, i as int);
            }
            list[i].1.clone()
        },
        None => {
            proof {
                lemma_key_index_is(pairs(list@), key@, list@.len() as int);
            }
            String::new()
        },
    }
}

fn leave_current(
    output: &AssistantMessage,
    sent: &mut Vec<AssistantMessageEvent>,
    state: &mut ChatState,
)
    requires
        progress_wf(progress(*output, old(sent)@, *old(state))),
    ensures
        progress(*output, final(sent)@, *final(state)) == current_left(
            progress(*output, old(sent)@, *old(state)),
        ),
        progress_wf(progress(*output, final(sent)@, *final(state))),
        final(state).current_block is None,
{
    finish_current_block(output, sent, state);
    state.current_block = None;
}

/// Finds or begins a call; gives its position.
fn begin_call(
    output: &mut AssistantMessage,
    sent: &mut Vec<AssistantMessageEvent>,
    state: &mut ChatState,
    d: &MistralToolCallDelta,
    id: String,
    key: &str,
) -> (r: usize)
    requires
        progress_wf(progress(*old(output), old(sent)@, *old(state))),
        old(state).current_block is None,
        id@ == call_id(d@),
        key@ == call_key(d@),
    ensures
        progress(*final(output), final(sent)@, *final(state)) == call_begun(
            progress(*old(output), old(sent)@, *old(state)),
            d@,
        ),
        progress_wf(progress(*final(output), final(sent)@, *final(state))),
        get(progress(*final(output), final(sent)@, *final(state)).positions, key@) == Some(
            r as int,
        ),
        is_call_at(final(output)@, r as int),
        final(state).current_block is None,
{
    let ghost before = progress(*output, sent@, *state);
    match find_position(&state.tool_blocks_by_key, key) {
        Some(at) => {
            proof {
                lemma_key_index(before.positions, key@);
                let i = crate::json::key_index(before.positions, key@);
                assert(is_call_at(before.reply, before.positions[i].1));
            }
            at
        },
        None => {
            output.push_content(
                Content::ToolCall(
                    ToolCall {
                        id,
                        name: d.name.clone(),
                        arguments: object(new_entries()),
                        thought_signature: None,
                        namespace: None,
                    },
                ),
            );
            let at: usize = output.content.len() - 1;
            state.tool_blocks_by_key.push((key.to_owned(), at));
            emit(
                sent,
                AssistantMessageEvent::ToolCallStart {
                    content_index: at,
                    partial: output.clone(),
                },
            );
            proof {
                let after = progress(*output, sent@, *state);
                assert(after.positions =~= before.positions.push((key@, at as int)));
                lemma_key_index(before.positions, key@);
                lemma_key_index_is(after.positions, key@, before.positions.len() as int);
                assert forall|i: int| 0 <= i < after.positions.len() implies is_call_at(
                    after.reply,
                    (#[trigger] after.positions[i]).1,
                ) by {
                    if i < before.positions.len() {
                        assert(is_call_at(before.reply, before.positions[i].1));
                    }
                }
            }
            at
        },
    }
}

fn stream_call<S: Fn(&str) -> Value>(
    output: &mut AssistantMessage,
    sent: &mut Vec<AssistantMessageEvent>,
    state: &mut ChatState,
    d: &MistralToolCallDelta,
    read: &S,
)
    requires
        is_reader(*read),
        progress_wf(progress(*old(output), old(sent)@, *old(state))),
    ensures
        progress(*final(output), final(sent)@, *final(state)) == call_streamed(
            progress(*old(output), old(sent)@, *old(state)),
            d@,
            reader_of(*read),
        ),
        progress_wf(progress(*final(output), final(sent)@, *final(state))),
{
    leave_current(output, sent, state);
    let id = make_call_id(d);
    let key = cat3(id.as_str(), ":", make_index_text(d).as_str());
    let at: usize = begin_call(output, sent, state, d, id, key.as_str());
    let ghost begun = progress(*output, sent@, *state);
    let so_far = find_partial(&state.partial_args_by_key, key.as_str());
    let text = cat2(so_far.as_str(), d.arguments.as_str());
    output.set_arguments(at, read_with(read, text.as_str()));
    crate::api::headers::set_pair(
        &mut state.partial_args_by_key,
        key.as_str(),
        text.as_str(),
    );
    emit(
        sent,
        AssistantMessageEvent::ToolCallDelta {
            content_index: at,
            delta: d.arguments.clone(),
            partial: output.clone(),
        },
    );
    proof {
        let after = progress(*output, sent@, *state);
        assert forall|i: int| 0 <= i < after.positions.len() implies is_call_at(
            after.reply,
            (#[trigger] after.positions[i]).1,
        ) by {
            assert(is_call_at(begun.reply, begun.positions[i].1));
        }
    }
}

fn stream_calls<S: Fn(&str) -> Value>(
    output: &mut AssistantMessage,
    sent: &mut Vec<AssistantMessageEvent>,
    state: &mut ChatState,
    list: &Vec<MistralToolCallDelta>,
    read: &S,
)
    requires
        is_reader(*read),
        progress_wf(progress(*old(output), old(sent)@, *old(state))),
    ensures
        progress(*final(output), final(sent)@, *final(state)) == calls_streamed(
            progress(*old(output), old(sent)@, *old(state)),
            call_deltas(list@),
            reader_of(*read),
        ),
        progress_wf(progress(*final(output), final(sent)@, *final(state))),
{
    let mut i: usize = 0;
    while i < list.len()
        invariant
            i <= list@.len(),
            is_reader(*read),
            progress_wf(progress(*output, sent@, *state)),
            progress(*output, sent@, *state) == calls_streamed(
                progress(*old(output), old(sent)@, *old(state)),
                call_deltas(list@).take(i as int),
                reader_of(*read),
            ),
        decreases list.len() - i,
    {
        proof {
            assert(call_deltas(list@).take(i + 1).drop_last() =~= call_deltas(list@).take(
                i as int,
            ));
            assert(call_deltas(list@).take(i + 1).last() == list@[i as int]@);
        }
        stream_call(output, sent, state, &list[i], read);
        i += 1;
    }
    proof {
        assert(call_deltas(list@).take(list@.len() as int) =~= call_deltas(list@));
    }
}

fn take_head<Q: Fn(Usage) -> UsageCost>(
    output: &mut AssistantMessage,
    event: &MistralCompletionEvent,
    price: &Q,
)
    requires
        is_pricer(*price),
    ensures
        final(output)@ == head_taken(old(output)@, event@, pricing_of(*price)),
        final(output).content == old(output).content,
{
    if output.response_id.is_none() && !opt_is(borrow_opt(&event.id), "") {
        output.response_id = clone_opt(&event.id);
    }
    if let Some(usage) = event.usage {
        let input = usage.prompt_tokens.minus(usage.cached_tokens).max(Number::zero());
        let zero = Number::zero();
        let counted = Usage {
            input,
            output: usage.completion_tokens,
            cache_read: usage.cached_tokens,
            cache_write: zero,
            cache_write_1h: output.usage.cache_write_1h,
            reasoning: output.usage.reasoning,
            total_tokens: if usage.total_tokens.eq(zero) {
                input.plus(usage.completion_tokens).plus(usage.cached_tokens).plus(zero)
            } else {
                usage.total_tokens
            },
            cost: output.usage.cost,
        };
        output.usage = price_with(counted, price);
    }
}

fn take_end(output: &mut AssistantMessage, finish_reason: &Option<String>)
    ensures
        final(output)@ == end_taken(old(output)@, opt_text(*finish_reason)),
        final(output).content == old(output).content,
{
    if let Some(reason) = finish_reason {
        let (stop_reason, error_message) = map_chat_stop_reason(reason.as_str());
        output.raw_stop_reason = Some(reason.clone());
        output.stop_reason = stop_reason;
        if error_message.is_some() {
            output.error_message = error_message;
        }
    }
}

#[verifier::rlimit(30)]
fn take_completion<S: Fn(&str) -> Value, Q: Fn(Usage) -> UsageCost>(
    output: &mut AssistantMessage,
    sent: &mut Vec<AssistantMessageEvent>,
    state: &mut ChatState,
    event: &MistralCompletionEvent,
    read: &S,
    price: &Q,
)
    requires
        is_reader(*read),
        is_pricer(*price),
        progress_wf(progress(*old(output), old(sent)@, *old(state))),
    ensures
        progress(*final(output), final(sent)@, *final(state)) == completion_taken(
            progress(*old(output), old(sent)@, *old(state)),
            event@,
            reader_of(*read),
            pricing_of(*price),
        ),
        progress_wf(progress(*final(output), final(sent)@, *final(state))),
{
    let ghost before = progress(*output, sent@, *state);
    proof {
        reveal(completion_taken);
        assert(choices(event.choices@).len() == event.choices@.len());
    }
    take_head(output, event, price);
    proof {
        lemma_same_content(before, progress(*output, sent@, *state));
    }
    if event.choices.len() == 0 {
        return ;
    }
    let choice = &event.choices[0];
    proof {
        assert(event@.choices[0] == choice@);
    }
    let ghost headed = progress(*output, sent@, *state);
    take_end(output, &choice.finish_reason);
    proof {
        lemma_same_content(headed, progress(*output, sent@, *state));
    }
    match &choice.delta.content {
        Some(MistralContentItems::Text(text)) => stream_text(output, sent, state, text.as_str()),
        Some(MistralContentItems::Chunks(list)) => stream_chunks(output, sent, state, list),
        None => {},
    }
    stream_calls(output, sent, state, &choice.delta.tool_calls, read);
}

proof fn lemma_same_content(p: Progress, q: Progress)
    requires
        progress_wf(p),
        q.reply.content == p.reply.content,
        q.current == p.current,
        q.positions == p.positions,
    ensures
        progress_wf(q),
{
    assert forall|i: int| 0 <= i < q.positions.len() implies is_call_at(
        q.reply,
        (#[trigger] q.positions[i]).1,
    ) by {
        assert(is_call_at(p.reply, p.positions[i].1));
    }
}

fn end_calls(
    output: &AssistantMessage,
    sent: &mut Vec<AssistantMessageEvent>,
    list: &Vec<(String, usize)>,
)
    requires
        forall|i: int|
            0 <= i < list@.len() ==> is_call_at(output@, (#[trigger] positions(list@)[i]).1),
    ensures
        events(final(sent)@) == calls_ended(output@, events(old(sent)@), positions(list@)),
{
    let mut i: usize = 0;
    while i < list.len()
        invariant
            i <= list@.len(),
            forall|i: int|
                0 <= i < list@.len() ==> is_call_at(output@, (#[trigger] positions(list@)[i]).1),
            events(sent@) == calls_ended(
                output@,
                events(old(sent)@),
                positions(list@).take(i as int),
            ),
        decreases list.len() - i,
    {
        let at: usize = list[i].1;
        proof {
            assert(positions(list@).take(i + 1).drop_last() =~= positions(list@).take(i as int));
            assert(positions(list@).take(i + 1).last().1 == at);
            assert(is_call_at(output@, positions(list@)[i as int].1));
        }
        if let Content::ToolCall(call) = &output.content[at] {
            emit(
                sent,
                AssistantMessageEvent::ToolCallEnd {
                    content_index: at,
                    tool_call: call.clone(),
                    partial: output.clone(),
                },
            );
        }
        i += 1;
    }
    proof {
        assert(positions(list@).take(list@.len() as int) =~= positions(list@));
    }
}

/// Takes the completions of a stream. The message in `output` is brought up to
/// date, and what is to be sent is added to `sent`.
pub fn consume_chat_stream<S: Fn(&str) -> Value, Q: Fn(Usage) -> UsageCost>(
    output: &mut AssistantMessage,
    sent: &mut Vec<AssistantMessageEvent>,
    list: &Vec<MistralCompletionEvent>,
    read: &S,
    price: &Q,
)
    requires
        is_reader(*read),
        is_pricer(*price),
    ensures
        (final(output)@, events(final(sent)@)) == consumed(
            old(output)@,
            events(old(sent)@),
            completions(list@),
            reader_of(*read),
            pricing_of(*price),
        ),
{
    let mut state = ChatState {
        current_block: None,
        tool_blocks_by_key: Vec::new(),
        partial_args_by_key: Vec::new(),
    };
    let ghost start = progress(*output, sent@, state);
    proof {
        assert(start.positions =~= Seq::<(Seq<char>, int)>::empty());
        assert(start.partial =~= Pairs::empty());
        assert(start == at_start(output@, events(sent@)));
    }
    let mut i: usize = 0;
    while i < list.len()
        invariant
            i <= list@.len(),
            is_reader(*read),
            is_pricer(*price),
            progress_wf(progress(*output, sent@, state)),
            progress(*output, sent@, state) == completions_taken(
                start,
                completions(list@).take(i as int),
                reader_of(*read),
                pricing_of(*price),
            ),
        decreases list.len() - i,
    {
        proof {
            assert(completions(list@).take(i + 1).drop_last() =~= completions(list@).take(
                i as int,
            ));
            assert(completions(list@).take(i + 1).last() == list@[i as int]@);
        }
        take_completion(output, sent, &mut state, &list[i], read, price);
        i += 1;
    }
    proof {
        assert(completions(list@).take(list@.len() as int) =~= completions(list@));
    }
    finish_current_block(output, sent, &state);
    let ghost p = progress(*output, sent@, state);
    proof {
        assert(p.positions == positions(state.tool_blocks_by_key@));
        assert forall|i: int| 0 <= i < state.tool_blocks_by_key@.len() implies is_call_at(
            output@,
            (#[trigger] positions(state.tool_blocks_by_key@)[i]).1,
        ) by {
            assert(is_call_at(p.reply, p.positions[i].1));
        }
    }
    end_calls(output, sent, &state.tool_blocks_by_key);
}

/// The block that is streamed is always the last of the reply and holds exactly
/// what was streamed of it, and every tool call that began is in the reply.
pub proof fn law_completion_keeps_progress(
    p: Progress,
    c: Completion,
    read: spec_fn(Seq<char>) -> Json,
    price: Pricing,
)
    requires
        progress_wf(p),
    ensures
        progress_wf(completion_taken(p, c, read, price)),
{
    reveal(completion_taken);
    let headed = Progress { reply: head_taken(p.reply, c, price), ..p };
    lemma_same_content(p, headed);
    if c.choices.len() > 0 {
        let choice = c.choices[0];
        let ended = Progress { reply: end_taken(headed.reply, choice.finish_reason), ..headed };
        lemma_same_content(headed, ended);
        match choice.content {
            Some(Said::Text(text)) => {
                lemma_text_keeps_progress(ended, text);
            },
            Some(Said::Chunks(list)) => {
                lemma_chunks_keep_progress(ended, list);
            },
            None => {},
        }
        lemma_calls_keep_progress(said(ended, choice.content), choice.tool_calls, read);
    }
}

proof fn lemma_text_keeps_progress(p: Progress, delta: Seq<char>)
    requires
        progress_wf(p),
    ensures
        progress_wf(text_streamed(p, delta)),
{
    let after = text_streamed(p, delta);
    assert forall|i: int| 0 <= i < after.positions.len() implies is_call_at(
        after.reply,
        (#[trigger] after.positions[i]).1,
    ) by {
        assert(is_call_at(p.reply, p.positions[i].1));
    }
}

proof fn lemma_thinking_keeps_progress(p: Progress, delta: Seq<char>)
    requires
        progress_wf(p),
    ensures
        progress_wf(thinking_streamed(p, delta)),
{
    let after = thinking_streamed(p, delta);
    assert forall|i: int| 0 <= i < after.positions.len() implies is_call_at(
        after.reply,
        (#[trigger] after.positions[i]).1,
    ) by {
        assert(is_call_at(p.reply, p.positions[i].1));
    }
}

proof fn lemma_chunks_keep_progress(p: Progress, list: Seq<Chunk>)
    requires
        progress_wf(p),
    ensures
        progress_wf(chunks_streamed(p, list)),
    decreases list.len(),
{
    if list.len() > 0 {
        lemma_chunks_keep_progress(p, list.drop_last());
        let before = chunks_streamed(p, list.drop_last());
        match list.last() {
            Chunk::Text(text) => {
                lemma_text_keeps_progress(before, text);
            },
            Chunk::Thinking(parts) => {
                lemma_thinking_keeps_progress(before, joined(parts, ""@));
            },
            Chunk::Image(_) => {},
        }
    }
}

proof fn lemma_calls_keep_progress(
    p: Progress,
    list: Seq<CallDelta>,
    read: spec_fn(Seq<char>) -> Json,
)
    requires
        progress_wf(p),
    ensures
        progress_wf(calls_streamed(p, list, read)),
    decreases list.len(),
{
    if list.len() > 0 {
        lemma_calls_keep_progress(p, list.drop_last(), read);
        let before = calls_streamed(p, list.drop_last(), read);
        let d = list.last();
        let left = current_left(before);
        let begun = call_begun(left, d);
        let key = call_key(d);
        lemma_key_index(left.positions, key);
        assert forall|i: int| 0 <= i < begun.positions.len() implies is_call_at(
            begun.reply,
            (#[trigger] begun.positions[i]).1,
        ) by {
            if i < left.positions.len() {
                assert(is_call_at(before.reply, before.positions[i].1));
            }
        }
        if get(left.positions, key) is None {
            lemma_key_index_is(begun.positions, key, left.positions.len() as int);
        }
        lemma_key_index(begun.positions, key);
        let i = crate::json::key_index(begun.positions, key);
        assert(is_call_at(begun.reply, begun.positions[i].1));
        let after = call_streamed(before, d, read);
        assert forall|i: int| 0 <= i < after.positions.len() implies is_call_at(
            after.reply,
            (#[trigger] after.positions[i]).1,
        ) by {
            assert(is_call_at(begun.reply, begun.positions[i].1));
        }
    }
}

/// Parts put together.
pub open spec fn all_of(parts: Seq<Seq<char>>) -> Seq<char>
    decreases parts.len(),
{
    if parts.len() == 0 {
        Seq::empty()
    } else {
        all_of(parts.drop_last()) + parts.last()
    }
}

pub open spec fn text_chunks(parts: Seq<Seq<char>>) -> Seq<Chunk> {
    Seq::new(parts.len(), |i: int| Chunk::Text(parts[i]))
}

/// The parts of a text add up: where no text is streamed yet, they make one new
/// block that holds all of them in order.
pub proof fn law_parts_add_up(p: Progress, parts: Seq<Seq<char>>)
    requires
        progress_wf(p),
        !(p.current matches Some(Current::Text(_))),
        parts.len() > 0,
    ensures
        ({
            let end = chunks_streamed(p, text_chunks(parts));
            &&& end.reply.content == p.reply.content.push(
                Block::Text(TextBlock { text: all_of(parts), text_signature: None }),
            )
            &&& end.current == Some(Current::Text(all_of(parts)))
        }),
    decreases parts.len(),
{
    let rest = parts.drop_last();
    assert(text_chunks(parts).drop_last() =~= text_chunks(rest));
    assert(text_chunks(parts).last() == Chunk::Text(parts.last()));
    let before = chunks_streamed(p, text_chunks(rest));
    let end = chunks_streamed(p, text_chunks(parts));
    assert(end == text_streamed(before, parts.last()));
    if rest.len() == 0 {
        assert(text_chunks(rest) =~= Seq::<Chunk>::empty());
        assert(before == p);
        assert(all_of(rest) =~= Seq::<char>::empty());
    } else {
        law_parts_add_up(p, rest);
    }
    assert(end.reply.content =~= p.reply.content.push(
        Block::Text(TextBlock { text: all_of(parts), text_signature: None }),
    ));
}

/// Whether a reply ended well once its stream is over.
pub fn check_reply(output: &AssistantMessage) -> (r: Result<(), String>)
    ensures
        outcome(r) == stop_error(output@, "Mistral stream ended without a finish reason"@),
{
    check_stopped(output, "Mistral stream ended without a finish reason")
}

} // verus!
