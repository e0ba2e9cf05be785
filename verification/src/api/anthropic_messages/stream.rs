//! How the events of a stream build a reply.
use vstd::prelude::*;
use vstd::string::*;
use super::compat::{cased_as, from_claude_code_name, own_names};
use super::events::{
    stream_events, AnthropicContentBlockDelta, AnthropicContentBlockStart, AnthropicStreamEvent,
    AnthropicUsage, BlockDelta, BlockStart, StreamEvent,
};
use crate::api::finish::{check_stopped, outcome, stop_error};
use crate::json::{
    find_index, get, is_reader, key_index, lemma_key_index, lemma_key_index_is, read_with,
    reader_of, with_entry, without_entry, Json, Value,
};
use crate::number::{sum, whole, Number};
use crate::text::{cat2, opt_str, opt_text, str_eq, borrow_opt};
use crate::types::{
    arguments_set, emit, events, is_pricer, price_with, priced, pricing_of, text_appended,
    thinking_appended, with_block, with_block_at, AssistantMessage, AssistantMessageEvent, Block,
    Content, Event, Pricing, Reply, StopReason, TextBlock, TextContent, ThinkingBlock,
    ThinkingContent, Tool, ToolCall, ToolCallBlock, Usage, UsageCost,
};

verus! {

// ---------------------------------------------------------------------------
// Stop reasons
// ---------------------------------------------------------------------------

/// Whether a stop reason is one that is known.
pub open spec fn is_stop_reason(reason: Seq<char>) -> bool {
    reason == "end_turn"@ || reason == "max_tokens"@ || reason == "tool_use"@ || reason
        == "refusal"@ || reason == "pause_turn"@ || reason == "stop_sequence"@ || reason
        == "sensitive"@
}

/// The stop reason that a known one stands for, and the error that goes with it.
pub open spec fn stop_reason_of(reason: Seq<char>, details: Option<Seq<char>>) -> (
    StopReason,
    Option<Seq<char>>,
) {
    if reason == "max_tokens"@ {
        (StopReason::Length, None)
    } else if reason == "tool_use"@ {
        (StopReason::ToolUse, None)
    } else if reason == "refusal"@ {
        (
            StopReason::Error,
            Some(
                match details {
                    Some(details) => details,
                    None => "The model refused to complete the request"@,
                },
            ),
        )
    } else if reason == "sensitive"@ {
        (StopReason::Error, Some("Provider stopped with: sensitive"@))
    } else {
        (StopReason::Stop, None)
    }
}

/// Whether a stop reason is one that is known.
pub fn knows_stop_reason(reason: &str) -> (r: bool)
    ensures
        r == is_stop_reason(reason@),
{
    str_eq(reason, "end_turn") || str_eq(reason, "max_tokens") || str_eq(reason, "tool_use")
        || str_eq(reason, "refusal") || str_eq(reason, "pause_turn") || str_eq(
        reason,
        "stop_sequence",
    ) || str_eq(reason, "sensitive")
}

pub fn map_stop_reason(reason: &str, stop_details: Option<&str>) -> (r: (
    StopReason,
    Option<String>,
))
    requires
        is_stop_reason(reason@),
    ensures
        (r.0, opt_text(r.1)) == stop_reason_of(reason@, opt_str(stop_details)),
{
    if str_eq(reason, "max_tokens") {
        (StopReason::Length, None)
    } else if str_eq(reason, "tool_use") {
        (StopReason::ToolUse, None)
    } else if str_eq(reason, "refusal") {
        (
            StopReason::Error,
            Some(
                match stop_details {
                    Some(details) => details.to_owned(),
                    None => "The model refused to complete the request".to_owned(),
                },
            ),
        )
    } else if str_eq(reason, "sensitive") {
        (StopReason::Error, Some("Provider stopped with: sensitive".to_owned()))
    } else {
        (StopReason::Stop, None)
    }
}

// ---------------------------------------------------------------------------
// Usage
// ---------------------------------------------------------------------------

pub open spec fn totalled(u: Usage) -> Usage {
    Usage { total_tokens: sum(sum(sum(u.input, u.output), u.cache_read), u.cache_write), ..u }
}

/// The usage with what the start of a message reports.
pub open spec fn usage_begun(u: Usage, reported: AnthropicUsage) -> Usage {
    totalled(
        Usage {
            input: reported.input_tokens,
            output: reported.output_tokens,
            cache_read: reported.cache_read_input_tokens,
            cache_write: reported.cache_creation_input_tokens,
            cache_write_1h: Some(reported.ephemeral_1h_input_tokens),
            reasoning: if reported.thinking_tokens is Some {
                reported.thinking_tokens
            } else {
                u.reasoning
            },
            ..u
        },
    )
}

pub open spec fn or_kept(reported: Number, kept: Number) -> Number {
    if reported == whole(0) {
        kept
    } else {
        reported
    }
}

/// The usage with what a later event reports; what it leaves at zero is kept.
pub open spec fn usage_updated(u: Usage, reported: AnthropicUsage) -> Usage {
    totalled(
        Usage {
            input: or_kept(reported.input_tokens, u.input),
            output: or_kept(reported.output_tokens, u.output),
            cache_read: or_kept(reported.cache_read_input_tokens, u.cache_read),
            cache_write: or_kept(reported.cache_creation_input_tokens, u.cache_write),
            reasoning: if reported.thinking_tokens is Some {
                reported.thinking_tokens
            } else {
                u.reasoning
            },
            ..u
        },
    )
}

fn add_up(u: Usage) -> (r: Usage)
    ensures
        r == totalled(u),
{
    let mut r = u;
    r.total_tokens = u.input.plus(u.output).plus(u.cache_read).plus(u.cache_write);
    r
}

fn thinking_or(reported: Option<Number>, kept: Option<Number>) -> (r: Option<Number>)
    ensures
        r == if reported is Some {
            reported
        } else {
            kept
        },
{
    if reported.is_some() {
        reported
    } else {
        kept
    }
}

fn apply_usage(u: Usage, reported: &AnthropicUsage) -> (r: Usage)
    ensures
        r == usage_begun(u, *reported),
{
    let mut r = u;
    r.input = reported.input_tokens;
    r.output = reported.output_tokens;
    r.cache_read = reported.cache_read_input_tokens;
    r.cache_write = reported.cache_creation_input_tokens;
    r.cache_write_1h = Some(reported.ephemeral_1h_input_tokens);
    r.reasoning = thinking_or(reported.thinking_tokens, u.reasoning);
    add_up(r)
}

fn keep_or(reported: Number, kept: Number) -> (r: Number)
    ensures
        r == or_kept(reported, kept),
{
    if reported.eq(Number::zero()) {
        kept
    } else {
        reported
    }
}

fn update_usage_from_delta(u: Usage, reported: &AnthropicUsage) -> (r: Usage)
    ensures
        r == usage_updated(u, *reported),
{
    let mut r = u;
    r.input = keep_or(reported.input_tokens, u.input);
    r.output = keep_or(reported.output_tokens, u.output);
    r.cache_read = keep_or(reported.cache_read_input_tokens, u.cache_read);
    r.cache_write = keep_or(reported.cache_creation_input_tokens, u.cache_write);
    r.reasoning = thinking_or(reported.thinking_tokens, u.reasoning);
    add_up(r)
}

// ---------------------------------------------------------------------------
// State
// ---------------------------------------------------------------------------

struct MessageState {
    saw_message_start: bool,
    saw_message_end: bool,
    block_indices: Vec<(Number, usize)>,
    partial_json: Vec<(u64, String)>,
}

/// How far a stream has come: the reply, what was sent, whether the message has
/// begun and ended, the position in the reply of each block of the stream, and
/// the text of the arguments at each position.
pub struct Progress {
    pub reply: Reply,
    pub sent: Seq<Event>,
    pub started: bool,
    pub ended: bool,
    pub positions: Seq<(Number, int)>,
    pub partial: Seq<(u64, Seq<char>)>,
}

spec fn positions(s: Seq<(Number, usize)>) -> Seq<(Number, int)> {
    Seq::new(s.len(), |i: int| (s[i].0, s[i].1 as int))
}

spec fn partials(s: Seq<(u64, String)>) -> Seq<(u64, Seq<char>)> {
    Seq::new(s.len(), |i: int| (s[i].0, s[i].1@))
}

spec fn progress(
    output: AssistantMessage,
    sent: Seq<AssistantMessageEvent>,
    state: MessageState,
) -> Progress {
    Progress {
        reply: output@,
        sent: events(sent),
        started: state.saw_message_start,
        ended: state.saw_message_end,
        positions: positions(state.block_indices@),
        partial: partials(state.partial_json@),
    }
}

/// Every block of the stream stands in the reply.
pub open spec fn progress_wf(p: Progress) -> bool {
    forall|i: int|
        0 <= i < p.positions.len() ==> 0 <= (#[trigger] p.positions[i]).1 < p.reply.content.len()
}

pub open spec fn last_index(m: Reply) -> int {
    m.content.len() - 1
}

// ---------------------------------------------------------------------------
// Steps
// ---------------------------------------------------------------------------

/// The block that begins. The name of a tool gets the case that the tools of the
/// request give it, where it was sent with another.
pub open spec fn block_of(start: BlockStart, oauth: bool, names: Seq<Seq<char>>) -> Block {
    match start {
        BlockStart::Text(text) => Block::Text(TextBlock { text, text_signature: None }),
        BlockStart::Thinking { thinking, signature } => Block::Thinking(
            ThinkingBlock { thinking, thinking_signature: Some(signature), redacted: None },
        ),
        BlockStart::RedactedThinking(data) => Block::Thinking(
            ThinkingBlock {
                thinking: "[Reasoning redacted]"@,
                thinking_signature: Some(data),
                redacted: Some(true),
            },
        ),
        BlockStart::ToolUse { id, name, input } => Block::ToolCall(
            ToolCallBlock {
                id,
                name: if oauth {
                    cased_as(names, name)
                } else {
                    name
                },
                arguments: input,
                thought_signature: None,
                namespace: None,
            },
        ),
    }
}

pub open spec fn start_event(start: BlockStart, m: Reply) -> Event {
    match start {
        BlockStart::Text(_) => Event::TextStart { content_index: last_index(m), partial: m },
        BlockStart::ToolUse { .. } => Event::ToolCallStart {
            content_index: last_index(m),
            partial: m,
        },
        _ => Event::ThinkingStart { content_index: last_index(m), partial: m },
    }
}

pub open spec fn block_started(
    p: Progress,
    index: Number,
    start: BlockStart,
    oauth: bool,
    names: Seq<Seq<char>>,
) -> Progress {
    let reply = with_block(p.reply, block_of(start, oauth, names));
    Progress {
        reply,
        sent: p.sent.push(start_event(start, reply)),
        positions: p.positions.push((index, last_index(reply))),
        ..p
    }
}

pub open spec fn arguments_so_far(partial: Seq<(u64, Seq<char>)>, at: int) -> Seq<char> {
    match get(partial, at as u64) {
        Some(text) => text,
        None => Seq::empty(),
    }
}

pub open spec fn signature_appended(m: Reply, at: int, signature: Seq<char>) -> Reply {
    match m.content[at] {
        Block::Thinking(block) => with_block_at(
            m,
            at,
            Block::Thinking(
                ThinkingBlock {
                    thinking_signature: Some(
                        match block.thinking_signature {
                            Some(current) => current + signature,
                            None => signature,
                        },
                    ),
                    ..block
                },
            ),
        ),
        _ => m,
    }
}

/// Streams a part of the block at a position. A part that does not fit the block
/// is left out.
pub open spec fn delta_streamed(
    p: Progress,
    at: int,
    delta: BlockDelta,
    read: spec_fn(Seq<char>) -> Json,
) -> Progress {
    match delta {
        BlockDelta::Text(text) => if p.reply.content[at] is Text {
            let reply = text_appended(p.reply, at, text);
            Progress {
                reply,
                sent: p.sent.push(
                    Event::TextDelta { content_index: at, delta: text, partial: reply },
                ),
                ..p
            }
        } else {
            p
        },
        BlockDelta::Thinking(text) => if p.reply.content[at] is Thinking {
            let reply = thinking_appended(p.reply, at, text);
            Progress {
                reply,
                sent: p.sent.push(
                    Event::ThinkingDelta { content_index: at, delta: text, partial: reply },
                ),
                ..p
            }
        } else {
            p
        },
        BlockDelta::InputJson(text) => if p.reply.content[at] is ToolCall {
            let all = arguments_so_far(p.partial, at) + text;
            let reply = arguments_set(p.reply, at, read(all));
            Progress {
                reply,
                sent: p.sent.push(
                    Event::ToolCallDelta { content_index: at, delta: text, partial: reply },
                ),
                partial: with_entry(p.partial, at as u64, all),
                ..p
            }
        } else {
            p
        },
        BlockDelta::Signature(signature) => Progress {
            reply: signature_appended(p.reply, at, signature),
            ..p
        },
    }
}

/// Ends the block at a position.
pub open spec fn block_stopped(p: Progress, at: int, read: spec_fn(Seq<char>) -> Json) -> Progress {
    match p.reply.content[at] {
        Block::Text(block) => Progress {
            sent: p.sent.push(
                Event::TextEnd { content_index: at, content: block.text, partial: p.reply },
            ),
            ..p
        },
        Block::Thinking(block) => Progress {
            sent: p.sent.push(
                Event::ThinkingEnd { content_index: at, content: block.thinking, partial: p.reply },
            ),
            ..p
        },
        Block::ToolCall(call) => {
            let arguments = read(arguments_so_far(p.partial, at));
            let reply = arguments_set(p.reply, at, arguments);
            Progress {
                reply,
                sent: p.sent.push(
                    Event::ToolCallEnd {
                        content_index: at,
                        tool_call: ToolCallBlock { arguments, ..call },
                        partial: reply,
                    },
                ),
                partial: without_entry(p.partial, at as u64),
                ..p
            }
        },
        Block::Image { .. } => p,
    }
}

pub open spec fn end_taken(
    m: Reply,
    stop_reason: Option<Seq<char>>,
    details: Option<Seq<char>>,
    usage: Option<AnthropicUsage>,
    price: Pricing,
) -> Reply {
    let stopped = match stop_reason {
        Some(reason) => {
            let (mapped, error) = stop_reason_of(reason, details);
            Reply {
                raw_stop_reason: Some(reason),
                stop_reason: mapped,
                error_message: if error is Some {
                    error
                } else {
                    m.error_message
                },
                ..m
            }
        },
        None => m,
    };
    match usage {
        Some(usage) => Reply {
            usage: priced(usage_updated(stopped.usage, usage), price),
            ..stopped
        },
        None => stopped,
    }
}

/// What one event does.
#[verifier::opaque]
pub open spec fn event_taken(
    p: Progress,
    event: StreamEvent,
    oauth: bool,
    names: Seq<Seq<char>>,
    read: spec_fn(Seq<char>) -> Json,
    price: Pricing,
) -> Progress {
    match event {
        StreamEvent::MessageStart { id, usage } => Progress {
            started: true,
            reply: Reply {
                response_id: Some(id),
                usage: match usage {
                    Some(usage) => priced(usage_begun(p.reply.usage, usage), price),
                    None => p.reply.usage,
                },
                ..p.reply
            },
            ..p
        },
        StreamEvent::BlockStart { index, block } => block_started(p, index, block, oauth, names),
        StreamEvent::BlockDelta { index, delta } => match get(p.positions, index) {
            Some(at) => delta_streamed(p, at, delta, read),
            None => p,
        },
        StreamEvent::BlockStop { index } => match get(p.positions, index) {
            Some(at) => block_stopped(p, at, read),
            None => p,
        },
        StreamEvent::MessageDelta { stop_reason, stop_details, usage } => Progress {
            reply: end_taken(p.reply, stop_reason, stop_details, usage, price),
            ..p
        },
        StreamEvent::MessageStop => Progress { ended: true, ..p },
    }
}

pub open spec fn events_taken(
    p: Progress,
    list: Seq<StreamEvent>,
    oauth: bool,
    names: Seq<Seq<char>>,
    read: spec_fn(Seq<char>) -> Json,
    price: Pricing,
) -> Progress
    decreases list.len(),
{
    if list.len() == 0 {
        p
    } else {
        event_taken(
            events_taken(p, list.drop_last(), oauth, names, read, price),
            list.last(),
            oauth,
            names,
            read,
            price,
        )
    }
}

/// A stream that has just begun.
pub open spec fn at_start(reply: Reply, sent: Seq<Event>) -> Progress {
    Progress {
        reply,
        sent,
        started: false,
        ended: false,
        positions: Seq::empty(),
        partial: Seq::empty(),
    }
}

/// The error of a message that has begun and not ended.
pub open spec fn cut_short(p: Progress) -> Option<Seq<char>> {
    if p.started && !p.ended {
        Some("Anthropic stream ended before message_stop"@)
    } else {
        None
    }
}

/// Whether an event stops for a known reason, if it stops.
pub open spec fn stops_knowingly(event: StreamEvent) -> bool {
    event matches StreamEvent::MessageDelta { stop_reason: Some(reason), .. } ==> is_stop_reason(
        reason,
    )
}

pub open spec fn all_stop_knowingly(list: Seq<StreamEvent>) -> bool {
    forall|i: int| 0 <= i < list.len() ==> stops_knowingly(#[trigger] list[i])
}

// ---------------------------------------------------------------------------
// Their execution
// ---------------------------------------------------------------------------

fn find_position(list: &Vec<(Number, usize)>, index: Number) -> (r: Option<usize>)
    ensures
        match r {
            Some(at) => get(positions(list@), index) == Some(at as int),
            None => get(positions(list@), index) is None,
        },
{
    let mut i: usize = 0;
    while i < list.len()
        invariant
            i <= list@.len(),
            forall|j: int| 0 <= j < i ==> (#[trigger] positions(list@)[j]).0 != index,
        decreases list.len() - i,
    {
        if list[i].0.eq(index) {
            proof {
                lemma_key_index_is(positions(list@), index, i as int);
            }
            return Some(list[i].1);
        }
        i += 1;
    }
    proof {
        lemma_key_index_is(positions(list@), index, list@.len() as int);
    }
    None
}

fn find_partial(list: &Vec<(u64, String)>, at: usize) -> (r: String)
    ensures
        r@ == arguments_so_far(partials(list@), at as int),
{
    match find_index(list, at as u64) {
        Some(i) => {
            proof {
                lemma_key_index_is(partials(list@), at as u64, i as int);
            }
            list[i].1.clone()
        },
        None => {
            proof {
                lemma_key_index_is(partials(list@), at as u64, list@.len() as int);
            }
            String::new()
        },
    }
}

fn set_partial(list: &mut Vec<(u64, String)>, at: usize, text: String)
    ensures
        partials(final(list)@) == with_entry(partials(old(list)@), at as u64, text@),
{
    match find_index(list, at as u64) {
        Some(i) => {
            proof {
                lemma_key_index_is(partials(list@), at as u64, i as int);
            }
            list.set(i, (at as u64, text));
            proof {
                assert(partials(list@) =~= partials(old(list)@).update(
                    i as int,
                    (at as u64, text@),
                ));
            }
        },
        None => {
            proof {
                lemma_key_index_is(partials(list@), at as u64, list@.len() as int);
            }
            list.push((at as u64, text));
            proof {
                assert(partials(list@) =~= partials(old(list)@).push((at as u64, text@)));
            }
        },
    }
}

fn drop_partial(list: &mut Vec<(u64, String)>, at: usize)
    ensures
        partials(final(list)@) == without_entry(partials(old(list)@), at as u64),
{
    match find_index(list, at as u64) {
        Some(i) => {
            proof {
                lemma_key_index_is(partials(list@), at as u64, i as int);
            }
            list.remove(i);
            proof {
                assert(partials(list@) =~= partials(old(list)@).remove(i as int));
            }
        },
        None => {
            proof {
                lemma_key_index_is(partials(list@), at as u64, list@.len() as int);
            }
        },
    }
}

fn start_block(
    output: &mut AssistantMessage,
    sent: &mut Vec<AssistantMessageEvent>,
    state: &mut MessageState,
    index: Number,
    start: &AnthropicContentBlockStart,
    is_oauth_token: bool,
    context_tools: Option<&Vec<Tool>>,
)
    requires
        progress_wf(progress(*old(output), old(sent)@, *old(state))),
    ensures
        progress(*final(output), final(sent)@, *final(state)) == block_started(
            progress(*old(output), old(sent)@, *old(state)),
            index,
            start@,
            is_oauth_token,
            own_names(context_tools),
        ),
        progress_wf(progress(*final(output), final(sent)@, *final(state))),
{
    let ghost before = progress(*output, sent@, *state);
    let content = match start {
        AnthropicContentBlockStart::Text { text } => Content::Text(
            TextContent { text: text.clone(), text_signature: None },
        ),
        AnthropicContentBlockStart::Thinking { thinking, signature } => Content::Thinking(
            ThinkingContent {
                thinking: thinking.clone(),
                thinking_signature: Some(signature.clone()),
                redacted: None,
            },
        ),
        AnthropicContentBlockStart::RedactedThinking { data } => Content::Thinking(
            ThinkingContent {
                thinking: "[Reasoning redacted]".to_owned(),
                thinking_signature: Some(data.clone()),
                redacted: Some(true),
            },
        ),
        AnthropicContentBlockStart::ToolUse { id, name, input } => Content::ToolCall(
            ToolCall {
                id: id.clone(),
                name: if is_oauth_token {
                    from_claude_code_name(name.as_str(), context_tools)
                } else {
                    name.clone()
                },
                arguments: input.clone(),
                thought_signature: None,
                namespace: None,
            },
        ),
    };
    output.push_content(content);
    let content_index: usize = output.content.len() - 1;
    let partial = output.clone();
    emit(
        sent,
        match start {
            AnthropicContentBlockStart::Text { .. } => AssistantMessageEvent::TextStart {
                content_index,
                partial,
            },
            AnthropicContentBlockStart::ToolUse { .. } => AssistantMessageEvent::ToolCallStart {
                content_index,
                partial,
            },
            _ => AssistantMessageEvent::ThinkingStart { content_index, partial },
        },
    );
    state.block_indices.push((index, content_index));
    proof {
        let after = progress(*output, sent@, *state);
        assert(after.positions =~= before.positions.push((index, content_index as int)));
        assert forall|i: int| 0 <= i < after.positions.len() implies 0 <= (
        #[trigger] after.positions[i]).1 < after.reply.content.len() by {
            if i < before.positions.len() {
                assert(before.positions[i].1 < before.reply.content.len());
            }
        }
    }
}

fn append_signature(output: &mut AssistantMessage, at: usize, signature: &str)
    requires
        at < old(output).content@.len(),
    ensures
        final(output)@ == signature_appended(old(output)@, at as int, signature@),
        final(output).content@.len() == old(output).content@.len(),
{
    let changed = match &output.content[at] {
        Content::Thinking(block) => Content::Thinking(
            ThinkingContent {
                thinking: block.thinking.clone(),
                thinking_signature: Some(
                    match &block.thinking_signature {
                        Some(current) => cat2(current.as_str(), signature),
                        None => signature.to_owned(),
                    },
                ),
                redacted: block.redacted,
            },
        ),
        _ => {
            return ;
        },
    };
    output.set_content(at, changed);
}

fn stream_delta<S: Fn(&str) -> Value>(
    output: &mut AssistantMessage,
    sent: &mut Vec<AssistantMessageEvent>,
    state: &mut MessageState,
    at: usize,
    delta: &AnthropicContentBlockDelta,
    read: &S,
)
    requires
        is_reader(*read),
        progress_wf(progress(*old(output), old(sent)@, *old(state))),
        at < old(output).content@.len(),
    ensures
        progress(*final(output), final(sent)@, *final(state)) == delta_streamed(
            progress(*old(output), old(sent)@, *old(state)),
            at as int,
            delta@,
            reader_of(*read),
        ),
        progress_wf(progress(*final(output), final(sent)@, *final(state))),
{
    let ghost before = progress(*output, sent@, *state);
    match delta {
        AnthropicContentBlockDelta::TextDelta { text } => {
            if output.append_text(at, text.as_str()) {
                emit(
                    sent,
                    AssistantMessageEvent::TextDelta {
                        content_index: at,
                        delta: text.clone(),
                        partial: output.clone(),
                    },
                );
            }
        },
        AnthropicContentBlockDelta::ThinkingDelta { thinking } => {
            if output.append_thinking(at, thinking.as_str()) {
                emit(
                    sent,
                    AssistantMessageEvent::ThinkingDelta {
                        content_index: at,
                        delta: thinking.clone(),
                        partial: output.clone(),
                    },
                );
            }
        },
        AnthropicContentBlockDelta::InputJsonDelta { partial_json } => {
            if let Content::ToolCall(_) = &output.content[at] {
                let so_far = find_partial(&state.partial_json, at);
                let all = cat2(so_far.as_str(), partial_json.as_str());
                output.set_arguments(at, read_with(read, all.as_str()));
                set_partial(&mut state.partial_json, at, all);
                emit(
                    sent,
                    AssistantMessageEvent::ToolCallDelta {
                        content_index: at,
                        delta: partial_json.clone(),
                        partial: output.clone(),
                    },
                );
            }
        },
        AnthropicContentBlockDelta::SignatureDelta { signature } => {
            append_signature(output, at, signature.as_str());
        },
    }
    proof {
        let after = progress(*output, sent@, *state);
        assert(after.positions == before.positions);
        assert(after.reply.content.len() == before.reply.content.len());
    }
}

fn stop_block<S: Fn(&str) -> Value>(
    output: &mut AssistantMessage,
    sent: &mut Vec<AssistantMessageEvent>,
    state: &mut MessageState,
    at: usize,
    read: &S,
)
    requires
        is_reader(*read),
        progress_wf(progress(*old(output), old(sent)@, *old(state))),
        at < old(output).content@.len(),
    ensures
        progress(*final(output), final(sent)@, *final(state)) == block_stopped(
            progress(*old(output), old(sent)@, *old(state)),
            at as int,
            reader_of(*read),
        ),
        progress_wf(progress(*final(output), final(sent)@, *final(state))),
{
    let ghost before = progress(*output, sent@, *state);
    let is_call = match &output.content[at] {
        Content::Text(block) => {
            emit(
                sent,
                AssistantMessageEvent::TextEnd {
                    content_index: at,
                    content: block.text.clone(),
                    partial: output.clone(),
                },
            );
            false
        },
        Content::Thinking(block) => {
            emit(
                sent,
                AssistantMessageEvent::ThinkingEnd {
                    content_index: at,
                    content: block.thinking.clone(),
                    partial: output.clone(),
                },
            );
            false
        },
        Content::ToolCall(_) => true,
        Content::Image(_) => false,
    };
    if is_call {
        let text = find_partial(&state.partial_json, at);
        drop_partial(&mut state.partial_json, at);
        output.set_arguments(at, read_with(read, text.as_str()));
        proof {
            let call = before.reply.content[at as int]->ToolCall_0;
            let arguments = reader_of(*read)(text@);
            assert(before.reply.content[at as int] is ToolCall);
            assert(output@.content[at as int] == Block::ToolCall(
                ToolCallBlock { arguments, ..call },
            ));
            assert(output@.content[at as int] == output.content@[at as int]@);
        }
        if let Content::ToolCall(call) = &output.content[at] {
            emit(
                sent,
                AssistantMessageEvent::ToolCallEnd {
                    content_index: at,
                    tool_call: call.clone(),
                    partial: output.clone(),
                },
            );
        }
    }
    proof {
        let after = progress(*output, sent@, *state);
        assert(after.positions == before.positions);
        assert(after.reply.content.len() == before.reply.content.len());
    }
}

fn take_end<Q: Fn(Usage) -> UsageCost>(
    output: &mut AssistantMessage,
    stop_reason: &Option<String>,
    stop_details: &Option<String>,
    usage: &Option<AnthropicUsage>,
    price: &Q,
)
    requires
        is_pricer(*price),
        *stop_reason matches Some(reason) ==> is_stop_reason(reason@),
    ensures
        final(output)@ == end_taken(
            old(output)@,
            opt_text(*stop_reason),
            opt_text(*stop_details),
            *usage,
            pricing_of(*price),
        ),
        final(output).content == old(output).content,
{
    if let Some(reason) = stop_reason {
        let (mapped, error_message) = map_stop_reason(reason.as_str(), borrow_opt(stop_details));
        output.raw_stop_reason = Some(reason.clone());
        output.stop_reason = mapped;
        if error_message.is_some() {
            output.error_message = error_message;
        }
    }
    if let Some(usage) = usage {
        output.usage = price_with(update_usage_from_delta(output.usage, usage), price);
    }
}

#[verifier::rlimit(40)]
fn take_event<S: Fn(&str) -> Value, Q: Fn(Usage) -> UsageCost>(
    output: &mut AssistantMessage,
    sent: &mut Vec<AssistantMessageEvent>,
    state: &mut MessageState,
    event: &AnthropicStreamEvent,
    is_oauth_token: bool,
    context_tools: Option<&Vec<Tool>>,
    read: &S,
    price: &Q,
)
    requires
        is_reader(*read),
        is_pricer(*price),
        progress_wf(progress(*old(output), old(sent)@, *old(state))),
        stops_knowingly(event@),
    ensures
        progress(*final(output), final(sent)@, *final(state)) == event_taken(
            progress(*old(output), old(sent)@, *old(state)),
            event@,
            is_oauth_token,
            own_names(context_tools),
            reader_of(*read),
            pricing_of(*price),
        ),
        progress_wf(progress(*final(output), final(sent)@, *final(state))),
{
    proof {
        reveal(event_taken);
    }
    let ghost before = progress(*output, sent@, *state);
    match event {
        AnthropicStreamEvent::MessageStart { message } => {
            state.saw_message_start = true;
            output.response_id = Some(message.id.clone());
            if let Some(usage) = &message.usage {
                output.usage = price_with(apply_usage(output.usage, usage), price);
            }
        },
        AnthropicStreamEvent::ContentBlockStart { index, content_block } => start_block(
            output,
            sent,
            state,
            *index,
            content_block,
            is_oauth_token,
            context_tools,
        ),
        AnthropicStreamEvent::ContentBlockDelta { index, delta } => {
            if let Some(at) = find_position(&state.block_indices, *index) {
                proof {
                    lemma_position_in_reply(before, *index);
                }
                stream_delta(output, sent, state, at, delta, read);
            }
        },
        AnthropicStreamEvent::ContentBlockStop { index } => {
            if let Some(at) = find_position(&state.block_indices, *index) {
                proof {
                    lemma_position_in_reply(before, *index);
                }
                stop_block(output, sent, state, at, read);
            }
        },
        AnthropicStreamEvent::MessageDelta { stop_reason, stop_details, usage } => {
            take_end(output, stop_reason, stop_details, usage, price);
        },
        AnthropicStreamEvent::MessageStop => {
            state.saw_message_end = true;
        },
    }
}

proof fn lemma_position_in_reply(p: Progress, index: Number)
    requires
        progress_wf(p),
        get(p.positions, index) is Some,
    ensures
        0 <= get(p.positions, index)->0 < p.reply.content.len(),
{
    lemma_key_index(p.positions, index);
    let i = key_index(p.positions, index);
    assert(p.positions[i].1 < p.reply.content.len());
}

/// Takes the events of a stream. The message in `output` is brought up to date,
/// and what is to be sent is added to `sent`. A message that has begun must end.
pub fn process_anthropic_stream<S: Fn(&str) -> Value, Q: Fn(Usage) -> UsageCost>(
    list: &Vec<AnthropicStreamEvent>,
    output: &mut AssistantMessage,
    sent: &mut Vec<AssistantMessageEvent>,
    is_oauth_token: bool,
    context_tools: Option<&Vec<Tool>>,
    read: &S,
    price: &Q,
) -> (r: Result<(), String>)
    requires
        is_reader(*read),
        is_pricer(*price),
        all_stop_knowingly(stream_events(list@)),
    ensures
        ({
            let end = events_taken(
                at_start(old(output)@, events(old(sent)@)),
                stream_events(list@),
                is_oauth_token,
                own_names(context_tools),
                reader_of(*read),
                pricing_of(*price),
            );
            &&& final(output)@ == end.reply
            &&& events(final(sent)@) == end.sent
            &&& outcome(r) == cut_short(end)
        }),
{
    let mut state = MessageState {
        saw_message_start: false,
        saw_message_end: false,
        block_indices: Vec::new(),
        partial_json: Vec::new(),
    };
    let ghost start = progress(*output, sent@, state);
    proof {
        assert(start.positions =~= Seq::<(Number, int)>::empty());
        assert(start.partial =~= Seq::<(u64, Seq<char>)>::empty());
        assert(start == at_start(output@, events(sent@)));
    }
    let mut i: usize = 0;
    while i < list.len()
        invariant
            i <= list@.len(),
            is_reader(*read),
            is_pricer(*price),
            all_stop_knowingly(stream_events(list@)),
            progress_wf(progress(*output, sent@, state)),
            progress(*output, sent@, state) == events_taken(
                start,
                stream_events(list@).take(i as int),
                is_oauth_token,
                own_names(context_tools),
                reader_of(*read),
                pricing_of(*price),
            ),
        decreases list.len() - i,
    {
        proof {
            assert(stream_events(list@).take(i + 1).drop_last() =~= stream_events(list@).take(
                i as int,
            ));
            assert(stream_events(list@).take(i + 1).last() == list@[i as int]@);
            assert(stops_knowingly(stream_events(list@)[i as int]));
        }
        take_event(output, sent, &mut state, &list[i], is_oauth_token, context_tools, read, price);
        i += 1;
    }
    proof {
        assert(stream_events(list@).take(list@.len() as int) =~= stream_events(list@));
    }
    if state.saw_message_start && !state.saw_message_end {
        return Err("Anthropic stream ended before message_stop".to_owned());
    }
    Ok(())
}

/// Whether every event stops for a known reason, if it stops.
pub fn events_stop_knowingly(list: &Vec<AnthropicStreamEvent>) -> (r: bool)
    ensures
        r == all_stop_knowingly(stream_events(list@)),
{
    let mut i: usize = 0;
    while i < list.len()
        invariant
            i <= list@.len(),
            forall|j: int| 0 <= j < i ==> stops_knowingly(#[trigger] stream_events(list@)[j]),
        decreases list.len() - i,
    {
        let known = match &list[i] {
            AnthropicStreamEvent::MessageDelta { stop_reason, .. } => match stop_reason {
                Some(reason) => knows_stop_reason(reason.as_str()),
                None => true,
            },
            _ => true,
        };
        proof {
            assert(known == stops_knowingly(stream_events(list@)[i as int]));
        }
        if !known {
            return false;
        }
        i += 1;
    }
    true
}

/// An event never takes a block away, and no event but a start adds one.
pub proof fn law_event_keeps_blocks(
    p: Progress,
    event: StreamEvent,
    oauth: bool,
    names: Seq<Seq<char>>,
    read: spec_fn(Seq<char>) -> Json,
    price: Pricing,
)
    requires
        progress_wf(p),
    ensures
        progress_wf(event_taken(p, event, oauth, names, read, price)),
        event_taken(p, event, oauth, names, read, price).reply.content.len() == p.reply.content.len()
            + if event is BlockStart {
            1int
        } else {
            0int
        },
{
    reveal(event_taken);
    let after = event_taken(p, event, oauth, names, read, price);
    match event {
        StreamEvent::BlockDelta { index, .. } => {
            if get(p.positions, index) is Some {
                lemma_position_in_reply(p, index);
            }
        },
        StreamEvent::BlockStop { index } => {
            if get(p.positions, index) is Some {
                lemma_position_in_reply(p, index);
            }
        },
        _ => {},
    }
    assert forall|i: int| 0 <= i < after.positions.len() implies 0 <= (
    #[trigger] after.positions[i]).1 < after.reply.content.len() by {
        if i < p.positions.len() {
            assert(p.positions[i].1 < p.reply.content.len());
        }
    }
}

/// Events that stream parts of one text.
pub open spec fn text_parts(index: Number, deltas: Seq<Seq<char>>) -> Seq<StreamEvent> {
    Seq::new(
        deltas.len(),
        |i: int| StreamEvent::BlockDelta { index, delta: BlockDelta::Text(deltas[i]) },
    )
}

/// Parts put together.
pub open spec fn all_of(deltas: Seq<Seq<char>>) -> Seq<char>
    decreases deltas.len(),
{
    if deltas.len() == 0 {
        Seq::empty()
    } else {
        all_of(deltas.drop_last()) + deltas.last()
    }
}

/// The parts of a text add up: a block that begins with a text and is then
/// streamed holds that text followed by all the parts in order.
pub proof fn law_parts_add_up(
    p: Progress,
    index: Number,
    text: Seq<char>,
    deltas: Seq<Seq<char>>,
    oauth: bool,
    names: Seq<Seq<char>>,
    read: spec_fn(Seq<char>) -> Json,
    price: Pricing,
)
    requires
        progress_wf(p),
        get(p.positions, index) is None,
    ensures
        ({
            let begun = block_started(p, index, BlockStart::Text(text), oauth, names);
            let end = events_taken(begun, text_parts(index, deltas), oauth, names, read, price);
            &&& end.reply.content == p.reply.content.push(
                Block::Text(TextBlock { text: text + all_of(deltas), text_signature: None }),
            )
            &&& end.positions == begun.positions
        }),
    decreases deltas.len(),
{
    let begun = block_started(p, index, BlockStart::Text(text), oauth, names);
    let at = last_index(begun.reply);
    lemma_key_index(p.positions, index);
    lemma_key_index_is(begun.positions, index, p.positions.len() as int);
    assert(get(begun.positions, index) == Some(at));
    if deltas.len() == 0 {
        assert(text_parts(index, deltas) =~= Seq::<StreamEvent>::empty());
        assert(text + all_of(deltas) =~= text);
    } else {
        reveal(event_taken);
        let rest = deltas.drop_last();
        law_parts_add_up(p, index, text, rest, oauth, names, read, price);
        assert(text_parts(index, deltas).drop_last() =~= text_parts(index, rest));
        let before = events_taken(begun, text_parts(index, rest), oauth, names, read, price);
        let end = events_taken(begun, text_parts(index, deltas), oauth, names, read, price);
        assert(before.reply.content[at] == Block::Text(
            TextBlock { text: text + all_of(rest), text_signature: None },
        ));
        assert(end == delta_streamed(before, at, BlockDelta::Text(deltas.last()), read));
        assert((text + all_of(rest)) + deltas.last() =~= text + all_of(deltas));
        assert(end.reply.content =~= p.reply.content.push(
            Block::Text(TextBlock { text: text + all_of(deltas), text_signature: None }),
        ));
    }
}

/// Whether a reply ended well once its stream is over.
pub fn check_reply(output: &AssistantMessage) -> (r: Result<(), String>)
    ensures
        outcome(r) == stop_error(output@, "Anthropic stream ended without a stop reason"@),
{
    check_stopped(output, "Anthropic stream ended without a stop reason")
}

} // verus!
