//! How the chunks of a stream build a reply.
use vstd::prelude::*;
use vstd::string::*;
use super::compat::ResolvedOpenAICompletionsCompat;
use crate::api::constrained_sampling::{
    append_grammar_tool_input_json_delta, append_step, empty_buffer, find_property,
    GrammarToolInputJsonBuffer,
};
use crate::api::finish::outcome;
use crate::api::headers::Pairs;
use crate::api::openai_stream::{input_property, CustomInput};
use crate::json::{
    array_at, as_object, entries, find_index, find_key, get, get_array, get_number,
    get_number_or_zero, get_object, get_str, get_str_or_empty, is_parser, is_reader, items,
    json_stringify, json_text, lemma_key_index_is, new_entries, no_entries, number_at,
    number_or_zero, object, object1, object_at, one_entry, parse_with, parser_of, read_with,
    reader_of, str_at, string, text_or_empty, with_entry, Entries, Json, Value,
};
use crate::number::{difference, greater, index_value, sum, whole, Number};
use crate::text::{cat2, clone_opt, opt_is, opt_text, str_eq, borrow_opt};
use crate::types::{
    arguments_set, calls_tool, emit, events, is_pricer, no_cost, pairs, price_with, priced,
    pricing_of, with_block, zero_cost, AssistantMessage, AssistantMessageEvent, Block, Content,
    Event, Model, Pricing, Reply, StopReason, TextBlock, TextContent, ThinkingBlock,
    ThinkingContent, ToolCall, ToolCallBlock, Usage, UsageCost,
};

verus! {

// ---------------------------------------------------------------------------
// Usage and stop reasons
// ---------------------------------------------------------------------------

pub open spec fn detail(e: Option<Entries>, key: Seq<char>) -> Option<Number> {
    match e {
        Some(e) => number_at(e, key),
        None => None,
    }
}

/// The tokens that a chunk reports. Tokens read from and written to a cache are
/// part of the prompt tokens and are taken out of the input.
pub open spec fn chunk_tokens(e: Entries) -> Usage {
    let prompt = number_or_zero(number_at(e, "prompt_tokens"@));
    let details = object_at(e, "prompt_tokens_details"@);
    let cache_read = match detail(details, "cached_tokens"@) {
        Some(n) => n,
        None => number_or_zero(number_at(e, "prompt_cache_hit_tokens"@)),
    };
    let cache_write = number_or_zero(detail(details, "cache_write_tokens"@));
    let input = greater(difference(difference(prompt, cache_read), cache_write), whole(0));
    let output = number_or_zero(number_at(e, "completion_tokens"@));
    Usage {
        input,
        output,
        cache_read,
        cache_write,
        cache_write_1h: None,
        reasoning: Some(
            number_or_zero(
                detail(object_at(e, "completion_tokens_details"@), "reasoning_tokens"@),
            ),
        ),
        total_tokens: sum(sum(sum(input, output), cache_read), cache_write),
        cost: no_cost(),
    }
}

/// The usage that a chunk reports, with its price.
pub open spec fn chunk_usage(e: Entries, price: Pricing) -> Usage {
    priced(chunk_tokens(e), price)
}

fn detail_number(e: Option<&Vec<(String, Value)>>, key: &str) -> (r: Option<Number>)
    ensures
        r == match e {
            Some(e) => number_at(entries(e@), key@),
            None => None,
        },
{
    match e {
        Some(e) => get_number(e, key),
        None => None,
    }
}

fn or_zero(n: Option<Number>) -> (r: Number)
    ensures
        r == number_or_zero(n),
{
    match n {
        Some(n) => n,
        None => Number::zero(),
    }
}

/// Reads the usage that a chunk reports, and prices it.
pub fn parse_chunk_usage<Q: Fn(Usage) -> UsageCost>(e: &Vec<(String, Value)>, price: &Q) -> (r:
    Usage)
    requires
        is_pricer(*price),
    ensures
        r == chunk_usage(entries(e@), pricing_of(*price)),
{
    let prompt_tokens = get_number_or_zero(e, "prompt_tokens");
    let details = get_object(e, "prompt_tokens_details");
    let cache_read = match detail_number(details, "cached_tokens") {
        Some(n) => n,
        None => get_number_or_zero(e, "prompt_cache_hit_tokens"),
    };
    let cache_write = or_zero(detail_number(details, "cache_write_tokens"));
    let input = prompt_tokens.minus(cache_read).minus(cache_write).max(Number::zero());
    let output = get_number_or_zero(e, "completion_tokens");
    let reasoning = or_zero(
        detail_number(get_object(e, "completion_tokens_details"), "reasoning_tokens"),
    );
    let counted = Usage {
        input,
        output,
        cache_read,
        cache_write,
        cache_write_1h: None,
        reasoning: Some(reasoning),
        total_tokens: input.plus(output).plus(cache_read).plus(cache_write),
        cost: zero_cost(),
    };
    price_with(counted, price)
}

/// The stop reason that a finish reason stands for, and the error that goes
/// with it.
pub open spec fn stop_reason_of(reason: Seq<char>) -> (StopReason, Option<Seq<char>>) {
    if reason == "stop"@ || reason == "end"@ {
        (StopReason::Stop, None)
    } else if reason == "length"@ {
        (StopReason::Length, None)
    } else if reason == "function_call"@ || reason == "tool_calls"@ {
        (StopReason::ToolUse, None)
    } else {
        (StopReason::Error, Some("Provider finish_reason: "@ + reason))
    }
}

pub fn map_stop_reason(reason: &str) -> (r: (StopReason, Option<String>))
    ensures
        (r.0, opt_text(r.1)) == stop_reason_of(reason@),
{
    if str_eq(reason, "stop") || str_eq(reason, "end") {
        (StopReason::Stop, None)
    } else if str_eq(reason, "length") {
        (StopReason::Length, None)
    } else if str_eq(reason, "function_call") || str_eq(reason, "tool_calls") {
        (StopReason::ToolUse, None)
    } else {
        (StopReason::Error, Some(cat2("Provider finish_reason: ", reason)))
    }
}

// ---------------------------------------------------------------------------
// The state of a stream
// ---------------------------------------------------------------------------

#[derive(Debug)]
struct CustomInputState {
    property: String,
    json_buffer: GrammarToolInputJsonBuffer,
}

/// A tool call while it is streamed: with the text of its arguments so far, or
/// with the input of a custom tool so far.
#[derive(Debug)]
struct StreamingToolCallBlock {
    tool_call: ToolCall,
    partial_args: Option<String>,
    custom_input: Option<CustomInputState>,
}

/// What the processing of a stream remembers between two chunks.
#[derive(Debug)]
pub struct CompletionsStreamState {
    text_block: Option<TextContent>,
    thinking_block: Option<ThinkingContent>,
    has_finish_reason: bool,
    tool_call_blocks_by_index: Vec<(u64, StreamingToolCallBlock)>,
    tool_call_blocks_by_id: Vec<(String, StreamingToolCallBlock)>,
    pending_reasoning_details_by_tool_call_id: Vec<(String, String)>,
}

/// What a tool call holds while it is streamed.
pub struct Scratch {
    pub call: ToolCallBlock,
    pub partial_args: Option<Seq<char>>,
    pub custom_input: Option<CustomInput>,
}

/// What is remembered between two chunks.
pub struct Memory {
    pub text: Option<TextBlock>,
    pub thinking: Option<ThinkingBlock>,
    pub has_finish_reason: bool,
    pub by_index: Seq<(u64, Scratch)>,
    pub by_id: Seq<(Seq<char>, Scratch)>,
    pub pending: Pairs,
}

impl View for CustomInputState {
    type V = CustomInput;

    closed spec fn view(&self) -> CustomInput {
        CustomInput { property: self.property@, buffer: self.json_buffer@ }
    }
}

impl View for StreamingToolCallBlock {
    type V = Scratch;

    closed spec fn view(&self) -> Scratch {
        Scratch {
            call: self.tool_call@,
            partial_args: opt_text(self.partial_args),
            custom_input: match self.custom_input {
                Some(custom) => Some(custom@),
                None => None,
            },
        }
    }
}

spec fn indexed(s: Seq<(u64, StreamingToolCallBlock)>) -> Seq<(u64, Scratch)> {
    Seq::new(s.len(), |i: int| (s[i].0, s[i].1@))
}

spec fn identified(s: Seq<(String, StreamingToolCallBlock)>) -> Seq<(Seq<char>, Scratch)> {
    Seq::new(s.len(), |i: int| (s[i].0@, s[i].1@))
}

impl View for CompletionsStreamState {
    type V = Memory;

    closed spec fn view(&self) -> Memory {
        Memory {
            text: match self.text_block {
                Some(block) => Some(block@),
                None => None,
            },
            thinking: match self.thinking_block {
                Some(block) => Some(block@),
                None => None,
            },
            has_finish_reason: self.has_finish_reason,
            by_index: indexed(self.tool_call_blocks_by_index@),
            by_id: identified(self.tool_call_blocks_by_id@),
            pending: pairs(self.pending_reasoning_details_by_tool_call_id@),
        }
    }
}

/// Nothing is remembered when a stream begins.
pub open spec fn no_memory() -> Memory {
    Memory {
        text: None,
        thinking: None,
        has_finish_reason: false,
        by_index: Seq::empty(),
        by_id: Seq::empty(),
        pending: Seq::empty(),
    }
}

/// How far a stream has come.
pub struct Progress {
    pub reply: Reply,
    pub sent: Seq<Event>,
    pub memory: Memory,
}

/// A block that is remembered is a block of the reply, and a reply holds no
/// image.
pub open spec fn progress_wf(p: Progress) -> bool {
    &&& p.memory.text is Some || p.memory.thinking is Some ==> p.reply.content.len() > 0
    &&& no_images(p.reply)
}

pub open spec fn no_images(m: Reply) -> bool {
    forall|i: int| 0 <= i < m.content.len() ==> !((#[trigger] m.content[i]) is Image)
}

pub open spec fn last_index(m: Reply) -> int {
    m.content.len() - 1
}

// ---------------------------------------------------------------------------
// Text and thinking
// ---------------------------------------------------------------------------

/// Streams text. The block of the reply is begun with the first text.
pub open spec fn text_streamed(p: Progress, delta: Seq<char>) -> Progress {
    let begun = match p.memory.text {
        Some(_) => p,
        None => {
            let block = TextBlock { text: Seq::empty(), text_signature: None };
            let reply = with_block(p.reply, Block::Text(block));
            Progress {
                reply,
                sent: p.sent.push(
                    Event::TextStart { content_index: last_index(reply), partial: reply },
                ),
                memory: Memory { text: Some(block), ..p.memory },
            }
        },
    };
    let block = begun.memory.text->0;
    Progress {
        sent: begun.sent.push(
            Event::TextDelta {
                content_index: last_index(begun.reply),
                delta,
                partial: begun.reply,
            },
        ),
        memory: Memory {
            text: Some(TextBlock { text: block.text + delta, ..block }),
            ..begun.memory
        },
        ..begun
    }
}

/// Streams thinking. The block of the reply is begun with the first of it, and
/// is signed with the field that carried it.
pub open spec fn thinking_streamed(p: Progress, field: Seq<char>, delta: Seq<char>) -> Progress {
    let begun = match p.memory.thinking {
        Some(_) => p,
        None => {
            let block = ThinkingBlock {
                thinking: Seq::empty(),
                thinking_signature: Some(field),
                redacted: None,
            };
            let reply = with_block(p.reply, Block::Thinking(block));
            Progress {
                reply,
                sent: p.sent.push(
                    Event::ThinkingStart { content_index: last_index(reply), partial: reply },
                ),
                memory: Memory { thinking: Some(block), ..p.memory },
            }
        },
    };
    let block = begun.memory.thinking->0;
    Progress {
        sent: begun.sent.push(
            Event::ThinkingDelta {
                content_index: last_index(begun.reply),
                delta,
                partial: begun.reply,
            },
        ),
        memory: Memory {
            thinking: Some(ThinkingBlock { thinking: block.thinking + delta, ..block }),
            ..begun.memory
        },
        ..begun
    }
}

/// A string of an object that is not empty.
pub open spec fn filled_at(e: Entries, key: Seq<char>) -> Option<Seq<char>> {
    match str_at(e, key) {
        Some(s) => if s.len() > 0 {
            Some(s)
        } else {
            None
        },
        None => None,
    }
}

/// The first field of a delta that carries thinking, and what it carries.
pub open spec fn thinking_in(delta: Entries) -> Option<(Seq<char>, Seq<char>)> {
    match filled_at(delta, "reasoning_content"@) {
        Some(text) => Some(("reasoning_content"@, text)),
        None => match filled_at(delta, "reasoning"@) {
            Some(text) => Some(("reasoning"@, text)),
            None => match filled_at(delta, "reasoning_text"@) {
                Some(text) => Some(("reasoning_text"@, text)),
                None => None,
            },
        },
    }
}

pub open spec fn signature_field(model: Model, field: Seq<char>) -> Seq<char> {
    if model.provider@ == "opencode-go"@ && field == "reasoning"@ {
        "reasoning_content"@
    } else {
        field
    }
}

fn get_filled(e: &Vec<(String, Value)>, key: &str) -> (r: Option<String>)
    ensures
        opt_text(r) == filled_at(entries(e@), key@),
{
    match get_str(e, key) {
        Some(s) => if s.as_str().is_empty() {
            None
        } else {
            Some(s)
        },
        None => None,
    }
}

spec fn progress(
    output: AssistantMessage,
    sent: Seq<AssistantMessageEvent>,
    state: CompletionsStreamState,
) -> Progress {
    Progress { reply: output@, sent: events(sent), memory: state@ }
}

fn stream_text(
    output: &mut AssistantMessage,
    sent: &mut Vec<AssistantMessageEvent>,
    state: &mut CompletionsStreamState,
    delta: &str,
)
    requires
        progress_wf(progress(*old(output), old(sent)@, *old(state))),
    ensures
        progress(*final(output), final(sent)@, *final(state)) == text_streamed(
            progress(*old(output), old(sent)@, *old(state)),
            delta@,
        ),
        progress_wf(progress(*final(output), final(sent)@, *final(state))),
{
    let text = match &state.text_block {
        Some(block) => cat2(block.text.as_str(), delta),
        None => {
            output.push_content(
                Content::Text(TextContent { text: String::new(), text_signature: None }),
            );
            emit(
                sent,
                AssistantMessageEvent::TextStart {
                    content_index: output.content.len() - 1,
                    partial: output.clone(),
                },
            );
            proof {
                assert(Seq::<char>::empty() + delta@ =~= delta@);
            }
            delta.to_owned()
        },
    };
    let signature = match &state.text_block {
        Some(block) => clone_opt(&block.text_signature),
        None => None,
    };
    state.text_block = Some(TextContent { text, text_signature: signature });
    emit(
        sent,
        AssistantMessageEvent::TextDelta {
            content_index: output.content.len() - 1,
            delta: delta.to_owned(),
            partial: output.clone(),
        },
    );
}

fn stream_thinking(
    output: &mut AssistantMessage,
    sent: &mut Vec<AssistantMessageEvent>,
    state: &mut CompletionsStreamState,
    field: &str,
    delta: &str,
)
    requires
        progress_wf(progress(*old(output), old(sent)@, *old(state))),
    ensures
        progress(*final(output), final(sent)@, *final(state)) == thinking_streamed(
            progress(*old(output), old(sent)@, *old(state)),
            field@,
            delta@,
        ),
        progress_wf(progress(*final(output), final(sent)@, *final(state))),
{
    let block = match &state.thinking_block {
        Some(block) => ThinkingContent {
            thinking: cat2(block.thinking.as_str(), delta),
            thinking_signature: clone_opt(&block.thinking_signature),
            redacted: block.redacted,
        },
        None => {
            output.push_content(
                Content::Thinking(
                    ThinkingContent {
                        thinking: String::new(),
                        thinking_signature: Some(field.to_owned()),
                        redacted: None,
                    },
                ),
            );
            emit(
                sent,
                AssistantMessageEvent::ThinkingStart {
                    content_index: output.content.len() - 1,
                    partial: output.clone(),
                },
            );
            proof {
                assert(Seq::<char>::empty() + delta@ =~= delta@);
            }
            ThinkingContent {
                thinking: delta.to_owned(),
                thinking_signature: Some(field.to_owned()),
                redacted: None,
            }
        },
    };
    state.thinking_block = Some(block);
    emit(
        sent,
        AssistantMessageEvent::ThinkingDelta {
            content_index: output.content.len() - 1,
            delta: delta.to_owned(),
            partial: output.clone(),
        },
    );
}

// ---------------------------------------------------------------------------
// Tool calls
// ---------------------------------------------------------------------------

#[derive(Debug)]
struct StreamingToolCallDelta {
    index: Option<Number>,
    id: Option<String>,
    name: Option<String>,
    function_arguments: Option<String>,
    custom_input: Option<String>,
    is_custom: bool,
}

/// What one entry of a delta says of a tool call.
pub struct CallDelta {
    pub index: Option<Number>,
    pub id: Option<Seq<char>>,
    pub name: Option<Seq<char>>,
    pub function_arguments: Option<Seq<char>>,
    pub custom_input: Option<Seq<char>>,
    pub is_custom: bool,
}

impl View for StreamingToolCallDelta {
    type V = CallDelta;

    closed spec fn view(&self) -> CallDelta {
        CallDelta {
            index: self.index,
            id: opt_text(self.id),
            name: opt_text(self.name),
            function_arguments: opt_text(self.function_arguments),
            custom_input: opt_text(self.custom_input),
            is_custom: self.is_custom,
        }
    }
}

pub open spec fn str_in(e: Option<Entries>, key: Seq<char>) -> Option<Seq<char>> {
    match e {
        Some(e) => str_at(e, key),
        None => None,
    }
}

pub open spec fn call_delta(e: Entries) -> CallDelta {
    let function = object_at(e, "function"@);
    let custom = object_at(e, "custom"@);
    CallDelta {
        index: number_at(e, "index"@),
        id: str_at(e, "id"@),
        name: if str_in(function, "name"@) is Some {
            str_in(function, "name"@)
        } else {
            str_in(custom, "name"@)
        },
        function_arguments: str_in(function, "arguments"@),
        custom_input: str_in(custom, "input"@),
        is_custom: custom is Some,
    }
}

fn parse_tool_call_delta(e: &Vec<(String, Value)>) -> (r: StreamingToolCallDelta)
    ensures
        r@ == call_delta(entries(e@)),
{
    let (function_name, function_arguments) = match get_object(e, "function") {
        Some(f) => (get_str(f, "name"), get_str(f, "arguments")),
        None => (None, None),
    };
    let (custom_name, custom_input, is_custom) = match get_object(e, "custom") {
        Some(c) => (get_str(c, "name"), get_str(c, "input"), true),
        None => (None, None, false),
    };
    StreamingToolCallDelta {
        index: get_number(e, "index"),
        id: get_str(e, "id"),
        name: if function_name.is_some() {
            function_name
        } else {
            custom_name
        },
        function_arguments,
        custom_input,
        is_custom,
    }
}

/// The position of the first tool call with an id, or zero.
pub open spec fn call_position(m: Reply, id: Seq<char>) -> int {
    let i = call_index(m.content, id);
    if i < m.content.len() {
        i
    } else {
        0
    }
}

pub open spec fn is_call(b: Block, id: Seq<char>) -> bool {
    b matches Block::ToolCall(call) && call.id == id
}

pub open spec fn call_index(content: Seq<Block>, id: Seq<char>) -> int
    decreases content.len(),
{
    if content.len() == 0 || is_call(content[0], id) {
        0
    } else {
        1 + call_index(content.drop_first(), id)
    }
}

proof fn lemma_call_index_is(content: Seq<Block>, id: Seq<char>, i: int)
    requires
        0 <= i <= content.len(),
        forall|j: int| 0 <= j < i ==> !is_call(#[trigger] content[j], id),
        i < content.len() ==> is_call(content[i], id),
    ensures
        call_index(content, id) == i,
    decreases content.len(),
{
    if i > 0 {
        assert(!is_call(content[0], id));
        let rest = content.drop_first();
        assert forall|j: int| 0 <= j < i - 1 implies !is_call(#[trigger] rest[j], id) by {
            assert(rest[j] == content[j + 1]);
        }
        lemma_call_index_is(rest, id, i - 1);
    }
}

fn find_content_index(output: &AssistantMessage, tool_call_id: &str) -> (r: usize)
    ensures
        r == call_position(output@, tool_call_id@),
        output.content@.len() > 0 ==> r < output.content@.len(),
{
    let mut i: usize = 0;
    while i < output.content.len()
        invariant
            i <= output.content@.len(),
            forall|j: int| 0 <= j < i ==> !is_call(#[trigger] output@.content[j], tool_call_id@),
        decreases output.content.len() - i,
    {
        if let Content::ToolCall(call) = &output.content[i] {
            if str_eq(call.id.as_str(), tool_call_id) {
                proof {
                    assert(is_call(output@.content[i as int], tool_call_id@));
                    lemma_call_index_is(output@.content, tool_call_id@, i as int);
                }
                return i;
            }
        }
        i += 1;
    }
    proof {
        lemma_call_index_is(output@.content, tool_call_id@, output@.content.len() as int);
    }
    0
}

/// The call that a delta continues: the one at its index, else the one with its
/// id.
pub open spec fn known_call(m: Memory, d: CallDelta) -> Option<Scratch> {
    let at_index = match d.index {
        Some(index) => get(m.by_index, index_value(index)),
        None => None,
    };
    if at_index is Some {
        at_index
    } else {
        match d.id {
            Some(id) => get(m.by_id, id),
            None => None,
        }
    }
}

/// A call that a delta begins.
pub open spec fn new_call(d: CallDelta, properties: Pairs) -> Scratch {
    let name = text_or_empty(d.name);
    let property = input_property(properties, name);
    let custom = d.is_custom && d.function_arguments is None;
    Scratch {
        call: ToolCallBlock {
            id: text_or_empty(d.id),
            name,
            arguments: if custom {
                one_entry(property, Json::Str(Seq::empty()))
            } else {
                Json::Object(no_entries())
            },
            thought_signature: None,
            namespace: None,
        },
        partial_args: if custom {
            None
        } else {
            Some(Seq::empty())
        },
        custom_input: if custom {
            Some(CustomInput { property, buffer: empty_buffer() })
        } else {
            None
        },
    }
}

/// Remembers a call under the index and the id of a delta.
pub open spec fn remembered(m: Memory, d: CallDelta, block: Scratch) -> Memory {
    Memory {
        by_index: match d.index {
            Some(index) => with_entry(m.by_index, index_value(index), block),
            None => m.by_index,
        },
        by_id: match d.id {
            Some(id) => with_entry(m.by_id, id, block),
            None => m.by_id,
        },
        ..m
    }
}

/// Finds or begins the call of a delta; gives its position in the reply.
pub open spec fn call_ensured(p: Progress, d: CallDelta, properties: Pairs) -> (Progress, int) {
    match known_call(p.memory, d) {
        Some(block) => (
            Progress { memory: remembered(p.memory, d, block), ..p },
            call_position(p.reply, block.call.id),
        ),
        None => {
            let block = new_call(d, properties);
            let reply = with_block(p.reply, Block::ToolCall(block.call));
            (
                Progress {
                    reply,
                    sent: p.sent.push(
                        Event::ToolCallStart { content_index: last_index(reply), partial: reply },
                    ),
                    memory: remembered(p.memory, d, block),
                },
                last_index(reply),
            )
        },
    }
}

/// The input of a custom tool so far.
pub open spec fn custom_text(block: Scratch) -> Seq<char> {
    match block.custom_input {
        Some(custom) => match block.call.arguments {
            Json::Object(e) => text_or_empty(str_at(e, custom.property)),
            _ => Seq::empty(),
        },
        None => Seq::empty(),
    }
}

/// Takes the input of a custom tool as it is known now; gives what is to be
/// streamed.
pub open spec fn custom_taken(block: Scratch, input: Seq<char>, close: bool) -> (
    Scratch,
    Option<Seq<char>>,
) {
    match block.custom_input {
        None => (block, None),
        Some(custom) => {
            let (buffer, result) = append_step(custom.buffer, custom.property, input, close);
            match result {
                Ok(delta) => (
                    Scratch {
                        call: ToolCallBlock {
                            arguments: one_entry(custom.property, Json::Str(input)),
                            ..block.call
                        },
                        custom_input: Some(CustomInput { buffer, ..custom }),
                        ..block
                    },
                    delta,
                ),
                Err(_) => (
                    Scratch { custom_input: Some(CustomInput { buffer, ..custom }), ..block },
                    None,
                ),
            }
        },
    }
}

/// What a delta does to the call at a position, and what is streamed of it.
pub open spec fn delta_taken(
    m: Memory,
    at: int,
    d: CallDelta,
    read: spec_fn(Seq<char>) -> Json,
) -> (Memory, Seq<char>) {
    let key = at as u64;
    match d.function_arguments {
        Some(arguments) => match get(m.by_index, key) {
            Some(block) => {
                let text = text_or_empty(block.partial_args) + arguments;
                let block = Scratch {
                    call: ToolCallBlock { arguments: read(text), ..block.call },
                    partial_args: Some(text),
                    ..block
                };
                (Memory { by_index: with_entry(m.by_index, key, block), ..m }, arguments)
            },
            None => (m, arguments),
        },
        None => match d.custom_input {
            Some(input) => match get(m.by_index, key) {
                Some(block) => {
                    let (block, delta) = custom_taken(block, custom_text(block) + input, false);
                    (
                        Memory { by_index: with_entry(m.by_index, key, block), ..m },
                        text_or_empty(delta),
                    )
                },
                None => (m, Seq::empty()),
            },
            None => (m, Seq::empty()),
        },
    }
}

/// Streams what one entry of a delta says of a tool call.
pub open spec fn call_streamed(
    p: Progress,
    d: CallDelta,
    properties: Pairs,
    read: spec_fn(Seq<char>) -> Json,
) -> Progress {
    let (ensured, at) = call_ensured(p, d, properties);
    let (memory, delta) = delta_taken(ensured.memory, at, d, read);
    Progress {
        memory,
        sent: ensured.sent.push(
            Event::ToolCallDelta { content_index: at, delta, partial: ensured.reply },
        ),
        ..ensured
    }
}

pub open spec fn calls_streamed(
    p: Progress,
    list: Seq<Json>,
    properties: Pairs,
    read: spec_fn(Seq<char>) -> Json,
) -> Progress
    decreases list.len(),
{
    if list.len() == 0 {
        p
    } else {
        let before = calls_streamed(p, list.drop_last(), properties, read);
        match as_object(list.last()) {
            Some(e) => call_streamed(before, call_delta(e), properties, read),
            None => before,
        }
    }
}

impl StreamingToolCallBlock {
    fn clone_block(&self) -> (r: Self)
        ensures
            r@ == self@,
    {
        StreamingToolCallBlock {
            tool_call: self.tool_call.clone(),
            partial_args: clone_opt(&self.partial_args),
            custom_input: match &self.custom_input {
                Some(custom) => Some(
                    CustomInputState {
                        property: custom.property.clone(),
                        json_buffer: GrammarToolInputJsonBuffer {
                            input: custom.json_buffer.input.clone(),
                            started: custom.json_buffer.started,
                            closed: custom.json_buffer.closed,
                        },
                    },
                ),
                None => None,
            },
        }
    }
}

fn at_index(list: &Vec<(u64, StreamingToolCallBlock)>, key: u64) -> (r: Option<
    StreamingToolCallBlock,
>)
    ensures
        match r {
            Some(block) => get(indexed(list@), key) == Some(block@),
            None => get(indexed(list@), key) is None,
        },
{
    match find_index(list, key) {
        Some(i) => {
            proof {
                lemma_key_index_is(indexed(list@), key, i as int);
            }
            Some(list[i].1.clone_block())
        },
        None => {
            proof {
                lemma_key_index_is(indexed(list@), key, list@.len() as int);
            }
            None
        },
    }
}

fn with_id(list: &Vec<(String, StreamingToolCallBlock)>, id: &str) -> (r: Option<
    StreamingToolCallBlock,
>)
    ensures
        match r {
            Some(block) => get(identified(list@), id@) == Some(block@),
            None => get(identified(list@), id@) is None,
        },
{
    match find_key(list, id) {
        Some(i) => {
            proof {
                lemma_key_index_is(identified(list@), id@, i as int);
            }
            Some(list[i].1.clone_block())
        },
        None => {
            proof {
                lemma_key_index_is(identified(list@), id@, list@.len() as int);
            }
            None
        },
    }
}

fn set_at_index(
    list: &mut Vec<(u64, StreamingToolCallBlock)>,
    key: u64,
    block: StreamingToolCallBlock,
)
    ensures
        indexed(final(list)@) == with_entry(indexed(old(list)@), key, block@),
{
    match find_index(list, key) {
        Some(i) => {
            proof {
                lemma_key_index_is(indexed(list@), key, i as int);
            }
            list.set(i, (key, block));
            proof {
                assert(indexed(list@) =~= indexed(old(list)@).update(i as int, (key, block@)));
            }
        },
        None => {
            proof {
                lemma_key_index_is(indexed(list@), key, list@.len() as int);
            }
            list.push((key, block));
            proof {
                assert(indexed(list@) =~= indexed(old(list)@).push((key, block@)));
            }
        },
    }
}

fn set_with_id(
    list: &mut Vec<(String, StreamingToolCallBlock)>,
    id: &str,
    block: StreamingToolCallBlock,
)
    ensures
        identified(final(list)@) == with_entry(identified(old(list)@), id@, block@),
{
    match find_key(list, id) {
        Some(i) => {
            proof {
                lemma_key_index_is(identified(list@), id@, i as int);
            }
            list.set(i, (id.to_owned(), block));
            proof {
                assert(identified(list@) =~= identified(old(list)@).update(
                    i as int,
                    (id@, block@),
                ));
            }
        },
        None => {
            proof {
                lemma_key_index_is(identified(list@), id@, list@.len() as int);
            }
            list.push((id.to_owned(), block));
            proof {
                assert(identified(list@) =~= identified(old(list)@).push((id@, block@)));
            }
        },
    }
}

fn find_known_call(state: &CompletionsStreamState, d: &StreamingToolCallDelta) -> (r: Option<
    StreamingToolCallBlock,
>)
    ensures
        match r {
            Some(block) => known_call(state@, d@) == Some(block@),
            None => known_call(state@, d@) is None,
        },
{
    if let Some(index) = d.index {
        if let Some(block) = at_index(&state.tool_call_blocks_by_index, index.index()) {
            return Some(block);
        }
    }
    match &d.id {
        Some(id) => with_id(&state.tool_call_blocks_by_id, id.as_str()),
        None => None,
    }
}

fn begin_call(d: &StreamingToolCallDelta, properties: &Vec<(String, String)>) -> (r:
    StreamingToolCallBlock)
    ensures
        r@ == new_call(d@, pairs(properties@)),
{
    let name = match &d.name {
        Some(name) => name.clone(),
        None => String::new(),
    };
    let id = match &d.id {
        Some(id) => id.clone(),
        None => String::new(),
    };
    if d.is_custom && d.function_arguments.is_none() {
        let property = match find_property(properties, name.as_str()) {
            Some(property) => property,
            None => "input".to_owned(),
        };
        StreamingToolCallBlock {
            tool_call: ToolCall {
                id,
                name,
                arguments: object1(property.as_str(), Value::Str(String::new())),
                thought_signature: None,
                namespace: None,
            },
            partial_args: None,
            custom_input: Some(
                CustomInputState { property, json_buffer: GrammarToolInputJsonBuffer::default() },
            ),
        }
    } else {
        StreamingToolCallBlock {
            tool_call: ToolCall {
                id,
                name,
                arguments: object(new_entries()),
                thought_signature: None,
                namespace: None,
            },
            partial_args: Some(String::new()),
            custom_input: None,
        }
    }
}

fn remember(
    state: &mut CompletionsStreamState,
    d: &StreamingToolCallDelta,
    block: &StreamingToolCallBlock,
)
    ensures
        final(state)@ == remembered(old(state)@, d@, block@),
{
    if let Some(index) = d.index {
        set_at_index(
            &mut state.tool_call_blocks_by_index,
            index.index(),
            block.clone_block(),
        );
    }
    if let Some(id) = &d.id {
        set_with_id(&mut state.tool_call_blocks_by_id, id.as_str(), block.clone_block());
    }
}

fn ensure_tool_call_block(
    d: &StreamingToolCallDelta,
    output: &mut AssistantMessage,
    sent: &mut Vec<AssistantMessageEvent>,
    properties: &Vec<(String, String)>,
    state: &mut CompletionsStreamState,
) -> (r: usize)
    ensures
        (progress(*final(output), final(sent)@, *final(state)), r as int) == call_ensured(
            progress(*old(output), old(sent)@, *old(state)),
            d@,
            pairs(properties@),
        ),
        final(output).content@.len() >= old(output).content@.len(),
{
    match find_known_call(state, d) {
        Some(block) => {
            remember(state, d, &block);
            find_content_index(output, block.tool_call.id.as_str())
        },
        None => {
            let block = begin_call(d, properties);
            output.push_content(Content::ToolCall(block.tool_call.clone()));
            let content_index: usize = output.content.len() - 1;
            emit(
                sent,
                AssistantMessageEvent::ToolCallStart { content_index, partial: output.clone() },
            );
            remember(state, d, &block);
            content_index
        },
    }
}

fn get_custom_tool_call_input(block: &StreamingToolCallBlock) -> (r: String)
    ensures
        r@ == custom_text(block@),
{
    match &block.custom_input {
        Some(custom) => match block.tool_call.arguments.as_object() {
            Some(e) => get_str_or_empty(e, custom.property.as_str()),
            None => String::new(),
        },
        None => String::new(),
    }
}

fn append_custom_tool_call_input(
    block: &mut StreamingToolCallBlock,
    input: &str,
    close: bool,
) -> (r: Option<String>)
    ensures
        (final(block)@, opt_text(r)) == custom_taken(old(block)@, input@, close),
{
    let mut custom = match &block.custom_input {
        Some(custom) => CustomInputState {
            property: custom.property.clone(),
            json_buffer: GrammarToolInputJsonBuffer {
                input: custom.json_buffer.input.clone(),
                started: custom.json_buffer.started,
                closed: custom.json_buffer.closed,
            },
        },
        None => {
            return None;
        },
    };
    let mut buffer = custom.json_buffer;
    let result = append_grammar_tool_input_json_delta(
        &mut buffer,
        custom.property.as_str(),
        input,
        close,
    );
    custom.json_buffer = buffer;
    let arguments = object1(custom.property.as_str(), string(input));
    block.custom_input = Some(custom);
    match result {
        Ok(delta) => {
            block.tool_call.arguments = arguments;
            delta
        },
        Err(_) => None,
    }
}

fn take_delta<S: Fn(&str) -> Value>(
    state: &mut CompletionsStreamState,
    content_index: usize,
    d: &StreamingToolCallDelta,
    read: &S,
) -> (r: String)
    requires
        is_reader(*read),
    ensures
        (final(state)@, r@) == delta_taken(
            old(state)@,
            content_index as int,
            d@,
            reader_of(*read),
        ),
{
    let key: u64 = content_index as u64;
    if let Some(arguments) = &d.function_arguments {
        if let Some(mut block) = at_index(&state.tool_call_blocks_by_index, key) {
            let text = match &block.partial_args {
                Some(partial) => cat2(partial.as_str(), arguments.as_str()),
                None => {
                    proof {
                        assert(Seq::<char>::empty() + arguments@ =~= arguments@);
                    }
                    arguments.clone()
                },
            };
            block.tool_call.arguments = read_with(read, text.as_str());
            block.partial_args = Some(text);
            set_at_index(&mut state.tool_call_blocks_by_index, key, block);
        }
        return arguments.clone();
    }
    if let Some(input) = &d.custom_input {
        if let Some(mut block) = at_index(&state.tool_call_blocks_by_index, key) {
            let current = get_custom_tool_call_input(&block);
            let next = cat2(current.as_str(), input.as_str());
            let delta = append_custom_tool_call_input(&mut block, next.as_str(), false);
            set_at_index(&mut state.tool_call_blocks_by_index, key, block);
            return match delta {
                Some(delta) => delta,
                None => String::new(),
            };
        }
    }
    String::new()
}

fn stream_call<S: Fn(&str) -> Value>(
    d: &StreamingToolCallDelta,
    output: &mut AssistantMessage,
    sent: &mut Vec<AssistantMessageEvent>,
    properties: &Vec<(String, String)>,
    state: &mut CompletionsStreamState,
    read: &S,
)
    requires
        is_reader(*read),
    ensures
        progress(*final(output), final(sent)@, *final(state)) == call_streamed(
            progress(*old(output), old(sent)@, *old(state)),
            d@,
            pairs(properties@),
            reader_of(*read),
        ),
        final(output).content@.len() >= old(output).content@.len(),
{
    let content_index: usize = ensure_tool_call_block(d, output, sent, properties, state);
    let delta = take_delta(state, content_index, d, read);
    emit(
        sent,
        AssistantMessageEvent::ToolCallDelta { content_index, delta, partial: output.clone() },
    );
}

fn stream_calls<S: Fn(&str) -> Value>(
    list: &Vec<Value>,
    output: &mut AssistantMessage,
    sent: &mut Vec<AssistantMessageEvent>,
    properties: &Vec<(String, String)>,
    state: &mut CompletionsStreamState,
    read: &S,
)
    requires
        is_reader(*read),
    ensures
        progress(*final(output), final(sent)@, *final(state)) == calls_streamed(
            progress(*old(output), old(sent)@, *old(state)),
            items(list@),
            pairs(properties@),
            reader_of(*read),
        ),
        final(output).content@.len() >= old(output).content@.len(),
{
    let mut i: usize = 0;
    while i < list.len()
        invariant
            i <= list@.len(),
            is_reader(*read),
            progress(*output, sent@, *state) == calls_streamed(
                progress(*old(output), old(sent)@, *old(state)),
                items(list@).take(i as int),
                pairs(properties@),
                reader_of(*read),
            ),
            output.content@.len() >= old(output).content@.len(),
        decreases list.len() - i,
    {
        proof {
            assert(items(list@).take(i + 1).drop_last() =~= items(list@).take(i as int));
            assert(items(list@).take(i + 1).last() == list@[i as int]@);
        }
        if let Some(e) = list[i].as_object() {
            let d = parse_tool_call_delta(e);
            stream_call(&d, output, sent, properties, state, read);
        }
        i += 1;
    }
    proof {
        assert(items(list@).take(list@.len() as int) =~= items(list@));
    }
}

// ---------------------------------------------------------------------------
// Encrypted reasoning
// ---------------------------------------------------------------------------

/// The id of an entry of encrypted reasoning.
pub open spec fn encrypted_id(detail: Json) -> Option<Seq<char>> {
    match as_object(detail) {
        Some(e) => if str_at(e, "type"@) == Some("reasoning.encrypted"@) && filled_at(
            e,
            "data"@,
        ) is Some {
            filled_at(e, "id"@)
        } else {
            None
        },
        None => None,
    }
}

/// Keeps an entry of encrypted reasoning with the call that it belongs to, or
/// for a call that is yet to come.
pub open spec fn detail_kept(m: Memory, detail: Json) -> Memory {
    match encrypted_id(detail) {
        Some(id) => match get(m.by_id, id) {
            Some(block) => Memory {
                by_id: with_entry(
                    m.by_id,
                    id,
                    Scratch {
                        call: ToolCallBlock {
                            thought_signature: Some(json_text(detail)),
                            ..block.call
                        },
                        ..block
                    },
                ),
                ..m
            },
            None => Memory { pending: with_entry(m.pending, id, json_text(detail)), ..m },
        },
        None => m,
    }
}

pub open spec fn details_kept(m: Memory, list: Seq<Json>) -> Memory
    decreases list.len(),
{
    if list.len() == 0 {
        m
    } else {
        detail_kept(details_kept(m, list.drop_last()), list.last())
    }
}

fn encrypted_reasoning_id(detail: &Value) -> (r: Option<String>)
    ensures
        opt_text(r) == encrypted_id(detail@),
{
    match detail.as_object() {
        Some(e) => {
            if opt_is(borrow_opt(&get_str(e, "type")), "reasoning.encrypted") && get_filled(
                e,
                "data",
            ).is_some() {
                get_filled(e, "id")
            } else {
                None
            }
        },
        None => None,
    }
}

fn keep_details(state: &mut CompletionsStreamState, list: &Vec<Value>)
    ensures
        final(state)@ == details_kept(old(state)@, items(list@)),
{
    let mut i: usize = 0;
    while i < list.len()
        invariant
            i <= list@.len(),
            state@ == details_kept(old(state)@, items(list@).take(i as int)),
        decreases list.len() - i,
    {
        proof {
            assert(items(list@).take(i + 1).drop_last() =~= items(list@).take(i as int));
            assert(items(list@).take(i + 1).last() == list@[i as int]@);
        }
        if let Some(id) = encrypted_reasoning_id(&list[i]) {
            let serialized = json_stringify(&list[i]);
            match with_id(&state.tool_call_blocks_by_id, id.as_str()) {
                Some(mut block) => {
                    block.tool_call.thought_signature = Some(serialized);
                    set_with_id(&mut state.tool_call_blocks_by_id, id.as_str(), block);
                },
                None => {
                    crate::api::headers::set_pair(
                        &mut state.pending_reasoning_details_by_tool_call_id,
                        id.as_str(),
                        serialized.as_str(),
                    );
                },
            }
        }
        i += 1;
    }
    proof {
        assert(items(list@).take(list@.len() as int) =~= items(list@));
    }
}

// ---------------------------------------------------------------------------
// A chunk
// ---------------------------------------------------------------------------

/// The first choice of a chunk.
pub open spec fn first_choice(e: Entries) -> Option<Entries> {
    match array_at(e, "choices"@) {
        Some(choices) => if choices.len() > 0 {
            as_object(choices[0])
        } else {
            None
        },
        None => None,
    }
}

/// The reply with what a chunk says of the response as a whole.
pub open spec fn head_taken(m: Reply, e: Entries, model: Model, price: Pricing) -> Reply {
    Reply {
        response_id: if m.response_id is None {
            filled_at(e, "id"@)
        } else {
            m.response_id
        },
        response_model: if m.response_model is None && filled_at(e, "model"@) is Some && filled_at(
            e,
            "model"@,
        ) != Some(model.id@) {
            filled_at(e, "model"@)
        } else {
            m.response_model
        },
        usage: match object_at(e, "usage"@) {
            Some(usage) => chunk_usage(usage, price),
            None => m.usage,
        },
        ..m
    }
}

/// The reply with what a choice says of the usage and of the end.
pub open spec fn choice_taken(
    m: Reply,
    e: Entries,
    choice: Entries,
    price: Pricing,
) -> Reply {
    let counted = if object_at(e, "usage"@) is None {
        match object_at(choice, "usage"@) {
            Some(usage) => Reply { usage: chunk_usage(usage, price), ..m },
            None => m,
        }
    } else {
        m
    };
    match filled_at(choice, "finish_reason"@) {
        Some(reason) => {
            let (stop_reason, error) = stop_reason_of(reason);
            Reply {
                raw_stop_reason: Some(reason),
                stop_reason,
                error_message: if error is Some {
                    error
                } else {
                    counted.error_message
                },
                ..counted
            }
        },
        None => counted,
    }
}

/// Streams what a delta carries: text, thinking, tool calls, and encrypted
/// reasoning.
pub open spec fn delta_streamed(
    p: Progress,
    delta: Entries,
    model: Model,
    properties: Pairs,
    read: spec_fn(Seq<char>) -> Json,
) -> Progress {
    let spoken = match filled_at(delta, "content"@) {
        Some(text) => text_streamed(p, text),
        None => p,
    };
    let thought = match thinking_in(delta) {
        Some((field, text)) => thinking_streamed(spoken, signature_field(model, field), text),
        None => spoken,
    };
    let called = match array_at(delta, "tool_calls"@) {
        Some(list) => calls_streamed(thought, list, properties, read),
        None => thought,
    };
    match array_at(delta, "reasoning_details"@) {
        Some(list) => Progress { memory: details_kept(called.memory, list), ..called },
        None => called,
    }
}

/// What one chunk does.
pub open spec fn chunk_taken(
    p: Progress,
    chunk: Json,
    model: Model,
    properties: Pairs,
    read: spec_fn(Seq<char>) -> Json,
    price: Pricing,
) -> Progress {
    match as_object(chunk) {
        None => p,
        Some(e) => {
            let headed = Progress { reply: head_taken(p.reply, e, model, price), ..p };
            match first_choice(e) {
                None => headed,
                Some(choice) => {
                    let chosen = Progress {
                        reply: choice_taken(headed.reply, e, choice, price),
                        memory: Memory {
                            has_finish_reason: headed.memory.has_finish_reason || filled_at(
                                choice,
                                "finish_reason"@,
                            ) is Some,
                            ..headed.memory
                        },
                        ..headed
                    };
                    match object_at(choice, "delta"@) {
                        Some(delta) => delta_streamed(chosen, delta, model, properties, read),
                        None => chosen,
                    }
                },
            }
        },
    }
}

impl CompletionsStreamState {
    pub fn new() -> (r: Self)
        ensures
            r@ == no_memory(),
    {
        let r = CompletionsStreamState {
            text_block: None,
            thinking_block: None,
            has_finish_reason: false,
            tool_call_blocks_by_index: Vec::new(),
            tool_call_blocks_by_id: Vec::new(),
            pending_reasoning_details_by_tool_call_id: Vec::new(),
        };
        proof {
            assert(r@.by_index =~= Seq::<(u64, Scratch)>::empty());
            assert(r@.by_id =~= Seq::<(Seq<char>, Scratch)>::empty());
            assert(r@.pending =~= Pairs::empty());
        }
        r
    }
}

fn take_head<Q: Fn(Usage) -> UsageCost>(
    output: &mut AssistantMessage,
    e: &Vec<(String, Value)>,
    model: &Model,
    price: &Q,
)
    requires
        is_pricer(*price),
    ensures
        final(output)@ == head_taken(old(output)@, entries(e@), *model, pricing_of(*price)),
{
    if output.response_id.is_none() {
        output.response_id = get_filled(e, "id");
    }
    if let Some(chunk_model) = get_filled(e, "model") {
        if !str_eq(chunk_model.as_str(), model.id.as_str()) && output.response_model.is_none() {
            output.response_model = Some(chunk_model);
        }
    }
    if let Some(usage) = get_object(e, "usage") {
        output.usage = parse_chunk_usage(usage, price);
    }
}

fn take_choice<Q: Fn(Usage) -> UsageCost>(
    output: &mut AssistantMessage,
    e: &Vec<(String, Value)>,
    choice: &Vec<(String, Value)>,
    price: &Q,
) -> (r: bool)
    requires
        is_pricer(*price),
    ensures
        final(output)@ == choice_taken(
            old(output)@,
            entries(e@),
            entries(choice@),
            pricing_of(*price),
        ),
        r == (filled_at(entries(choice@), "finish_reason"@) is Some),
{
    if get_object(e, "usage").is_none() {
        if let Some(usage) = get_object(choice, "usage") {
            output.usage = parse_chunk_usage(usage, price);
        }
    }
    match get_filled(choice, "finish_reason") {
        Some(reason) => {
            let (stop_reason, error_message) = map_stop_reason(reason.as_str());
            output.raw_stop_reason = Some(reason);
            output.stop_reason = stop_reason;
            if error_message.is_some() {
                output.error_message = error_message;
            }
            true
        },
        None => false,
    }
}

fn find_thinking(delta: &Vec<(String, Value)>) -> (r: Option<(&'static str, String)>)
    ensures
        match r {
            Some((field, text)) => thinking_in(entries(delta@)) == Some((field@, text@)),
            None => thinking_in(entries(delta@)) is None,
        },
{
    if let Some(text) = get_filled(delta, "reasoning_content") {
        return Some(("reasoning_content", text));
    }
    if let Some(text) = get_filled(delta, "reasoning") {
        return Some(("reasoning", text));
    }
    if let Some(text) = get_filled(delta, "reasoning_text") {
        return Some(("reasoning_text", text));
    }
    None
}

/// Takes one chunk of a stream. What is to be sent is added to `sent`. Text and
/// thinking stand in the events that stream them, and `state` gathers them; the
/// blocks of `output` stay empty, as they began. Encrypted reasoning, too, is
/// gathered in `state` alone.
#[verifier::rlimit(40)]
pub fn process_chunk<S: Fn(&str) -> Value, Q: Fn(Usage) -> UsageCost>(
    chunk: &Value,
    output: &mut AssistantMessage,
    sent: &mut Vec<AssistantMessageEvent>,
    model: &Model,
    grammar_tool_input_properties: &Vec<(String, String)>,
    state: &mut CompletionsStreamState,
    read: &S,
    price: &Q,
)
    requires
        is_reader(*read),
        is_pricer(*price),
        progress_wf(
            (Progress { reply: old(output)@, sent: events(old(sent)@), memory: old(state)@ }),
        ),
    ensures
        ({
            let after = chunk_taken(
                Progress { reply: old(output)@, sent: events(old(sent)@), memory: old(state)@ },
                chunk@,
                *model,
                pairs(grammar_tool_input_properties@),
                reader_of(*read),
                pricing_of(*price),
            );
            &&& final(output)@ == after.reply
            &&& events(final(sent)@) == after.sent
            &&& final(state)@ == after.memory
            &&& progress_wf(after)
        }),
{
    let e = match chunk.as_object() {
        Some(e) => e,
        None => {
            return ;
        },
    };
    take_head(output, e, model, price);
    let choice = match get_array(e, "choices") {
        Some(choices) => {
            proof {
                assert(items(choices@).len() == choices@.len());
            }
            if choices.len() == 0 {
                return ;
            }
            match choices[0].as_object() {
                Some(choice) => choice,
                None => {
                    return ;
                },
            }
        },
        None => {
            return ;
        },
    };
    if take_choice(output, e, choice, price) {
        state.has_finish_reason = true;
    }
    let delta = match get_object(choice, "delta") {
        Some(delta) => delta,
        None => {
            return ;
        },
    };
    if let Some(text) = get_filled(delta, "content") {
        stream_text(output, sent, state, text.as_str());
    }
    if let Some((field, text)) = find_thinking(delta) {
        let signature = if str_eq(model.provider.as_str(), "opencode-go") && str_eq(
            field,
            "reasoning",
        ) {
            "reasoning_content"
        } else {
            field
        };
        stream_thinking(output, sent, state, signature, text.as_str());
    }
    let ghost before = progress(*output, sent@, *state);
    if let Some(list) = get_array(delta, "tool_calls") {
        stream_calls(list, output, sent, grammar_tool_input_properties, state, read);
        proof {
            lemma_calls_keep_blocks(
                before,
                items(list@),
                pairs(grammar_tool_input_properties@),
                reader_of(*read),
            );
        }
    }
    let ghost called = state@;
    if let Some(list) = get_array(delta, "reasoning_details") {
        keep_details(state, list);
        proof {
            lemma_details_keep_blocks(called, items(list@));
        }
    }
}

/// What one event of a stream does: `[DONE]` and what is no JSON do nothing.
pub open spec fn data_taken(
    p: Progress,
    data: Seq<char>,
    model: Model,
    properties: Pairs,
    parse: spec_fn(Seq<char>) -> Option<Json>,
    read: spec_fn(Seq<char>) -> Json,
    price: Pricing,
) -> Progress {
    if data == "[DONE]"@ {
        p
    } else {
        match parse(data) {
            Some(chunk) => chunk_taken(p, chunk, model, properties, read, price),
            None => p,
        }
    }
}

/// Takes the data of one event of a stream.
pub fn process_data<
    P: Fn(&str) -> Option<Value>,
    S: Fn(&str) -> Value,
    Q: Fn(Usage) -> UsageCost,
>(
    data: &str,
    output: &mut AssistantMessage,
    sent: &mut Vec<AssistantMessageEvent>,
    model: &Model,
    grammar_tool_input_properties: &Vec<(String, String)>,
    state: &mut CompletionsStreamState,
    parse: &P,
    read: &S,
    price: &Q,
)
    requires
        is_parser(*parse),
        is_reader(*read),
        is_pricer(*price),
        progress_wf(
            (Progress { reply: old(output)@, sent: events(old(sent)@), memory: old(state)@ }),
        ),
    ensures
        ({
            let after = data_taken(
                Progress { reply: old(output)@, sent: events(old(sent)@), memory: old(state)@ },
                data@,
                *model,
                pairs(grammar_tool_input_properties@),
                parser_of(*parse),
                reader_of(*read),
                pricing_of(*price),
            );
            &&& final(output)@ == after.reply
            &&& events(final(sent)@) == after.sent
            &&& final(state)@ == after.memory
            &&& progress_wf(after)
        }),
{
    if str_eq(data, "[DONE]") {
        return ;
    }
    if let Some(chunk) = parse_with(parse, data) {
        process_chunk(
            &chunk,
            output,
            sent,
            model,
            grammar_tool_input_properties,
            state,
            read,
            price,
        );
    }
}

proof fn lemma_calls_keep_blocks(
    p: Progress,
    list: Seq<Json>,
    properties: Pairs,
    read: spec_fn(Seq<char>) -> Json,
)
    ensures
        calls_streamed(p, list, properties, read).memory.text == p.memory.text,
        calls_streamed(p, list, properties, read).memory.thinking == p.memory.thinking,
        calls_streamed(p, list, properties, read).memory.has_finish_reason
            == p.memory.has_finish_reason,
        calls_streamed(p, list, properties, read).reply.content.len() >= p.reply.content.len(),
        no_images(p.reply) ==> no_images(calls_streamed(p, list, properties, read).reply),
    decreases list.len(),
{
    if list.len() > 0 {
        lemma_calls_keep_blocks(p, list.drop_last(), properties, read);
    }
}

proof fn lemma_details_keep_blocks(m: Memory, list: Seq<Json>)
    ensures
        details_kept(m, list).text == m.text,
        details_kept(m, list).thinking == m.thinking,
        details_kept(m, list).has_finish_reason == m.has_finish_reason,
    decreases list.len(),
{
    if list.len() > 0 {
        lemma_details_keep_blocks(m, list.drop_last());
    }
}

// ---------------------------------------------------------------------------
// The end of a stream
// ---------------------------------------------------------------------------

/// A block that is to be finished.
enum StreamingBlock {
    Text(TextContent),
    Thinking(ThinkingContent),
    ToolCall(StreamingToolCallBlock),
}

/// A block that is to be finished.
pub enum Ending {
    Text(Seq<char>),
    Thinking(Seq<char>),
    Call(Scratch),
}

impl View for StreamingBlock {
    type V = Ending;

    closed spec fn view(&self) -> Ending {
        match *self {
            StreamingBlock::Text(block) => Ending::Text(block.text@),
            StreamingBlock::Thinking(block) => Ending::Thinking(block.thinking@),
            StreamingBlock::ToolCall(block) => Ending::Call(block@),
        }
    }
}

spec fn endings(s: Seq<StreamingBlock>) -> Seq<Ending> {
    Seq::new(s.len(), |i: int| s[i]@)
}

/// Whether a block of the reply is the one that is to be finished.
pub open spec fn ends(b: Block, e: Ending) -> bool {
    match e {
        Ending::Text(text) => b matches Block::Text(block) && block.text == text,
        Ending::Thinking(text) => b matches Block::Thinking(block) && block.thinking == text,
        Ending::Call(call) => is_call(b, call.call.id),
    }
}

pub open spec fn ending_index(content: Seq<Block>, e: Ending) -> int
    decreases content.len(),
{
    if content.len() == 0 || ends(content[0], e) {
        0
    } else {
        1 + ending_index(content.drop_first(), e)
    }
}

/// The position of the first block that is to be finished, or zero.
pub open spec fn ending_position(m: Reply, e: Ending) -> int {
    let i = ending_index(m.content, e);
    if i < m.content.len() {
        i
    } else {
        0
    }
}

proof fn lemma_ending_index_is(content: Seq<Block>, e: Ending, i: int)
    requires
        0 <= i <= content.len(),
        forall|j: int| 0 <= j < i ==> !ends(#[trigger] content[j], e),
        i < content.len() ==> ends(content[i], e),
    ensures
        ending_index(content, e) == i,
    decreases content.len(),
{
    if i > 0 {
        assert(!ends(content[0], e));
        let rest = content.drop_first();
        assert forall|j: int| 0 <= j < i - 1 implies !ends(#[trigger] rest[j], e) by {
            assert(rest[j] == content[j + 1]);
        }
        lemma_ending_index_is(rest, e, i - 1);
    }
}

/// The first of the calls by index that has an id.
pub open spec fn scratch_of(by_index: Seq<(u64, Scratch)>, id: Seq<char>) -> Option<Scratch>
    decreases by_index.len(),
{
    if by_index.len() == 0 {
        None
    } else if by_index[0].1.call.id == id {
        Some(by_index[0].1)
    } else {
        scratch_of(by_index.drop_first(), id)
    }
}

/// What is to be finished of a block.
pub open spec fn ending_of(b: Block, by_index: Seq<(u64, Scratch)>) -> Ending {
    match b {
        Block::Text(block) => Ending::Text(block.text),
        Block::Thinking(block) => Ending::Thinking(block.thinking),
        Block::ToolCall(call) => match scratch_of(by_index, call.id) {
            Some(scratch) => Ending::Call(scratch),
            None => Ending::Call(Scratch { call, partial_args: None, custom_input: None }),
        },
        Block::Image { .. } => Ending::Text(Seq::empty()),
    }
}

pub open spec fn endings_of(content: Seq<Block>, by_index: Seq<(u64, Scratch)>) -> Seq<Ending> {
    Seq::new(content.len(), |i: int| ending_of(content[i], by_index))
}

/// The reply with the arguments of a call as they were streamed.
pub open spec fn call_settled(
    m: Reply,
    at: int,
    call: Scratch,
    read: spec_fn(Seq<char>) -> Json,
) -> Reply {
    if call.custom_input is None && call.partial_args is Some {
        arguments_set(m, at, read(call.partial_args->0))
    } else {
        m
    }
}

/// What is sent of a custom call that is closed.
pub open spec fn closing_delta(call: Scratch) -> Option<Seq<char>> {
    if call.custom_input is Some {
        custom_taken(call, custom_text(call), true).1
    } else {
        None
    }
}

/// Ends the input of a custom tool.
pub open spec fn call_closed(m: Reply, sent: Seq<Event>, at: int, call: Scratch) -> Seq<Event> {
    match closing_delta(call) {
        Some(delta) => sent.push(Event::ToolCallDelta { content_index: at, delta, partial: m }),
        None => sent,
    }
}

/// Ends the call at `at`: its input is closed and its arguments are settled.
pub open spec fn call_finished(
    m: Reply,
    sent: Seq<Event>,
    at: int,
    call: Scratch,
    read: spec_fn(Seq<char>) -> Json,
) -> (Reply, Seq<Event>) {
    let closed = call_closed(m, sent, at, call);
    let settled = call_settled(m, at, call, read);
    (
        settled,
        match settled.content[at] {
            Block::ToolCall(tool_call) => closed.push(
                Event::ToolCallEnd { content_index: at, tool_call, partial: settled },
            ),
            _ => closed,
        },
    )
}

/// Finishes a block.
pub open spec fn block_finished(
    m: Reply,
    sent: Seq<Event>,
    e: Ending,
    read: spec_fn(Seq<char>) -> Json,
) -> (Reply, Seq<Event>) {
    let at = ending_position(m, e);
    match e {
        Ending::Text(content) => (
            m,
            sent.push(Event::TextEnd { content_index: at, content, partial: m }),
        ),
        Ending::Thinking(content) => (
            m,
            sent.push(Event::ThinkingEnd { content_index: at, content, partial: m }),
        ),
        Ending::Call(call) => call_finished(m, sent, at, call, read),
    }
}

/// Finishes blocks one after another.
pub open spec fn blocks_finished(
    m: Reply,
    sent: Seq<Event>,
    list: Seq<Ending>,
    read: spec_fn(Seq<char>) -> Json,
) -> (Reply, Seq<Event>)
    decreases list.len(),
{
    if list.len() == 0 {
        (m, sent)
    } else {
        let (before, events) = blocks_finished(m, sent, list.drop_last(), read);
        block_finished(before, events, list.last(), read)
    }
}

/// The reply with the stop reason that it has where the provider gives none.
pub open spec fn stop_settled(m: Reply, has_finish_reason: bool, supports: bool) -> Reply {
    if m.stop_reason != StopReason::Aborted && !has_finish_reason && !supports {
        Reply {
            stop_reason: if calls_tool(m) {
                StopReason::ToolUse
            } else {
                StopReason::Stop
            },
            ..m
        }
    } else {
        m
    }
}

/// The error with which a settled reply ends.
pub open spec fn ending_error(m: Reply, has_finish_reason: bool, supports: bool) -> Option<
    Seq<char>,
> {
    if m.stop_reason == StopReason::Aborted {
        Some("Request was aborted"@)
    } else if m.stop_reason == StopReason::Error {
        Some(
            match m.error_message {
                Some(message) => message,
                None => "Provider returned an error stop reason"@,
            },
        )
    } else if (supports && !has_finish_reason) || m.stop_reason == StopReason::Pending {
        Some("Stream ended without finish_reason"@)
    } else {
        None
    }
}

fn find_ending(output: &AssistantMessage, block: &StreamingBlock) -> (r: usize)
    ensures
        r == ending_position(output@, block@),
        output.content@.len() > 0 ==> r < output.content@.len(),
{
    let mut i: usize = 0;
    while i < output.content.len()
        invariant
            i <= output.content@.len(),
            forall|j: int| 0 <= j < i ==> !ends(#[trigger] output@.content[j], block@),
        decreases output.content.len() - i,
    {
        let found = match (&output.content[i], block) {
            (Content::Text(a), StreamingBlock::Text(b)) => str_eq(a.text.as_str(), b.text.as_str()),
            (Content::Thinking(a), StreamingBlock::Thinking(b)) => str_eq(
                a.thinking.as_str(),
                b.thinking.as_str(),
            ),
            (Content::ToolCall(a), StreamingBlock::ToolCall(b)) => str_eq(
                a.id.as_str(),
                b.tool_call.id.as_str(),
            ),
            _ => false,
        };
        proof {
            assert(found == ends(output@.content[i as int], block@));
        }
        if found {
            proof {
                lemma_ending_index_is(output@.content, block@, i as int);
            }
            return i;
        }
        i += 1;
    }
    proof {
        lemma_ending_index_is(output@.content, block@, output@.content.len() as int);
    }
    0
}

fn find_scratch(list: &Vec<(u64, StreamingToolCallBlock)>, id: &str) -> (r: Option<
    StreamingToolCallBlock,
>)
    ensures
        match r {
            Some(block) => scratch_of(indexed(list@), id@) == Some(block@),
            None => scratch_of(indexed(list@), id@) is None,
        },
{
    let mut i: usize = 0;
    proof {
        assert(indexed(list@).skip(0) =~= indexed(list@));
    }
    while i < list.len()
        invariant
            i <= list@.len(),
            scratch_of(indexed(list@), id@) == scratch_of(indexed(list@).skip(i as int), id@),
        decreases list.len() - i,
    {
        proof {
            assert(indexed(list@).skip(i as int)[0] == indexed(list@)[i as int]);
            assert(indexed(list@).skip(i as int).drop_first() =~= indexed(list@).skip(i + 1));
        }
        if str_eq(list[i].1.tool_call.id.as_str(), id) {
            return Some(list[i].1.clone_block());
        }
        i += 1;
    }
    None
}

fn collect_endings(output: &AssistantMessage, state: &CompletionsStreamState) -> (r: Vec<
    StreamingBlock,
>)
    requires
        no_images(output@),
    ensures
        endings(r@) == endings_of(output@.content, state@.by_index),
{
    let mut r: Vec<StreamingBlock> = Vec::new();
    let mut i: usize = 0;
    while i < output.content.len()
        invariant
            i <= output.content@.len(),
            no_images(output@),
            r@.len() == i,
            forall|j: int|
                0 <= j < i ==> (#[trigger] r@[j])@ == ending_of(
                    output@.content[j],
                    state@.by_index,
                ),
        decreases output.content.len() - i,
    {
        let ghost before = r@;
        proof {
            assert(!(output@.content[i as int] is Image));
        }
        let block = match &output.content[i] {
            Content::Text(block) => StreamingBlock::Text(block.clone()),
            Content::Thinking(block) => StreamingBlock::Thinking(block.clone()),
            Content::ToolCall(call) => match find_scratch(
                &state.tool_call_blocks_by_index,
                call.id.as_str(),
            ) {
                Some(block) => StreamingBlock::ToolCall(block),
                None => StreamingBlock::ToolCall(
                    StreamingToolCallBlock {
                        tool_call: call.clone(),
                        partial_args: None,
                        custom_input: None,
                    },
                ),
            },
            Content::Image(_) => StreamingBlock::Text(
                TextContent { text: String::new(), text_signature: None },
            ),
        };
        proof {
            assert(block@ == ending_of(output@.content[i as int], state@.by_index));
        }
        r.push(block);
        proof {
            assert forall|j: int| 0 <= j < i + 1 implies (#[trigger] r@[j])@ == ending_of(
                output@.content[j],
                state@.by_index,
            ) by {
                if j < i {
                    assert(r@[j] == before[j]);
                }
            }
        }
        i += 1;
    }
    proof {
        assert(endings(r@) =~= endings_of(output@.content, state@.by_index));
    }
    r
}

/// Streams the end of the input of a custom tool.
#[verifier::spinoff_prover]
fn close_call(
    call: &StreamingToolCallBlock,
    content_index: usize,
    output: &AssistantMessage,
    sent: &mut Vec<AssistantMessageEvent>,
)
    ensures
        events(final(sent)@) == call_closed(
            output@,
            events(old(sent)@),
            content_index as int,
            call@,
        ),
{
    if call.custom_input.is_some() {
        let current = get_custom_tool_call_input(call);
        let mut scratch = call.clone_block();
        if let Some(delta) = append_custom_tool_call_input(&mut scratch, current.as_str(), true) {
            emit(
                sent,
                AssistantMessageEvent::ToolCallDelta {
                    content_index,
                    delta,
                    partial: output.clone(),
                },
            );
        }
    }
}

#[verifier::spinoff_prover]
fn finish_call<S: Fn(&str) -> Value>(
    call: &StreamingToolCallBlock,
    content_index: usize,
    output: &mut AssistantMessage,
    sent: &mut Vec<AssistantMessageEvent>,
    read: &S,
)
    requires
        is_reader(*read),
        content_index < old(output).content@.len(),
    ensures
        (final(output)@, events(final(sent)@)) == call_finished(
            old(output)@,
            events(old(sent)@),
            content_index as int,
            call@,
            reader_of(*read),
        ),
        final(output).content@.len() == old(output).content@.len(),
{
    close_call(call, content_index, output, sent);
    if !call.custom_input.is_some() {
        if let Some(partial_args) = &call.partial_args {
            output.set_arguments(content_index, read_with(read, partial_args.as_str()));
        }
    }
    if let Content::ToolCall(tool_call) = &output.content[content_index] {
        emit(
            sent,
            AssistantMessageEvent::ToolCallEnd {
                content_index,
                tool_call: tool_call.clone(),
                partial: output.clone(),
            },
        );
    }
}

#[verifier::spinoff_prover]
fn finish_block<S: Fn(&str) -> Value>(
    block: &StreamingBlock,
    output: &mut AssistantMessage,
    sent: &mut Vec<AssistantMessageEvent>,
    read: &S,
)
    requires
        is_reader(*read),
        old(output).content@.len() > 0,
    ensures
        (final(output)@, events(final(sent)@)) == block_finished(
            old(output)@,
            events(old(sent)@),
            block@,
            reader_of(*read),
        ),
        final(output).content@.len() == old(output).content@.len(),
{
    let content_index: usize = find_ending(output, block);
    match block {
        StreamingBlock::Text(text) => {
            emit(
                sent,
                AssistantMessageEvent::TextEnd {
                    content_index,
                    content: text.text.clone(),
                    partial: output.clone(),
                },
            );
        },
        StreamingBlock::Thinking(thinking) => {
            emit(
                sent,
                AssistantMessageEvent::ThinkingEnd {
                    content_index,
                    content: thinking.thinking.clone(),
                    partial: output.clone(),
                },
            );
        },
        StreamingBlock::ToolCall(call) => finish_call(call, content_index, output, sent, read),
    }
}

/// Finishes every block of a reply whose stream is over, settles its stop
/// reason, and says whether it ends well.
pub fn finish_stream<S: Fn(&str) -> Value>(
    output: &mut AssistantMessage,
    sent: &mut Vec<AssistantMessageEvent>,
    state: &CompletionsStreamState,
    compat: &ResolvedOpenAICompletionsCompat,
    read: &S,
) -> (r: Result<(), String>)
    requires
        is_reader(*read),
        no_images(old(output)@),
    ensures
        ({
            let (finished, events_sent) = blocks_finished(
                old(output)@,
                events(old(sent)@),
                endings_of(old(output)@.content, state@.by_index),
                reader_of(*read),
            );
            let supports = compat@.supports_finish_reason;
            let settled = stop_settled(finished, state@.has_finish_reason, supports);
            &&& final(output)@ == settled
            &&& events(final(sent)@) == events_sent
            &&& outcome(r) == ending_error(settled, state@.has_finish_reason, supports)
        }),
{
    let list = collect_endings(output, state);
    proof {
        assert(endings(list@).len() == output.content@.len());
    }
    let mut i: usize = 0;
    while i < list.len()
        invariant
            i <= list@.len(),
            is_reader(*read),
            list@.len() == output.content@.len(),
            (output@, events(sent@)) == blocks_finished(
                old(output)@,
                events(old(sent)@),
                endings(list@).take(i as int),
                reader_of(*read),
            ),
        decreases list.len() - i,
    {
        proof {
            assert(endings(list@).take(i + 1).drop_last() =~= endings(list@).take(i as int));
            assert(endings(list@).take(i + 1).last() == list@[i as int]@);
        }
        finish_block(&list[i], output, sent, read);
        i += 1;
    }
    proof {
        assert(endings(list@).take(list@.len() as int) =~= endings(list@));
    }
    match output.stop_reason {
        StopReason::Aborted => {
            return Err("Request was aborted".to_owned());
        },
        _ => {},
    }
    if !state.has_finish_reason && !compat.supports_finish_reason {
        output.stop_reason = if output.has_tool_call() {
            StopReason::ToolUse
        } else {
            StopReason::Stop
        };
    }
    match output.stop_reason {
        StopReason::Error => {
            return Err(
                match &output.error_message {
                    Some(message) => message.clone(),
                    None => "Provider returned an error stop reason".to_owned(),
                },
            );
        },
        StopReason::Pending => {
            return Err("Stream ended without finish_reason".to_owned());
        },
        _ => {},
    }
    if compat.supports_finish_reason && !state.has_finish_reason {
        return Err("Stream ended without finish_reason".to_owned());
    }
    Ok(())
}

/// A stream that ends well has a stop reason that is no error, and one from the
/// provider wherever the provider gives one.
pub proof fn law_good_end_has_a_reason(m: Reply, has_finish_reason: bool, supports: bool)
    ensures
        ({
            let settled = stop_settled(m, has_finish_reason, supports);
            ending_error(settled, has_finish_reason, supports) is None ==> {
                &&& settled.stop_reason == StopReason::Stop || settled.stop_reason
                    == StopReason::Length || settled.stop_reason == StopReason::ToolUse
                &&& supports ==> has_finish_reason
            }
        }),
{
}

/// A block that is kept: only the arguments of a tool call may change.
pub open spec fn block_kept(before: Block, after: Block) -> bool {
    match before {
        Block::ToolCall(call) => after matches Block::ToolCall(finished) && finished
            == (ToolCallBlock { arguments: finished.arguments, ..call }),
        _ => after == before,
    }
}

pub open spec fn blocks_kept(before: Seq<Block>, after: Seq<Block>) -> bool {
    &&& after.len() == before.len()
    &&& forall|i: int|
        0 <= i < before.len() ==> block_kept(before[i], #[trigger] after[i])
}

/// Finishing the blocks of a reply keeps every block: none is added or taken
/// away, and nothing changes but the arguments of tool calls.
pub proof fn law_finishing_keeps_blocks(
    m: Reply,
    sent: Seq<Event>,
    by_index: Seq<(u64, Scratch)>,
    read: spec_fn(Seq<char>) -> Json,
)
    ensures
        blocks_kept(
            m.content,
            blocks_finished(m, sent, endings_of(m.content, by_index), read).0.content,
        ),
{
    lemma_finishing_keeps_blocks(m, sent, endings_of(m.content, by_index), read);
}

proof fn lemma_finishing_keeps_blocks(
    m: Reply,
    sent: Seq<Event>,
    list: Seq<Ending>,
    read: spec_fn(Seq<char>) -> Json,
)
    requires
        list.len() > 0 ==> m.content.len() > 0,
    ensures
        blocks_kept(m.content, blocks_finished(m, sent, list, read).0.content),
    decreases list.len(),
{
    if list.len() > 0 {
        lemma_finishing_keeps_blocks(m, sent, list.drop_last(), read);
        let (before, events) = blocks_finished(m, sent, list.drop_last(), read);
        let after = block_finished(before, events, list.last(), read).0;
        lemma_ending_in_range(before.content, list.last());
        assert forall|i: int| 0 <= i < m.content.len() implies block_kept(
            m.content[i],
            #[trigger] after.content[i],
        ) by {
            assert(block_kept(m.content[i], before.content[i]));
        }
    }
}

proof fn lemma_ending_in_range(content: Seq<Block>, e: Ending)
    ensures
        0 <= ending_index(content, e) <= content.len(),
    decreases content.len(),
{
    if content.len() > 0 && !ends(content[0], e) {
        lemma_ending_in_range(content.drop_first(), e);
    }
}

} // verus!
