//! The events of a stream, and how they are read from server-sent events.
use vstd::prelude::*;
use vstd::string::*;
use super::sse::{sse_events, AnthropicSseEvent, SseEvent};
use crate::json::{
    as_object, check_with, checked_parser_of, entries, get, get_number, get_number_or_zero,
    get_object, get_str, get_str_or_empty, get_value, is_checked_parser, new_entries, no_entries,
    number_at, number_or_zero, object, object_at, str_at, text_or_empty, Entries, Json, Value,
};
use crate::number::Number;
use crate::text::{cat2, cat4, join, joined, opt_text, str_eq};

verus! {

#[derive(Clone, Copy, Debug, PartialEq, Eq)]
pub struct AnthropicUsage {
    pub input_tokens: Number,
    pub output_tokens: Number,
    pub cache_read_input_tokens: Number,
    pub cache_creation_input_tokens: Number,
    pub ephemeral_1h_input_tokens: Number,
    pub thinking_tokens: Option<Number>,
}

#[derive(Clone, Debug, PartialEq, Eq)]
pub struct AnthropicMessageInfo {
    pub id: String,
    pub usage: Option<AnthropicUsage>,
}

#[derive(Clone, Debug, PartialEq, Eq)]
pub enum AnthropicContentBlockStart {
    Text { text: String },
    Thinking { thinking: String, signature: String },
    RedactedThinking { data: String },
    ToolUse { id: String, name: String, input: Value },
}

#[derive(Clone, Debug, PartialEq, Eq)]
pub enum AnthropicContentBlockDelta {
    TextDelta { text: String },
    ThinkingDelta { thinking: String },
    InputJsonDelta { partial_json: String },
    SignatureDelta { signature: String },
}

#[derive(Clone, Debug, PartialEq, Eq)]
pub enum AnthropicStreamEvent {
    MessageStart { message: AnthropicMessageInfo },
    MessageDelta {
        stop_reason: Option<String>,
        stop_details: Option<String>,
        usage: Option<AnthropicUsage>,
    },
    MessageStop,
    ContentBlockStart { index: Number, content_block: AnthropicContentBlockStart },
    ContentBlockDelta { index: Number, delta: AnthropicContentBlockDelta },
    ContentBlockStop { index: Number },
}

pub enum BlockStart {
    Text(Seq<char>),
    Thinking { thinking: Seq<char>, signature: Seq<char> },
    RedactedThinking(Seq<char>),
    ToolUse { id: Seq<char>, name: Seq<char>, input: Json },
}

pub enum BlockDelta {
    Text(Seq<char>),
    Thinking(Seq<char>),
    InputJson(Seq<char>),
    Signature(Seq<char>),
}

pub enum StreamEvent {
    MessageStart { id: Seq<char>, usage: Option<AnthropicUsage> },
    MessageDelta {
        stop_reason: Option<Seq<char>>,
        stop_details: Option<Seq<char>>,
        usage: Option<AnthropicUsage>,
    },
    MessageStop,
    BlockStart { index: Number, block: BlockStart },
    BlockDelta { index: Number, delta: BlockDelta },
    BlockStop { index: Number },
}

impl View for AnthropicContentBlockStart {
    type V = BlockStart;

    open spec fn view(&self) -> BlockStart {
        match *self {
            AnthropicContentBlockStart::Text { text } => BlockStart::Text(text@),
            AnthropicContentBlockStart::Thinking { thinking, signature } => BlockStart::Thinking {
                thinking: thinking@,
                signature: signature@,
            },
            AnthropicContentBlockStart::RedactedThinking { data } => BlockStart::RedactedThinking(
                data@,
            ),
            AnthropicContentBlockStart::ToolUse { id, name, input } => BlockStart::ToolUse {
                id: id@,
                name: name@,
                input: input@,
            },
        }
    }
}

impl View for AnthropicContentBlockDelta {
    type V = BlockDelta;

    open spec fn view(&self) -> BlockDelta {
        match *self {
            AnthropicContentBlockDelta::TextDelta { text } => BlockDelta::Text(text@),
            AnthropicContentBlockDelta::ThinkingDelta { thinking } => BlockDelta::Thinking(
                thinking@,
            ),
            AnthropicContentBlockDelta::InputJsonDelta { partial_json } => BlockDelta::InputJson(
                partial_json@,
            ),
            AnthropicContentBlockDelta::SignatureDelta { signature } => BlockDelta::Signature(
                signature@,
            ),
        }
    }
}

impl View for AnthropicStreamEvent {
    type V = StreamEvent;

    open spec fn view(&self) -> StreamEvent {
        match *self {
            AnthropicStreamEvent::MessageStart { message } => StreamEvent::MessageStart {
                id: message.id@,
                usage: message.usage,
            },
            AnthropicStreamEvent::MessageDelta { stop_reason, stop_details, usage } => {
                StreamEvent::MessageDelta {
                    stop_reason: opt_text(stop_reason),
                    stop_details: opt_text(stop_details),
                    usage,
                }
            },
            AnthropicStreamEvent::MessageStop => StreamEvent::MessageStop,
            AnthropicStreamEvent::ContentBlockStart { index, content_block } => {
                StreamEvent::BlockStart { index, block: content_block@ }
            },
            AnthropicStreamEvent::ContentBlockDelta { index, delta } => StreamEvent::BlockDelta {
                index,
                delta: delta@,
            },
            AnthropicStreamEvent::ContentBlockStop { index } => StreamEvent::BlockStop { index },
        }
    }
}

pub open spec fn stream_events(s: Seq<AnthropicStreamEvent>) -> Seq<StreamEvent> {
    Seq::new(s.len(), |i: int| s[i]@)
}

// ---------------------------------------------------------------------------
// Parts
// ---------------------------------------------------------------------------

pub open spec fn detail(e: Entries, group: Seq<char>, key: Seq<char>) -> Option<Number> {
    match object_at(e, group) {
        Some(group) => number_at(group, key),
        None => None,
    }
}

pub open spec fn parsed_usage(e: Entries) -> AnthropicUsage {
    AnthropicUsage {
        input_tokens: number_or_zero(number_at(e, "input_tokens"@)),
        output_tokens: number_or_zero(number_at(e, "output_tokens"@)),
        cache_read_input_tokens: number_or_zero(number_at(e, "cache_read_input_tokens"@)),
        cache_creation_input_tokens: number_or_zero(number_at(e, "cache_creation_input_tokens"@)),
        ephemeral_1h_input_tokens: number_or_zero(
            detail(e, "cache_creation"@, "ephemeral_1h_input_tokens"@),
        ),
        thinking_tokens: detail(e, "output_tokens_details"@, "thinking_tokens"@),
    }
}

pub open spec fn opt_usage(e: Option<Entries>) -> Option<AnthropicUsage> {
    match e {
        Some(e) => Some(parsed_usage(e)),
        None => None,
    }
}

pub open spec fn parsed_start(e: Entries) -> Option<BlockStart> {
    match str_at(e, "type"@) {
        None => None,
        Some(kind) => if kind == "text"@ {
            Some(BlockStart::Text(text_or_empty(str_at(e, "text"@))))
        } else if kind == "thinking"@ {
            Some(
                BlockStart::Thinking {
                    thinking: text_or_empty(str_at(e, "thinking"@)),
                    signature: text_or_empty(str_at(e, "signature"@)),
                },
            )
        } else if kind == "redacted_thinking"@ {
            Some(BlockStart::RedactedThinking(text_or_empty(str_at(e, "data"@))))
        } else if kind == "tool_use"@ {
            Some(
                BlockStart::ToolUse {
                    id: text_or_empty(str_at(e, "id"@)),
                    name: text_or_empty(str_at(e, "name"@)),
                    input: match get(e, "input"@) {
                        Some(input) => input,
                        None => Json::Object(no_entries()),
                    },
                },
            )
        } else {
            None
        },
    }
}

pub open spec fn parsed_delta(e: Entries) -> Option<BlockDelta> {
    match str_at(e, "type"@) {
        None => None,
        Some(kind) => if kind == "text_delta"@ {
            Some(BlockDelta::Text(text_or_empty(str_at(e, "text"@))))
        } else if kind == "thinking_delta"@ {
            Some(BlockDelta::Thinking(text_or_empty(str_at(e, "thinking"@))))
        } else if kind == "input_json_delta"@ {
            Some(BlockDelta::InputJson(text_or_empty(str_at(e, "partial_json"@))))
        } else if kind == "signature_delta"@ {
            Some(BlockDelta::Signature(text_or_empty(str_at(e, "signature"@))))
        } else {
            None
        },
    }
}

fn get_detail(e: &Vec<(String, Value)>, group: &str, key: &str) -> (r: Option<Number>)
    ensures
        r == detail(entries(e@), group@, key@),
{
    match get_object(e, group) {
        Some(group) => get_number(group, key),
        None => None,
    }
}

pub fn parse_usage(e: &Vec<(String, Value)>) -> (r: AnthropicUsage)
    ensures
        r == parsed_usage(entries(e@)),
{
    AnthropicUsage {
        input_tokens: get_number_or_zero(e, "input_tokens"),
        output_tokens: get_number_or_zero(e, "output_tokens"),
        cache_read_input_tokens: get_number_or_zero(e, "cache_read_input_tokens"),
        cache_creation_input_tokens: get_number_or_zero(e, "cache_creation_input_tokens"),
        ephemeral_1h_input_tokens: match get_detail(
            e,
            "cache_creation",
            "ephemeral_1h_input_tokens",
        ) {
            Some(n) => n,
            None => Number::zero(),
        },
        thinking_tokens: get_detail(e, "output_tokens_details", "thinking_tokens"),
    }
}

fn find_usage(e: &Vec<(String, Value)>) -> (r: Option<AnthropicUsage>)
    ensures
        r == opt_usage(object_at(entries(e@), "usage"@)),
{
    match get_object(e, "usage") {
        Some(usage) => Some(parse_usage(usage)),
        None => None,
    }
}

fn parse_content_block_start(e: &Vec<(String, Value)>) -> (r: Option<AnthropicContentBlockStart>)
    ensures
        match r {
            Some(start) => parsed_start(entries(e@)) == Some(start@),
            None => parsed_start(entries(e@)) is None,
        },
{
    let kind = match get_str(e, "type") {
        Some(kind) => kind,
        None => {
            return None;
        },
    };
    if str_eq(kind.as_str(), "text") {
        Some(AnthropicContentBlockStart::Text { text: get_str_or_empty(e, "text") })
    } else if str_eq(kind.as_str(), "thinking") {
        Some(
            AnthropicContentBlockStart::Thinking {
                thinking: get_str_or_empty(e, "thinking"),
                signature: get_str_or_empty(e, "signature"),
            },
        )
    } else if str_eq(kind.as_str(), "redacted_thinking") {
        Some(AnthropicContentBlockStart::RedactedThinking { data: get_str_or_empty(e, "data") })
    } else if str_eq(kind.as_str(), "tool_use") {
        let input = match get_value(e, "input") {
            Some(input) => input.clone(),
            None => object(new_entries()),
        };
        Some(
            AnthropicContentBlockStart::ToolUse {
                id: get_str_or_empty(e, "id"),
                name: get_str_or_empty(e, "name"),
                input,
            },
        )
    } else {
        None
    }
}

fn parse_content_block_delta(e: &Vec<(String, Value)>) -> (r: Option<AnthropicContentBlockDelta>)
    ensures
        match r {
            Some(delta) => parsed_delta(entries(e@)) == Some(delta@),
            None => parsed_delta(entries(e@)) is None,
        },
{
    let kind = match get_str(e, "type") {
        Some(kind) => kind,
        None => {
            return None;
        },
    };
    if str_eq(kind.as_str(), "text_delta") {
        Some(AnthropicContentBlockDelta::TextDelta { text: get_str_or_empty(e, "text") })
    } else if str_eq(kind.as_str(), "thinking_delta") {
        Some(
            AnthropicContentBlockDelta::ThinkingDelta { thinking: get_str_or_empty(e, "thinking") },
        )
    } else if str_eq(kind.as_str(), "input_json_delta") {
        Some(
            AnthropicContentBlockDelta::InputJsonDelta {
                partial_json: get_str_or_empty(e, "partial_json"),
            },
        )
    } else if str_eq(kind.as_str(), "signature_delta") {
        Some(
            AnthropicContentBlockDelta::SignatureDelta {
                signature: get_str_or_empty(e, "signature"),
            },
        )
    } else {
        None
    }
}

// ---------------------------------------------------------------------------
// Events
// ---------------------------------------------------------------------------

pub open spec fn is_message_event(name: Seq<char>) -> bool {
    name == "message_start"@ || name == "message_delta"@ || name == "message_stop"@ || name
        == "content_block_start"@ || name == "content_block_delta"@ || name
        == "content_block_stop"@
}

/// What is said of an event that cannot be read.
pub open spec fn parse_error(sse: SseEvent, name: Seq<char>, message: Seq<char>) -> Seq<char> {
    "Could not parse Anthropic SSE event "@ + name + ": "@ + message + ("; data="@ + sse.data
        + "; raw="@ + joined(sse.raw, "\\n"@))
}

pub open spec fn str_in(e: Option<Entries>, key: Seq<char>) -> Option<Seq<char>> {
    match e {
        Some(e) => str_at(e, key),
        None => None,
    }
}

/// The event that an object is, none where its type is not known, or what it
/// lacks.
pub open spec fn read_event(e: Entries) -> Result<Option<StreamEvent>, Seq<char>> {
    let kind = text_or_empty(str_at(e, "type"@));
    let index = number_or_zero(number_at(e, "index"@));
    if kind == "message_start"@ {
        match object_at(e, "message"@) {
            Some(message) => Ok(
                Some(
                    StreamEvent::MessageStart {
                        id: text_or_empty(str_at(message, "id"@)),
                        usage: opt_usage(object_at(message, "usage"@)),
                    },
                ),
            ),
            None => Err("message_start missing message"@),
        }
    } else if kind == "message_delta"@ {
        let delta = object_at(e, "delta"@);
        Ok(
            Some(
                StreamEvent::MessageDelta {
                    stop_reason: str_in(delta, "stop_reason"@),
                    stop_details: str_in(delta, "explanation"@),
                    usage: opt_usage(object_at(e, "usage"@)),
                },
            ),
        )
    } else if kind == "message_stop"@ {
        Ok(Some(StreamEvent::MessageStop))
    } else if kind == "content_block_start"@ {
        match object_at(e, "content_block"@) {
            Some(block) => match parsed_start(block) {
                Some(block) => Ok(Some(StreamEvent::BlockStart { index, block })),
                None => Err("content_block_start missing block"@),
            },
            None => Err("content_block_start missing block"@),
        }
    } else if kind == "content_block_delta"@ {
        match object_at(e, "delta"@) {
            Some(delta) => match parsed_delta(delta) {
                Some(delta) => Ok(Some(StreamEvent::BlockDelta { index, delta })),
                None => Err("content_block_delta missing delta"@),
            },
            None => Err("content_block_delta missing delta"@),
        }
    } else if kind == "content_block_stop"@ {
        Ok(Some(StreamEvent::BlockStop { index }))
    } else {
        Ok(None)
    }
}

/// The event that a server-sent event carries, none where it is not one of a
/// message, or what is wrong with it.
pub open spec fn parsed_event(
    sse: SseEvent,
    parse: spec_fn(Seq<char>) -> Result<Json, Seq<char>>,
) -> Result<Option<StreamEvent>, Seq<char>> {
    let name = text_or_empty(sse.event);
    if name == "error"@ {
        Err(sse.data)
    } else if !is_message_event(name) {
        Ok(None)
    } else {
        match parse(sse.data) {
            Err(message) => Err(parse_error(sse, name, message)),
            Ok(json) => match read_event(
                match as_object(json) {
                    Some(e) => e,
                    None => no_entries(),
                },
            ) {
                Ok(event) => Ok(event),
                Err(message) => Err(parse_error(sse, name, message)),
            },
        }
    }
}

pub open spec fn res_event(r: Result<Option<AnthropicStreamEvent>, String>) -> Result<
    Option<StreamEvent>,
    Seq<char>,
> {
    match r {
        Ok(Some(event)) => Ok(Some(event@)),
        Ok(None) => Ok(None),
        Err(e) => Err(e@),
    }
}

fn make_event(e: &Vec<(String, Value)>) -> (r: Result<Option<AnthropicStreamEvent>, &'static str>)
    ensures
        match r {
            Ok(Some(event)) => read_event(entries(e@)) == Ok::<Option<StreamEvent>, Seq<char>>(
                Some(event@),
            ),
            Ok(None) => read_event(entries(e@)) == Ok::<Option<StreamEvent>, Seq<char>>(None),
            Err(message) => read_event(entries(e@)) == Err::<Option<StreamEvent>, Seq<char>>(
                message@,
            ),
        },
{
    let kind = get_str_or_empty(e, "type");
    let index = get_number_or_zero(e, "index");
    if str_eq(kind.as_str(), "message_start") {
        match get_object(e, "message") {
            Some(message) => Ok(
                Some(
                    AnthropicStreamEvent::MessageStart {
                        message: AnthropicMessageInfo {
                            id: get_str_or_empty(message, "id"),
                            usage: find_usage(message),
                        },
                    },
                ),
            ),
            None => Err("message_start missing message"),
        }
    } else if str_eq(kind.as_str(), "message_delta") {
        let (stop_reason, stop_details) = match get_object(e, "delta") {
            Some(delta) => (get_str(delta, "stop_reason"), get_str(delta, "explanation")),
            None => (None, None),
        };
        Ok(
            Some(
                AnthropicStreamEvent::MessageDelta {
                    stop_reason,
                    stop_details,
                    usage: find_usage(e),
                },
            ),
        )
    } else if str_eq(kind.as_str(), "message_stop") {
        Ok(Some(AnthropicStreamEvent::MessageStop))
    } else if str_eq(kind.as_str(), "content_block_start") {
        match get_object(e, "content_block") {
            Some(block) => match parse_content_block_start(block) {
                Some(content_block) => Ok(
                    Some(AnthropicStreamEvent::ContentBlockStart { index, content_block }),
                ),
                None => Err("content_block_start missing block"),
            },
            None => Err("content_block_start missing block"),
        }
    } else if str_eq(kind.as_str(), "content_block_delta") {
        match get_object(e, "delta") {
            Some(delta) => match parse_content_block_delta(delta) {
                Some(delta) => Ok(Some(AnthropicStreamEvent::ContentBlockDelta { index, delta })),
                None => Err("content_block_delta missing delta"),
            },
            None => Err("content_block_delta missing delta"),
        }
    } else if str_eq(kind.as_str(), "content_block_stop") {
        Ok(Some(AnthropicStreamEvent::ContentBlockStop { index }))
    } else {
        Ok(None)
    }
}

fn names_message_event(name: &str) -> (r: bool)
    ensures
        r == is_message_event(name@),
{
    str_eq(name, "message_start") || str_eq(name, "message_delta") || str_eq(name, "message_stop")
        || str_eq(name, "content_block_start") || str_eq(name, "content_block_delta") || str_eq(
        name,
        "content_block_stop",
    )
}

fn format_parse_error(sse: &AnthropicSseEvent, event_name: &str, message: &str) -> (r: String)
    ensures
        r@ == parse_error(sse@, event_name@, message@),
{
    let head = cat4("Could not parse Anthropic SSE event ", event_name, ": ", message);
    let tail = cat4("; data=", sse.data.as_str(), "; raw=", join(&sse.raw, "\\n").as_str());
    cat2(head.as_str(), tail.as_str())
}

pub fn parse_anthropic_stream_event<C: Fn(&str) -> Result<Value, String>>(
    sse: &AnthropicSseEvent,
    parse: &C,
) -> (r: Result<Option<AnthropicStreamEvent>, String>)
    requires
        is_checked_parser(*parse),
    ensures
        res_event(r) == parsed_event(sse@, checked_parser_of(*parse)),
{
    let event_name = match &sse.event {
        Some(name) => name.clone(),
        None => String::new(),
    };
    if str_eq(event_name.as_str(), "error") {
        return Err(sse.data.clone());
    }
    if !names_message_event(event_name.as_str()) {
        return Ok(None);
    }
    match check_with(parse, sse.data.as_str()) {
        Err(message) => Err(format_parse_error(sse, event_name.as_str(), message.as_str())),
        Ok(json) => {
            let made = match json.as_object() {
                Some(e) => make_event(e),
                None => make_event(&new_entries()),
            };
            match made {
                Ok(event) => Ok(event),
                Err(message) => Err(format_parse_error(sse, event_name.as_str(), message)),
            }
        },
    }
}

/// The events that a list of server-sent events carries, and the last thing that
/// was wrong with any of them.
pub open spec fn events_parsed(
    list: Seq<SseEvent>,
    parse: spec_fn(Seq<char>) -> Result<Json, Seq<char>>,
) -> (Seq<StreamEvent>, Option<Seq<char>>)
    decreases list.len(),
{
    if list.len() == 0 {
        (Seq::empty(), None)
    } else {
        let (events, error) = events_parsed(list.drop_last(), parse);
        match parsed_event(list.last(), parse) {
            Ok(Some(event)) => (events.push(event), error),
            Ok(None) => (events, error),
            Err(e) => (events, Some(e)),
        }
    }
}

/// Reads the events of a stream, or says what was wrong last.
pub fn parse_stream_events<C: Fn(&str) -> Result<Value, String>>(
    list: &Vec<AnthropicSseEvent>,
    parse: &C,
) -> (r: Result<Vec<AnthropicStreamEvent>, String>)
    requires
        is_checked_parser(*parse),
    ensures
        ({
            let (events, error) = events_parsed(sse_events(list@), checked_parser_of(*parse));
            match r {
                Ok(found) => error is None && stream_events(found@) == events,
                Err(e) => error == Some(e@),
            }
        }),
{
    let mut events: Vec<AnthropicStreamEvent> = Vec::new();
    let mut error: Option<String> = None;
    let mut i: usize = 0;
    proof {
        assert(stream_events(events@) =~= Seq::<StreamEvent>::empty());
    }
    while i < list.len()
        invariant
            i <= list@.len(),
            is_checked_parser(*parse),
            (stream_events(events@), opt_text(error)) == events_parsed(
                sse_events(list@).take(i as int),
                checked_parser_of(*parse),
            ),
        decreases list.len() - i,
    {
        proof {
            assert(sse_events(list@).take(i + 1).drop_last() =~= sse_events(list@).take(i as int));
            assert(sse_events(list@).take(i + 1).last() == list@[i as int]@);
        }
        let ghost before = stream_events(events@);
        match parse_anthropic_stream_event(&list[i], parse) {
            Ok(Some(event)) => {
                let ghost view = event@;
                events.push(event);
                proof {
                    assert(stream_events(events@) =~= before.push(view));
                }
            },
            Ok(None) => {},
            Err(e) => {
                error = Some(e);
            },
        }
        i += 1;
    }
    proof {
        assert(sse_events(list@).take(list@.len() as int) =~= sse_events(list@));
    }
    match error {
        Some(e) => Err(e),
        None => Ok(events),
    }
}

} // verus!
