//! The events of an OpenAI Responses stream, and how they build a reply.
use vstd::prelude::*;
use vstd::string::*;
use crate::api::constrained_sampling::{
    append_grammar_tool_input_json_delta, append_step, empty_buffer, find_property,
    GrammarToolInputJsonBuffer, JsonBuffer,
};
use crate::api::openai_responses_shared::{encode_text_signature_v1, text_signature};
use crate::json::{
    array_at, as_object, clone_entries, entries, find_index, find_key, get, get_array,
    get_number_or_zero, get_object, get_str, get_str_or_empty, has_entry, has_key, is_parser,
    is_reader, items, json_stringify, json_text, key_index, lemma_key_index, lemma_key_index_is,
    new_entries, no_entries, number_at, number_or_zero, object, object1, object_at, one_entry,
    parse_with, parser_of, put_str, read_with, reader_of, str_at, string, text_or_empty,
    without_entry, with_entry, Entries, EntriesSpec, Json, Value,
};
use crate::number::{difference, greater, index_value, whole, Number};
use crate::text::{
    borrow_opt, cat2, cat3, cat4, clone_opt, join, joined, opt_text, push_text, skip_chars,
    starts_with, str_eq, texts,
};
use crate::types::{
    arguments_set, calls_tool, emit, events, no_cost, pairs, text_appended, thinking_appended,
    with_block, with_block_at, zero_cost, AssistantMessage, AssistantMessageEvent, Block, Content,
    Event, Reply, StopReason, TextBlock, TextContent, ThinkingBlock, ThinkingContent, ToolCall,
    ToolCallBlock, Usage,
};

verus! {

// ---------------------------------------------------------------------------
// Wire events
// ---------------------------------------------------------------------------

#[derive(Clone, Copy, Debug, PartialEq, Eq, Structural)]
pub struct ResponseUsage {
    pub input_tokens: Number,
    pub output_tokens: Number,
    pub total_tokens: Number,
    pub cached_tokens: Number,
    pub cache_write_tokens: Number,
    pub reasoning_tokens: Number,
}

#[derive(Clone, Debug, PartialEq, Eq)]
pub struct ResponseReasoningItem {
    pub id: Option<String>,
    pub summary: Vec<String>,
    pub content: Vec<String>,
    pub encrypted_content: Option<String>,
    /// The item as it was sent, which becomes the signature.
    pub raw: Value,
}

#[derive(Clone, Debug, PartialEq, Eq)]
pub struct ResponseMessageItem {
    pub id: Option<String>,
    pub phase: Option<String>,
    /// Text and refusal of each part, in order.
    pub content: Vec<(String, String)>,
}

#[derive(Clone, Debug, PartialEq, Eq)]
pub struct ResponseFunctionCallItem {
    pub id: Option<String>,
    pub call_id: String,
    pub name: String,
    pub arguments: String,
    pub namespace: Option<String>,
}

#[derive(Clone, Debug, PartialEq, Eq)]
pub struct ResponseCustomToolCallItem {
    pub id: Option<String>,
    pub call_id: String,
    pub name: String,
    pub input: String,
    pub namespace: Option<String>,
}

#[derive(Clone, Debug, PartialEq, Eq)]
pub enum ResponseOutputItem {
    Reasoning(ResponseReasoningItem),
    Message(ResponseMessageItem),
    FunctionCall(ResponseFunctionCallItem),
    CustomToolCall(ResponseCustomToolCallItem),
}

#[derive(Clone, Debug, PartialEq, Eq)]
pub struct ResponseObject {
    pub id: Option<String>,
    pub status: Option<String>,
    pub usage: Option<ResponseUsage>,
    pub output: Vec<ResponseOutputItem>,
    pub service_tier: Option<String>,
    pub error: Option<(String, String)>,
    pub incomplete_reason: Option<String>,
}

#[derive(Clone, Debug, PartialEq, Eq)]
pub enum ResponseStreamEvent {
    ResponseCreated { response: ResponseObject },
    ResponseOutputItemAdded { output_index: Number, item: ResponseOutputItem },
    ResponseReasoningSummaryTextDelta { output_index: Number, delta: String },
    ResponseReasoningSummaryPartDone { output_index: Number },
    ResponseReasoningTextDelta { output_index: Number, delta: String },
    ResponseOutputTextDelta { output_index: Number, delta: String },
    ResponseRefusalDelta { output_index: Number, delta: String },
    ResponseFunctionCallArgumentsDelta { output_index: Number, delta: String },
    ResponseFunctionCallArgumentsDone { output_index: Number, arguments: String },
    ResponseCustomToolCallInputDelta { output_index: Number, delta: String },
    ResponseCustomToolCallInputDone { output_index: Number, input: String },
    ResponseOutputItemDone { output_index: Number, item: ResponseOutputItem },
    ResponseCompleted { response: ResponseObject },
    ResponseIncomplete { response: ResponseObject },
    ResponseFailed { response: ResponseObject },
    StreamError { code: Option<String>, message: Option<String> },
}

/// What a reasoning item holds.
pub struct ReasoningItem {
    pub id: Option<Seq<char>>,
    pub summary: Seq<Seq<char>>,
    pub content: Seq<Seq<char>>,
    pub encrypted_content: Option<Seq<char>>,
    pub raw: Json,
}

/// What a message item holds.
pub struct MessageItem {
    pub id: Option<Seq<char>>,
    pub phase: Option<Seq<char>>,
    pub content: Seq<(Seq<char>, Seq<char>)>,
}

/// What a tool call item holds; `input` is the arguments of a function or the
/// input of a custom tool.
pub struct CallItem {
    pub id: Option<Seq<char>>,
    pub call_id: Seq<char>,
    pub name: Seq<char>,
    pub input: Seq<char>,
    pub namespace: Option<Seq<char>>,
}

/// What an output item holds.
pub enum OutputItem {
    Reasoning(ReasoningItem),
    Message(MessageItem),
    FunctionCall(CallItem),
    CustomToolCall(CallItem),
}

/// What a response object holds.
pub struct Response {
    pub id: Option<Seq<char>>,
    pub status: Option<Seq<char>>,
    pub usage: Option<ResponseUsage>,
    pub output: Seq<OutputItem>,
    pub service_tier: Option<Seq<char>>,
    pub error: Option<(Seq<char>, Seq<char>)>,
    pub incomplete_reason: Option<Seq<char>>,
}

/// What a wire event holds.
pub enum WireEvent {
    Created(Response),
    ItemAdded(Number, OutputItem),
    SummaryDelta(Number, Seq<char>),
    SummaryPartDone(Number),
    ReasoningDelta(Number, Seq<char>),
    TextDelta(Number, Seq<char>),
    RefusalDelta(Number, Seq<char>),
    ArgumentsDelta(Number, Seq<char>),
    ArgumentsDone(Number, Seq<char>),
    InputDelta(Number, Seq<char>),
    InputDone(Number, Seq<char>),
    ItemDone(Number, OutputItem),
    Completed(Response),
    Incomplete(Response),
    Failed(Response),
    Broken(Option<Seq<char>>, Option<Seq<char>>),
}

impl View for ResponseReasoningItem {
    type V = ReasoningItem;

    open spec fn view(&self) -> ReasoningItem {
        ReasoningItem {
            id: opt_text(self.id),
            summary: texts(self.summary@),
            content: texts(self.content@),
            encrypted_content: opt_text(self.encrypted_content),
            raw: self.raw@,
        }
    }
}

impl View for ResponseMessageItem {
    type V = MessageItem;

    open spec fn view(&self) -> MessageItem {
        MessageItem {
            id: opt_text(self.id),
            phase: opt_text(self.phase),
            content: pairs(self.content@),
        }
    }
}

impl View for ResponseFunctionCallItem {
    type V = CallItem;

    open spec fn view(&self) -> CallItem {
        CallItem {
            id: opt_text(self.id),
            call_id: self.call_id@,
            name: self.name@,
            input: self.arguments@,
            namespace: opt_text(self.namespace),
        }
    }
}

impl View for ResponseCustomToolCallItem {
    type V = CallItem;

    open spec fn view(&self) -> CallItem {
        CallItem {
            id: opt_text(self.id),
            call_id: self.call_id@,
            name: self.name@,
            input: self.input@,
            namespace: opt_text(self.namespace),
        }
    }
}

impl View for ResponseOutputItem {
    type V = OutputItem;

    open spec fn view(&self) -> OutputItem {
        match *self {
            ResponseOutputItem::Reasoning(item) => OutputItem::Reasoning(item@),
            ResponseOutputItem::Message(item) => OutputItem::Message(item@),
            ResponseOutputItem::FunctionCall(item) => OutputItem::FunctionCall(item@),
            ResponseOutputItem::CustomToolCall(item) => OutputItem::CustomToolCall(item@),
        }
    }
}

/// What a list of output items holds.
pub open spec fn output_items(s: Seq<ResponseOutputItem>) -> Seq<OutputItem> {
    Seq::new(s.len(), |i: int| s[i]@)
}

impl View for ResponseObject {
    type V = Response;

    open spec fn view(&self) -> Response {
        Response {
            id: opt_text(self.id),
            status: opt_text(self.status),
            usage: self.usage,
            output: output_items(self.output@),
            service_tier: opt_text(self.service_tier),
            error: match self.error {
                Some((code, message)) => Some((code@, message@)),
                None => None,
            },
            incomplete_reason: opt_text(self.incomplete_reason),
        }
    }
}

impl View for ResponseStreamEvent {
    type V = WireEvent;

    open spec fn view(&self) -> WireEvent {
        match *self {
            ResponseStreamEvent::ResponseCreated { response } => WireEvent::Created(response@),
            ResponseStreamEvent::ResponseOutputItemAdded {
                output_index,
                item,
            } => WireEvent::ItemAdded(output_index, item@),
            ResponseStreamEvent::ResponseReasoningSummaryTextDelta {
                output_index,
                delta,
            } => WireEvent::SummaryDelta(output_index, delta@),
            ResponseStreamEvent::ResponseReasoningSummaryPartDone {
                output_index,
            } => WireEvent::SummaryPartDone(output_index),
            ResponseStreamEvent::ResponseReasoningTextDelta {
                output_index,
                delta,
            } => WireEvent::ReasoningDelta(output_index, delta@),
            ResponseStreamEvent::ResponseOutputTextDelta {
                output_index,
                delta,
            } => WireEvent::TextDelta(output_index, delta@),
            ResponseStreamEvent::ResponseRefusalDelta {
                output_index,
                delta,
            } => WireEvent::RefusalDelta(output_index, delta@),
            ResponseStreamEvent::ResponseFunctionCallArgumentsDelta {
                output_index,
                delta,
            } => WireEvent::ArgumentsDelta(output_index, delta@),
            ResponseStreamEvent::ResponseFunctionCallArgumentsDone {
                output_index,
                arguments,
            } => WireEvent::ArgumentsDone(output_index, arguments@),
            ResponseStreamEvent::ResponseCustomToolCallInputDelta {
                output_index,
                delta,
            } => WireEvent::InputDelta(output_index, delta@),
            ResponseStreamEvent::ResponseCustomToolCallInputDone {
                output_index,
                input,
            } => WireEvent::InputDone(output_index, input@),
            ResponseStreamEvent::ResponseOutputItemDone {
                output_index,
                item,
            } => WireEvent::ItemDone(output_index, item@),
            ResponseStreamEvent::ResponseCompleted { response } => WireEvent::Completed(response@),
            ResponseStreamEvent::ResponseIncomplete { response } => WireEvent::Incomplete(
                response@,
            ),
            ResponseStreamEvent::ResponseFailed { response } => WireEvent::Failed(response@),
            ResponseStreamEvent::StreamError { code, message } => WireEvent::Broken(
                opt_text(code),
                opt_text(message),
            ),
        }
    }
}

/// What a list of wire events holds.
pub open spec fn wire_events(s: Seq<ResponseStreamEvent>) -> Seq<WireEvent> {
    Seq::new(s.len(), |i: int| s[i]@)
}

pub open spec fn item_type_name(item: OutputItem) -> Seq<char> {
    match item {
        OutputItem::Reasoning(_) => "reasoning"@,
        OutputItem::Message(_) => "message"@,
        OutputItem::FunctionCall(_) => "function_call"@,
        OutputItem::CustomToolCall(_) => "custom_tool_call"@,
    }
}

impl ResponseOutputItem {
    pub fn item_type(&self) -> (r: &'static str)
        ensures
            r@ == item_type_name(self@),
    {
        match self {
            ResponseOutputItem::Reasoning(_) => "reasoning",
            ResponseOutputItem::Message(_) => "message",
            ResponseOutputItem::FunctionCall(_) => "function_call",
            ResponseOutputItem::CustomToolCall(_) => "custom_tool_call",
        }
    }
}

// ---------------------------------------------------------------------------
// Parsing
// ---------------------------------------------------------------------------

/// The parts of a message that hold a text or a refusal.
pub open spec fn text_parts(list: Seq<Json>) -> Seq<(Seq<char>, Seq<char>)>
    decreases list.len(),
{
    if list.len() == 0 {
        Seq::empty()
    } else {
        let before = text_parts(list.drop_last());
        match as_object(list.last()) {
            Some(e) => {
                let text = text_or_empty(str_at(e, "text"@));
                let refusal = text_or_empty(str_at(e, "refusal"@));
                if text.len() > 0 || refusal.len() > 0 {
                    before.push((text, refusal))
                } else {
                    before
                }
            },
            None => before,
        }
    }
}

/// The texts of the parts of a reasoning item.
pub open spec fn summary_parts(list: Seq<Json>) -> Seq<Seq<char>>
    decreases list.len(),
{
    if list.len() == 0 {
        Seq::empty()
    } else {
        let before = summary_parts(list.drop_last());
        match as_object(list.last()) {
            Some(e) => match str_at(e, "text"@) {
                Some(text) => before.push(text),
                None => before,
            },
            None => before,
        }
    }
}

pub open spec fn summary_at(e: Entries, key: Seq<char>) -> Seq<Seq<char>> {
    match array_at(e, key) {
        Some(list) => summary_parts(list),
        None => Seq::empty(),
    }
}

pub open spec fn parsed_item(e: Entries) -> Option<OutputItem> {
    match str_at(e, "type"@) {
        Some(kind) => if kind == "reasoning"@ {
            Some(
                OutputItem::Reasoning(
                    ReasoningItem {
                        id: str_at(e, "id"@),
                        summary: summary_at(e, "summary"@),
                        content: summary_at(e, "content"@),
                        encrypted_content: str_at(e, "encrypted_content"@),
                        raw: Json::Object(e),
                    },
                ),
            )
        } else if kind == "message"@ {
            Some(
                OutputItem::Message(
                    MessageItem {
                        id: str_at(e, "id"@),
                        phase: str_at(e, "phase"@),
                        content: match array_at(e, "content"@) {
                            Some(list) => text_parts(list),
                            None => Seq::empty(),
                        },
                    },
                ),
            )
        } else if kind == "function_call"@ {
            Some(OutputItem::FunctionCall(parsed_call(e, "arguments"@)))
        } else if kind == "custom_tool_call"@ {
            Some(OutputItem::CustomToolCall(parsed_call(e, "input"@)))
        } else {
            None
        },
        None => None,
    }
}

pub open spec fn parsed_call(e: Entries, input: Seq<char>) -> CallItem {
    CallItem {
        id: str_at(e, "id"@),
        call_id: text_or_empty(str_at(e, "call_id"@)),
        name: text_or_empty(str_at(e, "name"@)),
        input: text_or_empty(str_at(e, input)),
        namespace: str_at(e, "namespace"@),
    }
}

/// The output items of a list that can be read.
pub open spec fn parsed_items(list: Seq<Json>) -> Seq<OutputItem>
    decreases list.len(),
{
    if list.len() == 0 {
        Seq::empty()
    } else {
        let before = parsed_items(list.drop_last());
        match as_object(list.last()) {
            Some(e) => match parsed_item(e) {
                Some(item) => before.push(item),
                None => before,
            },
            None => before,
        }
    }
}

pub open spec fn detail(e: Option<Entries>, key: Seq<char>) -> Number {
    match e {
        Some(e) => number_or_zero(number_at(e, key)),
        None => whole(0),
    }
}

pub open spec fn parsed_usage(e: Entries) -> ResponseUsage {
    ResponseUsage {
        input_tokens: number_or_zero(number_at(e, "input_tokens"@)),
        output_tokens: number_or_zero(number_at(e, "output_tokens"@)),
        total_tokens: number_or_zero(number_at(e, "total_tokens"@)),
        cached_tokens: detail(object_at(e, "input_tokens_details"@), "cached_tokens"@),
        cache_write_tokens: detail(object_at(e, "input_tokens_details"@), "cache_write_tokens"@),
        reasoning_tokens: detail(object_at(e, "output_tokens_details"@), "reasoning_tokens"@),
    }
}

pub open spec fn parsed_response(e: Entries) -> Response {
    Response {
        id: str_at(e, "id"@),
        status: str_at(e, "status"@),
        usage: match object_at(e, "usage"@) {
            Some(usage) => Some(parsed_usage(usage)),
            None => None,
        },
        output: match array_at(e, "output"@) {
            Some(list) => parsed_items(list),
            None => Seq::empty(),
        },
        service_tier: str_at(e, "service_tier"@),
        error: match object_at(e, "error"@) {
            Some(error) => Some(
                (text_or_empty(str_at(error, "code"@)), text_or_empty(str_at(error, "message"@))),
            ),
            None => None,
        },
        incomplete_reason: match object_at(e, "incomplete_details"@) {
            Some(details) => match str_at(details, "reason"@) {
                Some(reason) => if reason.len() > 0 {
                    Some(reason)
                } else {
                    None
                },
                None => None,
            },
            None => None,
        },
    }
}

fn parse_text_blocks(list: &Vec<Value>) -> (r: Vec<(String, String)>)
    ensures
        pairs(r@) == text_parts(items(list@)),
{
    let mut r: Vec<(String, String)> = Vec::new();
    let mut i: usize = 0;
    proof {
        assert(pairs(r@) =~= Seq::<(Seq<char>, Seq<char>)>::empty());
    }
    while i < list.len()
        invariant
            i <= list@.len(),
            pairs(r@) == text_parts(items(list@).take(i as int)),
        decreases list.len() - i,
    {
        let ghost before = r@;
        proof {
            assert(items(list@).take(i + 1).drop_last() =~= items(list@).take(i as int));
        }
        if let Some(e) = list[i].as_object() {
            let text = get_str_or_empty(e, "text");
            let refusal = get_str_or_empty(e, "refusal");
            if !text.as_str().is_empty() || !refusal.as_str().is_empty() {
                r.push((text, refusal));
                proof {
                    assert(pairs(r@) =~= pairs(before).push((text@, refusal@)));
                }
            }
        }
        i += 1;
    }
    proof {
        assert(items(list@).take(list@.len() as int) =~= items(list@));
    }
    r
}

fn parse_reasoning_summary(list: &Vec<Value>) -> (r: Vec<String>)
    ensures
        texts(r@) == summary_parts(items(list@)),
{
    let mut r: Vec<String> = Vec::new();
    let mut i: usize = 0;
    proof {
        crate::text::lemma_texts_empty();
    }
    while i < list.len()
        invariant
            i <= list@.len(),
            texts(r@) == summary_parts(items(list@).take(i as int)),
        decreases list.len() - i,
    {
        proof {
            assert(items(list@).take(i + 1).drop_last() =~= items(list@).take(i as int));
        }
        if let Some(e) = list[i].as_object() {
            if let Some(text) = get_str(e, "text") {
                push_text(&mut r, text);
            }
        }
        i += 1;
    }
    proof {
        assert(items(list@).take(list@.len() as int) =~= items(list@));
    }
    r
}

fn summary_under(e: &Vec<(String, Value)>, key: &str) -> (r: Vec<String>)
    ensures
        texts(r@) == summary_at(entries(e@), key@),
{
    match get_array(e, key) {
        Some(list) => parse_reasoning_summary(list),
        None => {
            proof {
                crate::text::lemma_texts_empty();
            }
            Vec::new()
        },
    }
}

fn parse_output_item(e: &Vec<(String, Value)>) -> (r: Option<ResponseOutputItem>)
    ensures
        match r {
            Some(item) => parsed_item(entries(e@)) == Some(item@),
            None => parsed_item(entries(e@)) is None,
        },
{
    let kind = match get_str(e, "type") {
        Some(kind) => kind,
        None => {
            return None;
        },
    };
    if str_eq(kind.as_str(), "reasoning") {
        Some(
            ResponseOutputItem::Reasoning(
                ResponseReasoningItem {
                    id: get_str(e, "id"),
                    summary: summary_under(e, "summary"),
                    content: summary_under(e, "content"),
                    encrypted_content: get_str(e, "encrypted_content"),
                    raw: object(clone_entries(e)),
                },
            ),
        )
    } else if str_eq(kind.as_str(), "message") {
        let content = match get_array(e, "content") {
            Some(list) => parse_text_blocks(list),
            None => Vec::new(),
        };
        proof {
            if array_at(entries(e@), "content"@) is None {
                assert(pairs(content@) =~= Seq::<(Seq<char>, Seq<char>)>::empty());
            }
        }
        Some(
            ResponseOutputItem::Message(
                ResponseMessageItem { id: get_str(e, "id"), phase: get_str(e, "phase"), content },
            ),
        )
    } else if str_eq(kind.as_str(), "function_call") {
        Some(
            ResponseOutputItem::FunctionCall(
                ResponseFunctionCallItem {
                    id: get_str(e, "id"),
                    call_id: get_str_or_empty(e, "call_id"),
                    name: get_str_or_empty(e, "name"),
                    arguments: get_str_or_empty(e, "arguments"),
                    namespace: get_str(e, "namespace"),
                },
            ),
        )
    } else if str_eq(kind.as_str(), "custom_tool_call") {
        Some(
            ResponseOutputItem::CustomToolCall(
                ResponseCustomToolCallItem {
                    id: get_str(e, "id"),
                    call_id: get_str_or_empty(e, "call_id"),
                    name: get_str_or_empty(e, "name"),
                    input: get_str_or_empty(e, "input"),
                    namespace: get_str(e, "namespace"),
                },
            ),
        )
    } else {
        None
    }
}

fn parse_output_items(list: &Vec<Value>) -> (r: Vec<ResponseOutputItem>)
    ensures
        output_items(r@) == parsed_items(items(list@)),
{
    let mut r: Vec<ResponseOutputItem> = Vec::new();
    let mut i: usize = 0;
    proof {
        assert(output_items(r@) =~= Seq::<OutputItem>::empty());
    }
    while i < list.len()
        invariant
            i <= list@.len(),
            output_items(r@) == parsed_items(items(list@).take(i as int)),
        decreases list.len() - i,
    {
        let ghost before = r@;
        proof {
            assert(items(list@).take(i + 1).drop_last() =~= items(list@).take(i as int));
        }
        if let Some(e) = list[i].as_object() {
            if let Some(item) = parse_output_item(e) {
                r.push(item);
                proof {
                    assert(output_items(r@) =~= output_items(before).push(item@));
                }
            }
        }
        i += 1;
    }
    proof {
        assert(items(list@).take(list@.len() as int) =~= items(list@));
    }
    r
}

fn detail_number(e: Option<&Vec<(String, Value)>>, key: &str) -> (r: Number)
    ensures
        r == match e {
            Some(e) => number_or_zero(number_at(entries(e@), key@)),
            None => whole(0),
        },
{
    match e {
        Some(e) => get_number_or_zero(e, key),
        None => Number::zero(),
    }
}

fn parse_response(e: &Vec<(String, Value)>) -> (r: ResponseObject)
    ensures
        r@ == parsed_response(entries(e@)),
{
    let usage = match get_object(e, "usage") {
        Some(u) => {
            let input_details = get_object(u, "input_tokens_details");
            let output_details = get_object(u, "output_tokens_details");
            Some(
                ResponseUsage {
                    input_tokens: get_number_or_zero(u, "input_tokens"),
                    output_tokens: get_number_or_zero(u, "output_tokens"),
                    total_tokens: get_number_or_zero(u, "total_tokens"),
                    cached_tokens: detail_number(input_details, "cached_tokens"),
                    cache_write_tokens: detail_number(input_details, "cache_write_tokens"),
                    reasoning_tokens: detail_number(output_details, "reasoning_tokens"),
                },
            )
        },
        None => None,
    };
    let error = match get_object(e, "error") {
        Some(error) => Some(
            (get_str_or_empty(error, "code"), get_str_or_empty(error, "message")),
        ),
        None => None,
    };
    let incomplete_reason = match get_object(e, "incomplete_details") {
        Some(details) => match get_str(details, "reason") {
            Some(reason) => if reason.as_str().is_empty() {
                None
            } else {
                Some(reason)
            },
            None => None,
        },
        None => None,
    };
    let output = match get_array(e, "output") {
        Some(list) => parse_output_items(list),
        None => Vec::new(),
    };
    proof {
        if array_at(entries(e@), "output"@) is None {
            assert(output_items(output@) =~= Seq::<OutputItem>::empty());
        }
    }
    ResponseObject {
        id: get_str(e, "id"),
        status: get_str(e, "status"),
        usage,
        output,
        service_tier: get_str(e, "service_tier"),
        error,
        incomplete_reason,
    }
}

/// Whether the events of a type carry a response.
pub open spec fn carries_response(kind: Seq<char>) -> bool {
    kind == "response.created"@ || kind == "response.completed"@ || kind == "response.incomplete"@
        || kind == "response.failed"@
}

/// Whether the events of a type carry an output item.
pub open spec fn carries_item(kind: Seq<char>) -> bool {
    kind == "response.output_item.added"@ || kind == "response.output_item.done"@
}

pub open spec fn item_at(e: Entries) -> Option<OutputItem> {
    match object_at(e, "item"@) {
        Some(item) => parsed_item(item),
        None => None,
    }
}

/// Whether an event carries what its type calls for.
pub open spec fn is_complete(j: Json) -> bool {
    match as_object(j) {
        Some(e) => match str_at(e, "type"@) {
            Some(kind) => {
                &&& carries_response(kind) ==> object_at(e, "response"@) is Some
                &&& carries_item(kind) ==> item_at(e) is Some
            },
            None => true,
        },
        None => true,
    }
}

/// What a parsed payload says, where it is a known event.
pub open spec fn parsed_event(j: Json) -> Option<WireEvent> {
    match as_object(j) {
        None => None,
        Some(e) => match str_at(e, "type"@) {
            None => None,
            Some(kind) => {
                let index = number_or_zero(number_at(e, "output_index"@));
                let delta = text_or_empty(str_at(e, "delta"@));
                let response = match object_at(e, "response"@) {
                    Some(response) => parsed_response(response),
                    None => parsed_response(no_entries()),
                };
                if kind == "response.created"@ {
                    Some(WireEvent::Created(response))
                } else if kind == "response.output_item.added"@ {
                    Some(WireEvent::ItemAdded(index, item_at(e)->0))
                } else if kind == "response.reasoning_summary_text.delta"@ {
                    Some(WireEvent::SummaryDelta(index, delta))
                } else if kind == "response.reasoning_summary_part.done"@ {
                    Some(WireEvent::SummaryPartDone(index))
                } else if kind == "response.reasoning_text.delta"@ {
                    Some(WireEvent::ReasoningDelta(index, delta))
                } else if kind == "response.output_text.delta"@ {
                    Some(WireEvent::TextDelta(index, delta))
                } else if kind == "response.refusal.delta"@ {
                    Some(WireEvent::RefusalDelta(index, delta))
                } else if kind == "response.function_call_arguments.delta"@ {
                    Some(WireEvent::ArgumentsDelta(index, delta))
                } else if kind == "response.function_call_arguments.done"@ {
                    Some(
                        WireEvent::ArgumentsDone(index, text_or_empty(str_at(e, "arguments"@))),
                    )
                } else if kind == "response.custom_tool_call_input.delta"@ {
                    Some(WireEvent::InputDelta(index, delta))
                } else if kind == "response.custom_tool_call_input.done"@ {
                    Some(WireEvent::InputDone(index, text_or_empty(str_at(e, "input"@))))
                } else if kind == "response.output_item.done"@ {
                    Some(WireEvent::ItemDone(index, item_at(e)->0))
                } else if kind == "response.completed"@ {
                    Some(WireEvent::Completed(response))
                } else if kind == "response.incomplete"@ {
                    Some(WireEvent::Incomplete(response))
                } else if kind == "response.failed"@ {
                    Some(WireEvent::Failed(response))
                } else if kind == "error"@ {
                    Some(WireEvent::Broken(str_at(e, "code"@), str_at(e, "message"@)))
                } else {
                    None
                }
            },
        },
    }
}

/// What a payload says, where it can be parsed and is a known event.
pub open spec fn parsed_payload(j: Option<Json>) -> Option<WireEvent> {
    match j {
        Some(j) => parsed_event(j),
        None => None,
    }
}

/// Whether an event carries the response or the item that its type calls for.
pub fn event_is_complete(value: &Value) -> (r: bool)
    ensures
        r == is_complete(value@),
{
    let e = match value.as_object() {
        Some(e) => e,
        None => {
            return true;
        },
    };
    let kind = match get_str(e, "type") {
        Some(kind) => kind,
        None => {
            return true;
        },
    };
    let kind = kind.as_str();
    if str_eq(kind, "response.created") || str_eq(kind, "response.completed") || str_eq(
        kind,
        "response.incomplete",
    ) || str_eq(kind, "response.failed") {
        proof {
            lemma_event_names_differ();
        }
        return get_object(e, "response").is_some();
    }
    if str_eq(kind, "response.output_item.added") || str_eq(kind, "response.output_item.done") {
        return match get_object(e, "item") {
            Some(item) => parse_output_item(item).is_some(),
            None => false,
        };
    }
    true
}

proof fn lemma_event_names_differ()
    ensures
        forall|kind: Seq<char>| !(carries_response(kind) && carries_item(kind)),
{
    reveal_strlit("response.created");
    reveal_strlit("response.completed");
    reveal_strlit("response.incomplete");
    reveal_strlit("response.failed");
    reveal_strlit("response.output_item.added");
    reveal_strlit("response.output_item.done");
    assert forall|kind: Seq<char>| !(carries_response(kind) && carries_item(kind)) by {
        if carries_response(kind) && carries_item(kind) {
            assert(kind.len() == "response.created"@.len() || kind.len()
                == "response.completed"@.len() || kind.len() == "response.incomplete"@.len()
                || kind.len() == "response.failed"@.len());
        }
    }
}

fn response_under(e: &Vec<(String, Value)>) -> (r: ResponseObject)
    ensures
        r@ == match object_at(entries(e@), "response"@) {
            Some(response) => parsed_response(response),
            None => parsed_response(no_entries()),
        },
{
    match get_object(e, "response") {
        Some(response) => parse_response(response),
        None => parse_response(&new_entries()),
    }
}

/// Reads one event from its parsed payload.
pub fn parse_event_value(value: &Value) -> (r: Option<ResponseStreamEvent>)
    requires
        is_complete(value@),
    ensures
        match r {
            Some(event) => parsed_event(value@) == Some(event@),
            None => parsed_event(value@) is None,
        },
{
    let e = match value.as_object() {
        Some(e) => e,
        None => {
            return None;
        },
    };
    let kind = match get_str(e, "type") {
        Some(kind) => kind,
        None => {
            return None;
        },
    };
    let kind = kind.as_str();
    let output_index = get_number_or_zero(e, "output_index");
    let delta = get_str_or_empty(e, "delta");
    if str_eq(kind, "response.created") {
        return Some(ResponseStreamEvent::ResponseCreated { response: response_under(e) });
    }
    if str_eq(kind, "response.output_item.added") {
        return match get_object(e, "item") {
            Some(item) => match parse_output_item(item) {
                Some(item) => Some(
                    ResponseStreamEvent::ResponseOutputItemAdded { output_index, item },
                ),
                None => None,
            },
            None => None,
        };
    }
    if str_eq(kind, "response.reasoning_summary_text.delta") {
        return Some(
            ResponseStreamEvent::ResponseReasoningSummaryTextDelta { output_index, delta },
        );
    }
    if str_eq(kind, "response.reasoning_summary_part.done") {
        return Some(ResponseStreamEvent::ResponseReasoningSummaryPartDone { output_index });
    }
    if str_eq(kind, "response.reasoning_text.delta") {
        return Some(ResponseStreamEvent::ResponseReasoningTextDelta { output_index, delta });
    }
    if str_eq(kind, "response.output_text.delta") {
        return Some(ResponseStreamEvent::ResponseOutputTextDelta { output_index, delta });
    }
    if str_eq(kind, "response.refusal.delta") {
        return Some(ResponseStreamEvent::ResponseRefusalDelta { output_index, delta });
    }
    if str_eq(kind, "response.function_call_arguments.delta") {
        return Some(
            ResponseStreamEvent::ResponseFunctionCallArgumentsDelta { output_index, delta },
        );
    }
    if str_eq(kind, "response.function_call_arguments.done") {
        return Some(
            ResponseStreamEvent::ResponseFunctionCallArgumentsDone {
                output_index,
                arguments: get_str_or_empty(e, "arguments"),
            },
        );
    }
    if str_eq(kind, "response.custom_tool_call_input.delta") {
        return Some(ResponseStreamEvent::ResponseCustomToolCallInputDelta { output_index, delta });
    }
    if str_eq(kind, "response.custom_tool_call_input.done") {
        return Some(
            ResponseStreamEvent::ResponseCustomToolCallInputDone {
                output_index,
                input: get_str_or_empty(e, "input"),
            },
        );
    }
    if str_eq(kind, "response.output_item.done") {
        return match get_object(e, "item") {
            Some(item) => match parse_output_item(item) {
                Some(item) => Some(
                    ResponseStreamEvent::ResponseOutputItemDone { output_index, item },
                ),
                None => None,
            },
            None => None,
        };
    }
    if str_eq(kind, "response.completed") {
        return Some(ResponseStreamEvent::ResponseCompleted { response: response_under(e) });
    }
    if str_eq(kind, "response.incomplete") {
        return Some(ResponseStreamEvent::ResponseIncomplete { response: response_under(e) });
    }
    if str_eq(kind, "response.failed") {
        return Some(ResponseStreamEvent::ResponseFailed { response: response_under(e) });
    }
    if str_eq(kind, "error") {
        return Some(
            ResponseStreamEvent::StreamError {
                code: get_str(e, "code"),
                message: get_str(e, "message"),
            },
        );
    }
    None
}

/// Reads one event from the payload of a server-sent event.
pub fn parse_stream_event<F: Fn(&str) -> Option<Value>>(data: &str, parse: &F) -> (r: Option<
    ResponseStreamEvent,
>)
    requires
        is_parser(*parse),
        parser_of(*parse)(data@) matches Some(j) ==> is_complete(j),
    ensures
        match r {
            Some(event) => parsed_payload(parser_of(*parse)(data@)) == Some(event@),
            None => parsed_payload(parser_of(*parse)(data@)) is None,
        },
{
    match parse_with(parse, data) {
        Some(value) => parse_event_value(&value),
        None => None,
    }
}

// ---------------------------------------------------------------------------
// The state of a stream
// ---------------------------------------------------------------------------

/// The input of a custom tool as far as it has been streamed.
#[derive(Clone, Debug, PartialEq, Eq)]
struct CustomInputState {
    property: String,
    json_buffer: GrammarToolInputJsonBuffer,
}

/// What an output index of the stream stands for: a block of the reply, by its
/// position, with what a tool call needs while it is streamed.
#[derive(Clone, Debug, PartialEq, Eq)]
enum ResponsesOutputSlot {
    Thinking { content_index: usize },
    Text { content_index: usize },
    ToolCall {
        content_index: usize,
        partial_json: Option<String>,
        custom_input: Option<CustomInputState>,
    },
}

/// What the processing of a stream remembers between two events.
struct ResponsesStreamState {
    saw_terminal_response_event: bool,
    output_slots: Vec<(u64, ResponsesOutputSlot)>,
    /// Where the block of each finished reasoning item stands in the reply.
    reasoning_blocks_by_id: Vec<(String, usize)>,
}

/// What the input of a custom tool holds.
pub struct CustomInput {
    pub property: Seq<char>,
    pub buffer: JsonBuffer,
}

/// What a slot holds.
pub enum Slot {
    Thinking(int),
    Text(int),
    ToolCall(int, Option<Seq<char>>, Option<CustomInput>),
}

/// How far a stream has come: the reply, the events sent, and what is
/// remembered.
pub struct Progress {
    pub reply: Reply,
    pub sent: Seq<Event>,
    pub slots: Seq<(u64, Slot)>,
    pub reasoning: Seq<(Seq<char>, int)>,
    pub terminal: bool,
}

impl View for CustomInputState {
    type V = CustomInput;

    closed spec fn view(&self) -> CustomInput {
        CustomInput { property: self.property@, buffer: self.json_buffer@ }
    }
}

impl View for ResponsesOutputSlot {
    type V = Slot;

    closed spec fn view(&self) -> Slot {
        match *self {
            ResponsesOutputSlot::Thinking { content_index } => Slot::Thinking(
                content_index as int,
            ),
            ResponsesOutputSlot::Text { content_index } => Slot::Text(content_index as int),
            ResponsesOutputSlot::ToolCall {
                content_index,
                partial_json,
                custom_input,
            } => Slot::ToolCall(
                content_index as int,
                opt_text(partial_json),
                match custom_input {
                    Some(custom_input) => Some(custom_input@),
                    None => None,
                },
            ),
        }
    }
}

spec fn slots(s: Seq<(u64, ResponsesOutputSlot)>) -> Seq<(u64, Slot)> {
    Seq::new(s.len(), |i: int| (s[i].0, s[i].1@))
}

spec fn reasoning_blocks(s: Seq<(String, usize)>) -> Seq<(Seq<char>, int)> {
    Seq::new(s.len(), |i: int| (s[i].0@, s[i].1 as int))
}

spec fn progress(
    output: AssistantMessage,
    sent: Seq<AssistantMessageEvent>,
    state: ResponsesStreamState,
) -> Progress {
    Progress {
        reply: output@,
        sent: events(sent),
        slots: slots(state.output_slots@),
        reasoning: reasoning_blocks(state.reasoning_blocks_by_id@),
        terminal: state.saw_terminal_response_event,
    }
}

/// The position of the block that a slot stands for.
pub open spec fn slot_block(slot: Slot) -> int {
    match slot {
        Slot::Thinking(i) => i,
        Slot::Text(i) => i,
        Slot::ToolCall(i, _, _) => i,
    }
}

/// Whether every position that is remembered is one of the first `n`.
pub open spec fn all_below(reasoning: Seq<(Seq<char>, int)>, n: int) -> bool {
    forall|k: int| 0 <= k < reasoning.len() ==> 0 <= (#[trigger] reasoning[k]).1 < n
}

/// Every slot, and every reasoning item that is remembered, stands for a block
/// that is there.
pub open spec fn progress_wf(p: Progress) -> bool {
    &&& forall|k: int|
        0 <= k < p.slots.len() ==> 0 <= slot_block((#[trigger] p.slots[k]).1)
            < p.reply.content.len()
    &&& all_below(p.reasoning, p.reply.content.len() as int)
}

// ---------------------------------------------------------------------------
// What each event does
// ---------------------------------------------------------------------------

pub open spec fn send(p: Progress, e: Event) -> Progress {
    Progress { sent: p.sent.push(e), ..p }
}

/// The id of a tool call: the id of the call and that of the item.
pub open spec fn call_block_id(item: CallItem) -> Seq<char> {
    item.call_id + "|"@ + text_or_empty(item.id)
}

/// The property that takes the input of a custom tool.
pub open spec fn input_property(properties: Seq<(Seq<char>, Seq<char>)>, name: Seq<char>) -> Seq<
    char,
> {
    match get(properties, name) {
        Some(property) => property,
        None => "input"@,
    }
}

/// Begins the block of an output item.
pub open spec fn slot_created(
    p: Progress,
    index: u64,
    item: OutputItem,
    properties: Seq<(Seq<char>, Seq<char>)>,
) -> Progress {
    let i = p.reply.content.len() as int;
    match item {
        OutputItem::Reasoning(_) => {
            let reply = with_block(
                p.reply,
                Block::Thinking(
                    ThinkingBlock {
                        thinking: Seq::empty(),
                        thinking_signature: None,
                        redacted: None,
                    },
                ),
            );
            Progress {
                reply,
                slots: with_entry(p.slots, index, Slot::Thinking(i)),
                sent: p.sent.push(Event::ThinkingStart { content_index: i, partial: reply }),
                ..p
            }
        },
        OutputItem::Message(_) => {
            let reply = with_block(
                p.reply,
                Block::Text(TextBlock { text: Seq::empty(), text_signature: None }),
            );
            Progress {
                reply,
                slots: with_entry(p.slots, index, Slot::Text(i)),
                sent: p.sent.push(Event::TextStart { content_index: i, partial: reply }),
                ..p
            }
        },
        OutputItem::FunctionCall(call) => {
            let reply = with_block(
                p.reply,
                Block::ToolCall(
                    ToolCallBlock {
                        id: call_block_id(call),
                        name: call.name,
                        arguments: Json::Object(no_entries()),
                        thought_signature: None,
                        namespace: call.namespace,
                    },
                ),
            );
            Progress {
                reply,
                slots: with_entry(p.slots, index, Slot::ToolCall(i, Some(call.input), None)),
                sent: p.sent.push(Event::ToolCallStart { content_index: i, partial: reply }),
                ..p
            }
        },
        OutputItem::CustomToolCall(call) => {
            let property = input_property(properties, call.name);
            let reply = with_block(
                p.reply,
                Block::ToolCall(
                    ToolCallBlock {
                        id: call_block_id(call),
                        name: call.name,
                        arguments: one_entry(property, Json::Str(call.input)),
                        thought_signature: None,
                        namespace: call.namespace,
                    },
                ),
            );
            Progress {
                reply,
                slots: with_entry(
                    p.slots,
                    index,
                    Slot::ToolCall(i, None, Some(CustomInput { property, buffer: empty_buffer() })),
                ),
                sent: p.sent.push(Event::ToolCallStart { content_index: i, partial: reply }),
                ..p
            }
        },
    }
}

/// Adds to the thinking of a slot.
pub open spec fn thinking_streamed(p: Progress, index: u64, delta: Seq<char>) -> Progress {
    match get(p.slots, index) {
        Some(Slot::Thinking(i)) => if p.reply.content[i] is Thinking {
            let reply = thinking_appended(p.reply, i, delta);
            Progress {
                reply,
                sent: p.sent.push(Event::ThinkingDelta { content_index: i, delta, partial: reply }),
                ..p
            }
        } else {
            p
        },
        _ => p,
    }
}

/// Adds to the text of a slot.
pub open spec fn text_streamed(p: Progress, index: u64, delta: Seq<char>) -> Progress {
    match get(p.slots, index) {
        Some(Slot::Text(i)) => if p.reply.content[i] is Text {
            let reply = text_appended(p.reply, i, delta);
            Progress {
                reply,
                sent: p.sent.push(Event::TextDelta { content_index: i, delta, partial: reply }),
                ..p
            }
        } else {
            p
        },
        _ => p,
    }
}

/// Adds to the arguments of a function call.
pub open spec fn arguments_streamed(
    p: Progress,
    index: u64,
    delta: Seq<char>,
    read: spec_fn(Seq<char>) -> Json,
) -> Progress {
    match get(p.slots, index) {
        Some(Slot::ToolCall(i, Some(partial), custom)) => {
            let whole_text = partial + delta;
            let reply = arguments_set(p.reply, i, read(whole_text));
            Progress {
                reply,
                slots: with_entry(p.slots, index, Slot::ToolCall(i, Some(whole_text), custom)),
                sent: p.sent.push(Event::ToolCallDelta { content_index: i, delta, partial: reply }),
                ..p
            }
        },
        _ => p,
    }
}

/// Takes the whole arguments of a function call; what has not been streamed yet
/// is streamed now.
pub open spec fn arguments_finished(
    p: Progress,
    index: u64,
    arguments: Seq<char>,
    read: spec_fn(Seq<char>) -> Json,
) -> Progress {
    match get(p.slots, index) {
        Some(Slot::ToolCall(i, Some(previous), custom)) => {
            let reply = arguments_set(p.reply, i, read(arguments));
            let after = Progress {
                reply,
                slots: with_entry(p.slots, index, Slot::ToolCall(i, Some(arguments), custom)),
                ..p
            };
            if previous.is_prefix_of(arguments) && arguments.len() > previous.len() {
                send(
                    after,
                    Event::ToolCallDelta {
                        content_index: i,
                        delta: arguments.skip(previous.len() as int),
                        partial: reply,
                    },
                )
            } else {
                after
            }
        },
        _ => p,
    }
}

/// The string under a key of the arguments of the tool call at `i`.
pub open spec fn argument_text(m: Reply, i: int, key: Seq<char>) -> Seq<char> {
    match m.content[i] {
        Block::ToolCall(call) => match call.arguments {
            Json::Object(e) => text_or_empty(str_at(e, key)),
            _ => Seq::empty(),
        },
        _ => Seq::empty(),
    }
}

/// Takes the input of a custom tool as it is known now; what the JSON buffer
/// gives is streamed.
pub open spec fn input_taken(p: Progress, index: u64, input: Seq<char>, close: bool) -> Progress {
    match get(p.slots, index) {
        Some(Slot::ToolCall(i, partial, Some(custom))) => {
            let (buffer, result) = append_step(custom.buffer, custom.property, input, close);
            let kept = with_entry(
                p.slots,
                index,
                Slot::ToolCall(i, partial, Some(CustomInput { buffer, ..custom })),
            );
            match result {
                Ok(Some(delta)) => {
                    let reply = arguments_set(
                        p.reply,
                        i,
                        one_entry(custom.property, Json::Str(input)),
                    );
                    Progress {
                        reply,
                        slots: kept,
                        sent: p.sent.push(
                            Event::ToolCallDelta { content_index: i, delta, partial: reply },
                        ),
                        ..p
                    }
                },
                _ => Progress { slots: kept, ..p },
            }
        },
        _ => p,
    }
}

/// Adds to the input of a custom tool.
pub open spec fn input_streamed(p: Progress, index: u64, delta: Seq<char>) -> Progress {
    match get(p.slots, index) {
        Some(Slot::ToolCall(i, _, Some(custom))) => input_taken(
            p,
            index,
            argument_text(p.reply, i, custom.property) + delta,
            false,
        ),
        _ => p,
    }
}

/// A final answer ends the turn.
pub open spec fn phase_applied(m: Reply, item: OutputItem) -> Reply {
    match item {
        OutputItem::Message(message) => if message.phase == Some("final_answer"@) {
            Reply { stop_reason: StopReason::Stop, ..m }
        } else {
            m
        },
        _ => m,
    }
}

/// The text of each part of a message, its refusal where it has no text.
pub open spec fn message_text(parts: Seq<(Seq<char>, Seq<char>)>) -> Seq<char>
    decreases parts.len(),
{
    if parts.len() == 0 {
        Seq::empty()
    } else {
        message_text(parts.drop_last()) + (if parts.last().0.len() > 0 {
            parts.last().0
        } else {
            parts.last().1
        })
    }
}

/// The thinking of a finished reasoning item: its summary, else its content,
/// else what has been streamed.
pub open spec fn final_thinking(item: ReasoningItem, streamed: Seq<char>) -> Seq<char> {
    let summary = joined(item.summary, "\n\n"@);
    let content = joined(item.content, "\n\n"@);
    if summary.len() > 0 {
        summary
    } else if content.len() > 0 {
        content
    } else {
        streamed
    }
}

pub open spec fn namespace_kept(item: CallItem, call: ToolCallBlock) -> Option<Seq<char>> {
    if item.namespace is Some {
        item.namespace
    } else {
        call.namespace
    }
}

/// Ends the block of an output item.
pub open spec fn item_finished(
    p: Progress,
    index: u64,
    item: OutputItem,
    properties: Seq<(Seq<char>, Seq<char>)>,
    read: spec_fn(Seq<char>) -> Json,
) -> Progress {
    let phased = Progress { reply: phase_applied(p.reply, item), ..p };
    let begun = if get(phased.slots, index) is None {
        slot_created(phased, index, item, properties)
    } else {
        phased
    };
    let slot = get(begun.slots, index);
    let freed = Progress { slots: without_entry(begun.slots, index), ..begun };
    match item {
        OutputItem::Reasoning(reasoning) => match slot {
            Some(Slot::Thinking(i)) => reasoning_finished(freed, i, reasoning),
            _ => freed,
        },
        OutputItem::Message(message) => match slot {
            Some(Slot::Text(i)) => message_finished(freed, i, message),
            _ => freed,
        },
        OutputItem::FunctionCall(call) => match slot {
            Some(Slot::ToolCall(i, Some(partial), _)) => function_call_finished(
                freed,
                i,
                call,
                partial,
                read,
            ),
            _ => freed,
        },
        OutputItem::CustomToolCall(call) => match slot {
            Some(Slot::ToolCall(i, _, Some(custom))) => custom_call_finished(
                freed,
                i,
                call,
                custom,
            ),
            _ => freed,
        },
    }
}

pub open spec fn reasoning_finished(p: Progress, i: int, item: ReasoningItem) -> Progress {
    match p.reply.content[i] {
        Block::Thinking(block) => {
            let thinking = final_thinking(item, block.thinking);
            let block = ThinkingBlock {
                thinking,
                thinking_signature: Some(json_text(item.raw)),
                ..block
            };
            let reply = with_block_at(p.reply, i, Block::Thinking(block));
            Progress {
                reply,
                reasoning: match item.id {
                    Some(id) => with_entry(p.reasoning, id, i),
                    None => p.reasoning,
                },
                sent: p.sent.push(
                    Event::ThinkingEnd { content_index: i, content: thinking, partial: reply },
                ),
                ..p
            }
        },
        _ => send(
            p,
            Event::ThinkingEnd { content_index: i, content: Seq::empty(), partial: p.reply },
        ),
    }
}

pub open spec fn message_finished(p: Progress, i: int, item: MessageItem) -> Progress {
    match p.reply.content[i] {
        Block::Text(block) => {
            let text = message_text(item.content);
            let reply = with_block_at(
                p.reply,
                i,
                Block::Text(
                    TextBlock {
                        text,
                        text_signature: Some(text_signature(text_or_empty(item.id), item.phase)),
                    },
                ),
            );
            Progress {
                reply,
                sent: p.sent.push(
                    Event::TextEnd { content_index: i, content: text, partial: reply },
                ),
                ..p
            }
        },
        _ => send(
            p,
            Event::TextEnd { content_index: i, content: Seq::empty(), partial: p.reply },
        ),
    }
}

pub open spec fn function_call_finished(
    p: Progress,
    i: int,
    item: CallItem,
    partial: Seq<char>,
    read: spec_fn(Seq<char>) -> Json,
) -> Progress {
    match p.reply.content[i] {
        Block::ToolCall(call) => {
            let call = ToolCallBlock {
                arguments: read(
                    if item.input.len() > 0 {
                        item.input
                    } else {
                        partial
                    },
                ),
                namespace: namespace_kept(item, call),
                ..call
            };
            let reply = with_block_at(p.reply, i, Block::ToolCall(call));
            Progress {
                reply,
                sent: p.sent.push(
                    Event::ToolCallEnd { content_index: i, tool_call: call, partial: reply },
                ),
                ..p
            }
        },
        _ => p,
    }
}

pub open spec fn custom_call_finished(
    p: Progress,
    i: int,
    item: CallItem,
    custom: CustomInput,
) -> Progress {
    let input = if item.input.len() > 0 {
        item.input
    } else {
        argument_text(p.reply, i, "input"@)
    };
    let (_, result) = append_step(custom.buffer, custom.property, input, true);
    let closed = match result {
        Ok(Some(delta)) => {
            let reply = arguments_set(p.reply, i, one_entry(custom.property, Json::Str(input)));
            Progress {
                reply,
                sent: p.sent.push(Event::ToolCallDelta { content_index: i, delta, partial: reply }),
                ..p
            }
        },
        _ => p,
    };
    match closed.reply.content[i] {
        Block::ToolCall(call) => {
            let call = ToolCallBlock { namespace: namespace_kept(item, call), ..call };
            let reply = with_block_at(closed.reply, i, Block::ToolCall(call));
            Progress {
                reply,
                sent: closed.sent.push(
                    Event::ToolCallEnd { content_index: i, tool_call: call, partial: reply },
                ),
                ..closed
            }
        },
        _ => closed,
    }
}

// ---------------------------------------------------------------------------
// The end of a response
// ---------------------------------------------------------------------------

/// The stop reason that a status stands for, and the error that goes with it.
pub open spec fn stop_reason_of(status: Option<Seq<char>>, incomplete: Option<Seq<char>>) -> (
    StopReason,
    Option<Seq<char>>,
) {
    match status {
        None => (StopReason::Stop, None),
        Some(status) => if status == "completed"@ {
            (StopReason::Stop, None)
        } else if status == "incomplete"@ {
            if incomplete == Some("max_output_tokens"@) {
                (StopReason::Length, None)
            } else {
                (
                    StopReason::Error,
                    Some(
                        match incomplete {
                            Some(reason) => "Response incomplete: "@ + reason,
                            None => "Response incomplete without a provider reason"@,
                        },
                    ),
                )
            }
        } else if status == "failed"@ || status == "cancelled"@ {
            (StopReason::Error, None)
        } else {
            (StopReason::Stop, None)
        },
    }
}

/// The stored signature of a reasoning block with the encrypted content added,
/// where it is an object that lacks it.
pub open spec fn backfilled(signature: Json, encrypted: Seq<char>) -> Option<Seq<char>> {
    match signature {
        Json::Object(e) => if has_key(e, "encrypted_content"@) {
            None
        } else {
            Some(json_text(Json::Object(e.put("encrypted_content"@, Json::Str(encrypted)))))
        },
        _ => None,
    }
}

/// The reply with the encrypted content that an item of the final response
/// carries put into the signature of the block of that item.
pub open spec fn reasoning_backfilled(
    m: Reply,
    reasoning: Seq<(Seq<char>, int)>,
    item: OutputItem,
    parse: spec_fn(Seq<char>) -> Option<Json>,
) -> Reply {
    match item {
        OutputItem::Reasoning(ReasoningItem {
            id: Some(id),
            encrypted_content: Some(encrypted),
            ..
        }) => match get(reasoning, id) {
            Some(i) => match m.content[i] {
                Block::Thinking(
                    ThinkingBlock { thinking_signature: Some(signature), thinking, redacted },
                ) => match parse(signature) {
                    Some(stored) => match backfilled(stored, encrypted) {
                        Some(text) => with_block_at(
                            m,
                            i,
                            Block::Thinking(
                                ThinkingBlock {
                                    thinking_signature: Some(text),
                                    thinking,
                                    redacted,
                                },
                            ),
                        ),
                        None => m,
                    },
                    None => m,
                },
                _ => m,
            },
            None => m,
        },
        _ => m,
    }
}

/// The reply with the signatures of its reasoning backfilled from the final
/// response.
pub open spec fn all_backfilled(
    m: Reply,
    reasoning: Seq<(Seq<char>, int)>,
    output: Seq<OutputItem>,
    parse: spec_fn(Seq<char>) -> Option<Json>,
) -> Reply
    decreases output.len(),
{
    if output.len() == 0 {
        m
    } else {
        reasoning_backfilled(
            all_backfilled(m, reasoning, output.drop_last(), parse),
            reasoning,
            output.last(),
            parse,
        )
    }
}

proof fn lemma_all_backfilled(
    m: Reply,
    reasoning: Seq<(Seq<char>, int)>,
    output: Seq<OutputItem>,
    parse: spec_fn(Seq<char>) -> Option<Json>,
)
    requires
        all_below(reasoning, m.content.len() as int),
    ensures
        all_backfilled(m, reasoning, output, parse).content.len() == m.content.len(),
    decreases output.len(),
{
    if output.len() > 0 {
        lemma_all_backfilled(m, reasoning, output.drop_last(), parse);
        if let OutputItem::Reasoning(ReasoningItem { id: Some(id), .. }) = output.last() {
            lemma_key_index(reasoning, id);
        }
    }
}

/// Encrypted content that only comes with the final response is not lost: the
/// thinking block of a finished reasoning item gets it in its signature, which
/// otherwise stays as it was sent.
pub proof fn law_reasoning_is_backfilled(
    p: Progress,
    i: int,
    id: Seq<char>,
    sent: Entries,
    encrypted: Seq<char>,
    item: ReasoningItem,
    response: Response,
    parse: spec_fn(Seq<char>) -> Option<Json>,
)
    requires
        progress_wf(p),
        get(p.reasoning, id) == Some(i),
        p.reply.content[i] matches Block::Thinking(block) && block.thinking_signature == Some(
            json_text(Json::Object(sent)),
        ),
        parse(json_text(Json::Object(sent))) == Some(Json::Object(sent)),
        !has_key(sent, "encrypted_content"@),
        item.id == Some(id),
        item.encrypted_content == Some(encrypted),
        response.output == Seq::<OutputItem>::empty().push(OutputItem::Reasoning(item)),
    ensures
        response_finished(p, response, parse).reply.content == p.reply.content.update(
            i,
            Block::Thinking(
                ThinkingBlock {
                    thinking_signature: Some(
                        json_text(
                            Json::Object(sent.put("encrypted_content"@, Json::Str(encrypted))),
                        ),
                    ),
                    ..p.reply.content[i]->Thinking_0
                },
            ),
        ),
{
    lemma_key_index(p.reasoning, id);
    assert(p.reasoning[key_index(p.reasoning, id)].1 == i);
    assert(response.output.drop_last() =~= Seq::<OutputItem>::empty());
    assert(all_backfilled(p.reply, p.reasoning, response.output.drop_last(), parse) == p.reply);
}

/// The usage of a reply. The counts of cached tokens are part of the input
/// count of the response and are taken out of it.
pub open spec fn usage_of(u: ResponseUsage) -> Usage {
    Usage {
        input: greater(
            difference(difference(u.input_tokens, u.cached_tokens), u.cache_write_tokens),
            whole(0),
        ),
        output: u.output_tokens,
        cache_read: u.cached_tokens,
        cache_write: u.cache_write_tokens,
        cache_write_1h: None,
        reasoning: Some(u.reasoning_tokens),
        total_tokens: u.total_tokens,
        cost: no_cost(),
    }
}

pub open spec fn raw_reason(response: Response) -> Seq<char> {
    match (response.status, response.incomplete_reason) {
        (Some(status), Some(reason)) => status + "."@ + reason,
        (Some(status), None) => status,
        _ => Seq::empty(),
    }
}

/// The reply once its response has ended.
pub open spec fn reply_finished(m: Reply, response: Response) -> Reply {
    let (stop_reason, error_message) = stop_reason_of(response.status, response.incomplete_reason);
    Reply {
        response_id: if response.id is Some {
            response.id
        } else {
            m.response_id
        },
        usage: match response.usage {
            Some(usage) => usage_of(usage),
            None => m.usage,
        },
        raw_stop_reason: Some(raw_reason(response)),
        stop_reason: if stop_reason == StopReason::Stop && calls_tool(m) {
            StopReason::ToolUse
        } else {
            stop_reason
        },
        error_message,
        ..m
    }
}

pub open spec fn response_finished(
    p: Progress,
    response: Response,
    parse: spec_fn(Seq<char>) -> Option<Json>,
) -> Progress {
    Progress {
        reply: reply_finished(
            all_backfilled(p.reply, p.reasoning, response.output, parse),
            response,
        ),
        terminal: true,
        ..p
    }
}

pub open spec fn failure_message(response: Response) -> Seq<char> {
    match response.error {
        Some((code, message)) => code + ": "@ + message,
        None => match response.incomplete_reason {
            Some(reason) => "incomplete: "@ + reason,
            None => "Unknown error (no error details in response)"@,
        },
    }
}

// ---------------------------------------------------------------------------
// A whole stream
// ---------------------------------------------------------------------------

/// What one event does, and the error with which it ends the stream, if any.
#[verifier::opaque]
pub open spec fn step(
    p: Progress,
    e: WireEvent,
    properties: Seq<(Seq<char>, Seq<char>)>,
    parse: spec_fn(Seq<char>) -> Option<Json>,
    read: spec_fn(Seq<char>) -> Json,
) -> (Progress, Option<Seq<char>>) {
    match e {
        WireEvent::Created(response) => (
            Progress { reply: Reply { response_id: response.id, ..p.reply }, ..p },
            None,
        ),
        WireEvent::ItemAdded(index, item) => (
            slot_created(p, index_value(index), item, properties),
            None,
        ),
        WireEvent::SummaryDelta(index, delta) | WireEvent::ReasoningDelta(index, delta) => (
            thinking_streamed(p, index_value(index), delta),
            None,
        ),
        WireEvent::SummaryPartDone(index) => (
            thinking_streamed(p, index_value(index), "\n\n"@),
            None,
        ),
        WireEvent::TextDelta(index, delta) | WireEvent::RefusalDelta(index, delta) => (
            text_streamed(p, index_value(index), delta),
            None,
        ),
        WireEvent::ArgumentsDelta(index, delta) => (
            arguments_streamed(p, index_value(index), delta, read),
            None,
        ),
        WireEvent::ArgumentsDone(index, arguments) => (
            arguments_finished(p, index_value(index), arguments, read),
            None,
        ),
        WireEvent::InputDelta(index, delta) => (input_streamed(p, index_value(index), delta), None),
        WireEvent::InputDone(index, input) => (
            input_taken(p, index_value(index), input, true),
            None,
        ),
        WireEvent::ItemDone(index, item) => (
            item_finished(p, index_value(index), item, properties, read),
            None,
        ),
        WireEvent::Completed(response) | WireEvent::Incomplete(response) => (
            response_finished(p, response, parse),
            None,
        ),
        WireEvent::Failed(response) => (
            Progress { reply: Reply { raw_stop_reason: response.status, ..p.reply }, ..p },
            Some(failure_message(response)),
        ),
        WireEvent::Broken(code, message) => (
            p,
            Some("Error Code "@ + text_or_empty(code) + ": "@ + text_or_empty(message)),
        ),
    }
}

/// What a list of events does in turn, up to the first error.
pub open spec fn run(
    p: Progress,
    list: Seq<WireEvent>,
    properties: Seq<(Seq<char>, Seq<char>)>,
    parse: spec_fn(Seq<char>) -> Option<Json>,
    read: spec_fn(Seq<char>) -> Json,
) -> (Progress, Option<Seq<char>>)
    decreases list.len(),
{
    if list.len() == 0 {
        (p, None)
    } else {
        let (next, error) = step(p, list[0], properties, parse, read);
        if error is Some {
            (next, error)
        } else {
            run(next, list.drop_first(), properties, parse, read)
        }
    }
}

/// How a stream begins.
pub open spec fn at_start(reply: Reply, sent: Seq<Event>) -> Progress {
    Progress { reply, sent, slots: Seq::empty(), reasoning: Seq::empty(), terminal: false }
}

/// The error of a stream: that of an event, or that no event ended it.
pub open spec fn stream_error(end: (Progress, Option<Seq<char>>)) -> Option<Seq<char>> {
    if end.1 is Some {
        end.1
    } else if !end.0.terminal {
        Some("OpenAI Responses stream ended before a terminal response event"@)
    } else {
        None
    }
}

proof fn lemma_with_slot(list: Seq<(u64, Slot)>, index: u64, slot: Slot, n: int)
    requires
        forall|k: int| 0 <= k < list.len() ==> 0 <= slot_block((#[trigger] list[k]).1) < n,
        0 <= slot_block(slot) < n,
    ensures
        forall|k: int|
            0 <= k < with_entry(list, index, slot).len() ==> 0 <= slot_block(
                (#[trigger] with_entry(list, index, slot)[k]).1,
            ) < n,
{
    lemma_key_index(list, index);
}

proof fn lemma_slot_created(
    p: Progress,
    index: u64,
    item: OutputItem,
    properties: Seq<(Seq<char>, Seq<char>)>,
)
    requires
        progress_wf(p),
    ensures
        progress_wf(slot_created(p, index, item, properties)),
        slot_created(p, index, item, properties).reply.content.len() == p.reply.content.len() + 1,
{
    let n = p.reply.content.len() as int;
    match item {
        OutputItem::Reasoning(_) => {
            lemma_with_slot(p.slots, index, Slot::Thinking(n), n + 1);
        },
        OutputItem::Message(_) => {
            lemma_with_slot(p.slots, index, Slot::Text(n), n + 1);
        },
        OutputItem::FunctionCall(call) => {
            lemma_with_slot(p.slots, index, Slot::ToolCall(n, Some(call.input), None), n + 1);
        },
        OutputItem::CustomToolCall(call) => {
            let property = input_property(properties, call.name);
            lemma_with_slot(
                p.slots,
                index,
                Slot::ToolCall(n, None, Some(CustomInput { property, buffer: empty_buffer() })),
                n + 1,
            );
        },
    }
}

proof fn lemma_input_taken(p: Progress, index: u64, input: Seq<char>, close: bool)
    requires
        progress_wf(p),
    ensures
        progress_wf(input_taken(p, index, input, close)),
        input_taken(p, index, input, close).reply.content.len() == p.reply.content.len(),
{
    lemma_key_index(p.slots, index);
    if let Some(Slot::ToolCall(i, partial, Some(custom))) = get(p.slots, index) {
        assert(p.slots[key_index(p.slots, index)].1 == Slot::ToolCall(i, partial, Some(custom)));
        let buffer = append_step(custom.buffer, custom.property, input, close).0;
        lemma_with_slot(
            p.slots,
            index,
            Slot::ToolCall(i, partial, Some(CustomInput { buffer, ..custom })),
            p.reply.content.len() as int,
        );
    }
}

proof fn lemma_arguments(
    p: Progress,
    index: u64,
    text: Seq<char>,
    read: spec_fn(Seq<char>) -> Json,
)
    requires
        progress_wf(p),
    ensures
        progress_wf(arguments_streamed(p, index, text, read)),
        progress_wf(arguments_finished(p, index, text, read)),
        arguments_streamed(p, index, text, read).reply.content.len() == p.reply.content.len(),
        arguments_finished(p, index, text, read).reply.content.len() == p.reply.content.len(),
{
    lemma_key_index(p.slots, index);
    if let Some(Slot::ToolCall(i, Some(partial), custom)) = get(p.slots, index) {
        assert(p.slots[key_index(p.slots, index)].1 == Slot::ToolCall(i, Some(partial), custom));
        let n = p.reply.content.len() as int;
        lemma_with_slot(p.slots, index, Slot::ToolCall(i, Some(partial + text), custom), n);
        lemma_with_slot(p.slots, index, Slot::ToolCall(i, Some(text), custom), n);
    }
}

proof fn lemma_item_finished(
    p: Progress,
    index: u64,
    item: OutputItem,
    properties: Seq<(Seq<char>, Seq<char>)>,
    read: spec_fn(Seq<char>) -> Json,
)
    requires
        progress_wf(p),
    ensures
        progress_wf(item_finished(p, index, item, properties, read)),
        item_finished(p, index, item, properties, read).reply.content.len()
            >= p.reply.content.len(),
{
    let phased = Progress { reply: phase_applied(p.reply, item), ..p };
    let begun = if get(phased.slots, index) is None {
        slot_created(phased, index, item, properties)
    } else {
        phased
    };
    if get(phased.slots, index) is None {
        lemma_slot_created(phased, index, item, properties);
    }
    lemma_key_index(begun.slots, index);
    let freed = Progress { slots: without_entry(begun.slots, index), ..begun };
    assert(progress_wf(freed));
    if let OutputItem::Reasoning(ReasoningItem { id: Some(id), .. }) = item {
        lemma_key_index(freed.reasoning, id);
    }
}

/// No event ever leaves a slot without its block, and no event takes a block
/// away.
pub proof fn law_step_keeps_blocks(
    p: Progress,
    e: WireEvent,
    properties: Seq<(Seq<char>, Seq<char>)>,
    parse: spec_fn(Seq<char>) -> Option<Json>,
    read: spec_fn(Seq<char>) -> Json,
)
    requires
        progress_wf(p),
    ensures
        progress_wf(step(p, e, properties, parse, read).0),
        step(p, e, properties, parse, read).0.reply.content.len() >= p.reply.content.len(),
{
    reveal(step);
    match e {
        WireEvent::ItemAdded(index, item) => {
            lemma_slot_created(p, index_value(index), item, properties);
        },
        WireEvent::SummaryDelta(index, _)
        | WireEvent::SummaryPartDone(index)
        | WireEvent::ReasoningDelta(index, _)
        | WireEvent::TextDelta(index, _)
        | WireEvent::RefusalDelta(index, _) => {
            lemma_key_index(p.slots, index_value(index));
            assert(has_key(p.slots, index_value(index)) ==> 0 <= slot_block(
                p.slots[key_index(p.slots, index_value(index))].1,
            ) < p.reply.content.len());
        },
        WireEvent::Completed(response) | WireEvent::Incomplete(response) => {
            lemma_all_backfilled(p.reply, p.reasoning, response.output, parse);
        },
        WireEvent::ArgumentsDelta(index, delta) => {
            lemma_arguments(p, index_value(index), delta, read);
        },
        WireEvent::ArgumentsDone(index, arguments) => {
            lemma_arguments(p, index_value(index), arguments, read);
        },
        WireEvent::InputDelta(index, delta) => {
            let i = index_value(index);
            if let Some(Slot::ToolCall(at, _, Some(custom))) = get(p.slots, i) {
                lemma_input_taken(
                    p,
                    i,
                    argument_text(p.reply, at, custom.property) + delta,
                    false,
                );
            }
        },
        WireEvent::InputDone(index, input) => {
            lemma_input_taken(p, index_value(index), input, true);
        },
        WireEvent::ItemDone(index, item) => {
            lemma_item_finished(p, index_value(index), item, properties, read);
        },
        _ => {},
    }
}

// ---------------------------------------------------------------------------
// Processing
// ---------------------------------------------------------------------------

/// Options of the processing of a stream.
#[derive(Clone, Debug, Default)]
pub struct OpenAIResponsesStreamOptions {
    pub service_tier: Option<String>,
    pub grammar_tool_input_properties: Option<Vec<(String, String)>>,
}

/// The properties that take the inputs of grammar tools.
pub open spec fn option_properties(options: Option<&OpenAIResponsesStreamOptions>) -> Seq<
    (Seq<char>, Seq<char>),
> {
    match options {
        Some(options) => match options.grammar_tool_input_properties {
            Some(properties) => pairs(properties@),
            None => Seq::empty(),
        },
        None => Seq::empty(),
    }
}

fn find_slot(list: &Vec<(u64, ResponsesOutputSlot)>, index: u64) -> (r: Option<usize>)
    ensures
        match r {
            Some(k) => k < list@.len() && get(slots(list@), index) == Some(list@[k as int].1@)
                && key_index(slots(list@), index) == k,
            None => get(slots(list@), index) is None,
        },
{
    match find_index(list, index) {
        Some(k) => {
            proof {
                lemma_key_index_is(slots(list@), index, k as int);
            }
            Some(k)
        },
        None => {
            proof {
                lemma_key_index_is(slots(list@), index, list@.len() as int);
            }
            None
        },
    }
}

fn set_slot(list: &mut Vec<(u64, ResponsesOutputSlot)>, index: u64, slot: ResponsesOutputSlot)
    ensures
        slots(final(list)@) == with_entry(slots(old(list)@), index, slot@),
{
    match find_slot(list, index) {
        Some(k) => {
            list.set(k, (index, slot));
            proof {
                assert(slots(list@) =~= slots(old(list)@).update(k as int, (index, slot@)));
            }
        },
        None => {
            list.push((index, slot));
            proof {
                assert(slots(list@) =~= slots(old(list)@).push((index, slot@)));
            }
        },
    }
}

fn take_slot(list: &mut Vec<(u64, ResponsesOutputSlot)>, index: u64) -> (r: Option<
    ResponsesOutputSlot,
>)
    ensures
        slots(final(list)@) == without_entry(slots(old(list)@), index),
        match r {
            Some(slot) => get(slots(old(list)@), index) == Some(slot@),
            None => get(slots(old(list)@), index) is None,
        },
{
    match find_slot(list, index) {
        Some(k) => {
            let (_, slot) = list.remove(k);
            proof {
                assert(slots(list@) =~= slots(old(list)@).remove(k as int));
            }
            Some(slot)
        },
        None => None,
    }
}

fn property_of(options: Option<&OpenAIResponsesStreamOptions>, name: &str) -> (r: String)
    ensures
        r@ == input_property(option_properties(options), name@),
{
    if let Some(options) = options {
        if let Some(properties) = &options.grammar_tool_input_properties {
            if let Some(property) = find_property(properties, name) {
                return property;
            }
        }
    }
    "input".to_owned()
}

fn block_id(call_id: &str, id: &Option<String>) -> (r: String)
    ensures
        r@ == call_id@ + "|"@ + text_or_empty(opt_text(*id)),
{
    match id {
        Some(id) => cat3(call_id, "|", id.as_str()),
        None => {
            let r = cat2(call_id, "|");
            proof {
                assert(r@ + Seq::<char>::empty() =~= r@);
            }
            r
        },
    }
}

#[verifier::rlimit(40)]
#[verifier::spinoff_prover]
fn create_slot(
    output: &mut AssistantMessage,
    sent: &mut Vec<AssistantMessageEvent>,
    state: &mut ResponsesStreamState,
    index: u64,
    item: &ResponseOutputItem,
    options: Option<&OpenAIResponsesStreamOptions>,
)
    ensures
        progress(*final(output), final(sent)@, *final(state)) == slot_created(
            progress(*old(output), old(sent)@, *old(state)),
            index,
            item@,
            option_properties(options),
        ),
        final(output).content@.len() == old(output).content@.len() + 1,
{
    let content_index: usize = output.content.len();
    match item {
        ResponseOutputItem::Reasoning(_) => {
            output.push_content(
                Content::Thinking(
                    ThinkingContent {
                        thinking: String::new(),
                        thinking_signature: None,
                        redacted: None,
                    },
                ),
            );
            set_slot(
                &mut state.output_slots,
                index,
                ResponsesOutputSlot::Thinking { content_index },
            );
            emit(
                sent,
                AssistantMessageEvent::ThinkingStart { content_index, partial: output.clone() },
            );
        },
        ResponseOutputItem::Message(_) => {
            output.push_content(
                Content::Text(TextContent { text: String::new(), text_signature: None }),
            );
            set_slot(&mut state.output_slots, index, ResponsesOutputSlot::Text { content_index });
            emit(
                sent,
                AssistantMessageEvent::TextStart { content_index, partial: output.clone() },
            );
        },
        ResponseOutputItem::FunctionCall(call) => {
            output.push_content(
                Content::ToolCall(
                    ToolCall {
                        id: block_id(call.call_id.as_str(), &call.id),
                        name: call.name.clone(),
                        arguments: object(new_entries()),
                        thought_signature: None,
                        namespace: clone_opt(&call.namespace),
                    },
                ),
            );
            set_slot(
                &mut state.output_slots,
                index,
                ResponsesOutputSlot::ToolCall {
                    content_index,
                    partial_json: Some(call.arguments.clone()),
                    custom_input: None,
                },
            );
            emit(
                sent,
                AssistantMessageEvent::ToolCallStart { content_index, partial: output.clone() },
            );
        },
        ResponseOutputItem::CustomToolCall(call) => {
            let property = property_of(options, call.name.as_str());
            output.push_content(
                Content::ToolCall(
                    ToolCall {
                        id: block_id(call.call_id.as_str(), &call.id),
                        name: call.name.clone(),
                        arguments: object1(property.as_str(), string(call.input.as_str())),
                        thought_signature: None,
                        namespace: clone_opt(&call.namespace),
                    },
                ),
            );
            set_slot(
                &mut state.output_slots,
                index,
                ResponsesOutputSlot::ToolCall {
                    content_index,
                    partial_json: None,
                    custom_input: Some(
                        CustomInputState {
                            property,
                            json_buffer: GrammarToolInputJsonBuffer::default(),
                        },
                    ),
                },
            );
            emit(
                sent,
                AssistantMessageEvent::ToolCallStart { content_index, partial: output.clone() },
            );
        },
    }
}

fn stream_thinking(
    output: &mut AssistantMessage,
    sent: &mut Vec<AssistantMessageEvent>,
    state: &ResponsesStreamState,
    index: u64,
    delta: &str,
)
    requires
        progress_wf(progress(*old(output), old(sent)@, *state)),
    ensures
        progress(*final(output), final(sent)@, *state) == thinking_streamed(
            progress(*old(output), old(sent)@, *state),
            index,
            delta@,
        ),
{
    if let Some(k) = find_slot(&state.output_slots, index) {
        proof {
            assert(slots(state.output_slots@)[k as int].1 == state.output_slots@[k as int].1@);
        }
        if let ResponsesOutputSlot::Thinking { content_index } = &state.output_slots[k].1 {
            let content_index: usize = *content_index;
            if output.append_thinking(content_index, delta) {
                emit(
                    sent,
                    AssistantMessageEvent::ThinkingDelta {
                        content_index,
                        delta: delta.to_owned(),
                        partial: output.clone(),
                    },
                );
            }
        }
    }
}

fn stream_text(
    output: &mut AssistantMessage,
    sent: &mut Vec<AssistantMessageEvent>,
    state: &ResponsesStreamState,
    index: u64,
    delta: &str,
)
    requires
        progress_wf(progress(*old(output), old(sent)@, *state)),
    ensures
        progress(*final(output), final(sent)@, *state) == text_streamed(
            progress(*old(output), old(sent)@, *state),
            index,
            delta@,
        ),
{
    if let Some(k) = find_slot(&state.output_slots, index) {
        proof {
            assert(slots(state.output_slots@)[k as int].1 == state.output_slots@[k as int].1@);
        }
        if let ResponsesOutputSlot::Text { content_index } = &state.output_slots[k].1 {
            let content_index: usize = *content_index;
            if output.append_text(content_index, delta) {
                emit(
                    sent,
                    AssistantMessageEvent::TextDelta {
                        content_index,
                        delta: delta.to_owned(),
                        partial: output.clone(),
                    },
                );
            }
        }
    }
}

fn push_tool_call_delta(
    output: &AssistantMessage,
    sent: &mut Vec<AssistantMessageEvent>,
    content_index: usize,
    delta: &str,
)
    ensures
        events(final(sent)@) == events(old(sent)@).push(
            Event::ToolCallDelta {
                content_index: content_index as int,
                delta: delta@,
                partial: output@,
            },
        ),
{
    emit(
        sent,
        AssistantMessageEvent::ToolCallDelta {
            content_index,
            delta: delta.to_owned(),
            partial: output.clone(),
        },
    );
}

fn stream_arguments<S: Fn(&str) -> Value>(
    output: &mut AssistantMessage,
    sent: &mut Vec<AssistantMessageEvent>,
    state: &mut ResponsesStreamState,
    index: u64,
    delta: &str,
    read: &S,
)
    requires
        is_reader(*read),
        progress_wf(progress(*old(output), old(sent)@, *old(state))),
    ensures
        progress(*final(output), final(sent)@, *final(state)) == arguments_streamed(
            progress(*old(output), old(sent)@, *old(state)),
            index,
            delta@,
            reader_of(*read),
        ),
{
    if let Some(k) = find_slot(&state.output_slots, index) {
        proof {
            assert(slots(state.output_slots@)[k as int].1 == state.output_slots@[k as int].1@);
        }
        if let ResponsesOutputSlot::ToolCall {
            content_index,
            partial_json: Some(partial),
            custom_input,
        } = state.output_slots[k].1.clone_slot() {
            let text = cat2(partial.as_str(), delta);
            let _ = output.set_arguments(content_index, read_with(read, text.as_str()));
            set_slot(
                &mut state.output_slots,
                index,
                ResponsesOutputSlot::ToolCall {
                    content_index,
                    partial_json: Some(text),
                    custom_input,
                },
            );
            push_tool_call_delta(output, sent, content_index, delta);
        }
    }
}

impl ResponsesOutputSlot {
    fn clone_slot(&self) -> (r: Self)
        ensures
            r@ == self@,
    {
        match self {
            ResponsesOutputSlot::Thinking { content_index } => ResponsesOutputSlot::Thinking {
                content_index: *content_index,
            },
            ResponsesOutputSlot::Text { content_index } => ResponsesOutputSlot::Text {
                content_index: *content_index,
            },
            ResponsesOutputSlot::ToolCall {
                content_index,
                partial_json,
                custom_input,
            } => ResponsesOutputSlot::ToolCall {
                content_index: *content_index,
                partial_json: clone_opt(partial_json),
                custom_input: match custom_input {
                    Some(custom) => Some(
                        CustomInputState {
                            property: custom.property.clone(),
                            json_buffer: GrammarToolInputJsonBuffer {
                                input: custom.json_buffer.input.clone(),
                                started: custom.json_buffer.started,
                                closed: custom.json_buffer.closed,
                            },
                        },
                    ),
                    None => None,
                },
            },
        }
    }
}

fn finish_arguments<S: Fn(&str) -> Value>(
    output: &mut AssistantMessage,
    sent: &mut Vec<AssistantMessageEvent>,
    state: &mut ResponsesStreamState,
    index: u64,
    arguments: &str,
    read: &S,
)
    requires
        is_reader(*read),
        progress_wf(progress(*old(output), old(sent)@, *old(state))),
    ensures
        progress(*final(output), final(sent)@, *final(state)) == arguments_finished(
            progress(*old(output), old(sent)@, *old(state)),
            index,
            arguments@,
            reader_of(*read),
        ),
{
    if let Some(k) = find_slot(&state.output_slots, index) {
        proof {
            assert(slots(state.output_slots@)[k as int].1 == state.output_slots@[k as int].1@);
        }
        if let ResponsesOutputSlot::ToolCall {
            content_index,
            partial_json: Some(previous),
            custom_input,
        } = state.output_slots[k].1.clone_slot() {
            let _ = output.set_arguments(content_index, read_with(read, arguments));
            set_slot(
                &mut state.output_slots,
                index,
                ResponsesOutputSlot::ToolCall {
                    content_index,
                    partial_json: Some(arguments.to_owned()),
                    custom_input,
                },
            );
            if starts_with(arguments, previous.as_str()) {
                let known: usize = crate::text::char_count(previous.as_str());
                let delta = skip_chars(arguments, known);
                if !delta.as_str().is_empty() {
                    push_tool_call_delta(output, sent, content_index, delta.as_str());
                }
            }
        }
    }
}

fn read_argument_text(output: &AssistantMessage, i: usize, key: &str) -> (r: String)
    requires
        i < output.content@.len(),
    ensures
        r@ == argument_text(output@, i as int, key@),
{
    match &output.content[i] {
        Content::ToolCall(call) => match call.arguments.as_object() {
            Some(e) => get_str_or_empty(e, key),
            None => String::new(),
        },
        _ => String::new(),
    }
}

fn take_input(
    output: &mut AssistantMessage,
    sent: &mut Vec<AssistantMessageEvent>,
    state: &mut ResponsesStreamState,
    index: u64,
    input: &str,
    close: bool,
)
    requires
        progress_wf(progress(*old(output), old(sent)@, *old(state))),
    ensures
        progress(*final(output), final(sent)@, *final(state)) == input_taken(
            progress(*old(output), old(sent)@, *old(state)),
            index,
            input@,
            close,
        ),
{
    if let Some(k) = find_slot(&state.output_slots, index) {
        proof {
            assert(slots(state.output_slots@)[k as int].1 == state.output_slots@[k as int].1@);
        }
        if let ResponsesOutputSlot::ToolCall {
            content_index,
            partial_json,
            custom_input: Some(custom),
        } = state.output_slots[k].1.clone_slot() {
            let mut buffer = custom.json_buffer;
            let result = append_grammar_tool_input_json_delta(
                &mut buffer,
                custom.property.as_str(),
                input,
                close,
            );
            let arguments = object1(custom.property.as_str(), string(input));
            set_slot(
                &mut state.output_slots,
                index,
                ResponsesOutputSlot::ToolCall {
                    content_index,
                    partial_json,
                    custom_input: Some(
                        CustomInputState { property: custom.property, json_buffer: buffer },
                    ),
                },
            );
            if let Ok(Some(delta)) = result {
                let _ = output.set_arguments(content_index, arguments);
                push_tool_call_delta(output, sent, content_index, delta.as_str());
            }
        }
    }
}

fn stream_input(
    output: &mut AssistantMessage,
    sent: &mut Vec<AssistantMessageEvent>,
    state: &mut ResponsesStreamState,
    index: u64,
    delta: &str,
)
    requires
        progress_wf(progress(*old(output), old(sent)@, *old(state))),
    ensures
        progress(*final(output), final(sent)@, *final(state)) == input_streamed(
            progress(*old(output), old(sent)@, *old(state)),
            index,
            delta@,
        ),
{
    if let Some(k) = find_slot(&state.output_slots, index) {
        proof {
            assert(slots(state.output_slots@)[k as int].1 == state.output_slots@[k as int].1@);
        }
        let input = match &state.output_slots[k].1 {
            ResponsesOutputSlot::ToolCall {
                content_index,
                partial_json: _,
                custom_input: Some(custom),
            } => {
                let current = read_argument_text(output, *content_index, custom.property.as_str());
                cat2(current.as_str(), delta)
            },
            _ => {
                return ;
            },
        };
        take_input(output, sent, state, index, input.as_str(), false);
    }
}

fn apply_message_phase_stop_reason(output: &mut AssistantMessage, item: &ResponseOutputItem)
    ensures
        final(output)@ == phase_applied(old(output)@, item@),
        final(output).content@ == old(output).content@,
{
    if let ResponseOutputItem::Message(message) = item {
        if crate::text::opt_is(borrow_opt(&message.phase), "final_answer") {
            output.stop_reason = StopReason::Stop;
        }
    }
}

fn collect_message_text(parts: &Vec<(String, String)>) -> (r: String)
    ensures
        r@ == message_text(pairs(parts@)),
{
    let mut r = String::new();
    let mut i: usize = 0;
    while i < parts.len()
        invariant
            i <= parts@.len(),
            r@ == message_text(pairs(parts@).take(i as int)),
        decreases parts.len() - i,
    {
        if parts[i].0.as_str().is_empty() {
            r.append(parts[i].1.as_str());
        } else {
            r.append(parts[i].0.as_str());
        }
        proof {
            assert(pairs(parts@).take(i + 1).drop_last() =~= pairs(parts@).take(i as int));
        }
        i += 1;
    }
    proof {
        assert(pairs(parts@).take(parts@.len() as int) =~= pairs(parts@));
    }
    r
}

fn set_reasoning(list: &mut Vec<(String, usize)>, id: &str, at: usize)
    ensures
        reasoning_blocks(final(list)@) == with_entry(
            reasoning_blocks(old(list)@),
            id@,
            at as int,
        ),
{
    match find_key(list, id) {
        Some(k) => {
            proof {
                lemma_key_index_is(reasoning_blocks(list@), id@, k as int);
            }
            list.set(k, (id.to_owned(), at));
            proof {
                assert(reasoning_blocks(list@) =~= reasoning_blocks(old(list)@).update(
                    k as int,
                    (id@, at as int),
                ));
            }
        },
        None => {
            proof {
                lemma_key_index_is(reasoning_blocks(list@), id@, list@.len() as int);
            }
            list.push((id.to_owned(), at));
            proof {
                assert(reasoning_blocks(list@) =~= reasoning_blocks(old(list)@).push(
                    (id@, at as int),
                ));
            }
        },
    }
}

fn finish_reasoning(
    output: &mut AssistantMessage,
    sent: &mut Vec<AssistantMessageEvent>,
    state: &mut ResponsesStreamState,
    content_index: usize,
    item: &ResponseReasoningItem,
)
    requires
        content_index < old(output).content@.len(),
    ensures
        progress(*final(output), final(sent)@, *final(state)) == reasoning_finished(
            progress(*old(output), old(sent)@, *old(state)),
            content_index as int,
            item@,
        ),
{
    let summary = join(&item.summary, "\n\n");
    let content = join(&item.content, "\n\n");
    let block = match &output.content[content_index] {
        Content::Thinking(block) => {
            let thinking = if !summary.as_str().is_empty() {
                summary
            } else if !content.as_str().is_empty() {
                content
            } else {
                block.thinking.clone()
            };
            ThinkingContent {
                thinking,
                thinking_signature: Some(json_stringify(&item.raw)),
                redacted: block.redacted,
            }
        },
        _ => {
            emit(
                sent,
                AssistantMessageEvent::ThinkingEnd {
                    content_index,
                    content: String::new(),
                    partial: output.clone(),
                },
            );
            return ;
        },
    };
    let thinking = block.thinking.clone();
    if let Some(id) = &item.id {
        set_reasoning(&mut state.reasoning_blocks_by_id, id.as_str(), content_index);
    }
    output.set_content(content_index, Content::Thinking(block));
    emit(
        sent,
        AssistantMessageEvent::ThinkingEnd {
            content_index,
            content: thinking,
            partial: output.clone(),
        },
    );
}

#[verifier::rlimit(40)]
fn finish_message(
    output: &mut AssistantMessage,
    sent: &mut Vec<AssistantMessageEvent>,
    content_index: usize,
    item: &ResponseMessageItem,
)
    requires
        content_index < old(output).content@.len(),
    ensures
        ({
            let p = at_start(old(output)@, events(old(sent)@));
            let after = message_finished(p, content_index as int, item@);
            final(output)@ == after.reply && events(final(sent)@) == after.sent
        }),
{
    match &output.content[content_index] {
        Content::Text(_) => {},
        _ => {
            emit(
                sent,
                AssistantMessageEvent::TextEnd {
                    content_index,
                    content: String::new(),
                    partial: output.clone(),
                },
            );
            return ;
        },
    }
    let text = collect_message_text(&item.content);
    let id = match &item.id {
        Some(id) => id.clone(),
        None => String::new(),
    };
    let signature = encode_text_signature_v1(id.as_str(), borrow_opt(&item.phase));
    output.set_content(
        content_index,
        Content::Text(TextContent { text: text.clone(), text_signature: Some(signature) }),
    );
    emit(
        sent,
        AssistantMessageEvent::TextEnd { content_index, content: text, partial: output.clone() },
    );
}

fn finish_function_call<S: Fn(&str) -> Value>(
    output: &mut AssistantMessage,
    sent: &mut Vec<AssistantMessageEvent>,
    content_index: usize,
    item: &ResponseFunctionCallItem,
    partial: &str,
    read: &S,
)
    requires
        is_reader(*read),
        content_index < old(output).content@.len(),
    ensures
        ({
            let p = at_start(old(output)@, events(old(sent)@));
            let after = function_call_finished(
                p,
                content_index as int,
                item@,
                partial@,
                reader_of(*read),
            );
            final(output)@ == after.reply && events(final(sent)@) == after.sent
        }),
{
    let call = match &output.content[content_index] {
        Content::ToolCall(call) => {
            let text = if item.arguments.as_str().is_empty() {
                partial
            } else {
                item.arguments.as_str()
            };
            ToolCall {
                id: call.id.clone(),
                name: call.name.clone(),
                arguments: read_with(read, text),
                thought_signature: clone_opt(&call.thought_signature),
                namespace: if item.namespace.is_some() {
                    clone_opt(&item.namespace)
                } else {
                    clone_opt(&call.namespace)
                },
            }
        },
        _ => {
            return ;
        },
    };
    output.set_content(content_index, Content::ToolCall(call.clone()));
    emit(
        sent,
        AssistantMessageEvent::ToolCallEnd {
            content_index,
            tool_call: call,
            partial: output.clone(),
        },
    );
}

fn finish_custom_call(
    output: &mut AssistantMessage,
    sent: &mut Vec<AssistantMessageEvent>,
    content_index: usize,
    item: &ResponseCustomToolCallItem,
    custom: CustomInputState,
)
    requires
        content_index < old(output).content@.len(),
    ensures
        ({
            let p = at_start(old(output)@, events(old(sent)@));
            let after = custom_call_finished(p, content_index as int, item@, custom@);
            final(output)@ == after.reply && events(final(sent)@) == after.sent
        }),
{
    let input = if item.input.as_str().is_empty() {
        read_argument_text(output, content_index, "input")
    } else {
        item.input.clone()
    };
    let mut buffer = custom.json_buffer;
    let result = append_grammar_tool_input_json_delta(
        &mut buffer,
        custom.property.as_str(),
        input.as_str(),
        true,
    );
    if let Ok(Some(delta)) = result {
        let _ = output.set_arguments(
            content_index,
            object1(custom.property.as_str(), string(input.as_str())),
        );
        push_tool_call_delta(output, sent, content_index, delta.as_str());
    }
    let call = match &output.content[content_index] {
        Content::ToolCall(call) => ToolCall {
            id: call.id.clone(),
            name: call.name.clone(),
            arguments: call.arguments.clone(),
            thought_signature: clone_opt(&call.thought_signature),
            namespace: if item.namespace.is_some() {
                clone_opt(&item.namespace)
            } else {
                clone_opt(&call.namespace)
            },
        },
        _ => {
            return ;
        },
    };
    output.set_content(content_index, Content::ToolCall(call.clone()));
    emit(
        sent,
        AssistantMessageEvent::ToolCallEnd {
            content_index,
            tool_call: call,
            partial: output.clone(),
        },
    );
}

fn finish_item<S: Fn(&str) -> Value>(
    output: &mut AssistantMessage,
    sent: &mut Vec<AssistantMessageEvent>,
    state: &mut ResponsesStreamState,
    index: u64,
    item: &ResponseOutputItem,
    options: Option<&OpenAIResponsesStreamOptions>,
    read: &S,
)
    requires
        is_reader(*read),
        progress_wf(progress(*old(output), old(sent)@, *old(state))),
    ensures
        progress(*final(output), final(sent)@, *final(state)) == item_finished(
            progress(*old(output), old(sent)@, *old(state)),
            index,
            item@,
            option_properties(options),
            reader_of(*read),
        ),
{
    apply_message_phase_stop_reason(output, item);
    if find_slot(&state.output_slots, index).is_none() {
        create_slot(output, sent, state, index, item, options);
    }
    let ghost begun = progress(*output, sent@, *state);
    proof {
        lemma_key_index(slots(old(state).output_slots@), index);
        lemma_key_index(begun.slots, index);
        assert(progress_wf(begun));
    }
    let slot = take_slot(&mut state.output_slots, index);
    let ghost freed = progress(*output, sent@, *state);
    match item {
        ResponseOutputItem::Reasoning(reasoning) => {
            if let Some(ResponsesOutputSlot::Thinking { content_index }) = slot {
                finish_reasoning(output, sent, state, content_index, reasoning);
            }
        },
        ResponseOutputItem::Message(message) => {
            if let Some(ResponsesOutputSlot::Text { content_index }) = slot {
                finish_message(output, sent, content_index, message);
            }
        },
        ResponseOutputItem::FunctionCall(call) => {
            if let Some(
                ResponsesOutputSlot::ToolCall {
                    content_index,
                    partial_json: Some(partial),
                    custom_input: _,
                },
            ) = slot {
                finish_function_call(output, sent, content_index, call, partial.as_str(), read);
            }
        },
        ResponseOutputItem::CustomToolCall(call) => {
            if let Some(
                ResponsesOutputSlot::ToolCall {
                    content_index,
                    partial_json: _,
                    custom_input: Some(custom),
                },
            ) = slot {
                finish_custom_call(output, sent, content_index, call, custom);
            }
        },
    }
}

fn map_stop_reason(status: Option<&str>, incomplete_reason: Option<&str>) -> (r: (
    StopReason,
    Option<String>,
))
    ensures
        (r.0, opt_text(r.1)) == stop_reason_of(
            crate::text::opt_str(status),
            crate::text::opt_str(incomplete_reason),
        ),
{
    let status = match status {
        Some(status) => status,
        None => {
            return (StopReason::Stop, None);
        },
    };
    if str_eq(status, "completed") {
        return (StopReason::Stop, None);
    }
    if str_eq(status, "incomplete") {
        if crate::text::opt_is(incomplete_reason, "max_output_tokens") {
            return (StopReason::Length, None);
        }
        let message = match incomplete_reason {
            Some(reason) => cat2("Response incomplete: ", reason),
            None => "Response incomplete without a provider reason".to_owned(),
        };
        return (StopReason::Error, Some(message));
    }
    if str_eq(status, "failed") || str_eq(status, "cancelled") {
        return (StopReason::Error, None);
    }
    (StopReason::Stop, None)
}

fn backfill_reasoning<P: Fn(&str) -> Option<Value>>(
    output: &mut AssistantMessage,
    list: &Vec<(String, usize)>,
    item: &ResponseOutputItem,
    parse: &P,
)
    requires
        is_parser(*parse),
        all_below(reasoning_blocks(list@), old(output).content@.len() as int),
    ensures
        final(output)@ == reasoning_backfilled(
            old(output)@,
            reasoning_blocks(list@),
            item@,
            parser_of(*parse),
        ),
        final(output).content@.len() == old(output).content@.len(),
{
    let (encrypted, id) = match item {
        ResponseOutputItem::Reasoning(reasoning) => {
            match (&reasoning.encrypted_content, &reasoning.id) {
                (Some(encrypted), Some(id)) => (encrypted.as_str(), id.as_str()),
                _ => {
                    return ;
                },
            }
        },
        _ => {
            return ;
        },
    };
    let i: usize = match find_key(list, id) {
        Some(k) => {
            proof {
                lemma_key_index_is(reasoning_blocks(list@), id@, k as int);
                assert(reasoning_blocks(list@)[k as int].1 == list@[k as int].1);
            }
            list[k].1
        },
        None => {
            proof {
                lemma_key_index_is(reasoning_blocks(list@), id@, list@.len() as int);
            }
            return ;
        },
    };
    let filled = match &output.content[i] {
        Content::Thinking(block) => match &block.thinking_signature {
            Some(signature) => match parse_with(parse, signature.as_str()) {
                Some(stored) => match stored.as_object() {
                    Some(e) => if has_entry(e, "encrypted_content") {
                        None
                    } else {
                        let mut e = clone_entries(e);
                        put_str(&mut e, "encrypted_content", encrypted);
                        Some(
                            ThinkingContent {
                                thinking: block.thinking.clone(),
                                thinking_signature: Some(json_stringify(&object(e))),
                                redacted: block.redacted,
                            },
                        )
                    },
                    None => None,
                },
                None => None,
            },
            None => None,
        },
        _ => None,
    };
    if let Some(block) = filled {
        output.set_content(i, Content::Thinking(block));
    }
}

fn finalize_response<P: Fn(&str) -> Option<Value>>(
    output: &mut AssistantMessage,
    state: &mut ResponsesStreamState,
    response: &ResponseObject,
    parse: &P,
)
    requires
        is_parser(*parse),
        all_below(
            reasoning_blocks(old(state).reasoning_blocks_by_id@),
            old(output).content@.len() as int,
        ),
    ensures
        final(output)@ == reply_finished(
            all_backfilled(
                old(output)@,
                reasoning_blocks(old(state).reasoning_blocks_by_id@),
                response@.output,
                parser_of(*parse),
            ),
            response@,
        ),
        final(state).reasoning_blocks_by_id == old(state).reasoning_blocks_by_id,
        final(state).output_slots == old(state).output_slots,
        final(state).saw_terminal_response_event,
{
    state.saw_terminal_response_event = true;
    let mut i: usize = 0;
    while i < response.output.len()
        invariant
            i <= response.output@.len(),
            is_parser(*parse),
            state.reasoning_blocks_by_id == old(state).reasoning_blocks_by_id,
            all_below(
                reasoning_blocks(state.reasoning_blocks_by_id@),
                output.content@.len() as int,
            ),
            output@ == all_backfilled(
                old(output)@,
                reasoning_blocks(state.reasoning_blocks_by_id@),
                response@.output.take(i as int),
                parser_of(*parse),
            ),
            state.output_slots == old(state).output_slots,
            state.saw_terminal_response_event,
        decreases response.output.len() - i,
    {
        proof {
            assert(response@.output.take(i + 1).drop_last() =~= response@.output.take(i as int));
        }
        backfill_reasoning(output, &state.reasoning_blocks_by_id, &response.output[i], parse);
        i += 1;
    }
    proof {
        assert(response@.output.take(response.output@.len() as int) =~= response@.output);
    }
    if let Some(id) = &response.id {
        output.response_id = Some(id.clone());
    }
    if let Some(usage) = &response.usage {
        output.usage = Usage {
            input: usage.input_tokens.minus(usage.cached_tokens).minus(
                usage.cache_write_tokens,
            ).max(Number::zero()),
            output: usage.output_tokens,
            cache_read: usage.cached_tokens,
            cache_write: usage.cache_write_tokens,
            cache_write_1h: None,
            reasoning: Some(usage.reasoning_tokens),
            total_tokens: usage.total_tokens,
            cost: zero_cost(),
        };
    }
    output.raw_stop_reason = Some(
        match (&response.incomplete_reason, &response.status) {
            (Some(reason), Some(status)) => cat3(status.as_str(), ".", reason.as_str()),
            (_, Some(status)) => status.clone(),
            _ => String::new(),
        },
    );
    let (stop_reason, error_message) = map_stop_reason(
        borrow_opt(&response.status),
        borrow_opt(&response.incomplete_reason),
    );
    output.stop_reason = stop_reason;
    output.error_message = error_message;
    if output.stop_reason == StopReason::Stop && output.has_tool_call() {
        output.stop_reason = StopReason::ToolUse;
    }
}

#[verifier::rlimit(60)]
#[verifier::spinoff_prover]
fn process_event<P: Fn(&str) -> Option<Value>, S: Fn(&str) -> Value>(
    event: &ResponseStreamEvent,
    output: &mut AssistantMessage,
    sent: &mut Vec<AssistantMessageEvent>,
    state: &mut ResponsesStreamState,
    options: Option<&OpenAIResponsesStreamOptions>,
    parse: &P,
    read: &S,
) -> (r: Option<String>)
    requires
        is_parser(*parse),
        is_reader(*read),
        progress_wf(progress(*old(output), old(sent)@, *old(state))),
    ensures
        (progress(*final(output), final(sent)@, *final(state)), opt_text(r)) == step(
            progress(*old(output), old(sent)@, *old(state)),
            event@,
            option_properties(options),
            parser_of(*parse),
            reader_of(*read),
        ),
{
    proof {
        reveal(step);
    }
    match event {
        ResponseStreamEvent::ResponseCreated { response } => {
            output.response_id = clone_opt(&response.id);
        },
        ResponseStreamEvent::ResponseOutputItemAdded { output_index, item } => {
            create_slot(output, sent, state, output_index.index(), item, options);
        },
        ResponseStreamEvent::ResponseReasoningSummaryTextDelta { output_index, delta } => {
            stream_thinking(output, sent, state, output_index.index(), delta.as_str());
        },
        ResponseStreamEvent::ResponseReasoningSummaryPartDone { output_index } => {
            stream_thinking(output, sent, state, output_index.index(), "\n\n");
        },
        ResponseStreamEvent::ResponseReasoningTextDelta { output_index, delta } => {
            stream_thinking(output, sent, state, output_index.index(), delta.as_str());
        },
        ResponseStreamEvent::ResponseOutputTextDelta { output_index, delta } => {
            stream_text(output, sent, state, output_index.index(), delta.as_str());
        },
        ResponseStreamEvent::ResponseRefusalDelta { output_index, delta } => {
            stream_text(output, sent, state, output_index.index(), delta.as_str());
        },
        ResponseStreamEvent::ResponseFunctionCallArgumentsDelta { output_index, delta } => {
            stream_arguments(output, sent, state, output_index.index(), delta.as_str(), read);
        },
        ResponseStreamEvent::ResponseFunctionCallArgumentsDone { output_index, arguments } => {
            finish_arguments(output, sent, state, output_index.index(), arguments.as_str(), read);
        },
        ResponseStreamEvent::ResponseCustomToolCallInputDelta { output_index, delta } => {
            stream_input(output, sent, state, output_index.index(), delta.as_str());
        },
        ResponseStreamEvent::ResponseCustomToolCallInputDone { output_index, input } => {
            take_input(output, sent, state, output_index.index(), input.as_str(), true);
        },
        ResponseStreamEvent::ResponseOutputItemDone { output_index, item } => {
            finish_item(output, sent, state, output_index.index(), item, options, read);
        },
        ResponseStreamEvent::ResponseCompleted { response } => {
            finalize_response(output, state, response, parse);
        },
        ResponseStreamEvent::ResponseIncomplete { response } => {
            finalize_response(output, state, response, parse);
        },
        ResponseStreamEvent::ResponseFailed { response } => {
            output.raw_stop_reason = clone_opt(&response.status);
            let message = match &response.error {
                Some((code, message)) => cat3(code.as_str(), ": ", message.as_str()),
                None => match &response.incomplete_reason {
                    Some(reason) => cat2("incomplete: ", reason.as_str()),
                    None => "Unknown error (no error details in response)".to_owned(),
                },
            };
            return Some(message);
        },
        ResponseStreamEvent::StreamError { code, message } => {
            let code = match code {
                Some(code) => code.as_str(),
                None => "",
            };
            let message = match message {
                Some(message) => message.as_str(),
                None => "",
            };
            proof {
                reveal_strlit("");
                assert(""@ =~= Seq::<char>::empty());
            }
            return Some(cat4("Error Code ", code, ": ", message));
        },
    }
    None
}

/// Turns the events of a stream into the events of a reply. The message in
/// `output` is brought up to date, and what is to be sent is added to `sent`.
pub fn process_responses_stream<P: Fn(&str) -> Option<Value>, S: Fn(&str) -> Value>(
    list: &Vec<ResponseStreamEvent>,
    output: &mut AssistantMessage,
    sent: &mut Vec<AssistantMessageEvent>,
    options: Option<&OpenAIResponsesStreamOptions>,
    parse: &P,
    read: &S,
) -> (r: Result<(), String>)
    requires
        is_parser(*parse),
        is_reader(*read),
    ensures
        ({
            let end = run(
                at_start(old(output)@, events(old(sent)@)),
                wire_events(list@),
                option_properties(options),
                parser_of(*parse),
                reader_of(*read),
            );
            &&& final(output)@ == end.0.reply
            &&& events(final(sent)@) == end.0.sent
            &&& match r {
                Ok(_) => stream_error(end) is None,
                Err(e) => stream_error(end) == Some(e@),
            }
        }),
{
    let mut state = ResponsesStreamState {
        saw_terminal_response_event: false,
        output_slots: Vec::new(),
        reasoning_blocks_by_id: Vec::new(),
    };
    let ghost end = run(
        at_start(output@, events(sent@)),
        wire_events(list@),
        option_properties(options),
        parser_of(*parse),
        reader_of(*read),
    );
    proof {
        assert(slots(state.output_slots@) =~= Seq::<(u64, Slot)>::empty());
        assert(reasoning_blocks(state.reasoning_blocks_by_id@) =~= Seq::<(Seq<char>, int)>::empty());
        assert(wire_events(list@).skip(0) =~= wire_events(list@));
    }
    let mut i: usize = 0;
    while i < list.len()
        invariant
            i <= list@.len(),
            is_parser(*parse),
            is_reader(*read),
            progress_wf(progress(*output, sent@, state)),
            end == run(
                at_start(old(output)@, events(old(sent)@)),
                wire_events(list@),
                option_properties(options),
                parser_of(*parse),
                reader_of(*read),
            ),
            end == run(
                progress(*output, sent@, state),
                wire_events(list@).skip(i as int),
                option_properties(options),
                parser_of(*parse),
                reader_of(*read),
            ),
        decreases list.len() - i,
    {
        let ghost now = progress(*output, sent@, state);
        proof {
            let rest = wire_events(list@).skip(i as int);
            assert(rest[0] == list@[i as int]@);
            assert(rest.drop_first() =~= wire_events(list@).skip(i + 1));
            law_step_keeps_blocks(
                now,
                rest[0],
                option_properties(options),
                parser_of(*parse),
                reader_of(*read),
            );
        }
        if let Some(error) = process_event(
            &list[i],
            output,
            sent,
            &mut state,
            options,
            parse,
            read,
        ) {
            proof {
                assert(end == (progress(*output, sent@, state), Some(error@)));
            }
            return Err(error);
        }
        i += 1;
    }
    if !state.saw_terminal_response_event {
        return Err("OpenAI Responses stream ended before a terminal response event".to_owned());
    }
    Ok(())
}

} // verus!
