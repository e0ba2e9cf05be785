//! The conversation model: messages, tools, models, options, and the events
//! that a streamed reply is made of.
use vstd::prelude::*;
use crate::json::{json, Json, Value};
use crate::number::{free, whole, Cost, Number};
use crate::text::{cat2, clone_opt, opt_text};

verus! {

// ---------------------------------------------------------------------------
// Content
// ---------------------------------------------------------------------------

#[derive(Debug, PartialEq, Eq)]
pub struct TextContent {
    pub text: String,
    pub text_signature: Option<String>,
}

#[derive(Debug, PartialEq, Eq)]
pub struct ThinkingContent {
    pub thinking: String,
    pub thinking_signature: Option<String>,
    pub redacted: Option<bool>,
}

#[derive(Debug, PartialEq, Eq)]
pub struct ToolCall {
    pub id: String,
    pub name: String,
    pub arguments: Value,
    pub thought_signature: Option<String>,
    pub namespace: Option<String>,
}

#[derive(Debug, PartialEq, Eq)]
pub struct ImageContent {
    pub data: String,
    pub mime_type: String,
}

#[derive(Debug, PartialEq, Eq)]
pub enum Content {
    Text(TextContent),
    Thinking(ThinkingContent),
    ToolCall(ToolCall),
    Image(ImageContent),
}

/// What a text block holds.
pub struct TextBlock {
    pub text: Seq<char>,
    pub text_signature: Option<Seq<char>>,
}

/// What a thinking block holds.
pub struct ThinkingBlock {
    pub thinking: Seq<char>,
    pub thinking_signature: Option<Seq<char>>,
    pub redacted: Option<bool>,
}

/// What a tool call holds.
pub struct ToolCallBlock {
    pub id: Seq<char>,
    pub name: Seq<char>,
    pub arguments: Json,
    pub thought_signature: Option<Seq<char>>,
    pub namespace: Option<Seq<char>>,
}

/// What a content block holds.
pub enum Block {
    Text(TextBlock),
    Thinking(ThinkingBlock),
    ToolCall(ToolCallBlock),
    Image { data: Seq<char>, mime_type: Seq<char> },
}

impl View for TextContent {
    type V = TextBlock;

    open spec fn view(&self) -> TextBlock {
        TextBlock { text: self.text@, text_signature: opt_text(self.text_signature) }
    }
}

impl View for ThinkingContent {
    type V = ThinkingBlock;

    open spec fn view(&self) -> ThinkingBlock {
        ThinkingBlock {
            thinking: self.thinking@,
            thinking_signature: opt_text(self.thinking_signature),
            redacted: self.redacted,
        }
    }
}

impl View for ToolCall {
    type V = ToolCallBlock;

    open spec fn view(&self) -> ToolCallBlock {
        ToolCallBlock {
            id: self.id@,
            name: self.name@,
            arguments: self.arguments@,
            thought_signature: opt_text(self.thought_signature),
            namespace: opt_text(self.namespace),
        }
    }
}

impl View for Content {
    type V = Block;

    open spec fn view(&self) -> Block {
        match *self {
            Content::Text(text) => Block::Text(text@),
            Content::Thinking(thinking) => Block::Thinking(thinking@),
            Content::ToolCall(call) => Block::ToolCall(call@),
            Content::Image(image) => Block::Image { data: image.data@, mime_type: image.mime_type@ },
        }
    }
}

/// What a list of content blocks holds.
pub open spec fn blocks(s: Seq<Content>) -> Seq<Block> {
    Seq::new(s.len(), |i: int| s[i]@)
}

impl Clone for TextContent {
    fn clone(&self) -> (r: Self)
        ensures
            r@ == self@,
    {
        TextContent { text: self.text.clone(), text_signature: clone_opt(&self.text_signature) }
    }
}

impl Clone for ThinkingContent {
    fn clone(&self) -> (r: Self)
        ensures
            r@ == self@,
    {
        ThinkingContent {
            thinking: self.thinking.clone(),
            thinking_signature: clone_opt(&self.thinking_signature),
            redacted: self.redacted,
        }
    }
}

impl Clone for ToolCall {
    fn clone(&self) -> (r: Self)
        ensures
            r@ == self@,
    {
        ToolCall {
            id: self.id.clone(),
            name: self.name.clone(),
            arguments: self.arguments.clone(),
            thought_signature: clone_opt(&self.thought_signature),
            namespace: clone_opt(&self.namespace),
        }
    }
}

impl Clone for Content {
    fn clone(&self) -> (r: Self)
        ensures
            r@ == self@,
    {
        match self {
            Content::Text(text) => Content::Text(text.clone()),
            Content::Thinking(thinking) => Content::Thinking(thinking.clone()),
            Content::ToolCall(call) => Content::ToolCall(call.clone()),
            Content::Image(image) => Content::Image(
                ImageContent { data: image.data.clone(), mime_type: image.mime_type.clone() },
            ),
        }
    }
}

pub fn clone_blocks(v: &Vec<Content>) -> (r: Vec<Content>)
    ensures
        blocks(r@) == blocks(v@),
{
    let mut r: Vec<Content> = Vec::new();
    let mut i: usize = 0;
    while i < v.len()
        invariant
            i <= v@.len(),
            r@.len() == i,
            forall|j: int| 0 <= j < i ==> r@[j]@ == v@[j]@,
        decreases v.len() - i,
    {
        let c = v[i].clone();
        r.push(c);
        i += 1;
    }
    proof {
        assert(blocks(r@) =~= blocks(v@));
    }
    r
}

// ---------------------------------------------------------------------------
// Messages
// ---------------------------------------------------------------------------

#[derive(Clone, Debug, PartialEq, Eq)]
pub enum UserMessageContent {
    Text(String),
    Blocks(Vec<Content>),
}

#[derive(Clone, Debug, PartialEq, Eq)]
pub struct UserMessage {
    pub content: UserMessageContent,
    pub timestamp: Number,
}

#[derive(Clone, Debug, PartialEq, Eq)]
pub struct ToolResultMessage {
    pub tool_call_id: String,
    pub tool_name: String,
    pub content: Vec<Content>,
    pub added_tool_names: Option<Vec<String>>,
    pub is_error: bool,
    pub timestamp: Number,
}

#[derive(Clone, Debug, PartialEq, Eq)]
pub enum Message {
    User(UserMessage),
    Assistant(AssistantMessage),
    ToolResult(ToolResultMessage),
}

#[derive(Clone, Copy, Debug, PartialEq, Eq, Structural)]
pub enum StopReason {
    Pending,
    Stop,
    Length,
    ToolUse,
    Error,
    Aborted,
}

pub open spec fn stop_reason_name(reason: StopReason) -> Seq<char> {
    match reason {
        StopReason::Pending => "pending"@,
        StopReason::Stop => "stop"@,
        StopReason::Length => "length"@,
        StopReason::ToolUse => "toolUse"@,
        StopReason::Error => "error"@,
        StopReason::Aborted => "aborted"@,
    }
}

impl StopReason {
    pub fn as_str(&self) -> (r: &'static str)
        ensures
            r@ == stop_reason_name(*self),
    {
        match self {
            StopReason::Pending => "pending",
            StopReason::Stop => "stop",
            StopReason::Length => "length",
            StopReason::ToolUse => "toolUse",
            StopReason::Error => "error",
            StopReason::Aborted => "aborted",
        }
    }
}

#[derive(Clone, Copy, Debug, PartialEq, Eq, Structural)]
pub struct UsageCost {
    pub input: Cost,
    pub output: Cost,
    pub cache_read: Cost,
    pub cache_write: Cost,
    pub total: Cost,
}

/// Token counts of a reply.
#[derive(Clone, Copy, Debug, PartialEq, Eq, Structural)]
pub struct Usage {
    pub input: Number,
    pub output: Number,
    pub cache_read: Number,
    pub cache_write: Number,
    pub cache_write_1h: Option<Number>,
    pub reasoning: Option<Number>,
    pub total_tokens: Number,
    pub cost: UsageCost,
}

/// What the tokens of a reply cost.
pub type Pricing = spec_fn(Usage) -> UsageCost;

/// Whether `p` says what the pricer `f` asks for every usage.
pub open spec fn prices_as<Q: Fn(Usage) -> UsageCost>(f: Q, p: Pricing) -> bool {
    forall|u: Usage, c: UsageCost| #[trigger] call_ensures(f, (u,), c) ==> c == p(u)
}

/// Whether `f` has a price for every usage, and for every usage one only.
pub open spec fn is_pricer<Q: Fn(Usage) -> UsageCost>(f: Q) -> bool {
    &&& forall|u: Usage| call_requires(f, (u,))
    &&& exists|p: Pricing| prices_as(f, p)
}

/// What the pricer `f` asks for each usage.
pub open spec fn pricing_of<Q: Fn(Usage) -> UsageCost>(f: Q) -> Pricing {
    choose|p: Pricing| prices_as(f, p)
}

/// A usage with its price.
pub open spec fn priced(u: Usage, price: Pricing) -> Usage {
    Usage { cost: price(u), ..u }
}

/// Sets the price of a usage.
pub fn price_with<Q: Fn(Usage) -> UsageCost>(u: Usage, price: &Q) -> (r: Usage)
    requires
        is_pricer(*price),
    ensures
        r == priced(u, pricing_of(*price)),
{
    let cost = price(u);
    Usage { cost, ..u }
}

pub open spec fn no_cost() -> UsageCost {
    UsageCost {
        input: free(),
        output: free(),
        cache_read: free(),
        cache_write: free(),
        total: free(),
    }
}

pub open spec fn no_usage() -> Usage {
    Usage {
        input: whole(0),
        output: whole(0),
        cache_read: whole(0),
        cache_write: whole(0),
        cache_write_1h: None,
        reasoning: None,
        total_tokens: whole(0),
        cost: no_cost(),
    }
}

pub fn zero_cost() -> (r: UsageCost)
    ensures
        r == no_cost(),
{
    UsageCost {
        input: Cost::zero(),
        output: Cost::zero(),
        cache_read: Cost::zero(),
        cache_write: Cost::zero(),
        total: Cost::zero(),
    }
}

/// The usage of a reply of which nothing has been counted yet.
pub fn empty_usage() -> (r: Usage)
    ensures
        r == no_usage(),
{
    Usage {
        input: Number::zero(),
        output: Number::zero(),
        cache_read: Number::zero(),
        cache_write: Number::zero(),
        cache_write_1h: None,
        reasoning: None,
        total_tokens: Number::zero(),
        cost: zero_cost(),
    }
}

#[derive(Debug, PartialEq, Eq)]
pub struct AssistantMessage {
    pub content: Vec<Content>,
    pub api: String,
    pub provider: String,
    pub model: String,
    pub response_model: Option<String>,
    pub response_id: Option<String>,
    pub usage: Usage,
    pub stop_reason: StopReason,
    pub error_message: Option<String>,
    pub raw_stop_reason: Option<String>,
    pub end_turn: Option<bool>,
    pub timestamp: Number,
}

/// What an assistant message holds.
#[verifier::ext_equal]
pub struct Reply {
    pub content: Seq<Block>,
    pub api: Seq<char>,
    pub provider: Seq<char>,
    pub model: Seq<char>,
    pub response_model: Option<Seq<char>>,
    pub response_id: Option<Seq<char>>,
    pub usage: Usage,
    pub stop_reason: StopReason,
    pub error_message: Option<Seq<char>>,
    pub raw_stop_reason: Option<Seq<char>>,
    pub end_turn: Option<bool>,
    pub timestamp: Number,
}

impl View for AssistantMessage {
    type V = Reply;

    open spec fn view(&self) -> Reply {
        Reply {
            content: blocks(self.content@),
            api: self.api@,
            provider: self.provider@,
            model: self.model@,
            response_model: opt_text(self.response_model),
            response_id: opt_text(self.response_id),
            usage: self.usage,
            stop_reason: self.stop_reason,
            error_message: opt_text(self.error_message),
            raw_stop_reason: opt_text(self.raw_stop_reason),
            end_turn: self.end_turn,
            timestamp: self.timestamp,
        }
    }
}

impl Clone for AssistantMessage {
    fn clone(&self) -> (r: Self)
        ensures
            r@ == self@,
    {
        AssistantMessage {
            content: clone_blocks(&self.content),
            api: self.api.clone(),
            provider: self.provider.clone(),
            model: self.model.clone(),
            response_model: clone_opt(&self.response_model),
            response_id: clone_opt(&self.response_id),
            usage: self.usage,
            stop_reason: self.stop_reason,
            error_message: clone_opt(&self.error_message),
            raw_stop_reason: clone_opt(&self.raw_stop_reason),
            end_turn: self.end_turn,
            timestamp: self.timestamp,
        }
    }
}

/// A reply that has just begun: no content, no usage, no stop reason.
pub open spec fn new_reply(
    api: Seq<char>,
    provider: Seq<char>,
    model: Seq<char>,
    timestamp: Number,
) -> Reply {
    Reply {
        content: Seq::empty(),
        api,
        provider,
        model,
        response_model: None,
        response_id: None,
        usage: no_usage(),
        stop_reason: StopReason::Pending,
        error_message: None,
        raw_stop_reason: None,
        end_turn: None,
        timestamp,
    }
}

/// The message of a reply that has just begun.
pub fn begin_message(api: &str, provider: &str, model: &str, timestamp: Number) -> (r:
    AssistantMessage)
    ensures
        r@ == new_reply(api@, provider@, model@, timestamp),
{
    let r = AssistantMessage {
        content: Vec::new(),
        api: api.to_owned(),
        provider: provider.to_owned(),
        model: model.to_owned(),
        response_model: None,
        response_id: None,
        usage: empty_usage(),
        stop_reason: StopReason::Pending,
        error_message: None,
        raw_stop_reason: None,
        end_turn: None,
        timestamp,
    };
    proof {
        assert(r@.content =~= Seq::<Block>::empty());
    }
    r
}

/// Whether a reply asks for a tool.
pub open spec fn calls_tool(m: Reply) -> bool {
    exists|i: int| 0 <= i < m.content.len() && (#[trigger] m.content[i]) is ToolCall
}

/// The reply with one more block.
pub open spec fn with_block(m: Reply, b: Block) -> Reply {
    Reply { content: m.content.push(b), ..m }
}

/// The reply with a block replaced.
pub open spec fn with_block_at(m: Reply, i: int, b: Block) -> Reply {
    Reply { content: m.content.update(i, b), ..m }
}

/// The reply with text added to the text block at `i`.
pub open spec fn text_appended(m: Reply, i: int, delta: Seq<char>) -> Reply {
    match m.content[i] {
        Block::Text(t) => with_block_at(m, i, Block::Text(TextBlock { text: t.text + delta, ..t })),
        _ => m,
    }
}

/// The reply with text added to the thinking block at `i`.
pub open spec fn thinking_appended(m: Reply, i: int, delta: Seq<char>) -> Reply {
    match m.content[i] {
        Block::Thinking(t) => with_block_at(
            m,
            i,
            Block::Thinking(ThinkingBlock { thinking: t.thinking + delta, ..t }),
        ),
        _ => m,
    }
}

/// The reply with the arguments of the tool call at `i` replaced.
pub open spec fn arguments_set(m: Reply, i: int, arguments: Json) -> Reply {
    match m.content[i] {
        Block::ToolCall(c) => with_block_at(m, i, Block::ToolCall(ToolCallBlock { arguments, ..c })),
        _ => m,
    }
}

impl AssistantMessage {
    /// Adds text to the text block at `i`, where there is one.
    pub fn append_text(&mut self, i: usize, delta: &str) -> (r: bool)
        requires
            i < old(self).content@.len(),
        ensures
            r == (old(self)@.content[i as int] is Text),
            final(self)@ == text_appended(old(self)@, i as int, delta@),
            final(self).content@.len() == old(self).content@.len(),
    {
        let c = match &self.content[i] {
            Content::Text(t) => Content::Text(
                TextContent {
                    text: cat2(t.text.as_str(), delta),
                    text_signature: clone_opt(&t.text_signature),
                },
            ),
            _ => {
                return false;
            },
        };
        self.set_content(i, c);
        true
    }

    /// Adds text to the thinking block at `i`, where there is one.
    pub fn append_thinking(&mut self, i: usize, delta: &str) -> (r: bool)
        requires
            i < old(self).content@.len(),
        ensures
            r == (old(self)@.content[i as int] is Thinking),
            final(self)@ == thinking_appended(old(self)@, i as int, delta@),
            final(self).content@.len() == old(self).content@.len(),
    {
        let c = match &self.content[i] {
            Content::Thinking(t) => Content::Thinking(
                ThinkingContent {
                    thinking: cat2(t.thinking.as_str(), delta),
                    thinking_signature: clone_opt(&t.thinking_signature),
                    redacted: t.redacted,
                },
            ),
            _ => {
                return false;
            },
        };
        self.set_content(i, c);
        true
    }

    /// Replaces the arguments of the tool call at `i`, where there is one.
    pub fn set_arguments(&mut self, i: usize, arguments: Value) -> (r: bool)
        requires
            i < old(self).content@.len(),
        ensures
            r == (old(self)@.content[i as int] is ToolCall),
            final(self)@ == arguments_set(old(self)@, i as int, arguments@),
            final(self).content@.len() == old(self).content@.len(),
    {
        let c = match &self.content[i] {
            Content::ToolCall(t) => Content::ToolCall(
                ToolCall {
                    id: t.id.clone(),
                    name: t.name.clone(),
                    arguments,
                    thought_signature: clone_opt(&t.thought_signature),
                    namespace: clone_opt(&t.namespace),
                },
            ),
            _ => {
                return false;
            },
        };
        self.set_content(i, c);
        true
    }

    pub fn push_content(&mut self, c: Content)
        ensures
            final(self)@ == with_block(old(self)@, c@),
            final(self).content@.len() == old(self).content@.len() + 1,
    {
        self.content.push(c);
        proof {
            assert(self@.content =~= old(self)@.content.push(c@));
        }
    }

    pub fn set_content(&mut self, i: usize, c: Content)
        requires
            i < old(self).content@.len(),
        ensures
            final(self)@ == with_block_at(old(self)@, i as int, c@),
            final(self).content@.len() == old(self).content@.len(),
    {
        self.content.set(i, c);
        proof {
            assert(self@.content =~= old(self)@.content.update(i as int, c@));
        }
    }

    pub fn has_tool_call(&self) -> (r: bool)
        ensures
            r == calls_tool(self@),
    {
        let mut i: usize = 0;
        while i < self.content.len()
            invariant
                i <= self.content@.len(),
                forall|j: int| 0 <= j < i ==> !(self@.content[j] is ToolCall),
            decreases self.content.len() - i,
        {
            match &self.content[i] {
                Content::ToolCall(_) => {
                    proof {
                        assert(self@.content[i as int] is ToolCall);
                    }
                    return true;
                },
                _ => {},
            }
            i += 1;
        }
        false
    }
}

// ---------------------------------------------------------------------------
// Events of a streamed reply
// ---------------------------------------------------------------------------

#[derive(Debug, PartialEq, Eq)]
pub enum AssistantMessageEvent {
    Start { partial: AssistantMessage },
    TextStart { content_index: usize, partial: AssistantMessage },
    TextDelta { content_index: usize, delta: String, partial: AssistantMessage },
    TextEnd { content_index: usize, content: String, partial: AssistantMessage },
    ThinkingStart { content_index: usize, partial: AssistantMessage },
    ThinkingDelta { content_index: usize, delta: String, partial: AssistantMessage },
    ThinkingEnd { content_index: usize, content: String, partial: AssistantMessage },
    ToolCallStart { content_index: usize, partial: AssistantMessage },
    ToolCallDelta { content_index: usize, delta: String, partial: AssistantMessage },
    ToolCallEnd { content_index: usize, tool_call: ToolCall, partial: AssistantMessage },
    Done { reason: String, message: AssistantMessage },
    Error { reason: String, error: AssistantMessage },
}

/// What an event holds.
pub enum Event {
    Start { partial: Reply },
    TextStart { content_index: int, partial: Reply },
    TextDelta { content_index: int, delta: Seq<char>, partial: Reply },
    TextEnd { content_index: int, content: Seq<char>, partial: Reply },
    ThinkingStart { content_index: int, partial: Reply },
    ThinkingDelta { content_index: int, delta: Seq<char>, partial: Reply },
    ThinkingEnd { content_index: int, content: Seq<char>, partial: Reply },
    ToolCallStart { content_index: int, partial: Reply },
    ToolCallDelta { content_index: int, delta: Seq<char>, partial: Reply },
    ToolCallEnd { content_index: int, tool_call: ToolCallBlock, partial: Reply },
    Done { reason: Seq<char>, message: Reply },
    Error { reason: Seq<char>, error: Reply },
}

impl View for AssistantMessageEvent {
    type V = Event;

    open spec fn view(&self) -> Event {
        match *self {
            AssistantMessageEvent::Start { partial } => Event::Start { partial: partial@ },
            AssistantMessageEvent::TextStart { content_index, partial } => Event::TextStart {
                content_index: content_index as int,
                partial: partial@,
            },
            AssistantMessageEvent::TextDelta { content_index, delta, partial } => Event::TextDelta {
                content_index: content_index as int,
                delta: delta@,
                partial: partial@,
            },
            AssistantMessageEvent::TextEnd { content_index, content, partial } => Event::TextEnd {
                content_index: content_index as int,
                content: content@,
                partial: partial@,
            },
            AssistantMessageEvent::ThinkingStart { content_index, partial } => Event::ThinkingStart {
                content_index: content_index as int,
                partial: partial@,
            },
            AssistantMessageEvent::ThinkingDelta {
                content_index,
                delta,
                partial,
            } => Event::ThinkingDelta {
                content_index: content_index as int,
                delta: delta@,
                partial: partial@,
            },
            AssistantMessageEvent::ThinkingEnd {
                content_index,
                content,
                partial,
            } => Event::ThinkingEnd {
                content_index: content_index as int,
                content: content@,
                partial: partial@,
            },
            AssistantMessageEvent::ToolCallStart { content_index, partial } => Event::ToolCallStart {
                content_index: content_index as int,
                partial: partial@,
            },
            AssistantMessageEvent::ToolCallDelta {
                content_index,
                delta,
                partial,
            } => Event::ToolCallDelta {
                content_index: content_index as int,
                delta: delta@,
                partial: partial@,
            },
            AssistantMessageEvent::ToolCallEnd {
                content_index,
                tool_call,
                partial,
            } => Event::ToolCallEnd {
                content_index: content_index as int,
                tool_call: tool_call@,
                partial: partial@,
            },
            AssistantMessageEvent::Done { reason, message } => Event::Done {
                reason: reason@,
                message: message@,
            },
            AssistantMessageEvent::Error { reason, error } => Event::Error {
                reason: reason@,
                error: error@,
            },
        }
    }
}

/// What a list of events holds.
pub open spec fn events(s: Seq<AssistantMessageEvent>) -> Seq<Event> {
    Seq::new(s.len(), |i: int| s[i]@)
}

/// Adds an event to those that have been sent.
pub fn emit(sent: &mut Vec<AssistantMessageEvent>, e: AssistantMessageEvent)
    ensures
        events(final(sent)@) == events(old(sent)@).push(e@),
{
    sent.push(e);
    proof {
        assert(events(sent@) =~= events(old(sent)@).push(e@));
    }
}

// ---------------------------------------------------------------------------
// Tools
// ---------------------------------------------------------------------------

/// The schema of one property: its types, and the schema as it is sent.
#[derive(Clone, Debug, PartialEq, Eq)]
pub struct PropertySchema {
    pub type_: Option<Vec<String>>,
    pub value: Value,
}

/// A JSON schema: what the adapters read of it, and the schema as it is sent.
#[derive(Clone, Debug, PartialEq, Eq)]
pub struct JsonSchemaObject {
    pub type_: Option<Vec<String>>,
    pub properties: Option<Vec<(String, PropertySchema)>>,
    pub required: Option<Vec<String>>,
    pub value: Value,
}

impl Default for JsonSchemaObject {
    fn default() -> (r: Self)
        ensures
            r.type_ is None,
            r.properties is None,
            r.required is None,
            r.value@ == Json::Object(crate::json::no_entries()),
    {
        JsonSchemaObject {
            type_: None,
            properties: None,
            required: None,
            value: crate::json::object(crate::json::new_entries()),
        }
    }
}

impl JsonSchemaObject {
    pub fn to_value(&self) -> (r: Value)
        ensures
            r@ == self.value@,
    {
        self.value.clone()
    }
}

#[derive(Clone, Debug, PartialEq, Eq)]
pub enum ConstrainedSamplingConfig {
    JsonSchema { strict: String },
    Grammar { variants: Vec<(String, String)> },
}

#[derive(Clone, Debug, PartialEq, Eq)]
pub enum ConstrainedSampling {
    Disabled,
    Config(ConstrainedSamplingConfig),
}

#[derive(Clone, Debug, PartialEq, Eq)]
pub struct Tool {
    pub name: String,
    pub description: String,
    pub parameters: JsonSchemaObject,
    pub constrained_sampling: Option<ConstrainedSampling>,
}

/// The tools that a request offers at once, and those that are loaded later,
/// each under the name that loads it.
#[derive(Clone, Debug, PartialEq, Eq)]
pub struct ToolPlacement {
    pub immediate: Vec<Tool>,
    pub deferred: Vec<(String, Tool)>,
}

#[derive(Clone, Debug, Default, PartialEq, Eq)]
pub struct Context {
    pub system_prompt: Option<String>,
    pub messages: Vec<Message>,
    pub tools: Option<Vec<Tool>>,
}

// ---------------------------------------------------------------------------
// Models
// ---------------------------------------------------------------------------

#[derive(Clone, Copy, Debug, PartialEq, Eq, Structural)]
pub struct ModelCostRates {
    pub input: Number,
    pub output: Number,
    pub cache_read: Number,
    pub cache_write: Number,
}

#[derive(Clone, Debug, Default, PartialEq, Eq)]
pub struct AnthropicMessagesCompat {
    pub supports_eager_tool_input_streaming: Option<bool>,
    pub supports_long_cache_retention: Option<bool>,
    pub send_session_affinity_headers: Option<bool>,
    pub supports_cache_control_on_tools: Option<bool>,
    pub supports_temperature: Option<bool>,
    pub allow_empty_signature: Option<bool>,
    pub supports_strict_tools: Option<bool>,
    pub supports_tool_references: Option<bool>,
    pub force_adaptive_thinking: Option<bool>,
}

#[derive(Clone, Debug, Default, PartialEq, Eq)]
pub struct OpenAIResponsesCompat {
    pub supports_developer_role: Option<bool>,
    pub session_affinity_format: Option<String>,
    pub supports_long_cache_retention: Option<bool>,
    pub supports_strict_mode: Option<bool>,
    pub supports_openai_grammar_tools: Option<bool>,
    pub supports_additional_tools: Option<bool>,
    pub supports_tool_search: Option<bool>,
    pub supports_explicit_prompt_cache_mode: Option<bool>,
}

#[derive(Clone, Debug, Default, PartialEq, Eq)]
pub struct OpenRouterRouting {
    pub allow_fallbacks: Option<bool>,
    pub require_parameters: Option<bool>,
    pub data_collection: Option<String>,
    pub zdr: Option<bool>,
    pub enforce_distillable_text: Option<bool>,
    pub order: Option<Vec<String>>,
    pub only: Option<Vec<String>>,
    pub ignore: Option<Vec<String>>,
    pub quantizations: Option<Vec<String>>,
}

#[derive(Clone, Debug, Default, PartialEq, Eq)]
pub struct VercelGatewayRouting {
    pub only: Option<Vec<String>>,
    pub order: Option<Vec<String>>,
}

#[derive(Clone, Debug, PartialEq, Eq)]
pub enum ChatTemplateKwargValue {
    Str(String),
    Number(Number),
    Bool(bool),
    Null,
    Var { var: String, omit_when_off: Option<bool> },
}

#[derive(Clone, Debug, Default, PartialEq, Eq)]
pub struct OpenAICompletionsCompat {
    pub supports_store: Option<bool>,
    pub supports_developer_role: Option<bool>,
    pub supports_reasoning_effort: Option<bool>,
    pub supports_usage_in_streaming: Option<bool>,
    pub supports_finish_reason: Option<bool>,
    pub max_tokens_field: Option<String>,
    pub requires_tool_result_name: Option<bool>,
    pub requires_assistant_after_tool_result: Option<bool>,
    pub requires_thinking_as_text: Option<bool>,
    pub requires_reasoning_content_on_assistant_messages: Option<bool>,
    pub thinking_format: Option<String>,
    pub open_router_routing: Option<OpenRouterRouting>,
    pub vercel_gateway_routing: Option<VercelGatewayRouting>,
    pub chat_template_kwargs: Option<Vec<(String, ChatTemplateKwargValue)>>,
    pub chat_template_args: Option<Vec<(String, ChatTemplateKwargValue)>>,
    pub zai_tool_stream: Option<bool>,
    pub supports_thinking_token_budget: Option<bool>,
    pub supports_strict_mode: Option<bool>,
    pub supports_openai_grammar_tools: Option<bool>,
    pub cache_control_format: Option<String>,
    pub send_session_affinity_headers: Option<bool>,
    pub deferred_tools_mode: Option<String>,
    pub session_affinity_format: Option<String>,
    pub supports_long_cache_retention: Option<bool>,
}

#[derive(Clone, Debug, PartialEq, Eq)]
pub enum ModelCompat {
    AnthropicMessages(AnthropicMessagesCompat),
    OpenAiCompletions(OpenAICompletionsCompat),
    OpenAiResponses(OpenAIResponsesCompat),
}

/// What Anthropic calls its series of models: `id` as their ids begin, `title`
/// as it stands in a sentence.
#[derive(Clone, Debug, PartialEq, Eq)]
pub struct SeriesName {
    pub id: String,
    pub title: String,
}

/// A model of a provider, and how it is reached. `anthropic_series` is the
/// series that some interfaces tell apart from the others, and under whose name
/// Anthropic's own client goes.
#[derive(Clone, Debug, PartialEq, Eq)]
pub struct Model {
    pub id: String,
    pub name: String,
    pub api: String,
    pub provider: String,
    pub base_url: String,
    pub reasoning: bool,
    pub thinking_level_map: Option<Vec<(String, Option<String>)>>,
    pub input: Vec<String>,
    pub cost: ModelCostRates,
    pub context_window: Number,
    pub max_tokens: Number,
    pub headers: Option<Vec<(String, String)>>,
    pub compat: Option<ModelCompat>,
    pub anthropic_series: SeriesName,
}

// ---------------------------------------------------------------------------
// Options
// ---------------------------------------------------------------------------

/// Headers of a request; a header without a value is one that is left out.
pub type ProviderHeaders = Vec<(String, Option<String>)>;

#[derive(Clone, Debug, Default, PartialEq, Eq)]
pub struct ProviderRequestOptions {
    pub api_key: Option<String>,
    pub env: Option<Vec<(String, String)>>,
    pub headers: Option<ProviderHeaders>,
    pub timeout_ms: Option<u64>,
    pub max_retries: Option<u64>,
    pub max_retry_delay_ms: Option<u64>,
}

#[derive(Clone, Debug, Default, PartialEq, Eq)]
pub struct StreamOptions {
    pub request: ProviderRequestOptions,
    pub temperature: Option<Number>,
    pub max_tokens: Option<Number>,
    pub cache_retention: Option<String>,
    pub session_id: Option<String>,
    pub metadata: Option<Vec<(String, Value)>>,
    pub sampling_params: Option<Vec<(String, Value)>>,
}

/// Token budgets for the levels of thinking.
#[derive(Clone, Copy, Debug, Default, PartialEq, Eq)]
pub struct ThinkingBudgets {
    pub minimal: Option<Number>,
    pub low: Option<Number>,
    pub medium: Option<Number>,
    pub high: Option<Number>,
}

#[derive(Clone, Debug, Default, PartialEq, Eq)]
pub struct SimpleStreamOptions {
    pub stream: StreamOptions,
    pub reasoning: Option<String>,
    pub thinking_budgets: Option<ThinkingBudgets>,
}

/// What a list of name and value pairs holds.
pub open spec fn pairs(s: Seq<(String, String)>) -> Seq<(Seq<char>, Seq<char>)> {
    Seq::new(s.len(), |i: int| (s[i].0@, s[i].1@))
}

/// What a list of names with optional values holds.
pub open spec fn opt_pairs(s: Seq<(String, Option<String>)>) -> Seq<(
    Seq<char>,
    Option<Seq<char>>,
)> {
    Seq::new(s.len(), |i: int| (s[i].0@, opt_text(s[i].1)))
}

/// What the model sends for a level of thinking: `None` where the level is not
/// mapped, and where it is mapped to nothing.
pub open spec fn mapped_level(model: Model, level: Seq<char>) -> Option<Seq<char>> {
    match model.thinking_level_map {
        Some(map) => match crate::json::get(opt_pairs(map@), level) {
            Some(value) => value,
            None => None,
        },
        None => None,
    }
}

/// Whether a level of thinking is mapped to nothing.
pub open spec fn level_is_null(model: Model, level: Seq<char>) -> bool {
    match model.thinking_level_map {
        Some(map) => crate::json::get(opt_pairs(map@), level) == Some(None::<Seq<char>>),
        None => false,
    }
}

/// The first entry of a level in the model's map of levels.
fn level_position(map: &Vec<(String, Option<String>)>, level: &str) -> (r: Option<usize>)
    ensures
        match r {
            Some(i) => i < map@.len() && crate::json::get(opt_pairs(map@), level@) == Some(
                opt_text(map@[i as int].1),
            ),
            None => crate::json::get(opt_pairs(map@), level@) is None,
        },
{
    match crate::json::find_key(map, level) {
        Some(i) => {
            proof {
                crate::json::lemma_key_index_is(opt_pairs(map@), level@, i as int);
            }
            Some(i)
        },
        None => {
            proof {
                crate::json::lemma_key_index_is(opt_pairs(map@), level@, map@.len() as int);
            }
            None
        },
    }
}

impl Model {
    pub fn mapped_level(&self, level: &str) -> (r: Option<String>)
        ensures
            opt_text(r) == mapped_level(*self, level@),
    {
        match &self.thinking_level_map {
            Some(map) => match level_position(map, level) {
                Some(i) => clone_opt(&map[i].1),
                None => None,
            },
            None => None,
        }
    }

    pub fn level_is_null(&self, level: &str) -> (r: bool)
        ensures
            r == level_is_null(*self, level@),
    {
        match &self.thinking_level_map {
            Some(map) => match level_position(map, level) {
                Some(i) => map[i].1.is_none(),
                None => false,
            },
            None => false,
        }
    }
}

} // verus!
