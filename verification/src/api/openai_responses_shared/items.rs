//! The items and the tools of a request.
use vstd::prelude::*;
use vstd::string::*;
use crate::json::{
    array, items, new_entries, new_items, no_entries, object, object1, one_entry, opt_bool_json,
    opt_str_json, push_item, put, put_array, put_object, put_opt_bool, put_opt_str, put_str, string,
    EntriesSpec, Json, Value,
};
use crate::text::{borrow_opt, opt_text};

verus! {

// ---------------------------------------------------------------------------
// Content
// ---------------------------------------------------------------------------

#[derive(Clone, Debug, PartialEq, Eq)]
pub struct ResponseInputText {
    pub text: String,
}

#[derive(Clone, Debug, PartialEq, Eq)]
pub struct ResponseInputImage {
    pub detail: String,
    pub image_url: String,
}

#[derive(Clone, Debug, PartialEq, Eq)]
pub enum ResponseInputContent {
    InputText(ResponseInputText),
    InputImage(ResponseInputImage),
}

#[derive(Clone, Debug, PartialEq, Eq)]
pub struct ResponseOutputText {
    pub text: String,
}

#[derive(Clone, Debug, PartialEq, Eq)]
pub struct ResponseOutputMessage {
    pub id: String,
    pub content: Vec<ResponseOutputText>,
    pub phase: Option<String>,
}

/// A reasoning item as it was received.
pub type ResponseReasoningItem = Value;

#[derive(Clone, Debug, PartialEq, Eq)]
pub enum ResponseToolResultOutput {
    Text(String),
    Blocks(Vec<ResponseInputContent>),
}

#[derive(Clone, Debug, PartialEq, Eq)]
pub enum OpenAITool {
    Function {
        name: String,
        description: String,
        parameters: Value,
        strict: Option<bool>,
        defer_loading: Option<bool>,
    },
    Custom {
        name: String,
        description: String,
        format: String,
        definition: String,
        defer_loading: Option<bool>,
    },
}

#[derive(Clone, Debug, PartialEq, Eq)]
pub enum ResponseInputItem {
    /// The prompt of the system or of the developer.
    Developer { role: String, content: Vec<ResponseInputText> },
    User { content: Vec<ResponseInputContent> },
    AssistantMessage(ResponseOutputMessage),
    Reasoning(ResponseReasoningItem),
    FunctionCall {
        id: Option<String>,
        call_id: String,
        name: String,
        arguments: String,
        namespace: Option<String>,
    },
    CustomToolCall {
        id: Option<String>,
        call_id: String,
        name: String,
        input: String,
        namespace: Option<String>,
    },
    FunctionCallOutput { call_id: String, output: ResponseToolResultOutput },
    CustomToolCallOutput { call_id: String, output: ResponseToolResultOutput },
    AdditionalTools { tools: Vec<OpenAITool> },
    ToolSearchCall { call_id: String, arguments: Value },
    ToolSearchOutput { call_id: String, tools: Vec<OpenAITool> },
}

// ---------------------------------------------------------------------------
// What they hold
// ---------------------------------------------------------------------------

pub enum Part {
    Text(Seq<char>),
    Image { detail: Seq<char>, image_url: Seq<char> },
}

pub enum ToolOutput {
    Text(Seq<char>),
    Blocks(Seq<Part>),
}

pub enum ToolItem {
    Function {
        name: Seq<char>,
        description: Seq<char>,
        parameters: Json,
        strict: Option<bool>,
        defer_loading: Option<bool>,
    },
    Custom {
        name: Seq<char>,
        description: Seq<char>,
        format: Seq<char>,
        definition: Seq<char>,
        defer_loading: Option<bool>,
    },
}

pub enum Item {
    Developer { role: Seq<char>, content: Seq<Seq<char>> },
    User { content: Seq<Part> },
    AssistantMessage { id: Seq<char>, content: Seq<Seq<char>>, phase: Option<Seq<char>> },
    Reasoning(Json),
    FunctionCall {
        id: Option<Seq<char>>,
        call_id: Seq<char>,
        name: Seq<char>,
        arguments: Seq<char>,
        namespace: Option<Seq<char>>,
    },
    CustomToolCall {
        id: Option<Seq<char>>,
        call_id: Seq<char>,
        name: Seq<char>,
        input: Seq<char>,
        namespace: Option<Seq<char>>,
    },
    FunctionCallOutput { call_id: Seq<char>, output: ToolOutput },
    CustomToolCallOutput { call_id: Seq<char>, output: ToolOutput },
    AdditionalTools { tools: Seq<ToolItem> },
    ToolSearchCall { call_id: Seq<char>, arguments: Json },
    ToolSearchOutput { call_id: Seq<char>, tools: Seq<ToolItem> },
}

impl View for ResponseInputContent {
    type V = Part;

    open spec fn view(&self) -> Part {
        match *self {
            ResponseInputContent::InputText(text) => Part::Text(text.text@),
            ResponseInputContent::InputImage(image) => Part::Image {
                detail: image.detail@,
                image_url: image.image_url@,
            },
        }
    }
}

pub open spec fn parts(s: Seq<ResponseInputContent>) -> Seq<Part> {
    Seq::new(s.len(), |i: int| s[i]@)
}

pub open spec fn input_texts(s: Seq<ResponseInputText>) -> Seq<Seq<char>> {
    Seq::new(s.len(), |i: int| s[i].text@)
}

pub open spec fn output_texts(s: Seq<ResponseOutputText>) -> Seq<Seq<char>> {
    Seq::new(s.len(), |i: int| s[i].text@)
}

impl View for ResponseToolResultOutput {
    type V = ToolOutput;

    open spec fn view(&self) -> ToolOutput {
        match *self {
            ResponseToolResultOutput::Text(text) => ToolOutput::Text(text@),
            ResponseToolResultOutput::Blocks(blocks) => ToolOutput::Blocks(parts(blocks@)),
        }
    }
}

impl View for OpenAITool {
    type V = ToolItem;

    open spec fn view(&self) -> ToolItem {
        match *self {
            OpenAITool::Function { name, description, parameters, strict, defer_loading } => {
                ToolItem::Function {
                    name: name@,
                    description: description@,
                    parameters: parameters@,
                    strict,
                    defer_loading,
                }
            },
            OpenAITool::Custom { name, description, format, definition, defer_loading } => {
                ToolItem::Custom {
                    name: name@,
                    description: description@,
                    format: format@,
                    definition: definition@,
                    defer_loading,
                }
            },
        }
    }
}

pub open spec fn tool_items(s: Seq<OpenAITool>) -> Seq<ToolItem> {
    Seq::new(s.len(), |i: int| s[i]@)
}

impl View for ResponseInputItem {
    type V = Item;

    open spec fn view(&self) -> Item {
        match *self {
            ResponseInputItem::Developer { role, content } => Item::Developer {
                role: role@,
                content: input_texts(content@),
            },
            ResponseInputItem::User { content } => Item::User { content: parts(content@) },
            ResponseInputItem::AssistantMessage(message) => Item::AssistantMessage {
                id: message.id@,
                content: output_texts(message.content@),
                phase: opt_text(message.phase),
            },
            ResponseInputItem::Reasoning(item) => Item::Reasoning(item@),
            ResponseInputItem::FunctionCall { id, call_id, name, arguments, namespace } => {
                Item::FunctionCall {
                    id: opt_text(id),
                    call_id: call_id@,
                    name: name@,
                    arguments: arguments@,
                    namespace: opt_text(namespace),
                }
            },
            ResponseInputItem::CustomToolCall { id, call_id, name, input, namespace } => {
                Item::CustomToolCall {
                    id: opt_text(id),
                    call_id: call_id@,
                    name: name@,
                    input: input@,
                    namespace: opt_text(namespace),
                }
            },
            ResponseInputItem::FunctionCallOutput { call_id, output } => Item::FunctionCallOutput {
                call_id: call_id@,
                output: output@,
            },
            ResponseInputItem::CustomToolCallOutput { call_id, output } => {
                Item::CustomToolCallOutput { call_id: call_id@, output: output@ }
            },
            ResponseInputItem::AdditionalTools { tools } => Item::AdditionalTools {
                tools: tool_items(tools@),
            },
            ResponseInputItem::ToolSearchCall { call_id, arguments } => Item::ToolSearchCall {
                call_id: call_id@,
                arguments: arguments@,
            },
            ResponseInputItem::ToolSearchOutput { call_id, tools } => Item::ToolSearchOutput {
                call_id: call_id@,
                tools: tool_items(tools@),
            },
        }
    }
}

pub open spec fn input_items(s: Seq<ResponseInputItem>) -> Seq<Item> {
    Seq::new(s.len(), |i: int| s[i]@)
}

pub fn push_input(list: &mut Vec<ResponseInputItem>, item: ResponseInputItem)
    ensures
        input_items(final(list)@) == input_items(old(list)@).push(item@),
{
    list.push(item);
    proof {
        assert(input_items(list@) =~= input_items(old(list)@).push(item@));
    }
}

// ---------------------------------------------------------------------------
// How they are sent
// ---------------------------------------------------------------------------

pub open spec fn part_json(part: Part) -> Json {
    match part {
        Part::Text(text) => Json::Object(
            no_entries().put("type"@, Json::Str("input_text"@)).put("text"@, Json::Str(text)),
        ),
        Part::Image { detail, image_url } => Json::Object(
            no_entries().put("type"@, Json::Str("input_image"@)).put("detail"@, Json::Str(detail)).put(
                "image_url"@,
                Json::Str(image_url),
            ),
        ),
    }
}

pub open spec fn parts_json(list: Seq<Part>) -> Json {
    Json::Array(Seq::new(list.len(), |i: int| part_json(list[i])))
}

impl ResponseInputContent {
    pub fn to_value(&self) -> (r: Value)
        ensures
            r@ == part_json(self@),
    {
        let mut e = new_entries();
        match self {
            ResponseInputContent::InputText(text) => {
                put_str(&mut e, "type", "input_text");
                put_str(&mut e, "text", text.text.as_str());
            },
            ResponseInputContent::InputImage(image) => {
                put_str(&mut e, "type", "input_image");
                put_str(&mut e, "detail", image.detail.as_str());
                put_str(&mut e, "image_url", image.image_url.as_str());
            },
        }
        object(e)
    }
}

fn parts_value(list: &Vec<ResponseInputContent>) -> (r: Value)
    ensures
        r@ == parts_json(parts(list@)),
{
    let mut a = new_items();
    let mut i: usize = 0;
    while i < list.len()
        invariant
            i <= list@.len(),
            items(a@).len() == i,
            forall|j: int| 0 <= j < i ==> (#[trigger] items(a@)[j]) == part_json(list@[j]@),
        decreases list.len() - i,
    {
        push_item(&mut a, list[i].to_value());
        i += 1;
    }
    proof {
        assert(items(a@) =~= Seq::new(parts(list@).len(), |i: int| part_json(parts(list@)[i])));
    }
    array(a)
}

pub open spec fn output_json(output: ToolOutput) -> Json {
    match output {
        ToolOutput::Text(text) => Json::Str(text),
        ToolOutput::Blocks(list) => parts_json(list),
    }
}

impl ResponseToolResultOutput {
    pub fn to_value(&self) -> (r: Value)
        ensures
            r@ == output_json(self@),
    {
        match self {
            ResponseToolResultOutput::Text(text) => string(text.as_str()),
            ResponseToolResultOutput::Blocks(blocks) => parts_value(blocks),
        }
    }
}

pub open spec fn tool_item_json(tool: ToolItem) -> Json {
    match tool {
        ToolItem::Function { name, description, parameters, strict, defer_loading } => Json::Object(
            no_entries().put("type"@, Json::Str("function"@)).put("name"@, Json::Str(name)).put(
                "description"@,
                Json::Str(description),
            ).put("parameters"@, parameters).put_opt("strict"@, opt_bool_json(strict)).put_opt(
                "defer_loading"@,
                opt_bool_json(defer_loading),
            ),
        ),
        ToolItem::Custom { name, description, format, definition, defer_loading } => Json::Object(
            no_entries().put("type"@, Json::Str("custom"@)).put("name"@, Json::Str(name)).put(
                "description"@,
                Json::Str(description),
            ).put(
                "format"@,
                Json::Object(
                    no_entries().put("type"@, Json::Str("grammar"@)).put(
                        "syntax"@,
                        Json::Str(format),
                    ).put("definition"@, Json::Str(definition)),
                ),
            ).put_opt("defer_loading"@, opt_bool_json(defer_loading)),
        ),
    }
}

pub open spec fn tool_items_json(list: Seq<ToolItem>) -> Json {
    Json::Array(Seq::new(list.len(), |i: int| tool_item_json(list[i])))
}

impl OpenAITool {
    pub fn to_value(&self) -> (r: Value)
        ensures
            r@ == tool_item_json(self@),
    {
        let mut e = new_entries();
        match self {
            OpenAITool::Function { name, description, parameters, strict, defer_loading } => {
                put_str(&mut e, "type", "function");
                put_str(&mut e, "name", name.as_str());
                put_str(&mut e, "description", description.as_str());
                put(&mut e, "parameters", parameters.clone());
                put_opt_bool(&mut e, "strict", *strict);
                put_opt_bool(&mut e, "defer_loading", *defer_loading);
            },
            OpenAITool::Custom { name, description, format, definition, defer_loading } => {
                put_str(&mut e, "type", "custom");
                put_str(&mut e, "name", name.as_str());
                put_str(&mut e, "description", description.as_str());
                let mut grammar = new_entries();
                put_str(&mut grammar, "type", "grammar");
                put_str(&mut grammar, "syntax", format.as_str());
                put_str(&mut grammar, "definition", definition.as_str());
                put_object(&mut e, "format", grammar);
                put_opt_bool(&mut e, "defer_loading", *defer_loading);
            },
        }
        object(e)
    }
}

pub fn tools_value(list: &Vec<OpenAITool>) -> (r: Value)
    ensures
        r@ == tool_items_json(tool_items(list@)),
{
    let mut a = new_items();
    let mut i: usize = 0;
    while i < list.len()
        invariant
            i <= list@.len(),
            items(a@).len() == i,
            forall|j: int| 0 <= j < i ==> (#[trigger] items(a@)[j]) == tool_item_json(list@[j]@),
        decreases list.len() - i,
    {
        push_item(&mut a, list[i].to_value());
        i += 1;
    }
    proof {
        assert(items(a@) =~= Seq::new(
            tool_items(list@).len(),
            |i: int| tool_item_json(tool_items(list@)[i]),
        ));
    }
    array(a)
}

pub open spec fn prompt_parts_json(list: Seq<Seq<char>>) -> Json {
    Json::Array(Seq::new(list.len(), |i: int| one_entry("text"@, Json::Str(list[i]))))
}

pub open spec fn output_text_json(text: Seq<char>) -> Json {
    Json::Object(
        no_entries().put("type"@, Json::Str("output_text"@)).put("text"@, Json::Str(text)).put(
            "annotations"@,
            Json::Array(Seq::empty()),
        ),
    )
}

pub open spec fn output_texts_json(list: Seq<Seq<char>>) -> Json {
    Json::Array(Seq::new(list.len(), |i: int| output_text_json(list[i])))
}

pub open spec fn call_json(
    kind: Seq<char>,
    call_id: Seq<char>,
    name: Seq<char>,
    key: Seq<char>,
    text: Seq<char>,
    id: Option<Seq<char>>,
    namespace: Option<Seq<char>>,
) -> Json {
    Json::Object(
        no_entries().put("type"@, Json::Str(kind)).put("call_id"@, Json::Str(call_id)).put(
            "name"@,
            Json::Str(name),
        ).put(key, Json::Str(text)).put_opt("id"@, opt_str_json(id)).put_opt(
            "namespace"@,
            opt_str_json(namespace),
        ),
    )
}

pub open spec fn call_output_json(kind: Seq<char>, call_id: Seq<char>, output: ToolOutput) -> Json {
    Json::Object(
        no_entries().put("type"@, Json::Str(kind)).put("call_id"@, Json::Str(call_id)).put(
            "output"@,
            output_json(output),
        ),
    )
}

pub open spec fn search_json(kind: Seq<char>, call_id: Seq<char>, key: Seq<char>, value: Json) -> Json {
    Json::Object(
        no_entries().put("type"@, Json::Str(kind)).put("call_id"@, Json::Str(call_id)).put(
            "execution"@,
            Json::Str("client"@),
        ).put("status"@, Json::Str("completed"@)).put(key, value),
    )
}

/// An item as it is sent.
pub open spec fn item_json(item: Item) -> Json {
    match item {
        Item::Developer { role, content } => Json::Object(
            no_entries().put("role"@, Json::Str(role)).put("content"@, prompt_parts_json(content)),
        ),
        Item::User { content } => Json::Object(
            no_entries().put("role"@, Json::Str("user"@)).put("content"@, parts_json(content)),
        ),
        Item::AssistantMessage { id, content, phase } => Json::Object(
            no_entries().put("type"@, Json::Str("message"@)).put("role"@, Json::Str("assistant"@)).put(
                "content"@,
                output_texts_json(content),
            ).put("status"@, Json::Str("completed"@)).put("id"@, Json::Str(id)).put_opt(
                "phase"@,
                opt_str_json(phase),
            ),
        ),
        Item::Reasoning(item) => item,
        Item::FunctionCall { id, call_id, name, arguments, namespace } => call_json(
            "function_call"@,
            call_id,
            name,
            "arguments"@,
            arguments,
            id,
            namespace,
        ),
        Item::CustomToolCall { id, call_id, name, input, namespace } => call_json(
            "custom_tool_call"@,
            call_id,
            name,
            "input"@,
            input,
            id,
            namespace,
        ),
        Item::FunctionCallOutput { call_id, output } => call_output_json(
            "function_call_output"@,
            call_id,
            output,
        ),
        Item::CustomToolCallOutput { call_id, output } => call_output_json(
            "custom_tool_call_output"@,
            call_id,
            output,
        ),
        Item::AdditionalTools { tools } => Json::Object(
            no_entries().put("type"@, Json::Str("additional_tools"@)).put(
                "role"@,
                Json::Str("developer"@),
            ).put("tools"@, tool_items_json(tools)),
        ),
        Item::ToolSearchCall { call_id, arguments } => search_json(
            "tool_search_call"@,
            call_id,
            "arguments"@,
            arguments,
        ),
        Item::ToolSearchOutput { call_id, tools } => search_json(
            "tool_search_output"@,
            call_id,
            "tools"@,
            tool_items_json(tools),
        ),
    }
}

pub open spec fn items_json(list: Seq<Item>) -> Seq<Json> {
    Seq::new(list.len(), |i: int| item_json(list[i]))
}

fn prompt_value(role: &str, content: &Vec<ResponseInputText>) -> (r: Value)
    ensures
        r@ == item_json(Item::Developer { role: role@, content: input_texts(content@) }),
{
    let mut a = new_items();
    let mut i: usize = 0;
    while i < content.len()
        invariant
            i <= content@.len(),
            items(a@).len() == i,
            forall|j: int|
                0 <= j < i ==> (#[trigger] items(a@)[j]) == one_entry(
                    "text"@,
                    Json::Str(content@[j].text@),
                ),
        decreases content.len() - i,
    {
        push_item(&mut a, object1("text", string(content[i].text.as_str())));
        i += 1;
    }
    proof {
        let list = input_texts(content@);
        assert(items(a@) =~= Seq::new(
            list.len(),
            |i: int| one_entry("text"@, Json::Str(list[i])),
        ));
    }
    let mut e = new_entries();
    put_str(&mut e, "role", role);
    put_array(&mut e, "content", a);
    object(e)
}

fn message_value(message: &ResponseOutputMessage) -> (r: Value)
    ensures
        r@ == item_json(
            (Item::AssistantMessage {
                id: message.id@,
                content: output_texts(message.content@),
                phase: opt_text(message.phase),
            }),
        ),
{
    let mut a = new_items();
    let mut i: usize = 0;
    while i < message.content.len()
        invariant
            i <= message.content@.len(),
            items(a@).len() == i,
            forall|j: int|
                0 <= j < i ==> (#[trigger] items(a@)[j]) == output_text_json(
                    message.content@[j].text@,
                ),
        decreases message.content.len() - i,
    {
        let mut e = new_entries();
        put_str(&mut e, "type", "output_text");
        put_str(&mut e, "text", message.content[i].text.as_str());
        put_array(&mut e, "annotations", new_items());
        push_item(&mut a, object(e));
        i += 1;
    }
    proof {
        let list = output_texts(message.content@);
        assert(items(a@) =~= Seq::new(list.len(), |i: int| output_text_json(list[i])));
    }
    let mut e = new_entries();
    put_str(&mut e, "type", "message");
    put_str(&mut e, "role", "assistant");
    put_array(&mut e, "content", a);
    put_str(&mut e, "status", "completed");
    put_str(&mut e, "id", message.id.as_str());
    put_opt_str(&mut e, "phase", borrow_opt(&message.phase));
    object(e)
}

fn call_value(
    kind: &str,
    call_id: &str,
    name: &str,
    key: &str,
    text: &str,
    id: &Option<String>,
    namespace: &Option<String>,
) -> (r: Value)
    ensures
        r@ == call_json(
            kind@,
            call_id@,
            name@,
            key@,
            text@,
            opt_text(*id),
            opt_text(*namespace),
        ),
{
    let mut e = new_entries();
    put_str(&mut e, "type", kind);
    put_str(&mut e, "call_id", call_id);
    put_str(&mut e, "name", name);
    put_str(&mut e, key, text);
    put_opt_str(&mut e, "id", borrow_opt(id));
    put_opt_str(&mut e, "namespace", borrow_opt(namespace));
    object(e)
}

fn call_output_value(kind: &str, call_id: &str, output: &ResponseToolResultOutput) -> (r: Value)
    ensures
        r@ == call_output_json(kind@, call_id@, output@),
{
    let mut e = new_entries();
    put_str(&mut e, "type", kind);
    put_str(&mut e, "call_id", call_id);
    put(&mut e, "output", output.to_value());
    object(e)
}

fn search_value(kind: &str, call_id: &str, key: &str, value: Value) -> (r: Value)
    ensures
        r@ == search_json(kind@, call_id@, key@, value@),
{
    let mut e = new_entries();
    put_str(&mut e, "type", kind);
    put_str(&mut e, "call_id", call_id);
    put_str(&mut e, "execution", "client");
    put_str(&mut e, "status", "completed");
    put(&mut e, key, value);
    object(e)
}

impl ResponseInputItem {
    pub fn to_value(&self) -> (r: Value)
        ensures
            r@ == item_json(self@),
    {
        match self {
            ResponseInputItem::Developer { role, content } => prompt_value(role.as_str(), content),
            ResponseInputItem::User { content } => {
                let mut e = new_entries();
                put_str(&mut e, "role", "user");
                put(&mut e, "content", parts_value(content));
                object(e)
            },
            ResponseInputItem::AssistantMessage(message) => message_value(message),
            ResponseInputItem::Reasoning(item) => item.clone(),
            ResponseInputItem::FunctionCall { id, call_id, name, arguments, namespace } => {
                call_value(
                    "function_call",
                    call_id.as_str(),
                    name.as_str(),
                    "arguments",
                    arguments.as_str(),
                    id,
                    namespace,
                )
            },
            ResponseInputItem::CustomToolCall { id, call_id, name, input, namespace } => {
                call_value(
                    "custom_tool_call",
                    call_id.as_str(),
                    name.as_str(),
                    "input",
                    input.as_str(),
                    id,
                    namespace,
                )
            },
            ResponseInputItem::FunctionCallOutput { call_id, output } => call_output_value(
                "function_call_output",
                call_id.as_str(),
                output,
            ),
            ResponseInputItem::CustomToolCallOutput { call_id, output } => call_output_value(
                "custom_tool_call_output",
                call_id.as_str(),
                output,
            ),
            ResponseInputItem::AdditionalTools { tools } => {
                let mut e = new_entries();
                put_str(&mut e, "type", "additional_tools");
                put_str(&mut e, "role", "developer");
                put(&mut e, "tools", tools_value(tools));
                object(e)
            },
            ResponseInputItem::ToolSearchCall { call_id, arguments } => search_value(
                "tool_search_call",
                call_id.as_str(),
                "arguments",
                arguments.clone(),
            ),
            ResponseInputItem::ToolSearchOutput { call_id, tools } => search_value(
                "tool_search_output",
                call_id.as_str(),
                "tools",
                tools_value(tools),
            ),
        }
    }
}

/// The items of a request as they are sent.
pub fn items_value(list: &Vec<ResponseInputItem>) -> (r: Vec<Value>)
    ensures
        items(r@) == items_json(input_items(list@)),
{
    let mut a = new_items();
    let mut i: usize = 0;
    while i < list.len()
        invariant
            i <= list@.len(),
            items(a@).len() == i,
            forall|j: int| 0 <= j < i ==> (#[trigger] items(a@)[j]) == item_json(list@[j]@),
        decreases list.len() - i,
    {
        push_item(&mut a, list[i].to_value());
        i += 1;
    }
    proof {
        assert(items(a@) =~= items_json(input_items(list@)));
    }
    a
}

} // verus!
