//! How messages and tools become the items and tools of a request.
use vstd::prelude::*;
use vstd::string::*;
use super::items::{
    input_items, parts, push_input, tool_items, Item, OpenAITool, Part, ResponseInputContent,
    ResponseInputImage, ResponseInputItem, ResponseInputText, ResponseOutputMessage,
    ResponseOutputText, ResponseToolResultOutput, ToolItem, ToolOutput,
};
use super::parse_text_signature;
use super::parsed_signature;
use crate::api::blocks::{data_url, make_data_url, make_safe_id, safe_char, safe_id};
use crate::api::constrained_sampling::{
    find_property, get_grammar_tool_input, grammar_or_none, grammar_sampling_or_none,
    grammar_tool_input, strict_or_none, strict_sampling_or_none,
};
use crate::api::headers::{opt_list, Pairs};
use crate::api::openai_completions::messages::{
    added_names, block_texts, collect_block_texts, takes_images,
};
use crate::hash::{hash_of, short_hash};
use crate::json::{
    find_key, get, has_key, is_parser, json_stringify, json_text, lemma_key_index_is, new_entries,
    no_entries, object, parse_with, parser_of, put, put_str, EntriesSpec, Json, Value,
};
use crate::number::{whole, Number};
use crate::text::{
    borrow_opt, cat2, cat3, cat4, char_count, clone_opt, contains_string, decimal, decimal_text,
    first_chars, join, joined, opt_text, push_text, split_once, split_pair, starts_with, str_eq,
    take_chars, texts, trim_end_of, trimmed_end_of,
};
use crate::types::{
    AssistantMessage, Content, Context, Message, Model, ModelCompat, TextContent, Tool, ToolCall,
    ToolResultMessage, UserMessage, UserMessageContent,
};

verus! {

// ---------------------------------------------------------------------------
// Identifiers of tool calls
// ---------------------------------------------------------------------------

/// The most characters that the id of an item may have.
pub const MAX_ID: usize = 64;

/// A part of an id as it is sent.
pub open spec fn id_part(part: Seq<char>) -> Seq<char> {
    trimmed_end_of(first_chars(safe_id(part), MAX_ID as int), '_')
}

pub fn normalize_id_part(part: &str) -> (r: String)
    ensures
        r@ == id_part(part@),
{
    let sanitized = make_safe_id(part);
    let normalized = take_chars(sanitized.as_str(), MAX_ID);
    trim_end_of(normalized.as_str(), '_')
}

/// The item id of a call that another model made.
pub open spec fn foreign_item_id(item_id: Seq<char>) -> Seq<char> {
    first_chars("fc_"@ + hash_of(item_id), MAX_ID as int)
}

fn build_foreign_responses_item_id(item_id: &str) -> (r: String)
    ensures
        r@ == foreign_item_id(item_id@),
{
    let normalized = cat2("fc_", short_hash(item_id).as_str());
    take_chars(normalized.as_str(), MAX_ID)
}

/// The item id of a call as it is sent.
pub open spec fn item_id_of(item_id: Seq<char>, foreign: bool) -> Seq<char> {
    let normalized = if foreign {
        foreign_item_id(item_id)
    } else {
        id_part(item_id)
    };
    if "fc_"@.is_prefix_of(normalized) {
        normalized
    } else {
        id_part("fc_"@ + normalized)
    }
}

/// The id of a tool call as a model takes it.
pub open spec fn call_id_of(
    id: Seq<char>,
    model: Model,
    source: AssistantMessage,
    allowed: Seq<Seq<char>>,
) -> Seq<char> {
    if !allowed.contains(model.provider@) {
        id_part(id)
    } else {
        match split_pair(id, '|') {
            Some((call_id, item_id)) => id_part(call_id) + "|"@ + item_id_of(
                item_id,
                source.provider@ != model.provider@ || source.api@ != model.api@,
            ),
            None => id_part(id),
        }
    }
}

pub fn normalize_tool_call_id(
    id: &str,
    model: &Model,
    source: &AssistantMessage,
    allowed: &Vec<String>,
) -> (r: String)
    ensures
        r@ == call_id_of(id@, *model, *source, texts(allowed@)),
{
    if !contains_string(allowed, model.provider.as_str()) {
        return normalize_id_part(id);
    }
    match split_once(id, '|') {
        Some((call_id, item_id)) => {
            let normalized_call_id = normalize_id_part(call_id.as_str());
            let foreign = !str_eq(source.provider.as_str(), model.provider.as_str()) || !str_eq(
                source.api.as_str(),
                model.api.as_str(),
            );
            let mut normalized_item_id = if foreign {
                build_foreign_responses_item_id(item_id.as_str())
            } else {
                normalize_id_part(item_id.as_str())
            };
            if !starts_with(normalized_item_id.as_str(), "fc_") {
                let prefixed = cat2("fc_", normalized_item_id.as_str());
                normalized_item_id = normalize_id_part(prefixed.as_str());
            }
            cat3(normalized_call_id.as_str(), "|", normalized_item_id.as_str())
        },
        None => normalize_id_part(id),
    }
}

proof fn lemma_trimmed_end_of(s: Seq<char>, c: char)
    ensures
        trimmed_end_of(s, c).is_prefix_of(s),
        trimmed_end_of(s, c).len() > 0 ==> trimmed_end_of(s, c).last() != c,
        forall|n: int| 0 <= n < s.len() && #[trigger] s[n] != c ==> n < trimmed_end_of(s, c).len(),
    decreases s.len(),
{
    if s.len() > 0 && s.last() == c {
        lemma_trimmed_end_of(s.drop_last(), c);
        assert forall|n: int| 0 <= n < s.len() && #[trigger] s[n] != c implies n < trimmed_end_of(
            s,
            c,
        ).len() by {
            assert(s.drop_last()[n] == s[n]);
        }
    }
}

/// A part of an id has at most 64 characters, each of them a letter, a digit, a
/// hyphen or an underscore, and does not end with an underscore.
pub proof fn law_id_part_fits(part: Seq<char>)
    ensures
        id_part(part).len() <= MAX_ID,
        forall|i: int|
            0 <= i < id_part(part).len() ==> safe_char(#[trigger] id_part(part)[i])
                == id_part(part)[i],
        id_part(part).len() > 0 ==> id_part(part).last() != '_',
{
    lemma_trimmed_end_of(first_chars(safe_id(part), MAX_ID as int), '_');
    let s = first_chars(safe_id(part), MAX_ID as int);
    assert forall|i: int| 0 <= i < id_part(part).len() implies safe_char(
        #[trigger] id_part(part)[i],
    ) == id_part(part)[i] by {
        assert(id_part(part)[i] == s[i]);
        assert(s[i] == safe_id(part)[i]);
        assert(safe_id(part)[i] == safe_char(part[i]));
    }
}

/// The item id of a call starts with `fc` and has at most 64 characters.
pub proof fn law_item_id_is_a_function_call(item_id: Seq<char>, foreign: bool)
    ensures
        "fc"@.is_prefix_of(item_id_of(item_id, foreign)),
        item_id_of(item_id, foreign).len() <= MAX_ID,
{
    reveal_strlit("fc");
    reveal_strlit("fc_");
    let normalized = if foreign {
        foreign_item_id(item_id)
    } else {
        id_part(item_id)
    };
    law_id_part_fits(item_id);
    if "fc_"@.is_prefix_of(normalized) {
        assert(normalized[0] == "fc_"@[0]);
        assert(normalized[1] == "fc_"@[1]);
    } else {
        let prefixed = "fc_"@ + normalized;
        law_id_part_fits(prefixed);
        let cut = first_chars(safe_id(prefixed), MAX_ID as int);
        assert(prefixed[0] == 'f' && prefixed[1] == 'c');
        assert(cut[0] == 'f' && cut[1] == 'c');
        lemma_trimmed_end_of(cut, '_');
    }
    assert("fc"@ =~= item_id_of(item_id, foreign).take(2));
}

// ---------------------------------------------------------------------------
// Tools
// ---------------------------------------------------------------------------

#[derive(Clone, Copy, Debug, Default, PartialEq, Eq)]
pub struct ConvertResponsesToolsOptions {
    pub strict: Option<bool>,
    pub supports_strict_mode: Option<bool>,
    pub supports_openai_grammar_tools: Option<bool>,
    pub defer_loading: Option<bool>,
}

pub open spec fn flag_or(flag: Option<bool>, otherwise: bool) -> bool {
    match flag {
        Some(flag) => flag,
        None => otherwise,
    }
}

pub open spec fn no_tool_options() -> ConvertResponsesToolsOptions {
    ConvertResponsesToolsOptions {
        strict: None,
        supports_strict_mode: None,
        supports_openai_grammar_tools: None,
        defer_loading: None,
    }
}

pub open spec fn tool_options_of(o: Option<ConvertResponsesToolsOptions>) ->
    ConvertResponsesToolsOptions {
    match o {
        Some(o) => o,
        None => no_tool_options(),
    }
}

/// A tool as it is offered: a custom tool where a grammar constrains its input,
/// else a function.
pub open spec fn tool_item(tool: Tool, o: ConvertResponsesToolsOptions) -> ToolItem {
    let supports_strict = flag_or(o.supports_strict_mode, true);
    match grammar_or_none(tool, flag_or(o.supports_openai_grammar_tools, false)) {
        Some(grammar) => ToolItem::Custom {
            name: tool.name@,
            description: tool.description@,
            format: grammar.format,
            definition: grammar.definition,
            defer_loading: o.defer_loading,
        },
        None => ToolItem::Function {
            name: tool.name@,
            description: tool.description@,
            parameters: tool.parameters.value@,
            strict: if supports_strict {
                match strict_or_none(tool, supports_strict) {
                    Some(strict) => Some(strict),
                    None => Some(flag_or(o.strict, false)),
                }
            } else {
                None
            },
            defer_loading: o.defer_loading,
        },
    }
}

pub open spec fn tool_list(tools: Seq<Tool>, o: Option<ConvertResponsesToolsOptions>) -> Seq<
    ToolItem,
> {
    Seq::new(tools.len(), |i: int| tool_item(tools[i], tool_options_of(o)))
}

fn or_flag(flag: Option<bool>, otherwise: bool) -> (r: bool)
    ensures
        r == flag_or(flag, otherwise),
{
    match flag {
        Some(flag) => flag,
        None => otherwise,
    }
}

pub fn convert_responses_tool(tool: &Tool, options: Option<ConvertResponsesToolsOptions>) -> (r:
    OpenAITool)
    ensures
        r@ == tool_item(*tool, tool_options_of(options)),
{
    let o = match options {
        Some(o) => o,
        None => ConvertResponsesToolsOptions {
            strict: None,
            supports_strict_mode: None,
            supports_openai_grammar_tools: None,
            defer_loading: None,
        },
    };
    let supports_strict_mode = or_flag(o.supports_strict_mode, true);
    if let Some(grammar) = grammar_sampling_or_none(
        tool,
        or_flag(o.supports_openai_grammar_tools, false),
    ) {
        return OpenAITool::Custom {
            name: tool.name.clone(),
            description: tool.description.clone(),
            format: grammar.format,
            definition: grammar.definition,
            defer_loading: o.defer_loading,
        };
    }
    let strict = if supports_strict_mode {
        match strict_sampling_or_none(tool, supports_strict_mode) {
            Some(strict) => Some(strict),
            None => Some(or_flag(o.strict, false)),
        }
    } else {
        None
    };
    OpenAITool::Function {
        name: tool.name.clone(),
        description: tool.description.clone(),
        parameters: tool.parameters.to_value(),
        strict,
        defer_loading: o.defer_loading,
    }
}

pub fn convert_responses_tools(
    tools: &Vec<Tool>,
    options: Option<ConvertResponsesToolsOptions>,
) -> (r: Vec<OpenAITool>)
    ensures
        tool_items(r@) == tool_list(tools@, options),
{
    let mut r: Vec<OpenAITool> = Vec::new();
    let mut i: usize = 0;
    while i < tools.len()
        invariant
            i <= tools@.len(),
            tool_items(r@).len() == i,
            forall|j: int|
                0 <= j < i ==> (#[trigger] tool_items(r@)[j]) == tool_item(
                    tools@[j],
                    tool_options_of(options),
                ),
        decreases tools.len() - i,
    {
        let ghost before = tool_items(r@);
        r.push(convert_responses_tool(&tools[i], options));
        proof {
            assert(tool_items(r@).drop_last() =~= before);
            assert forall|j: int| 0 <= j < i + 1 implies (#[trigger] tool_items(r@)[j])
                == tool_item(tools@[j], tool_options_of(options)) by {
                if j < i {
                    assert(tool_items(r@)[j] == before[j]);
                }
            }
        }
        i += 1;
    }
    proof {
        assert(tool_items(r@) =~= tool_list(tools@, options));
    }
    r
}

// ---------------------------------------------------------------------------
// Content
// ---------------------------------------------------------------------------

pub open spec fn image_part(mime_type: Seq<char>, data: Seq<char>) -> Part {
    Part::Image { detail: "auto"@, image_url: data_url(mime_type, data) }
}

/// The images of a list of blocks.
pub open spec fn image_parts(content: Seq<Content>) -> Seq<Part>
    decreases content.len(),
{
    if content.len() == 0 {
        Seq::empty()
    } else {
        let before = image_parts(content.drop_last());
        match content.last() {
            Content::Image(image) => before.push(image_part(image.mime_type@, image.data@)),
            _ => before,
        }
    }
}

/// The texts and images of a list of blocks.
pub open spec fn user_parts(content: Seq<Content>) -> Seq<Part>
    decreases content.len(),
{
    if content.len() == 0 {
        Seq::empty()
    } else {
        let before = user_parts(content.drop_last());
        match content.last() {
            Content::Text(text) => before.push(Part::Text(text.text@)),
            Content::Image(image) => before.push(image_part(image.mime_type@, image.data@)),
            _ => before,
        }
    }
}

/// What a tool gave back, as it is sent. A model that takes no images is told
/// that there is one.
pub open spec fn tool_output(model: Model, content: Seq<Content>) -> ToolOutput {
    let texts = block_texts(content);
    let images = image_parts(content);
    if images.len() == 0 || !takes_images(model) {
        ToolOutput::Text(
            if texts.len() > 0 {
                joined(texts, "\n"@)
            } else if images.len() > 0 {
                "(see attached image)"@
            } else {
                "(no tool output)"@
            },
        )
    } else if texts.len() > 0 {
        ToolOutput::Blocks(Seq::<Part>::empty().push(Part::Text(joined(texts, "\n"@))) + images)
    } else {
        ToolOutput::Blocks(images)
    }
}

fn push_part(list: &mut Vec<ResponseInputContent>, part: ResponseInputContent)
    ensures
        parts(final(list)@) == parts(old(list)@).push(part@),
{
    list.push(part);
    proof {
        assert(parts(list@) =~= parts(old(list)@).push(part@));
    }
}

fn make_image_part(mime_type: &str, data: &str) -> (r: ResponseInputContent)
    ensures
        r@ == image_part(mime_type@, data@),
{
    ResponseInputContent::InputImage(
        ResponseInputImage {
            detail: "auto".to_owned(),
            image_url: make_data_url(mime_type, data),
        },
    )
}

fn make_text_part(text: &str) -> (r: ResponseInputContent)
    ensures
        r@ == Part::Text(text@),
{
    ResponseInputContent::InputText(ResponseInputText { text: text.to_owned() })
}

fn push_images(list: &mut Vec<ResponseInputContent>, content: &Vec<Content>)
    ensures
        parts(final(list)@) == parts(old(list)@) + image_parts(content@),
{
    let mut i: usize = 0;
    proof {
        assert(parts(list@) + Seq::<Part>::empty() =~= parts(list@));
    }
    while i < content.len()
        invariant
            i <= content@.len(),
            parts(list@) == parts(old(list)@) + image_parts(content@.take(i as int)),
        decreases content.len() - i,
    {
        let ghost before = image_parts(content@.take(i as int));
        proof {
            assert(content@.take(i + 1).drop_last() =~= content@.take(i as int));
        }
        if let Content::Image(image) = &content[i] {
            let part = make_image_part(image.mime_type.as_str(), image.data.as_str());
            push_part(list, part);
            proof {
                assert(parts(list@) =~= parts(old(list)@) + before.push(
                    image_part(image.mime_type@, image.data@),
                ));
            }
        }
        i += 1;
    }
    proof {
        assert(content@.take(content@.len() as int) =~= content@);
    }
}

fn collect_user_parts(content: &Vec<Content>) -> (r: Vec<ResponseInputContent>)
    ensures
        parts(r@) == user_parts(content@),
{
    let mut r: Vec<ResponseInputContent> = Vec::new();
    let mut i: usize = 0;
    proof {
        assert(parts(r@) =~= Seq::<Part>::empty());
    }
    while i < content.len()
        invariant
            i <= content@.len(),
            parts(r@) == user_parts(content@.take(i as int)),
        decreases content.len() - i,
    {
        proof {
            assert(content@.take(i + 1).drop_last() =~= content@.take(i as int));
        }
        match &content[i] {
            Content::Text(text) => push_part(&mut r, make_text_part(text.text.as_str())),
            Content::Image(image) => push_part(
                &mut r,
                make_image_part(image.mime_type.as_str(), image.data.as_str()),
            ),
            _ => {},
        }
        i += 1;
    }
    proof {
        assert(content@.take(content@.len() as int) =~= content@);
    }
    r
}

fn convert_tool_result_output(model: &Model, content: &Vec<Content>) -> (r:
    ResponseToolResultOutput)
    ensures
        r@ == tool_output(*model, content@),
{
    let text_result = collect_block_texts(content);
    let mut images: Vec<ResponseInputContent> = Vec::new();
    proof {
        assert(parts(images@) =~= Seq::<Part>::empty());
    }
    push_images(&mut images, content);
    proof {
        assert(Seq::<Part>::empty() + image_parts(content@) =~= image_parts(content@));
        assert(parts(images@).len() == images@.len());
        assert(texts(text_result@).len() == text_result@.len());
    }
    let has_text = text_result.len() > 0;
    if images.len() == 0 || !contains_string(&model.input, "image") {
        let text = if has_text {
            join(&text_result, "\n")
        } else if images.len() > 0 {
            "(see attached image)".to_owned()
        } else {
            "(no tool output)".to_owned()
        };
        return ResponseToolResultOutput::Text(text);
    }
    if !has_text {
        return ResponseToolResultOutput::Blocks(images);
    }
    let mut output: Vec<ResponseInputContent> = Vec::new();
    proof {
        assert(parts(output@) =~= Seq::<Part>::empty());
    }
    push_part(&mut output, make_text_part(join(&text_result, "\n").as_str()));
    push_images(&mut output, content);
    ResponseToolResultOutput::Blocks(output)
}

// ---------------------------------------------------------------------------
// Messages
// ---------------------------------------------------------------------------

#[derive(Clone, Debug, Default)]
pub struct ConvertResponsesMessagesOptions {
    pub include_system_prompt: Option<bool>,
    pub grammar_tool_input_properties: Option<Vec<(String, String)>>,
    pub deferred_tools: Option<Vec<(String, Tool)>>,
    pub deferred_tools_mode: Option<String>,
    pub tool_options: Option<ConvertResponsesToolsOptions>,
}

pub type ResponseInput = Vec<ResponseInputItem>;

pub open spec fn named_tools(s: Seq<(String, Tool)>) -> Seq<(Seq<char>, Tool)> {
    Seq::new(s.len(), |i: int| (s[i].0@, s[i].1))
}

/// What does not change while messages are converted.
pub struct Conversion {
    pub model: Model,
    pub properties: Pairs,
    pub deferred: Seq<(Seq<char>, Tool)>,
    pub mode: Option<Seq<char>>,
    pub tool_options: Option<ConvertResponsesToolsOptions>,
    pub parse: spec_fn(Seq<char>) -> Option<Json>,
}

pub open spec fn conversion(
    model: Model,
    options: Option<&ConvertResponsesMessagesOptions>,
    parse: spec_fn(Seq<char>) -> Option<Json>,
) -> Conversion {
    match options {
        Some(o) => Conversion {
            model,
            properties: opt_list(o.grammar_tool_input_properties),
            deferred: match o.deferred_tools {
                Some(list) => named_tools(list@),
                None => Seq::empty(),
            },
            mode: opt_text(o.deferred_tools_mode),
            tool_options: o.tool_options,
            parse,
        },
        None => Conversion {
            model,
            properties: Seq::empty(),
            deferred: Seq::empty(),
            mode: None,
            tool_options: None,
            parse,
        },
    }
}

/// The number of text blocks.
pub open spec fn text_count(content: Seq<Content>) -> nat
    decreases content.len(),
{
    if content.len() == 0 {
        0
    } else {
        text_count(content.drop_last()) + if content.last() is Text {
            1nat
        } else {
            0nat
        }
    }
}

/// The id of a message without a signature, by its number and the number of the
/// text block in it.
pub open spec fn fallback_id(message: nat, block: nat) -> Seq<char> {
    if block == 0 {
        "msg_pi_"@ + decimal(message)
    } else {
        "msg_pi_"@ + decimal(message) + "_"@ + decimal(block)
    }
}

pub open spec fn message_id(signature: Option<(Seq<char>, Option<Seq<char>>)>, fallback: Seq<char>) ->
    Seq<char> {
    match signature {
        Some((id, _)) => if id.len() == 0 {
            fallback
        } else if id.len() > MAX_ID {
            "msg_"@ + hash_of(id)
        } else {
            id
        },
        None => fallback,
    }
}

/// A text block of an assistant as it is sent.
pub open spec fn text_item(
    text: TextContent,
    message: nat,
    block: nat,
    parse: spec_fn(Seq<char>) -> Option<Json>,
) -> Item {
    let signature = parsed_signature(opt_text(text.text_signature), parse);
    Item::AssistantMessage {
        id: message_id(signature, fallback_id(message, block)),
        content: Seq::<Seq<char>>::empty().push(text.text@),
        phase: match signature {
            Some((_, phase)) => phase,
            None => None,
        },
    }
}

pub open spec fn is_function_id(id: Option<Seq<char>>) -> bool {
    id matches Some(id) && "fc_"@.is_prefix_of(id)
}

/// Whether a message comes from the provider and interface of a model.
pub open spec fn same_interface(a: AssistantMessage, model: Model) -> bool {
    a.provider@ == model.provider@ && a.api@ == model.api@
}

pub open spec fn split_id(id: Seq<char>) -> (Seq<char>, Option<Seq<char>>) {
    match split_pair(id, '|') {
        Some((call_id, item_id)) => (call_id, Some(item_id)),
        None => (id, None),
    }
}

/// The item id that a call keeps. A call of another model of the same provider
/// and interface loses it, and so does a function whose id is not one of a
/// function.
pub open spec fn kept_id(
    id: Option<Seq<char>>,
    a: AssistantMessage,
    model: Model,
    custom: bool,
) -> Option<Seq<char>> {
    if (same_interface(a, model) && a.model@ != model.id@ && is_function_id(id)) || (!custom
        && !is_function_id(id)) {
        None
    } else {
        id
    }
}

/// A tool call of an assistant as it is sent.
pub open spec fn call_item(call: ToolCall, a: AssistantMessage, c: Conversion) -> Item {
    let (call_id, item_id) = split_id(call.id@);
    let property = get(c.properties, call.name@);
    let id = kept_id(item_id, a, c.model, property is Some);
    let namespace = if (same_interface(a, c.model) && a.model@ == c.model.id@) || has_key(
        c.deferred,
        call.name@,
    ) {
        opt_text(call.namespace)
    } else {
        None
    };
    match property {
        Some(property) => Item::CustomToolCall {
            id,
            call_id,
            name: call.name@,
            input: match grammar_tool_input(call.name@, call.arguments@, property) {
                Ok(input) => input,
                Err(_) => Seq::empty(),
            },
            namespace,
        },
        None => Item::FunctionCall {
            id,
            call_id,
            name: call.name@,
            arguments: json_text(call.arguments@),
            namespace,
        },
    }
}

/// The blocks of an assistant as they are sent.
pub open spec fn assistant_items(
    content: Seq<Content>,
    a: AssistantMessage,
    message: nat,
    c: Conversion,
) -> Seq<Item>
    decreases content.len(),
{
    if content.len() == 0 {
        Seq::empty()
    } else {
        let before = assistant_items(content.drop_last(), a, message, c);
        match content.last() {
            Content::Thinking(thinking) => match opt_text(thinking.thinking_signature) {
                Some(signature) => match (c.parse)(signature) {
                    Some(item) => before.push(Item::Reasoning(item)),
                    None => before,
                },
                None => before,
            },
            Content::Text(text) => before.push(
                text_item(text, message, text_count(content.drop_last()), c.parse),
            ),
            Content::ToolCall(call) => before.push(call_item(call, a, c)),
            Content::Image(_) => before,
        }
    }
}

/// How far a conversion has come: the items, the number of the next message, and
/// the names of the tools that were loaded.
pub struct Converted {
    pub items: Seq<Item>,
    pub message: nat,
    pub loaded: Seq<Seq<char>>,
}

/// The tools that a list of names loads, each once, and the names that are
/// loaded then.
pub open spec fn tools_loaded(
    names: Seq<Seq<char>>,
    deferred: Seq<(Seq<char>, Tool)>,
    loaded: Seq<Seq<char>>,
) -> (Seq<Tool>, Seq<Seq<char>>)
    decreases names.len(),
{
    if names.len() == 0 {
        (Seq::empty(), loaded)
    } else {
        let (tools, known) = tools_loaded(names.drop_last(), deferred, loaded);
        match get(deferred, names.last()) {
            Some(tool) => if known.contains(names.last()) {
                (tools, known)
            } else {
                (tools.push(tool), known.push(names.last()))
            },
            None => (tools, known),
        }
    }
}

pub open spec fn tool_names(tools: Seq<Tool>) -> Seq<Seq<char>> {
    Seq::new(tools.len(), |i: int| tools[i].name@)
}

pub open spec fn search_id(tool_call_id: Seq<char>, names: Seq<Seq<char>>) -> Seq<char> {
    "pi_tool_load_"@ + hash_of(tool_call_id + ":"@ + joined(names, ","@))
}

pub open spec fn search_arguments(names: Seq<Seq<char>>) -> Json {
    Json::Object(
        no_entries().put("query"@, Json::Str(joined(names, " "@))).put(
            "limit"@,
            Json::Number(whole(names.len() as int)),
        ),
    )
}

pub open spec fn deferring(o: Option<ConvertResponsesToolsOptions>) -> Option<
    ConvertResponsesToolsOptions,
> {
    match o {
        Some(o) => Some(ConvertResponsesToolsOptions { defer_loading: Some(true), ..o }),
        None => None,
    }
}

/// The items that load tools.
pub open spec fn loading_items(tools: Seq<Tool>, tool_call_id: Seq<char>, c: Conversion) -> Seq<
    Item,
> {
    let names = tool_names(tools);
    if tools.len() == 0 {
        Seq::empty()
    } else if c.mode == Some("additional-tools"@) {
        Seq::<Item>::empty().push(
            Item::AdditionalTools { tools: tool_list(tools, c.tool_options) },
        )
    } else if c.mode == Some("tool-search"@) {
        Seq::<Item>::empty().push(
            Item::ToolSearchCall {
                call_id: search_id(tool_call_id, names),
                arguments: search_arguments(names),
            },
        ).push(
            Item::ToolSearchOutput {
                call_id: search_id(tool_call_id, names),
                tools: tool_list(tools, deferring(c.tool_options)),
            },
        )
    } else {
        Seq::empty()
    }
}

pub open spec fn result_item(result: ToolResultMessage, c: Conversion) -> Item {
    let call_id = split_id(result.tool_call_id@).0;
    let output = tool_output(c.model, result.content@);
    if has_key(c.properties, result.tool_name@) {
        Item::CustomToolCallOutput { call_id, output }
    } else {
        Item::FunctionCallOutput { call_id, output }
    }
}

/// The parts of what a user says.
pub open spec fn said_parts(user: UserMessage) -> Seq<Part> {
    match user.content {
        UserMessageContent::Text(text) => Seq::<Part>::empty().push(Part::Text(text@)),
        UserMessageContent::Blocks(blocks) => user_parts(blocks@),
    }
}

/// Converts one more message. A message that gives no item is not counted.
pub open spec fn message_converted(s: Converted, message: Message, c: Conversion) -> Converted {
    match message {
        Message::User(user) => if said_parts(user).len() == 0 {
            s
        } else {
            Converted {
                items: s.items.push(Item::User { content: said_parts(user) }),
                message: s.message + 1,
                ..s
            }
        },
        Message::Assistant(a) => {
            let items = assistant_items(a.content@, a, s.message, c);
            if items.len() == 0 {
                s
            } else {
                Converted { items: s.items + items, message: s.message + 1, ..s }
            }
        },
        Message::ToolResult(result) => {
            let (tools, loaded) = tools_loaded(added_names(result), c.deferred, s.loaded);
            Converted {
                items: s.items.push(result_item(result, c)) + loading_items(
                    tools,
                    result.tool_call_id@,
                    c,
                ),
                message: s.message + 1,
                loaded,
            }
        },
    }
}

pub open spec fn messages_converted(s: Converted, messages: Seq<Message>, c: Conversion) -> Converted
    decreases messages.len(),
{
    if messages.len() == 0 {
        s
    } else {
        message_converted(messages_converted(s, messages.drop_last(), c), messages.last(), c)
    }
}

pub open spec fn takes_developer_role(model: Model) -> bool {
    match model.compat {
        Some(ModelCompat::OpenAiResponses(compat)) => compat.supports_developer_role != Some(false),
        _ => true,
    }
}

pub open spec fn includes_prompt(options: Option<&ConvertResponsesMessagesOptions>) -> bool {
    match options {
        Some(o) => flag_or(o.include_system_prompt, true),
        None => true,
    }
}

/// The item of the system prompt.
pub open spec fn prompt_items(model: Model, context: Context, with_prompt: bool) -> Seq<Item> {
    match opt_text(context.system_prompt) {
        Some(prompt) => if with_prompt {
            Seq::<Item>::empty().push(
                Item::Developer {
                    role: if model.reasoning && takes_developer_role(model) {
                        "developer"@
                    } else {
                        "system"@
                    },
                    content: Seq::<Seq<char>>::empty().push(prompt),
                },
            )
        } else {
            Seq::empty()
        },
        None => Seq::empty(),
    }
}

/// The items of a request: the prompt, where it is wanted, and the messages.
pub open spec fn converted_items(
    context: Context,
    messages: Seq<Message>,
    with_prompt: bool,
    c: Conversion,
) -> Seq<Item> {
    messages_converted(
        Converted {
            items: prompt_items(c.model, context, with_prompt),
            message: 0,
            loaded: Seq::empty(),
        },
        messages,
        c,
    ).items
}

/// The items of a request with some options.
pub open spec fn converted(
    model: Model,
    context: Context,
    messages: Seq<Message>,
    options: Option<&ConvertResponsesMessagesOptions>,
    parse: spec_fn(Seq<char>) -> Option<Json>,
) -> Seq<Item> {
    converted_items(
        context,
        messages,
        includes_prompt(options),
        conversion(model, options, parse),
    )
}

fn make_fallback_id(message: usize, block: usize) -> (r: String)
    ensures
        r@ == fallback_id(message as nat, block as nat),
{
    if block == 0 {
        cat2("msg_pi_", decimal_text(message as u128).as_str())
    } else {
        cat4(
            "msg_pi_",
            decimal_text(message as u128).as_str(),
            "_",
            decimal_text(block as u128).as_str(),
        )
    }
}

fn convert_text<P: Fn(&str) -> Option<Value>>(
    text: &TextContent,
    message: usize,
    block: usize,
    parse: &P,
) -> (r: ResponseInputItem)
    requires
        is_parser(*parse),
    ensures
        r@ == text_item(*text, message as nat, block as nat, parser_of(*parse)),
{
    let signature = parse_text_signature(borrow_opt(&text.text_signature), parse);
    let (id, phase) = match signature {
        Some((id, phase)) => {
            if id.as_str().is_empty() {
                (make_fallback_id(message, block), phase)
            } else if char_count(id.as_str()) > MAX_ID {
                (cat2("msg_", short_hash(id.as_str()).as_str()), phase)
            } else {
                (id, phase)
            }
        },
        None => (make_fallback_id(message, block), None),
    };
    let mut content: Vec<ResponseOutputText> = Vec::new();
    content.push(ResponseOutputText { text: text.text.clone() });
    proof {
        assert(super::items::output_texts(content@) =~= Seq::<Seq<char>>::empty().push(text.text@));
    }
    ResponseInputItem::AssistantMessage(ResponseOutputMessage { id, content, phase })
}

fn split_call_id(id: &str) -> (r: (String, Option<String>))
    ensures
        (r.0@, opt_text(r.1)) == split_id(id@),
{
    match split_once(id, '|') {
        Some((call_id, item_id)) => (call_id, Some(item_id)),
        None => (id.to_owned(), None),
    }
}

fn names_function(id: &Option<String>) -> (r: bool)
    ensures
        r == is_function_id(opt_text(*id)),
{
    match id {
        Some(id) => starts_with(id.as_str(), "fc_"),
        None => false,
    }
}

fn is_deferred(options: Option<&ConvertResponsesMessagesOptions>, name: &str, Ghost(c): Ghost<Conversion>) -> (r:
    bool)
    requires
        c == conversion(c.model, options, c.parse),
    ensures
        r == has_key(c.deferred, name@),
{
    match options {
        Some(o) => match &o.deferred_tools {
            Some(list) => find_deferred(list, name).is_some(),
            None => false,
        },
        None => false,
    }
}

fn find_deferred(list: &Vec<(String, Tool)>, name: &str) -> (r: Option<usize>)
    ensures
        match r {
            Some(i) => i < list@.len() && has_key(named_tools(list@), name@) && get(
                named_tools(list@),
                name@,
            ) == Some(list@[i as int].1),
            None => !has_key(named_tools(list@), name@),
        },
{
    match find_key(list, name) {
        Some(i) => {
            proof {
                lemma_key_index_is(named_tools(list@), name@, i as int);
            }
            Some(i)
        },
        None => {
            proof {
                lemma_key_index_is(named_tools(list@), name@, list@.len() as int);
            }
            None
        },
    }
}

fn property_of(
    options: Option<&ConvertResponsesMessagesOptions>,
    name: &str,
    Ghost(c): Ghost<Conversion>,
) -> (r: Option<String>)
    requires
        c == conversion(c.model, options, c.parse),
    ensures
        opt_text(r) == get(c.properties, name@),
{
    match options {
        Some(o) => match &o.grammar_tool_input_properties {
            Some(list) => find_property(list, name),
            None => None,
        },
        None => None,
    }
}

fn convert_call(
    call: &ToolCall,
    a: &AssistantMessage,
    model: &Model,
    options: Option<&ConvertResponsesMessagesOptions>,
    Ghost(c): Ghost<Conversion>,
) -> (r: ResponseInputItem)
    requires
        c == conversion(*model, options, c.parse),
    ensures
        r@ == call_item(*call, *a, c),
{
    let (call_id, item_id) = split_call_id(call.id.as_str());
    let property = property_of(options, call.name.as_str(), Ghost(c));
    let same_api = str_eq(a.provider.as_str(), model.provider.as_str()) && str_eq(
        a.api.as_str(),
        model.api.as_str(),
    );
    let same_id = str_eq(a.model.as_str(), model.id.as_str());
    let named = names_function(&item_id);
    let id = if (same_api && !same_id && named) || (property.is_none() && !named) {
        None
    } else {
        item_id
    };
    let namespace = if (same_api && same_id) || is_deferred(options, call.name.as_str(), Ghost(c)) {
        clone_opt(&call.namespace)
    } else {
        None
    };
    match property {
        Some(property) => {
            let input = match get_grammar_tool_input(
                call.name.as_str(),
                &call.arguments,
                property.as_str(),
            ) {
                Ok(input) => input,
                Err(_) => String::new(),
            };
            ResponseInputItem::CustomToolCall {
                id,
                call_id,
                name: call.name.clone(),
                input,
                namespace,
            }
        },
        None => ResponseInputItem::FunctionCall {
            id,
            call_id,
            name: call.name.clone(),
            arguments: json_stringify(&call.arguments),
            namespace,
        },
    }
}

proof fn lemma_text_count(content: Seq<Content>)
    ensures
        text_count(content) <= content.len(),
    decreases content.len(),
{
    if content.len() > 0 {
        lemma_text_count(content.drop_last());
    }
}

fn convert_assistant<P: Fn(&str) -> Option<Value>>(
    list: &mut Vec<ResponseInputItem>,
    a: &AssistantMessage,
    message: usize,
    model: &Model,
    options: Option<&ConvertResponsesMessagesOptions>,
    parse: &P,
    Ghost(c): Ghost<Conversion>,
) -> (r: bool)
    requires
        is_parser(*parse),
        c == conversion(*model, options, parser_of(*parse)),
    ensures
        input_items(final(list)@) == input_items(old(list)@) + assistant_items(
            a.content@,
            *a,
            message as nat,
            c,
        ),
        r == (assistant_items(a.content@, *a, message as nat, c).len() > 0),
{
    let start: usize = list.len();
    let mut block: usize = 0;
    let mut i: usize = 0;
    proof {
        assert(input_items(list@) + Seq::<Item>::empty() =~= input_items(list@));
    }
    while i < a.content.len()
        invariant
            i <= a.content@.len(),
            is_parser(*parse),
            c == conversion(*model, options, parser_of(*parse)),
            block == text_count(a.content@.take(i as int)),
            input_items(list@) == input_items(old(list)@) + assistant_items(
                a.content@.take(i as int),
                *a,
                message as nat,
                c,
            ),
        decreases a.content.len() - i,
    {
        let ghost before = assistant_items(a.content@.take(i as int), *a, message as nat, c);
        proof {
            assert(a.content@.take(i + 1).drop_last() =~= a.content@.take(i as int));
            assert(a.content@.take(i + 1).last() == a.content@[i as int]);
            lemma_text_count(a.content@.take(i as int));
        }
        match &a.content[i] {
            Content::Thinking(thinking) => {
                if let Some(signature) = &thinking.thinking_signature {
                    if let Some(item) = parse_with(parse, signature.as_str()) {
                        let ghost json = item@;
                        push_input(list, ResponseInputItem::Reasoning(item));
                        proof {
                            assert(input_items(list@) =~= input_items(old(list)@) + before.push(
                                Item::Reasoning(json),
                            ));
                        }
                    }
                }
            },
            Content::Text(text) => {
                let item = convert_text(text, message, block, parse);
                let ghost view = item@;
                push_input(list, item);
                block += 1;
                proof {
                    assert(input_items(list@) =~= input_items(old(list)@) + before.push(view));
                }
            },
            Content::ToolCall(call) => {
                let item = convert_call(call, a, model, options, Ghost(c));
                let ghost view = item@;
                push_input(list, item);
                proof {
                    assert(input_items(list@) =~= input_items(old(list)@) + before.push(view));
                }
            },
            Content::Image(_) => {},
        }
        i += 1;
    }
    proof {
        assert(a.content@.take(a.content@.len() as int) =~= a.content@);
        assert(input_items(list@).len() == list@.len());
        assert(input_items(old(list)@).len() == start);
    }
    list.len() > start
}

/// The positions of the tools that a tool result loads.
fn load_tools(
    added: &Option<Vec<String>>,
    deferred: &Vec<(String, Tool)>,
    loaded: &mut Vec<String>,
) -> (r: Vec<usize>)
    ensures
        forall|j: int| 0 <= j < r@.len() ==> (#[trigger] r@[j]) < deferred@.len(),
        (Seq::new(r@.len(), |j: int| deferred@[r@[j] as int].1), texts(final(loaded)@))
            == tools_loaded(
            match *added {
                Some(names) => texts(names@),
                None => Seq::empty(),
            },
            named_tools(deferred@),
            texts(old(loaded)@),
        ),
{
    let mut r: Vec<usize> = Vec::new();
    proof {
        assert(Seq::new(r@.len(), |j: int| deferred@[r@[j] as int].1) =~= Seq::<Tool>::empty());
    }
    if let Some(names) = added {
        let mut i: usize = 0;
        while i < names.len()
            invariant
                i <= names@.len(),
                forall|j: int| 0 <= j < r@.len() ==> (#[trigger] r@[j]) < deferred@.len(),
                (Seq::new(r@.len(), |j: int| deferred@[r@[j] as int].1), texts(loaded@))
                    == tools_loaded(
                    texts(names@).take(i as int),
                    named_tools(deferred@),
                    texts(old(loaded)@),
                ),
            decreases names.len() - i,
        {
            let ghost before = Seq::new(r@.len(), |j: int| deferred@[r@[j] as int].1);
            let name = names[i].as_str();
            proof {
                assert(texts(names@).take(i + 1).drop_last() =~= texts(names@).take(i as int));
                assert(texts(names@).take(i + 1).last() == name@);
            }
            if let Some(at) = find_deferred(deferred, name) {
                if !contains_string(loaded, name) {
                    push_text(loaded, name.to_owned());
                    r.push(at);
                    proof {
                        assert(Seq::new(r@.len(), |j: int| deferred@[r@[j] as int].1)
                            =~= before.push(deferred@[at as int].1));
                    }
                }
            }
            i += 1;
        }
        proof {
            assert(texts(names@).take(names@.len() as int) =~= texts(names@));
        }
    }
    r
}

fn convert_at(
    list: &Vec<(String, Tool)>,
    at: &Vec<usize>,
    options: Option<ConvertResponsesToolsOptions>,
) -> (r: Vec<OpenAITool>)
    requires
        forall|j: int| 0 <= j < at@.len() ==> (#[trigger] at@[j]) < list@.len(),
    ensures
        tool_items(r@) == tool_list(
            Seq::new(at@.len(), |j: int| list@[at@[j] as int].1),
            options,
        ),
{
    let mut r: Vec<OpenAITool> = Vec::new();
    let mut i: usize = 0;
    while i < at.len()
        invariant
            i <= at@.len(),
            forall|j: int| 0 <= j < at@.len() ==> (#[trigger] at@[j]) < list@.len(),
            r@.len() == i,
            forall|j: int|
                0 <= j < i ==> (#[trigger] r@[j])@ == tool_item(
                    list@[at@[j] as int].1,
                    tool_options_of(options),
                ),
        decreases at.len() - i,
    {
        let ghost before = r@;
        r.push(convert_responses_tool(&list[at[i]].1, options));
        proof {
            assert forall|j: int| 0 <= j < i + 1 implies (#[trigger] r@[j])@ == tool_item(
                list@[at@[j] as int].1,
                tool_options_of(options),
            ) by {
                if j < i {
                    assert(r@[j] == before[j]);
                }
            }
        }
        i += 1;
    }
    proof {
        assert(tool_items(r@) =~= tool_list(
            Seq::new(at@.len(), |j: int| list@[at@[j] as int].1),
            options,
        ));
    }
    r
}

fn names_at(list: &Vec<(String, Tool)>, at: &Vec<usize>) -> (r: Vec<String>)
    requires
        forall|j: int| 0 <= j < at@.len() ==> (#[trigger] at@[j]) < list@.len(),
    ensures
        texts(r@) == tool_names(Seq::new(at@.len(), |j: int| list@[at@[j] as int].1)),
{
    let mut r: Vec<String> = Vec::new();
    let mut i: usize = 0;
    while i < at.len()
        invariant
            i <= at@.len(),
            forall|j: int| 0 <= j < at@.len() ==> (#[trigger] at@[j]) < list@.len(),
            texts(r@).len() == i,
            forall|j: int|
                0 <= j < i ==> (#[trigger] texts(r@)[j]) == list@[at@[j] as int].1.name@,
        decreases at.len() - i,
    {
        push_text(&mut r, list[at[i]].1.name.clone());
        i += 1;
    }
    proof {
        assert(texts(r@) =~= tool_names(Seq::new(at@.len(), |j: int| list@[at@[j] as int].1)));
    }
    r
}

fn push_loading(
    list: &mut Vec<ResponseInputItem>,
    deferred: &Vec<(String, Tool)>,
    at: &Vec<usize>,
    tool_call_id: &str,
    o: &ConvertResponsesMessagesOptions,
    Ghost(c): Ghost<Conversion>,
)
    requires
        forall|j: int| 0 <= j < at@.len() ==> (#[trigger] at@[j]) < deferred@.len(),
        c == conversion(c.model, Some(o), c.parse),
    ensures
        input_items(final(list)@) == input_items(old(list)@) + loading_items(
            Seq::new(at@.len(), |j: int| deferred@[at@[j] as int].1),
            tool_call_id@,
            c,
        ),
{
    let ghost tools = Seq::new(at@.len(), |j: int| deferred@[at@[j] as int].1);
    let ghost start = input_items(list@);
    proof {
        assert(start + Seq::<Item>::empty() =~= start);
    }
    if at.len() == 0 {
        return ;
    }
    let mode = match &o.deferred_tools_mode {
        Some(mode) => mode.as_str(),
        None => {
            return ;
        },
    };
    if str_eq(mode, "additional-tools") {
        push_input(
            list,
            ResponseInputItem::AdditionalTools {
                tools: convert_at(deferred, at, o.tool_options),
            },
        );
        proof {
            assert(input_items(list@) =~= start + loading_items(tools, tool_call_id@, c));
        }
    } else if str_eq(mode, "tool-search") {
        let names = names_at(deferred, at);
        let seed = cat3(tool_call_id, ":", join(&names, ",").as_str());
        let search_call_id = cat2("pi_tool_load_", short_hash(seed.as_str()).as_str());
        let mut e = new_entries();
        put_str(&mut e, "query", join(&names, " ").as_str());
        proof {
            assert(texts(names@).len() == names@.len());
        }
        put(&mut e, "limit", Value::Number(Number::from_len(names.len())));
        push_input(
            list,
            ResponseInputItem::ToolSearchCall {
                call_id: search_call_id.clone(),
                arguments: object(e),
            },
        );
        let tool_options = match o.tool_options {
            Some(t) => Some(
                ConvertResponsesToolsOptions {
                    strict: t.strict,
                    supports_strict_mode: t.supports_strict_mode,
                    supports_openai_grammar_tools: t.supports_openai_grammar_tools,
                    defer_loading: Some(true),
                },
            ),
            None => None,
        };
        push_input(
            list,
            ResponseInputItem::ToolSearchOutput {
                call_id: search_call_id,
                tools: convert_at(deferred, at, tool_options),
            },
        );
        proof {
            assert(input_items(list@) =~= start + loading_items(tools, tool_call_id@, c));
        }
    }
}

fn convert_result(
    list: &mut Vec<ResponseInputItem>,
    result: &ToolResultMessage,
    loaded: &mut Vec<String>,
    model: &Model,
    options: Option<&ConvertResponsesMessagesOptions>,
    Ghost(c): Ghost<Conversion>,
)
    requires
        c == conversion(*model, options, c.parse),
    ensures
        ({
            let (tools, known) = tools_loaded(added_names(*result), c.deferred, texts(old(loaded)@));
            &&& input_items(final(list)@) == input_items(old(list)@).push(result_item(*result, c))
                + loading_items(tools, result.tool_call_id@, c)
            &&& texts(final(loaded)@) == known
        }),
{
    let (call_id, _) = split_call_id(result.tool_call_id.as_str());
    let output = convert_tool_result_output(model, &result.content);
    let is_grammar_tool = property_of(options, result.tool_name.as_str(), Ghost(c)).is_some();
    if is_grammar_tool {
        push_input(list, ResponseInputItem::CustomToolCallOutput { call_id, output });
    } else {
        push_input(list, ResponseInputItem::FunctionCallOutput { call_id, output });
    }
    let ghost after = input_items(list@);
    let ghost names = added_names(*result);
    proof {
        assert(after + Seq::<Item>::empty() =~= after);
        lemma_nothing_deferred(names, texts(loaded@));
    }
    if let Some(o) = options {
        if let Some(deferred) = &o.deferred_tools {
            let at = load_tools(&result.added_tool_names, deferred, loaded);
            push_loading(list, deferred, &at, result.tool_call_id.as_str(), o, Ghost(c));
        }
    }
}

proof fn lemma_nothing_deferred(names: Seq<Seq<char>>, loaded: Seq<Seq<char>>)
    ensures
        tools_loaded(names, Seq::empty(), loaded) == (Seq::<Tool>::empty(), loaded),
    decreases names.len(),
{
    if names.len() > 0 {
        lemma_nothing_deferred(names.drop_last(), loaded);
    }
}

fn begin_items(model: &Model, context: &Context, with_prompt: bool) -> (r: Vec<ResponseInputItem>)
    ensures
        input_items(r@) == prompt_items(*model, *context, with_prompt),
{
    let mut r: Vec<ResponseInputItem> = Vec::new();
    proof {
        assert(input_items(r@) =~= Seq::<Item>::empty());
    }
    if with_prompt {
        if let Some(prompt) = &context.system_prompt {
            let supported = match &model.compat {
                Some(ModelCompat::OpenAiResponses(compat)) => match compat.supports_developer_role {
                    Some(supported) => supported,
                    None => true,
                },
                _ => true,
            };
            let role = if model.reasoning && supported {
                "developer"
            } else {
                "system"
            };
            let mut content: Vec<ResponseInputText> = Vec::new();
            content.push(ResponseInputText { text: prompt.clone() });
            proof {
                assert(super::items::input_texts(content@) =~= Seq::<Seq<char>>::empty().push(
                    prompt@,
                ));
            }
            push_input(
                &mut r,
                ResponseInputItem::Developer { role: role.to_owned(), content },
            );
        }
    }
    r
}

fn convert_user(list: &mut Vec<ResponseInputItem>, user: &UserMessage) -> (r: bool)
    ensures
        r == (said_parts(*user).len() > 0),
        input_items(final(list)@) == if said_parts(*user).len() > 0 {
            input_items(old(list)@).push((Item::User { content: said_parts(*user) }))
        } else {
            input_items(old(list)@)
        },
{
    let content = match &user.content {
        UserMessageContent::Text(text) => {
            let mut content: Vec<ResponseInputContent> = Vec::new();
            proof {
                assert(parts(content@) =~= Seq::<Part>::empty());
            }
            push_part(&mut content, make_text_part(text.as_str()));
            content
        },
        UserMessageContent::Blocks(blocks) => collect_user_parts(blocks),
    };
    proof {
        assert(parts(content@).len() == content@.len());
    }
    if content.len() == 0 {
        return false;
    }
    push_input(list, ResponseInputItem::User { content });
    true
}

/// Converts the prompt of a context and messages that were prepared for the
/// model.
pub fn convert_responses_messages<P: Fn(&str) -> Option<Value>>(
    model: &Model,
    context: &Context,
    messages: &Vec<Message>,
    options: Option<&ConvertResponsesMessagesOptions>,
    parse: &P,
) -> (r: ResponseInput)
    requires
        is_parser(*parse),
    ensures
        input_items(r@) == converted(*model, *context, messages@, options, parser_of(*parse)),
{
    let ghost c = conversion(*model, options, parser_of(*parse));
    let with_prompt = match options {
        Some(o) => or_flag(o.include_system_prompt, true),
        None => true,
    };
    let mut list = begin_items(model, context, with_prompt);
    let mut loaded: Vec<String> = Vec::new();
    proof {
        crate::text::lemma_texts_empty();
        assert(texts(loaded@) =~= Seq::<Seq<char>>::empty());
    }
    let ghost start = Converted {
        items: prompt_items(*model, *context, includes_prompt(options)),
        message: 0,
        loaded: Seq::empty(),
    };
    let mut message: usize = 0;
    let mut i: usize = 0;
    while i < messages.len()
        invariant
            message <= i <= messages@.len(),
            is_parser(*parse),
            c == conversion(*model, options, parser_of(*parse)),
            (Converted {
                items: input_items(list@),
                message: message as nat,
                loaded: texts(loaded@),
            }) == messages_converted(start, messages@.take(i as int), c),
        decreases messages.len() - i,
    {
        proof {
            assert(messages@.take(i + 1).drop_last() =~= messages@.take(i as int));
            assert(messages@.take(i + 1).last() == messages@[i as int]);
        }
        let ghost before = input_items(list@);
        match &messages[i] {
            Message::User(user) => {
                if convert_user(&mut list, user) {
                    message += 1;
                }
            },
            Message::Assistant(a) => {
                let counted = convert_assistant(
                    &mut list,
                    a,
                    message,
                    model,
                    options,
                    parse,
                    Ghost(c),
                );
                if counted {
                    message += 1;
                } else {
                    proof {
                        assert(input_items(list@) =~= before);
                    }
                }
            },
            Message::ToolResult(result) => {
                convert_result(&mut list, result, &mut loaded, model, options, Ghost(c));
                message += 1;
            },
        }
        i += 1;
    }
    proof {
        assert(messages@.take(messages@.len() as int) =~= messages@);
    }
    list
}

} // verus!
