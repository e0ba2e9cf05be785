//! The Google Generative AI interface.
use vstd::prelude::*;
use vstd::string::*;
use crate::api::finish::{res_request, ProviderRequest, Request};
use crate::api::google_shared::messages::{
    contents_of, contents_value, convert_messages, convert_tools, tools_json, turns_json,
};
use crate::api::google_shared::stream::{parsed, read_part, GoogleInterface, ParsedPart};
use crate::api::google_shared::{
    calling_mode, is_gemini3, resolve_google_function_calling_mode,
    supports_google_strict_tool_sampling,
};
use crate::api::headers::{
    append_pairs, clone_opt_pairs, new_pairs, no_key, opt_headers, opt_list, overridden,
    override_headers, push_pair, OptPairs, Pairs,
};
use crate::json::{
    entries, new_entries, no_entries, object, object1, one_entry, opt_number_json, opt_str_json,
    put, put_bool, put_object, put_opt_number, put_opt_str, put_opt_value, put_str, Entries, EntriesSpec, Json,
    Value,
};
use crate::number::{whole, Number};
use crate::pattern::{matches_pattern, names_gemini3, pattern_matches};
use crate::text::{
    ascii_lower, borrow_opt, cat2, cat4, contains, contains_text, is_ascii_text, lowercase, opt_str,
    opt_text, str_eq, to_lowercase, trim_end_of, trimmed_end_of,
};
use crate::types::{
    pairs, Context, Message, Model, ProviderHeaders, StreamOptions, ThinkingBudgets, Tool,
};

verus! {

/// Options of the interface.
#[derive(Clone, Debug, Default, PartialEq, Eq)]
pub struct GoogleOptions {
    pub stream: StreamOptions,
    pub tool_choice: Option<String>,
    pub thinking: Option<GoogleThinkingConfig>,
}

/// How a model thinks: by a budget of tokens, where -1 leaves it to the model
/// and 0 switches thinking off, or by a level.
#[derive(Clone, Debug, PartialEq, Eq)]
pub struct GoogleThinkingConfig {
    pub enabled: bool,
    pub budget_tokens: Option<Number>,
    pub level: Option<String>,
}

/// What a thinking configuration holds.
pub struct Thinking {
    pub enabled: bool,
    pub budget_tokens: Option<Number>,
    pub level: Option<Seq<char>>,
}

impl View for GoogleThinkingConfig {
    type V = Thinking;

    open spec fn view(&self) -> Thinking {
        Thinking {
            enabled: self.enabled,
            budget_tokens: self.budget_tokens,
            level: opt_text(self.level),
        }
    }
}

// ---------------------------------------------------------------------------
// Headers and address
// ---------------------------------------------------------------------------

/// The headers of the model with those of the request over them.
pub fn merged_headers(model: &Model, options_headers: Option<&ProviderHeaders>) -> (r: Vec<
    (String, String),
>)
    ensures
        pairs(r@) == overridden(opt_list(model.headers), opt_headers(options_headers)),
{
    let mut headers = clone_opt_pairs(&model.headers);
    override_headers(&mut headers, options_headers);
    headers
}

/// Where a request goes: to the base address of the model, or to the public
/// one.
pub open spec fn url_of(base_url: Seq<char>, id: Seq<char>) -> Seq<char> {
    let base = if base_url.len() == 0 {
        "https://generativelanguage.googleapis.com/v1beta"@
    } else {
        trimmed_end_of(base_url, '/')
    };
    base + "/models/"@ + id + ":streamGenerateContent?alt=sse"@
}

pub fn request_url(model: &Model) -> (r: String)
    ensures
        r@ == url_of(model.base_url@, model.id@),
{
    let base = if model.base_url.as_str().is_empty() {
        "https://generativelanguage.googleapis.com/v1beta".to_owned()
    } else {
        trim_end_of(model.base_url.as_str(), '/')
    };
    cat4(base.as_str(), "/models/", model.id.as_str(), ":streamGenerateContent?alt=sse")
}

// ---------------------------------------------------------------------------
// Families of models
// ---------------------------------------------------------------------------

/// The families whose thinking is set by a level.
#[derive(Clone, Copy, Debug, PartialEq, Eq, Structural)]
pub struct ModelFamilies {
    pub gemini3_pro: bool,
    pub gemini3_flash: bool,
    pub gemma4: bool,
}

pub open spec fn is_gemma4(id: Seq<char>) -> bool {
    contains_text(lowercase(id), "gemma4"@) || contains_text(lowercase(id), "gemma-4"@)
}

pub open spec fn is_gemini3_pro(id: Seq<char>) -> bool {
    pattern_matches("gemini-3(?:\\.\\d+)?-pro"@, lowercase(id))
}

pub open spec fn is_gemini3_flash(id: Seq<char>) -> bool {
    ||| pattern_matches("gemini-3(?:\\.\\d+)?-flash"@, lowercase(id))
    ||| lowercase(id) == "gemini-flash-latest"@
    ||| lowercase(id) == "gemini-flash-lite-latest"@
}

/// The families that an identifier names.
pub open spec fn families(id: Seq<char>) -> ModelFamilies {
    ModelFamilies {
        gemini3_pro: is_gemini3_pro(id),
        gemini3_flash: is_gemini3_flash(id),
        gemma4: is_gemma4(id),
    }
}

/// The families that an identifier in ASCII names.
pub open spec fn ascii_families(id: Seq<char>) -> ModelFamilies {
    let lower = ascii_lower(id);
    ModelFamilies {
        gemini3_pro: names_gemini3(lower, "-pro"@),
        gemini3_flash: names_gemini3(lower, "-flash"@) || lower == "gemini-flash-latest"@ || lower
            == "gemini-flash-lite-latest"@,
        gemma4: contains_text(lower, "gemma4"@) || contains_text(lower, "gemma-4"@),
    }
}

proof fn lemma_ascii_lower(id: Seq<char>)
    requires
        is_ascii_text(id),
    ensures
        is_ascii_text(ascii_lower(id)),
{
    assert forall|i: int| 0 <= i < ascii_lower(id).len() implies (#[trigger] ascii_lower(
        id,
    )[i] as u32) < 128 by {
        assert((id[i] as u32) < 128);
    }
}

pub fn is_gemma4_model(model: &Model) -> (r: bool)
    ensures
        r == is_gemma4(model.id@),
        is_ascii_text(model.id@) ==> r == ascii_families(model.id@).gemma4,
{
    let id = to_lowercase(model.id.as_str());
    contains(id.as_str(), "gemma4") || contains(id.as_str(), "gemma-4")
}

pub fn is_gemini3_pro_model(model: &Model) -> (r: bool)
    ensures
        r == is_gemini3_pro(model.id@),
        is_ascii_text(model.id@) ==> r == ascii_families(model.id@).gemini3_pro,
{
    let id = to_lowercase(model.id.as_str());
    proof {
        if is_ascii_text(model.id@) {
            lemma_ascii_lower(model.id@);
        }
    }
    matches_pattern("gemini-3(?:\\.\\d+)?-pro", id.as_str())
}

pub fn is_gemini3_flash_model(model: &Model) -> (r: bool)
    ensures
        r == is_gemini3_flash(model.id@),
        is_ascii_text(model.id@) ==> r == ascii_families(model.id@).gemini3_flash,
{
    let id = to_lowercase(model.id.as_str());
    proof {
        if is_ascii_text(model.id@) {
            lemma_ascii_lower(model.id@);
        }
    }
    matches_pattern("gemini-3(?:\\.\\d+)?-flash", id.as_str()) || str_eq(
        id.as_str(),
        "gemini-flash-latest",
    ) || str_eq(id.as_str(), "gemini-flash-lite-latest")
}

/// The families of a model.
pub fn model_families(model: &Model) -> (r: ModelFamilies)
    ensures
        r == families(model.id@),
        is_ascii_text(model.id@) ==> r == ascii_families(model.id@),
{
    ModelFamilies {
        gemini3_pro: is_gemini3_pro_model(model),
        gemini3_flash: is_gemini3_flash_model(model),
        gemma4: is_gemma4_model(model),
    }
}

// ---------------------------------------------------------------------------
// Thinking
// ---------------------------------------------------------------------------

/// How thinking is switched off. The families whose thinking is set by a level
/// cannot switch it off, so they get their lowest level; others get no budget.
pub open spec fn disabled_thinking(f: ModelFamilies) -> Thinking {
    if f.gemini3_pro {
        Thinking { enabled: false, budget_tokens: None, level: Some("LOW"@) }
    } else if f.gemini3_flash || f.gemma4 {
        Thinking { enabled: false, budget_tokens: None, level: Some("MINIMAL"@) }
    } else {
        Thinking { enabled: false, budget_tokens: Some(whole(0)), level: None }
    }
}

pub fn disabled_thinking_config(f: ModelFamilies) -> (r: GoogleThinkingConfig)
    ensures
        r@ == disabled_thinking(f),
{
    if f.gemini3_pro {
        GoogleThinkingConfig { enabled: false, budget_tokens: None, level: Some("LOW".to_owned()) }
    } else if f.gemini3_flash || f.gemma4 {
        GoogleThinkingConfig {
            enabled: false,
            budget_tokens: None,
            level: Some("MINIMAL".to_owned()),
        }
    } else {
        GoogleThinkingConfig { enabled: false, budget_tokens: Some(Number::zero()), level: None }
    }
}

pub fn get_disabled_thinking_config(model: &Model) -> (r: GoogleThinkingConfig)
    ensures
        r@ == disabled_thinking(families(model.id@)),
        is_ascii_text(model.id@) ==> r@ == disabled_thinking(ascii_families(model.id@)),
{
    disabled_thinking_config(model_families(model))
}

/// The level of an effort, by the levels that a family has.
pub open spec fn thinking_level(effort: Seq<char>, f: ModelFamilies) -> Seq<char> {
    let slight = effort == "minimal"@ || effort == "low"@;
    if f.gemini3_pro {
        if slight {
            "LOW"@
        } else {
            "HIGH"@
        }
    } else if f.gemma4 {
        if slight {
            "MINIMAL"@
        } else {
            "HIGH"@
        }
    } else {
        plain_level(effort)
    }
}

/// The level of an effort where a model has all levels.
pub open spec fn plain_level(effort: Seq<char>) -> Seq<char> {
    if effort == "minimal"@ {
        "MINIMAL"@
    } else if effort == "low"@ {
        "LOW"@
    } else if effort == "medium"@ {
        "MEDIUM"@
    } else {
        "HIGH"@
    }
}

pub fn plain_thinking_level(effort: &str) -> (r: String)
    ensures
        r@ == plain_level(effort@),
{
    if str_eq(effort, "minimal") {
        "MINIMAL".to_owned()
    } else if str_eq(effort, "low") {
        "LOW".to_owned()
    } else if str_eq(effort, "medium") {
        "MEDIUM".to_owned()
    } else {
        "HIGH".to_owned()
    }
}

pub fn family_thinking_level(effort: &str, f: ModelFamilies) -> (r: String)
    ensures
        r@ == thinking_level(effort@, f),
{
    let slight = str_eq(effort, "minimal") || str_eq(effort, "low");
    if f.gemini3_pro {
        if slight {
            "LOW".to_owned()
        } else {
            "HIGH".to_owned()
        }
    } else if f.gemma4 {
        if slight {
            "MINIMAL".to_owned()
        } else {
            "HIGH".to_owned()
        }
    } else {
        plain_thinking_level(effort)
    }
}

pub fn get_thinking_level(effort: &str, model: &Model) -> (r: String)
    ensures
        r@ == thinking_level(effort@, families(model.id@)),
        is_ascii_text(model.id@) ==> r@ == thinking_level(effort@, ascii_families(model.id@)),
{
    family_thinking_level(effort, model_families(model))
}

/// The budget that a caller sets for an effort.
pub open spec fn custom_budget(effort: Seq<char>, budgets: Option<&ThinkingBudgets>) -> Option<
    Number,
> {
    match budgets {
        Some(b) => if effort == "minimal"@ {
            b.minimal
        } else if effort == "low"@ {
            b.low
        } else if effort == "medium"@ {
            b.medium
        } else {
            b.high
        },
        None => None,
    }
}

pub fn find_custom_budget(effort: &str, budgets: Option<&ThinkingBudgets>) -> (r: Option<Number>)
    ensures
        r == custom_budget(effort@, budgets),
{
    match budgets {
        Some(b) => if str_eq(effort, "minimal") {
            b.minimal
        } else if str_eq(effort, "low") {
            b.low
        } else if str_eq(effort, "medium") {
            b.medium
        } else {
            b.high
        },
        None => None,
    }
}

/// A budget for each effort, from the least to the greatest.
pub open spec fn effort_budget(effort: Seq<char>, least: int, greatest: int) -> Number {
    whole(
        if effort == "minimal"@ {
            least
        } else if effort == "low"@ {
            2048
        } else if effort == "medium"@ {
            8192
        } else {
            greatest
        },
    )
}

pub fn pick_effort_budget(effort: &str, least: i64, greatest: i64) -> (r: Number)
    ensures
        r == effort_budget(effort@, least as int, greatest as int),
{
    if str_eq(effort, "minimal") {
        Number::from_int(least)
    } else if str_eq(effort, "low") {
        Number::from_int(2048)
    } else if str_eq(effort, "medium") {
        Number::from_int(8192)
    } else {
        Number::from_int(greatest)
    }
}

/// The budget of tokens for an effort: what the caller sets, or what suits the
/// model, or -1, which leaves it to the model.
pub open spec fn google_budget(
    id: Seq<char>,
    effort: Seq<char>,
    budgets: Option<&ThinkingBudgets>,
) -> Number {
    match custom_budget(effort, budgets) {
        Some(budget) => budget,
        None => if contains_text(id, "2.5-pro"@) {
            effort_budget(effort, 128, 32768)
        } else if contains_text(id, "2.5-flash-lite"@) {
            effort_budget(effort, 512, 24576)
        } else if contains_text(id, "2.5-flash"@) {
            effort_budget(effort, 128, 24576)
        } else {
            whole(-1)
        },
    }
}

pub fn get_google_budget(
    model: &Model,
    effort: &str,
    custom_budgets: Option<&ThinkingBudgets>,
) -> (r: Number)
    ensures
        r == google_budget(model.id@, effort@, custom_budgets),
{
    if let Some(budget) = find_custom_budget(effort, custom_budgets) {
        return budget;
    }
    if contains(model.id.as_str(), "2.5-pro") {
        pick_effort_budget(effort, 128, 32768)
    } else if contains(model.id.as_str(), "2.5-flash-lite") {
        pick_effort_budget(effort, 512, 24576)
    } else if contains(model.id.as_str(), "2.5-flash") {
        pick_effort_budget(effort, 128, 24576)
    } else {
        Number::from_int(-1)
    }
}

// ---------------------------------------------------------------------------
// Request
// ---------------------------------------------------------------------------

/// How sampling is set.
pub open spec fn sampling(temperature: Option<Number>, max_tokens: Option<Number>) -> Entries {
    no_entries().put_opt("temperature"@, opt_number_json(temperature)).put_opt(
        "maxOutputTokens"@,
        opt_number_json(max_tokens),
    )
}

pub fn make_sampling(temperature: Option<Number>, max_tokens: Option<Number>) -> (r: Vec<
    (String, Value),
>)
    ensures
        entries(r@) == sampling(temperature, max_tokens),
        r@.len() == entries(r@).len(),
{
    let mut e = new_entries();
    put_opt_number(&mut e, "temperature", temperature);
    put_opt_number(&mut e, "maxOutputTokens", max_tokens);
    e
}

/// The tools of a conversation.
pub open spec fn tools_of(context: Context) -> Seq<Tool> {
    match context.tools {
        Some(tools) => tools@,
        None => Seq::empty(),
    }
}

/// How the model is told to call functions, where there are any.
pub open spec fn tool_config(context: Context, id: Seq<char>, choice: Option<Seq<char>>) -> Option<
    Json,
> {
    if tools_of(context).len() == 0 {
        None
    } else {
        match calling_mode(tools_of(context), choice, is_gemini3(id)) {
            Some(mode) => Some(
                one_entry("functionCallingConfig"@, one_entry("mode"@, Json::Str(mode))),
            ),
            None => None,
        }
    }
}

pub fn make_tool_config(context: &Context, id: &str, choice: Option<&str>) -> (r: Option<Value>)
    ensures
        crate::json::opt_json(r) == tool_config(*context, id@, opt_str(choice)),
{
    match &context.tools {
        Some(tools) => if tools.len() > 0 {
            match resolve_google_function_calling_mode(
                tools,
                choice,
                supports_google_strict_tool_sampling(id),
            ) {
                Some(mode) => Some(
                    object1("functionCallingConfig", object1("mode", Value::Str(mode))),
                ),
                None => None,
            }
        } else {
            None
        },
        None => None,
    }
}

/// The tools of a conversation as they are sent.
pub fn make_tools(context: &Context) -> (r: Option<Value>)
    ensures
        crate::json::opt_json(r) == tools_json(tools_of(*context), false),
{
    match &context.tools {
        Some(tools) => convert_tools(tools, false),
        None => None,
    }
}

/// How a model that thinks is told to: its thoughts are sent, and a level wins
/// over a budget.
pub open spec fn enabled_thinking_json(level: Option<Seq<char>>, budget: Option<Number>) -> Json {
    let thoughts = no_entries().put("includeThoughts"@, Json::Bool(true));
    Json::Object(
        match level {
            Some(level) => thoughts.put("thinkingLevel"@, Json::Str(level)),
            None => thoughts.put_opt("thinkingBudget"@, opt_number_json(budget)),
        },
    )
}

pub fn make_enabled_thinking(level: Option<&str>, budget: Option<Number>) -> (r: Value)
    ensures
        r@ == enabled_thinking_json(opt_str(level), budget),
{
    let mut e = new_entries();
    put_bool(&mut e, "includeThoughts", true);
    match level {
        Some(level) => put_str(&mut e, "thinkingLevel", level),
        None => put_opt_number(&mut e, "thinkingBudget", budget),
    }
    object(e)
}

/// How a model is told not to think.
pub open spec fn disabled_thinking_json(t: Thinking) -> Json {
    Json::Object(
        no_entries().put_opt("thinkingLevel"@, opt_str_json(t.level)).put_opt(
            "thinkingBudget"@,
            opt_number_json(t.budget_tokens),
        ),
    )
}

/// How a model is told to think: nothing where it cannot, or where nothing was
/// asked.
pub open spec fn thinking_json(
    reasoning: bool,
    thinking: Option<Thinking>,
    f: ModelFamilies,
) -> Option<Json> {
    match thinking {
        Some(t) => if !reasoning {
            None
        } else if t.enabled {
            Some(enabled_thinking_json(t.level, t.budget_tokens))
        } else {
            Some(disabled_thinking_json(disabled_thinking(f)))
        },
        None => None,
    }
}

pub fn make_thinking(
    reasoning: bool,
    thinking: Option<&GoogleThinkingConfig>,
    f: ModelFamilies,
) -> (r: Option<Value>)
    ensures
        crate::json::opt_json(r) == thinking_json(
            reasoning,
            match thinking {
                Some(t) => Some(t@),
                None => None,
            },
            f,
        ),
{
    match thinking {
        Some(t) => if !reasoning {
            None
        } else if t.enabled {
            Some(make_enabled_thinking(borrow_opt(&t.level), t.budget_tokens))
        } else {
            let disabled = disabled_thinking_config(f);
            let mut e = new_entries();
            put_opt_str(&mut e, "thinkingLevel", borrow_opt(&disabled.level));
            put_opt_number(&mut e, "thinkingBudget", disabled.budget_tokens);
            Some(object(e))
        },
        None => None,
    }
}

/// An object with entries, unless there are none.
pub open spec fn filled_object(e: Entries) -> Option<Json> {
    if e.len() > 0 {
        Some(Json::Object(e))
    } else {
        None
    }
}

pub open spec fn asked_temperature(options: Option<&GoogleOptions>) -> Option<Number> {
    match options {
        Some(o) => o.stream.temperature,
        None => None,
    }
}

pub open spec fn asked_max_tokens(options: Option<&GoogleOptions>) -> Option<Number> {
    match options {
        Some(o) => o.stream.max_tokens,
        None => None,
    }
}

pub open spec fn asked_choice(options: Option<&GoogleOptions>) -> Option<Seq<char>> {
    match options {
        Some(o) => opt_text(o.tool_choice),
        None => None,
    }
}

pub open spec fn asked_thinking(options: Option<&GoogleOptions>) -> Option<Thinking> {
    match options {
        Some(o) => match o.thinking {
            Some(t) => Some(t@),
            None => None,
        },
        None => None,
    }
}

/// The body of a request to a model of some families.
pub open spec fn request_body(
    model: Model,
    context: Context,
    messages: Seq<Message>,
    options: Option<&GoogleOptions>,
    f: ModelFamilies,
) -> Json {
    Json::Object(
        no_entries().put("contents"@, Json::Array(turns_json(contents_of(messages, model)))).put_opt(
            "generationConfig"@,
            filled_object(sampling(asked_temperature(options), asked_max_tokens(options))),
        ).put_opt("systemInstruction"@, opt_str_json(opt_text(context.system_prompt))).put_opt(
            "tools"@,
            tools_json(tools_of(context), false),
        ).put_opt("toolConfig"@, tool_config(context, model.id@, asked_choice(options))).put_opt(
            "thinkingConfig"@,
            thinking_json(model.reasoning, asked_thinking(options), f),
        ),
    )
}

/// The body of a request to a model of some families.
pub fn build_family_params(
    model: &Model,
    context: &Context,
    messages: &Vec<Message>,
    options: Option<&GoogleOptions>,
    f: ModelFamilies,
) -> (r: Value)
    ensures
        r@ == request_body(*model, *context, messages@, options, f),
{
    let contents = convert_messages(model, messages);
    let temperature: Option<Number> = match options {
        Some(o) => o.stream.temperature,
        None => None,
    };
    let max_tokens: Option<Number> = match options {
        Some(o) => o.stream.max_tokens,
        None => None,
    };
    let choice: Option<&str> = match options {
        Some(o) => borrow_opt(&o.tool_choice),
        None => None,
    };
    let thinking: Option<&GoogleThinkingConfig> = match options {
        Some(o) => match &o.thinking {
            Some(t) => Some(t),
            None => None,
        },
        None => None,
    };
    let generation_config = make_sampling(temperature, max_tokens);
    let mut e = new_entries();
    put(&mut e, "contents", contents_value(&contents));
    if generation_config.len() > 0 {
        put_object(&mut e, "generationConfig", generation_config);
    }
    put_opt_str(&mut e, "systemInstruction", borrow_opt(&context.system_prompt));
    put_opt_value(&mut e, "tools", make_tools(context));
    put_opt_value(&mut e, "toolConfig", make_tool_config(context, model.id.as_str(), choice));
    put_opt_value(&mut e, "thinkingConfig", make_thinking(model.reasoning, thinking, f));
    object(e)
}

pub fn build_params(
    model: &Model,
    context: &Context,
    messages: &Vec<Message>,
    options: Option<&GoogleOptions>,
) -> (r: Value)
    ensures
        r@ == request_body(*model, *context, messages@, options, families(model.id@)),
        is_ascii_text(model.id@) ==> r@ == request_body(
            *model,
            *context,
            messages@,
            options,
            ascii_families(model.id@),
        ),
{
    build_family_params(model, context, messages, options, model_families(model))
}

pub open spec fn asked_headers(options: Option<&GoogleOptions>) -> OptPairs {
    match options {
        Some(o) => match o.stream.request.headers {
            Some(h) => opt_headers(Some(&h)),
            None => opt_headers(None),
        },
        None => opt_headers(None),
    }
}

/// The request that begins a stream, or that there is no key for it.
pub open spec fn request(
    model: Model,
    context: Context,
    messages: Seq<Message>,
    options: Option<&GoogleOptions>,
    api_key: Option<Seq<char>>,
    f: ModelFamilies,
) -> Result<Request, Seq<char>> {
    match api_key {
        None => Err(no_key(model.provider@)),
        Some(key) => Ok(
            Request {
                url: url_of(model.base_url@, model.id@),
                headers: Pairs::empty().push(("x-goog-api-key"@, key)) + overridden(
                    opt_list(model.headers),
                    asked_headers(options),
                ),
                body: request_body(model, context, messages, options, f),
            },
        ),
    }
}

pub fn prepare_request(
    model: &Model,
    context: &Context,
    messages: &Vec<Message>,
    options: Option<&GoogleOptions>,
    api_key: Option<&str>,
) -> (r: Result<ProviderRequest, String>)
    ensures
        res_request(r) == request(
            *model,
            *context,
            messages@,
            options,
            opt_str(api_key),
            families(model.id@),
        ),
        is_ascii_text(model.id@) ==> res_request(r) == request(
            *model,
            *context,
            messages@,
            options,
            opt_str(api_key),
            ascii_families(model.id@),
        ),
{
    let key = match api_key {
        Some(key) => key,
        None => {
            return Err(cat2("No API key for provider: ", model.provider.as_str()));
        },
    };
    let body = build_params(model, context, messages, options);
    let asked: Option<&ProviderHeaders> = match options {
        Some(o) => match &o.stream.request.headers {
            Some(h) => Some(h),
            None => None,
        },
        None => None,
    };
    let mut headers = new_pairs();
    push_pair(&mut headers, "x-goog-api-key", key);
    let merged = merged_headers(model, asked);
    append_pairs(&mut headers, &merged);
    Ok(ProviderRequest { url: request_url(model), headers, body })
}

// ---------------------------------------------------------------------------
// Replies
// ---------------------------------------------------------------------------

/// Reads a streamed part.
pub fn parse_part(part: &Value) -> (r: ParsedPart)
    ensures
        r@ == parsed(part@, GoogleInterface::GenerativeAi),
{
    read_part(part, GoogleInterface::GenerativeAi)
}

// ---------------------------------------------------------------------------
// Simple requests
// ---------------------------------------------------------------------------

/// The effort of a level: what is asked for cannot be off, so off stands for
/// high.
pub open spec fn level_effort(level: Seq<char>) -> Seq<char> {
    if level == "off"@ {
        "high"@
    } else {
        level
    }
}

/// How a simple request makes a model of some families think.
pub open spec fn simple_thinking(
    id: Seq<char>,
    level: Option<Seq<char>>,
    budgets: Option<&ThinkingBudgets>,
    f: ModelFamilies,
) -> Thinking {
    match level {
        None => Thinking { enabled: false, budget_tokens: None, level: None },
        Some(level) => {
            let effort = level_effort(level);
            if f.gemini3_pro || f.gemini3_flash || f.gemma4 {
                Thinking {
                    enabled: true,
                    budget_tokens: None,
                    level: Some(thinking_level(effort, f)),
                }
            } else {
                Thinking {
                    enabled: true,
                    budget_tokens: Some(google_budget(id, effort, budgets)),
                    level: None,
                }
            }
        },
    }
}

/// How a simple request makes a model of some families think.
pub fn choose_thinking(
    model: &Model,
    level: Option<&str>,
    budgets: Option<&ThinkingBudgets>,
    f: ModelFamilies,
) -> (r: GoogleThinkingConfig)
    ensures
        r@ == simple_thinking(model.id@, opt_str(level), budgets, f),
{
    match level {
        None => GoogleThinkingConfig { enabled: false, budget_tokens: None, level: None },
        Some(level) => {
            let effort: &str = if str_eq(level, "off") {
                "high"
            } else {
                level
            };
            if f.gemini3_pro || f.gemini3_flash || f.gemma4 {
                GoogleThinkingConfig {
                    enabled: true,
                    budget_tokens: None,
                    level: Some(family_thinking_level(effort, f)),
                }
            } else {
                GoogleThinkingConfig {
                    enabled: true,
                    budget_tokens: Some(get_google_budget(model, effort, budgets)),
                    level: None,
                }
            }
        },
    }
}

/// The options with which a simple request is streamed. `base` holds the
/// options that every interface has, and `level` is the level of thinking that
/// was asked for, clamped to what the model supports.
pub fn stream_simple(
    model: &Model,
    base: StreamOptions,
    level: Option<&str>,
    budgets: Option<&ThinkingBudgets>,
) -> (r: GoogleOptions)
    ensures
        r.stream == base,
        r.tool_choice is None,
        r.thinking matches Some(t) && t@ == simple_thinking(
            model.id@,
            opt_str(level),
            budgets,
            families(model.id@),
        ) && (is_ascii_text(model.id@) ==> t@ == simple_thinking(
            model.id@,
            opt_str(level),
            budgets,
            ascii_families(model.id@),
        )),
{
    let thinking = choose_thinking(model, level, budgets, model_families(model));
    GoogleOptions { stream: base, tool_choice: None, thinking: Some(thinking) }
}

} // verus!
