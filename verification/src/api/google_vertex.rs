//! The Google Vertex interface.
use vstd::prelude::*;
use vstd::string::*;
use crate::api::constrained_sampling::res_text;
use crate::api::finish::{res_request, ProviderRequest, Request};
use crate::api::google_generative_ai::{
    custom_budget, effort_budget, enabled_thinking_json, filled_object, find_custom_budget,
    level_effort, make_enabled_thinking, make_sampling, make_tool_config, make_tools,
    pick_effort_budget, plain_level, plain_thinking_level, sampling, tool_config,
    tools_of, Thinking,
};
use crate::api::google_shared::messages::{
    contents_of, contents_value, convert_messages, tools_json, turns_json,
};
use crate::api::headers::{
    append_pairs, clone_opt_pairs, new_pairs, opt_headers, opt_list, push_pair, OptPairs, Pairs,
};
use crate::json::{
    array1, entries, new_entries, no_entries, object, object1, one_entry, one_item, put, put_object,
    put_opt_value, string, EntriesSpec, Json, Value,
};
use crate::number::{whole, Number};
use crate::pattern::{gemini3_at, names_gemini3};
use crate::text::{
    after_text, all_digits, ascii_lower, borrow_opt, cat2, cat3, cat4, char_count, contains,
    contains_text, count_digits, digit_run, ends_with, has_only_digits, join, joined, occurs_at,
    opt_str, opt_text, own_opt, push_text, skip_chars, split, split_on, split_once, split_pair, starts_with,
    str_eq, text_after, texts, to_ascii_lowercase, to_chars, trim, trim_end_of, trimmed, trimmed_end_of,
};
use crate::types::{
    opt_pairs, pairs, Context, Message, Model, ProviderHeaders, StreamOptions, ThinkingBudgets,
};

verus! {

pub const THINKING_LEVEL_MAP: [(&'static str, &'static str); 5] = [
    ("THINKING_LEVEL_UNSPECIFIED", "THINKING_LEVEL_UNSPECIFIED"),
    ("MINIMAL", "MINIMAL"),
    ("LOW", "LOW"),
    ("MEDIUM", "MEDIUM"),
    ("HIGH", "HIGH"),
];

/// Options of the interface.
#[derive(Clone, Debug, Default, PartialEq, Eq)]
pub struct GoogleVertexOptions {
    pub stream: StreamOptions,
    pub tool_choice: Option<String>,
    pub thinking: Option<VertexThinking>,
    pub project: Option<String>,
    pub location: Option<String>,
}

/// How a model thinks: by a budget of tokens, where -1 leaves it to the model
/// and 0 switches thinking off, or by a level.
#[derive(Clone, Debug, PartialEq, Eq)]
pub struct VertexThinking {
    pub enabled: bool,
    pub budget_tokens: Option<Number>,
    pub level: Option<String>,
}

impl View for VertexThinking {
    type V = Thinking;

    open spec fn view(&self) -> Thinking {
        Thinking {
            enabled: self.enabled,
            budget_tokens: self.budget_tokens,
            level: opt_text(self.level),
        }
    }
}

/// What the environment of a request says: `GOOGLE_CLOUD_PROJECT`,
/// `GCLOUD_PROJECT`, `GOOGLE_CLOUD_LOCATION`, `GOOGLE_ACCESS_TOKEN`, and whether
/// there are `GOOGLE_APPLICATION_CREDENTIALS`.
#[derive(Clone, Debug, Default, PartialEq, Eq)]
pub struct VertexEnvironment {
    pub cloud_project: Option<String>,
    pub gcloud_project: Option<String>,
    pub location: Option<String>,
    pub access_token: Option<String>,
    pub has_credentials: bool,
}

// ---------------------------------------------------------------------------
// Options
// ---------------------------------------------------------------------------

/// A key that only marks the place of one.
pub open spec fn is_placeholder(key: Seq<char>) -> bool {
    "<"@.is_prefix_of(key) && ">"@.is_suffix_of(key)
}

pub fn is_placeholder_api_key(api_key: &str) -> (r: bool)
    ensures
        r == is_placeholder(api_key@),
{
    starts_with(api_key, "<") && ends_with(api_key, ">")
}

/// A key that can be used: not blank, no marker and no placeholder.
pub open spec fn usable_key(key: Option<Seq<char>>) -> Option<Seq<char>> {
    match key {
        Some(key) => {
            let key = trimmed(key);
            if key.len() == 0 || key == "gcp-vertex-credentials"@ || is_placeholder(key) {
                None
            } else {
                Some(key)
            }
        },
        None => None,
    }
}

pub open spec fn asked_key(options: Option<&GoogleVertexOptions>) -> Option<Seq<char>> {
    match options {
        Some(o) => opt_text(o.stream.request.api_key),
        None => None,
    }
}

pub fn resolve_api_key(options: Option<&GoogleVertexOptions>) -> (r: Option<String>)
    ensures
        opt_text(r) == usable_key(asked_key(options)),
{
    match options {
        Some(o) => match &o.stream.request.api_key {
            Some(key) => {
                let key = trim(key.as_str());
                if key.as_str().is_empty() || str_eq(key.as_str(), "gcp-vertex-credentials")
                    || is_placeholder_api_key(key.as_str()) {
                    None
                } else {
                    Some(key)
                }
            },
            None => None,
        },
        None => None,
    }
}

/// The first text that there is.
pub open spec fn first_of(a: Option<Seq<char>>, b: Option<Seq<char>>) -> Option<Seq<char>> {
    match a {
        Some(_) => a,
        None => b,
    }
}

pub open spec fn asked_project(options: Option<&GoogleVertexOptions>) -> Option<Seq<char>> {
    match options {
        Some(o) => opt_text(o.project),
        None => None,
    }
}

pub open spec fn asked_location(options: Option<&GoogleVertexOptions>) -> Option<Seq<char>> {
    match options {
        Some(o) => opt_text(o.location),
        None => None,
    }
}

/// The project: the one asked for, or that of the environment.
pub open spec fn project_of(
    options: Option<&GoogleVertexOptions>,
    environment: VertexEnvironment,
) -> Result<Seq<char>, Seq<char>> {
    match first_of(
        asked_project(options),
        first_of(opt_text(environment.cloud_project), opt_text(environment.gcloud_project)),
    ) {
        Some(project) => Ok(project),
        None => Err(
            "Vertex AI requires a project ID. Set GOOGLE_CLOUD_PROJECT/GCLOUD_PROJECT or pass project in options."@,
        ),
    }
}

fn pick_first(a: Option<&str>, b: Option<&str>) -> (r: Option<String>)
    ensures
        opt_text(r) == first_of(opt_str(a), opt_str(b)),
{
    match a {
        Some(a) => Some(a.to_owned()),
        None => own_opt(b),
    }
}

pub fn resolve_project(
    options: Option<&GoogleVertexOptions>,
    environment: &VertexEnvironment,
) -> (r: Result<String, String>)
    ensures
        res_text(r) == project_of(options, *environment),
{
    let asked: Option<&str> = match options {
        Some(o) => borrow_opt(&o.project),
        None => None,
    };
    let known = pick_first(
        borrow_opt(&environment.cloud_project),
        borrow_opt(&environment.gcloud_project),
    );
    match pick_first(asked, borrow_opt(&known)) {
        Some(project) => Ok(project),
        None => Err(
            "Vertex AI requires a project ID. Set GOOGLE_CLOUD_PROJECT/GCLOUD_PROJECT or pass project in options.".to_owned(),
        ),
    }
}

/// The location: the one asked for, or that of the environment.
pub open spec fn location_of(
    options: Option<&GoogleVertexOptions>,
    environment: VertexEnvironment,
) -> Result<Seq<char>, Seq<char>> {
    match first_of(asked_location(options), opt_text(environment.location)) {
        Some(location) => Ok(location),
        None => Err(
            "Vertex AI requires a location. Set GOOGLE_CLOUD_LOCATION or pass location in options."@,
        ),
    }
}

pub fn resolve_location(
    options: Option<&GoogleVertexOptions>,
    environment: &VertexEnvironment,
) -> (r: Result<String, String>)
    ensures
        res_text(r) == location_of(options, *environment),
{
    let asked: Option<&str> = match options {
        Some(o) => borrow_opt(&o.location),
        None => None,
    };
    match pick_first(asked, borrow_opt(&environment.location)) {
        Some(location) => Ok(location),
        None => Err(
            "Vertex AI requires a location. Set GOOGLE_CLOUD_LOCATION or pass location in options.".to_owned(),
        ),
    }
}

/// The base address of a model, unless it is blank or has a place for the
/// location.
pub open spec fn custom_base(base_url: Seq<char>) -> Option<Seq<char>> {
    let base = trimmed(base_url);
    if base.len() == 0 || contains_text(base, "{location}"@) {
        None
    } else {
        Some(base)
    }
}

pub fn resolve_custom_base_url(base_url: &str) -> (r: Option<String>)
    ensures
        opt_text(r) == custom_base(base_url@),
{
    let base = trim(base_url);
    if base.as_str().is_empty() || contains(base.as_str(), "{location}") {
        None
    } else {
        Some(base)
    }
}

// ---------------------------------------------------------------------------
// Address
// ---------------------------------------------------------------------------

/// The path of an address.
pub open spec fn path_of(url: Seq<char>) -> Seq<char> {
    match text_after(url, "://"@) {
        Some(rest) => match split_pair(rest, '/') {
            Some((_, path)) => path,
            None => Seq::empty(),
        },
        None => url,
    }
}

/// Whether a segment of a path is a version: `v`, digits, and perhaps `beta`
/// and more digits.
pub open spec fn is_version(segment: Seq<char>) -> bool {
    &&& "v"@.is_prefix_of(segment)
    &&& {
        let rest = segment.skip("v"@.len() as int);
        let tail = rest.skip(digit_run(rest) as int);
        &&& digit_run(rest) > 0
        &&& tail.len() == 0 || ("beta"@.is_prefix_of(tail) && all_digits(
            tail.skip("beta"@.len() as int),
        ))
    }
}

/// Whether some segment of the path of an address is a version.
pub open spec fn has_version(url: Seq<char>) -> bool {
    exists|i: int|
        0 <= i < split_on(path_of(url), '/').len() && is_version(
            #[trigger] split_on(path_of(url), '/')[i],
        )
}

fn segment_is_version(segment: &str) -> (r: bool)
    ensures
        r == is_version(segment@),
{
    if !starts_with(segment, "v") {
        return false;
    }
    let rest = skip_chars(segment, char_count("v"));
    let n: usize = count_digits(rest.as_str());
    if n == 0 {
        return false;
    }
    let tail = skip_chars(rest.as_str(), n);
    if tail.as_str().is_empty() {
        return true;
    }
    if !starts_with(tail.as_str(), "beta") {
        return false;
    }
    let digits = skip_chars(tail.as_str(), char_count("beta"));
    has_only_digits(digits.as_str())
}

pub fn base_url_includes_api_version(base_url: &str) -> (r: bool)
    ensures
        r == has_version(base_url@),
{
    let path = match after_text(base_url, "://") {
        Some(rest) => match split_once(rest.as_str(), '/') {
            Some((_, path)) => path,
            None => String::new(),
        },
        None => base_url.to_owned(),
    };
    assert(path@ =~= path_of(base_url@));
    let segments = split(path.as_str(), '/');
    let mut i: usize = 0;
    while i < segments.len()
        invariant
            i <= segments@.len(),
            texts(segments@) == split_on(path_of(base_url@), '/'),
            forall|j: int|
                0 <= j < i ==> !is_version(#[trigger] split_on(path_of(base_url@), '/')[j]),
        decreases segments.len() - i,
    {
        assert(texts(segments@)[i as int] == segments@[i as int]@);
        if segment_is_version(segments[i].as_str()) {
            assert(is_version(split_on(path_of(base_url@), '/')[i as int]));
            return true;
        }
        i += 1;
    }
    assert(texts(segments@).len() == segments@.len());
    false
}

/// A location that stands for several regions.
pub open spec fn is_multi_regional(location: Seq<char>) -> bool {
    location == "us"@ || location == "eu"@ || location == "europe"@ || location == "asia"@
        || location == "global"@
}

pub fn is_multi_regional_location(location: &str) -> (r: bool)
    ensures
        r == is_multi_regional(location@),
{
    str_eq(location, "us") || str_eq(location, "eu") || str_eq(location, "europe") || str_eq(
        location,
        "asia",
    ) || str_eq(location, "global")
}

/// The host of a location.
pub open spec fn location_host(location: Seq<char>) -> Seq<char> {
    if is_multi_regional(location) {
        "https://aiplatform."@ + location + ".rep.googleapis.com"@
    } else {
        "https://"@ + location + "-aiplatform.googleapis.com"@
    }
}

/// The base of an address: a custom one, the global one for a key, or that of
/// the location.
pub open spec fn base_of(
    location: Option<Seq<char>>,
    api_key_mode: bool,
    custom: Option<Seq<char>>,
) -> Seq<char> {
    match custom {
        Some(custom) => trimmed_end_of(custom, '/'),
        None => if api_key_mode {
            "https://aiplatform.googleapis.com"@
        } else {
            match location {
                Some(location) => location_host(location),
                None => Seq::empty(),
            }
        },
    }
}

/// The path of a model: as it is where it is a path already, under its
/// publisher where that is named, else under Google.
pub open spec fn model_path(id: Seq<char>) -> Seq<char> {
    if "publishers/"@.is_prefix_of(id) || "projects/"@.is_prefix_of(id) || "models/"@.is_prefix_of(
        id,
    ) {
        id
    } else {
        match split_pair(id, '/') {
            Some((publisher, name)) => "publishers/"@ + publisher + "/models/"@ + name,
            None => "publishers/google/models/"@ + id,
        }
    }
}

/// The segments of an address.
pub open spec fn url_segments(
    id: Seq<char>,
    project: Option<Seq<char>>,
    location: Option<Seq<char>>,
    api_key_mode: bool,
    custom: Option<Seq<char>>,
) -> Seq<Seq<char>> {
    let base = base_of(location, api_key_mode, custom);
    let first = Seq::<Seq<char>>::empty().push(base);
    let versioned = if has_version(base) {
        first
    } else {
        first.push("v1"@)
    };
    let scoped = match (project, location) {
        (Some(project), Some(location)) => if custom is None && !api_key_mode {
            versioned.push("projects/"@ + project + "/locations/"@ + location)
        } else {
            versioned
        },
        _ => versioned,
    };
    scoped.push(model_path(id) + ":streamGenerateContent?alt=sse"@)
}

fn make_model_path(id: &str) -> (r: String)
    ensures
        r@ == model_path(id@),
{
    if starts_with(id, "publishers/") || starts_with(id, "projects/") || starts_with(
        id,
        "models/",
    ) {
        return id.to_owned();
    }
    match split_once(id, '/') {
        Some((publisher, name)) => cat4(
            "publishers/",
            publisher.as_str(),
            "/models/",
            name.as_str(),
        ),
        None => cat2("publishers/google/models/", id),
    }
}

/// Where a request goes.
pub fn construct_url(
    model_id: &str,
    project: Option<&str>,
    location: Option<&str>,
    api_key_mode: bool,
    custom_base_url: Option<&str>,
) -> (r: String)
    requires
        custom_base_url is Some || api_key_mode || location is Some,
    ensures
        r@ == joined(
            url_segments(
                model_id@,
                opt_str(project),
                opt_str(location),
                api_key_mode,
                opt_str(custom_base_url),
            ),
            "/"@,
        ),
{
    let base = match custom_base_url {
        Some(custom) => trim_end_of(custom, '/'),
        None => if api_key_mode {
            "https://aiplatform.googleapis.com".to_owned()
        } else {
            match location {
                Some(location) => if is_multi_regional_location(location) {
                    cat3("https://aiplatform.", location, ".rep.googleapis.com")
                } else {
                    cat3("https://", location, "-aiplatform.googleapis.com")
                },
                None => String::new(),
            }
        },
    };
    let versioned = base_url_includes_api_version(base.as_str());
    let mut segments: Vec<String> = Vec::new();
    proof {
        crate::text::lemma_texts_empty();
        assert(texts(segments@) =~= Seq::<Seq<char>>::empty());
    }
    push_text(&mut segments, base);
    if !versioned {
        push_text(&mut segments, "v1".to_owned());
    }
    match (project, location) {
        (Some(project), Some(location)) => {
            if custom_base_url.is_none() && !api_key_mode {
                push_text(&mut segments, cat4("projects/", project, "/locations/", location));
            }
        },
        _ => {},
    }
    let path = make_model_path(model_id);
    push_text(&mut segments, cat2(path.as_str(), ":streamGenerateContent?alt=sse"));
    join(&segments, "/")
}

// ---------------------------------------------------------------------------
// Thinking
// ---------------------------------------------------------------------------

/// Whether a model is the first Pro of the third generation of Gemini.
pub open spec fn is_gemini3_pro(id: Seq<char>) -> bool {
    contains_text(ascii_lower(id), "gemini-3-pro"@)
}

/// Whether a model is called the latest Flash.
pub open spec fn is_latest_flash(id: Seq<char>) -> bool {
    ascii_lower(id) == "gemini-flash-latest"@ || ascii_lower(id) == "gemini-flash-lite-latest"@
}

/// Whether a model is the first Flash of the third generation of Gemini, or
/// called the latest Flash.
pub open spec fn is_gemini3_flash(id: Seq<char>) -> bool {
    contains_text(ascii_lower(id), "gemini-3-flash"@) || is_latest_flash(id)
}

fn gemini3_stands_at(text: &str, variant: &str, i: usize) -> (r: bool)
    requires
        i <= text@.len(),
    ensures
        r == gemini3_at(text@, variant@, i as int),
{
    let tail = skip_chars(text, i);
    if !starts_with(tail.as_str(), "gemini-3") {
        proof {
            if occurs_at(text@, "gemini-3"@, i as int) {
                assert(tail@.take("gemini-3"@.len() as int) =~= text@.subrange(
                    i as int,
                    i + "gemini-3"@.len(),
                ));
                assert("gemini-3"@.is_prefix_of(tail@));
            }
        }
        return false;
    }
    proof {
        assert(text@.subrange(i as int, i + "gemini-3"@.len()) =~= tail@.take(
            "gemini-3"@.len() as int,
        ));
        assert(text@.skip(i + "gemini-3"@.len()) =~= tail@.skip("gemini-3"@.len() as int));
    }
    let rest = skip_chars(tail.as_str(), char_count("gemini-3"));
    if starts_with(rest.as_str(), variant) {
        return true;
    }
    let cs = to_chars(rest.as_str());
    if cs.len() == 0 || cs[0] != '.' {
        return false;
    }
    let fraction = skip_chars(rest.as_str(), 1);
    let n: usize = count_digits(fraction.as_str());
    if n == 0 {
        return false;
    }
    let end = skip_chars(fraction.as_str(), n);
    proof {
        assert(end@ =~= rest@.skip((1 + digit_run(rest@.skip(1))) as int));
    }
    starts_with(end.as_str(), variant)
}

fn has_gemini3(text: &str, variant: &str) -> (r: bool)
    ensures
        r == names_gemini3(text@, variant@),
{
    let n: usize = char_count(text);
    let mut i: usize = 0;
    while i < n
        invariant
            i <= n,
            n == text@.len(),
            forall|k: int| 0 <= k < i ==> !gemini3_at(text@, variant@, k),
        decreases n - i,
    {
        if gemini3_stands_at(text, variant, i) {
            return true;
        }
        i += 1;
    }
    proof {
        reveal_strlit("gemini-3");
        assert(forall|k: int| gemini3_at(text@, variant@, k) ==> 0 <= k < n);
    }
    false
}

pub fn is_gemini3_pro_model(model_id: &str) -> (r: bool)
    ensures
        r == is_gemini3_pro(model_id@),
{
    contains(to_ascii_lowercase(model_id).as_str(), "gemini-3-pro")
}

fn is_latest_flash_model(model_id: &str) -> (r: bool)
    ensures
        r == is_latest_flash(model_id@),
{
    let lower = to_ascii_lowercase(model_id);
    str_eq(lower.as_str(), "gemini-flash-latest") || str_eq(
        lower.as_str(),
        "gemini-flash-lite-latest",
    )
}

pub fn is_gemini3_flash_model(model_id: &str) -> (r: bool)
    ensures
        r == is_gemini3_flash(model_id@),
{
    contains(to_ascii_lowercase(model_id).as_str(), "gemini-3-flash") || is_latest_flash_model(
        model_id,
    )
}

/// How a model is told not to think. The third generation of Gemini cannot
/// switch thinking off, whatever its minor version, so it gets its lowest level.
pub open spec fn disabled_thinking_json(id: Seq<char>) -> Json {
    let lower = ascii_lower(id);
    if names_gemini3(lower, "-pro"@) {
        one_entry("thinkingLevel"@, Json::Str("LOW"@))
    } else if names_gemini3(lower, "-flash"@) || is_latest_flash(id) {
        one_entry("thinkingLevel"@, Json::Str("MINIMAL"@))
    } else {
        one_entry("thinkingBudget"@, Json::Number(whole(0)))
    }
}

pub fn get_disabled_thinking_config(model_id: &str) -> (r: Value)
    ensures
        r@ == disabled_thinking_json(model_id@),
{
    let lower = to_ascii_lowercase(model_id);
    if has_gemini3(lower.as_str(), "-pro") {
        object1("thinkingLevel", string("LOW"))
    } else if has_gemini3(lower.as_str(), "-flash") || is_latest_flash_model(model_id) {
        object1("thinkingLevel", string("MINIMAL"))
    } else {
        object1("thinkingBudget", Value::Number(Number::zero()))
    }
}

/// The level of an effort, by the levels that a model has.
pub open spec fn gemini3_level(effort: Seq<char>, id: Seq<char>) -> Seq<char> {
    if is_gemini3_pro(id) {
        if effort == "minimal"@ || effort == "low"@ {
            "LOW"@
        } else {
            "HIGH"@
        }
    } else {
        plain_level(effort)
    }
}

pub fn get_gemini3_thinking_level(effort: &str, model_id: &str) -> (r: String)
    ensures
        r@ == gemini3_level(effort@, model_id@),
{
    if is_gemini3_pro_model(model_id) {
        if str_eq(effort, "minimal") || str_eq(effort, "low") {
            "LOW".to_owned()
        } else {
            "HIGH".to_owned()
        }
    } else {
        plain_thinking_level(effort)
    }
}

/// The budget of tokens for an effort: what the caller sets, or what suits the
/// model, or -1, which leaves it to the model.
pub open spec fn google_budget(
    id: Seq<char>,
    effort: Seq<char>,
    budgets: Option<&ThinkingBudgets>,
) -> Number {
    match custom_budget(effort, budgets) {
        Some(budget) => budget,
        None => if contains_text(id, "2.5-pro"@) {
            effort_budget(effort, 128, 32768)
        } else if contains_text(id, "2.5-flash"@) {
            effort_budget(effort, 128, 24576)
        } else {
            whole(-1)
        },
    }
}

pub fn get_google_budget(
    model_id: &str,
    effort: &str,
    custom_budgets: Option<&ThinkingBudgets>,
) -> (r: Number)
    ensures
        r == google_budget(model_id@, effort@, custom_budgets),
{
    if let Some(budget) = find_custom_budget(effort, custom_budgets) {
        return budget;
    }
    if contains(model_id, "2.5-pro") {
        pick_effort_budget(effort, 128, 32768)
    } else if contains(model_id, "2.5-flash") {
        pick_effort_budget(effort, 128, 24576)
    } else {
        Number::from_int(-1)
    }
}

// ---------------------------------------------------------------------------
// Request
// ---------------------------------------------------------------------------

pub open spec fn asked_temperature(options: Option<&GoogleVertexOptions>) -> Option<Number> {
    match options {
        Some(o) => o.stream.temperature,
        None => None,
    }
}

pub open spec fn asked_max_tokens(options: Option<&GoogleVertexOptions>) -> Option<Number> {
    match options {
        Some(o) => o.stream.max_tokens,
        None => None,
    }
}

pub open spec fn asked_choice(options: Option<&GoogleVertexOptions>) -> Option<Seq<char>> {
    match options {
        Some(o) => opt_text(o.tool_choice),
        None => None,
    }
}

pub open spec fn asked_thinking(options: Option<&GoogleVertexOptions>) -> Option<Thinking> {
    match options {
        Some(o) => match o.thinking {
            Some(t) => Some(t@),
            None => None,
        },
        None => None,
    }
}

/// How a model is told to think: nothing where it cannot, or where nothing was
/// asked. A level is sent as it is.
pub open spec fn thinking_json(model: Model, thinking: Option<Thinking>) -> Option<Json> {
    match thinking {
        Some(t) => if !model.reasoning {
            None
        } else if t.enabled {
            Some(enabled_thinking_json(t.level, t.budget_tokens))
        } else {
            Some(disabled_thinking_json(model.id@))
        },
        None => None,
    }
}

/// What the system prompt is sent as.
pub open spec fn instruction(prompt: Option<Seq<char>>) -> Option<Json> {
    match prompt {
        Some(prompt) => Some(
            one_entry("parts"@, one_item(one_entry("text"@, Json::Str(prompt)))),
        ),
        None => None,
    }
}

/// The body of a request.
pub open spec fn request_body(
    model: Model,
    context: Context,
    messages: Seq<Message>,
    options: Option<&GoogleVertexOptions>,
) -> Json {
    Json::Object(
        no_entries().put("contents"@, Json::Array(turns_json(contents_of(messages, model)))).put_opt(
            "generationConfig"@,
            filled_object(
                sampling(asked_temperature(options), asked_max_tokens(options)).put_opt(
                    "thinkingConfig"@,
                    thinking_json(model, asked_thinking(options)),
                ),
            ),
        ).put_opt("systemInstruction"@, instruction(opt_text(context.system_prompt))).put_opt(
            "tools"@,
            tools_json(tools_of(context), false),
        ).put_opt("toolConfig"@, tool_config(context, model.id@, asked_choice(options))),
    )
}

fn make_thinking(model: &Model, thinking: Option<&VertexThinking>) -> (r: Option<Value>)
    ensures
        crate::json::opt_json(r) == thinking_json(
            *model,
            match thinking {
                Some(t) => Some(t@),
                None => None,
            },
        ),
{
    match thinking {
        Some(t) => if !model.reasoning {
            None
        } else if t.enabled {
            Some(make_enabled_thinking(borrow_opt(&t.level), t.budget_tokens))
        } else {
            Some(get_disabled_thinking_config(model.id.as_str()))
        },
        None => None,
    }
}

pub fn build_params(
    model: &Model,
    context: &Context,
    messages: &Vec<Message>,
    options: Option<&GoogleVertexOptions>,
) -> (r: Value)
    ensures
        r@ == request_body(*model, *context, messages@, options),
{
    let contents = convert_messages(model, messages);
    let temperature: Option<Number> = match options {
        Some(o) => o.stream.temperature,
        None => None,
    };
    let max_tokens: Option<Number> = match options {
        Some(o) => o.stream.max_tokens,
        None => None,
    };
    let choice: Option<&str> = match options {
        Some(o) => borrow_opt(&o.tool_choice),
        None => None,
    };
    let thinking: Option<&VertexThinking> = match options {
        Some(o) => match &o.thinking {
            Some(t) => Some(t),
            None => None,
        },
        None => None,
    };
    let mut generation_config = make_sampling(temperature, max_tokens);
    put_opt_value(&mut generation_config, "thinkingConfig", make_thinking(model, thinking));
    assert(entries(generation_config@).len() == generation_config@.len());
    let mut e = new_entries();
    put(&mut e, "contents", contents_value(&contents));
    if generation_config.len() > 0 {
        put_object(&mut e, "generationConfig", generation_config);
    }
    if let Some(prompt) = &context.system_prompt {
        let part = object1("text", string(prompt.as_str()));
        put(&mut e, "systemInstruction", object1("parts", array1(part)));
    }
    put_opt_value(&mut e, "tools", make_tools(context));
    put_opt_value(&mut e, "toolConfig", make_tool_config(context, model.id.as_str(), choice));
    object(e)
}

/// The headers that have a value.
pub open spec fn valued(headers: OptPairs) -> Pairs
    decreases headers.len(),
{
    if headers.len() == 0 {
        Seq::empty()
    } else {
        let before = valued(headers.drop_last());
        match headers.last().1 {
            Some(value) => before.push((headers.last().0, value)),
            None => before,
        }
    }
}

fn append_valued(m: &mut Vec<(String, String)>, headers: Option<&ProviderHeaders>)
    ensures
        pairs(final(m)@) == pairs(old(m)@) + valued(opt_headers(headers)),
{
    proof {
        assert(pairs(m@) + Pairs::empty() =~= pairs(m@));
    }
    if let Some(headers) = headers {
        let mut i: usize = 0;
        while i < headers.len()
            invariant
                i <= headers@.len(),
                pairs(m@) == pairs(old(m)@) + valued(opt_pairs(headers@).take(i as int)),
            decreases headers.len() - i,
        {
            let ghost before = valued(opt_pairs(headers@).take(i as int));
            proof {
                assert(opt_pairs(headers@).take(i + 1).drop_last() =~= opt_pairs(headers@).take(
                    i as int,
                ));
            }
            if let Some(value) = &headers[i].1 {
                push_pair(m, headers[i].0.as_str(), value.as_str());
                proof {
                    assert(pairs(m@) =~= pairs(old(m)@) + before.push(
                        (headers@[i as int].0@, value@),
                    ));
                }
            }
            i += 1;
        }
        proof {
            assert(opt_pairs(headers@).take(headers@.len() as int) =~= opt_pairs(headers@));
        }
    }
}

/// The headers that authenticate a request, or why there are none. A custom
/// base address does not get the key, and needs no authentication.
pub open spec fn auth_headers(
    key: Option<Seq<char>>,
    custom: Option<Seq<char>>,
    environment: VertexEnvironment,
) -> Result<Pairs, Seq<char>> {
    match key {
        Some(key) => Ok(
            if custom is None {
                Pairs::empty().push(("x-goog-api-key"@, key))
            } else {
                Pairs::empty()
            },
        ),
        None => match environment.access_token {
            Some(token) => Ok(Pairs::empty().push(("Authorization"@, "Bearer "@ + token@))),
            None => if environment.has_credentials {
                Err(
                    "Vertex AI ADC is not available: set GOOGLE_ACCESS_TOKEN to a pre-fetched OAuth token (or provide an API key) instead of GOOGLE_APPLICATION_CREDENTIALS."@,
                )
            } else if custom is None {
                Err(
                    "Vertex AI requires an API key or an access token. Set GOOGLE_ACCESS_TOKEN or provide an API key."@,
                )
            } else {
                Ok(Pairs::empty())
            },
        },
    }
}

fn make_auth_headers(
    key: Option<&str>,
    has_custom_base: bool,
    environment: &VertexEnvironment,
    Ghost(custom): Ghost<Option<Seq<char>>>,
) -> (r: Result<Vec<(String, String)>, String>)
    requires
        has_custom_base == (custom is Some),
    ensures
        match r {
            Ok(headers) => auth_headers(opt_str(key), custom, *environment) == Ok::<
                Pairs,
                Seq<char>,
            >(pairs(headers@)),
            Err(e) => auth_headers(opt_str(key), custom, *environment) == Err::<Pairs, Seq<char>>(
                e@,
            ),
        },
{
    let mut headers = new_pairs();
    match key {
        Some(key) => {
            if !has_custom_base {
                push_pair(&mut headers, "x-goog-api-key", key);
            }
        },
        None => match &environment.access_token {
            Some(token) => {
                push_pair(&mut headers, "Authorization", cat2("Bearer ", token.as_str()).as_str());
            },
            None => {
                if environment.has_credentials {
                    return Err(
                        "Vertex AI ADC is not available: set GOOGLE_ACCESS_TOKEN to a pre-fetched OAuth token (or provide an API key) instead of GOOGLE_APPLICATION_CREDENTIALS.".to_owned(),
                    );
                }
                if !has_custom_base {
                    return Err(
                        "Vertex AI requires an API key or an access token. Set GOOGLE_ACCESS_TOKEN or provide an API key.".to_owned(),
                    );
                }
            },
        },
    }
    Ok(headers)
}

pub open spec fn asked_headers(options: Option<&GoogleVertexOptions>) -> OptPairs {
    match options {
        Some(o) => match o.stream.request.headers {
            Some(h) => opt_headers(Some(&h)),
            None => opt_headers(None),
        },
        None => opt_headers(None),
    }
}

/// The request that begins a stream, or why there is none: no project where
/// there is no key, no location where it is needed, or no authentication.
pub open spec fn request(
    model: Model,
    context: Context,
    messages: Seq<Message>,
    options: Option<&GoogleVertexOptions>,
    api_key: Option<Seq<char>>,
    environment: VertexEnvironment,
) -> Result<Request, Seq<char>> {
    let key = first_of(usable_key(asked_key(options)), api_key);
    let custom = custom_base(model.base_url@);
    let api_key_mode = key is Some && custom is None;
    let project = project_of(options, environment);
    let location = location_of(options, environment);
    if key is None && project is Err {
        Err(project->Err_0)
    } else if !api_key_mode && location is Err {
        Err(location->Err_0)
    } else {
        match auth_headers(key, custom, environment) {
            Err(e) => Err(e),
            Ok(auth) => Ok(
                Request {
                    url: joined(
                        url_segments(
                            model.id@,
                            if key is None {
                                Some(project->Ok_0)
                            } else {
                                None
                            },
                            if api_key_mode {
                                None
                            } else {
                                Some(location->Ok_0)
                            },
                            api_key_mode,
                            custom,
                        ),
                        "/"@,
                    ),
                    headers: auth + opt_list(model.headers) + valued(asked_headers(options)),
                    body: request_body(model, context, messages, options),
                },
            ),
        }
    }
}

pub fn prepare_request(
    model: &Model,
    context: &Context,
    messages: &Vec<Message>,
    options: Option<&GoogleVertexOptions>,
    api_key: Option<&str>,
    environment: &VertexEnvironment,
) -> (r: Result<ProviderRequest, String>)
    ensures
        res_request(r) == request(
            *model,
            *context,
            messages@,
            options,
            opt_str(api_key),
            *environment,
        ),
{
    let own_key = resolve_api_key(options);
    let key = pick_first(borrow_opt(&own_key), api_key);
    let custom = resolve_custom_base_url(model.base_url.as_str());
    let api_key_mode = key.is_some() && custom.is_none();
    let project = if key.is_none() {
        match resolve_project(options, environment) {
            Ok(project) => Some(project),
            Err(e) => {
                return Err(e);
            },
        }
    } else {
        None
    };
    let location = if api_key_mode {
        None
    } else {
        match resolve_location(options, environment) {
            Ok(location) => Some(location),
            Err(e) => {
                return Err(e);
            },
        }
    };
    let mut headers = match make_auth_headers(
        borrow_opt(&key),
        custom.is_some(),
        environment,
        Ghost(opt_text(custom)),
    ) {
        Ok(headers) => headers,
        Err(e) => {
            return Err(e);
        },
    };
    let model_headers = clone_opt_pairs(&model.headers);
    append_pairs(&mut headers, &model_headers);
    let asked: Option<&ProviderHeaders> = match options {
        Some(o) => match &o.stream.request.headers {
            Some(h) => Some(h),
            None => None,
        },
        None => None,
    };
    append_valued(&mut headers, asked);
    let body = build_params(model, context, messages, options);
    let url = construct_url(
        model.id.as_str(),
        borrow_opt(&project),
        borrow_opt(&location),
        api_key_mode,
        borrow_opt(&custom),
    );
    Ok(ProviderRequest { url, headers, body })
}

// ---------------------------------------------------------------------------
// Simple requests
// ---------------------------------------------------------------------------

/// How a simple request makes a model think.
pub open spec fn simple_thinking(
    id: Seq<char>,
    level: Option<Seq<char>>,
    budgets: Option<&ThinkingBudgets>,
) -> Thinking {
    match level {
        None => Thinking { enabled: false, budget_tokens: None, level: None },
        Some(level) => {
            let effort = level_effort(level);
            if is_gemini3_pro(id) || is_gemini3_flash(id) {
                Thinking {
                    enabled: true,
                    budget_tokens: None,
                    level: Some(gemini3_level(effort, id)),
                }
            } else {
                Thinking {
                    enabled: true,
                    budget_tokens: Some(google_budget(id, effort, budgets)),
                    level: None,
                }
            }
        },
    }
}

/// The options with which a simple request is streamed. `base` holds the
/// options that every interface has, and `level` is the level of thinking that
/// was asked for, clamped to what the model supports.
pub fn stream_simple(
    model: &Model,
    base: StreamOptions,
    level: Option<&str>,
    budgets: Option<&ThinkingBudgets>,
) -> (r: GoogleVertexOptions)
    ensures
        r.stream == base,
        r.tool_choice is None,
        r.project is None,
        r.location is None,
        r.thinking matches Some(t) && t@ == simple_thinking(model.id@, opt_str(level), budgets),
{
    let thinking = match level {
        None => VertexThinking { enabled: false, budget_tokens: None, level: None },
        Some(level) => {
            let effort: &str = if str_eq(level, "off") {
                "high"
            } else {
                level
            };
            let id = model.id.as_str();
            if is_gemini3_pro_model(id) || is_gemini3_flash_model(id) {
                VertexThinking {
                    enabled: true,
                    budget_tokens: None,
                    level: Some(get_gemini3_thinking_level(effort, id)),
                }
            } else {
                VertexThinking {
                    enabled: true,
                    budget_tokens: Some(get_google_budget(id, effort, budgets)),
                    level: None,
                }
            }
        },
    };
    GoogleVertexOptions {
        stream: base,
        tool_choice: None,
        thinking: Some(thinking),
        project: None,
        location: None,
    }
}

/// A key is sent to the hosts of the provider only, never to a custom base
/// address.
pub proof fn law_key_stays_with_the_provider(
    key: Seq<char>,
    custom: Seq<char>,
    environment: VertexEnvironment,
)
    ensures
        auth_headers(Some(key), Some(custom), environment) == Ok::<Pairs, Seq<char>>(Pairs::empty()),
{
}

} // verus!
