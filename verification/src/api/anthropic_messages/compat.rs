//! What a model supports, and the names of tools.
use vstd::prelude::*;
use vstd::string::*;
use crate::api::headers::{cache_retention, resolve_cache_retention};
use crate::api::openai_responses_shared::convert::flag_or;
use crate::json::{
    new_entries, no_entries, object, opt_str_json, put_opt_str, put_str, EntriesSpec, Json, Value,
};
use crate::text::{
    ascii_lower, borrow_opt, cat2, contains, contains_text, is_ascii_text, lower_char, lowercase, opt_str, opt_text, parse_u32, skip_chars, split,
    split_on, starts_with, str_eq, texts, to_lowercase, u32_of,
};
use crate::types::{Model, ModelCompat, SeriesName, Tool};

verus! {

// ---------------------------------------------------------------------------
// Tool references
// ---------------------------------------------------------------------------

/// What the ids of the models of a series begin with.
pub open spec fn series_prefix(series: SeriesName) -> Seq<char> {
    series.id@ + "-"@
}

/// Whether a part of an id names a family of models with tool search.
pub open spec fn is_searching_family(part: Seq<char>) -> bool {
    part == "opus"@ || part == "sonnet"@ || part == "fable"@
}

/// Whether a version is one with tool search: 4.5 or later. A second part that
/// is no number, or a long one, which is a date, counts as zero.
pub open spec fn has_tool_search(parts: Seq<Seq<char>>) -> bool {
    match u32_of(parts[0]) {
        Some(major) => {
            let minor = if parts.len() > 1 && parts[1].len() < 8 {
                match u32_of(parts[1]) {
                    Some(minor) => minor,
                    None => 0,
                }
            } else {
                0
            };
            major > 4 || (major == 4 && minor >= 5)
        },
        None => false,
    }
}

/// Whether a model takes references to tools where nothing is said of it: a
/// model of Anthropic whose id gives a family and a version with tool search,
/// and that is no Haiku.
pub open spec fn references_by_default(model: Model) -> bool {
    let prefix = series_prefix(model.anthropic_series);
    let parts = split_on(model.id@.skip(prefix.len() as int), '-');
    &&& model.provider@ == "anthropic"@
    &&& !contains_text(model.id@, "haiku"@)
    &&& prefix.is_prefix_of(model.id@)
    &&& is_searching_family(parts[0])
    &&& parts.len() > 1
    &&& has_tool_search(parts.skip(1))
}

/// A text splits into at least one part.
pub proof fn lemma_split_on_filled(s: Seq<char>, c: char)
    ensures
        split_on(s, c).len() > 0,
    decreases s.len(),
{
    reveal_with_fuel(split_on, 2);
    if crate::text::index_of(s, c) < s.len() {
        crate::text::lemma_index_of(s, c);
    }
}

pub fn default_supports_tool_references(model: &Model) -> (r: bool)
    ensures
        r == references_by_default(*model),
{
    if !str_eq(model.provider.as_str(), "anthropic") || contains(model.id.as_str(), "haiku") {
        return false;
    }
    let prefix = cat2(model.anthropic_series.id.as_str(), "-");
    if !starts_with(model.id.as_str(), prefix.as_str()) {
        return false;
    }
    let rest = skip_chars(model.id.as_str(), crate::text::char_count(prefix.as_str()));
    let parts = split(rest.as_str(), '-');
    proof {
        lemma_split_on_filled(rest@, '-');
        assert(texts(parts@).len() == parts@.len());
        assert(texts(parts@)[0] == parts@[0]@);
    }
    let family = parts[0].as_str();
    if !(str_eq(family, "opus") || str_eq(family, "sonnet") || str_eq(family, "fable")) {
        return false;
    }
    if parts.len() < 2 {
        return false;
    }
    proof {
        assert(texts(parts@).skip(1)[0] == parts@[1]@);
    }
    let major: u32 = match parse_u32(parts[1].as_str()) {
        Some(major) => major,
        None => {
            return false;
        },
    };
    let minor: u32 = if parts.len() > 2 {
        proof {
            assert(texts(parts@).skip(1)[1] == parts@[2]@);
        }
        if crate::text::char_count(parts[2].as_str()) < 8 {
            match parse_u32(parts[2].as_str()) {
                Some(minor) => minor,
                None => 0,
            }
        } else {
            0
        }
    } else {
        0
    };
    major > 4 || (major == 4 && minor >= 5)
}

// ---------------------------------------------------------------------------
// What a model supports
// ---------------------------------------------------------------------------

#[derive(Clone, Copy, Debug, PartialEq, Eq)]
pub struct RequiredAnthropicCompat {
    pub supports_eager_tool_input_streaming: bool,
    pub supports_long_cache_retention: bool,
    pub send_session_affinity_headers: bool,
    pub supports_cache_control_on_tools: bool,
    pub supports_temperature: bool,
    pub allow_empty_signature: bool,
    pub supports_strict_tools: bool,
    pub supports_tool_references: bool,
}

/// What a model supports: what is said of it, else what is assumed.
pub open spec fn compat_of(model: Model) -> RequiredAnthropicCompat {
    match model.compat {
        Some(ModelCompat::AnthropicMessages(c)) => RequiredAnthropicCompat {
            supports_eager_tool_input_streaming: flag_or(
                c.supports_eager_tool_input_streaming,
                true,
            ),
            supports_long_cache_retention: flag_or(c.supports_long_cache_retention, true),
            send_session_affinity_headers: flag_or(c.send_session_affinity_headers, false),
            supports_cache_control_on_tools: flag_or(c.supports_cache_control_on_tools, true),
            supports_temperature: flag_or(c.supports_temperature, true),
            allow_empty_signature: flag_or(c.allow_empty_signature, false),
            supports_strict_tools: flag_or(c.supports_strict_tools, false),
            supports_tool_references: flag_or(
                c.supports_tool_references,
                references_by_default(model),
            ),
        },
        _ => RequiredAnthropicCompat {
            supports_eager_tool_input_streaming: true,
            supports_long_cache_retention: true,
            send_session_affinity_headers: false,
            supports_cache_control_on_tools: true,
            supports_temperature: true,
            allow_empty_signature: false,
            supports_strict_tools: false,
            supports_tool_references: references_by_default(model),
        },
    }
}

fn or_flag(flag: Option<bool>, otherwise: bool) -> (r: bool)
    ensures
        r == flag_or(flag, otherwise),
{
    match flag {
        Some(flag) => flag,
        None => otherwise,
    }
}

impl RequiredAnthropicCompat {
    pub fn new(model: &Model) -> (r: Self)
        ensures
            r == compat_of(*model),
    {
        match &model.compat {
            Some(ModelCompat::AnthropicMessages(c)) => RequiredAnthropicCompat {
                supports_eager_tool_input_streaming: or_flag(
                    c.supports_eager_tool_input_streaming,
                    true,
                ),
                supports_long_cache_retention: or_flag(c.supports_long_cache_retention, true),
                send_session_affinity_headers: or_flag(c.send_session_affinity_headers, false),
                supports_cache_control_on_tools: or_flag(c.supports_cache_control_on_tools, true),
                supports_temperature: or_flag(c.supports_temperature, true),
                allow_empty_signature: or_flag(c.allow_empty_signature, false),
                supports_strict_tools: or_flag(c.supports_strict_tools, false),
                supports_tool_references: match c.supports_tool_references {
                    Some(supported) => supported,
                    None => default_supports_tool_references(model),
                },
            },
            _ => RequiredAnthropicCompat {
                supports_eager_tool_input_streaming: true,
                supports_long_cache_retention: true,
                send_session_affinity_headers: false,
                supports_cache_control_on_tools: true,
                supports_temperature: true,
                allow_empty_signature: false,
                supports_strict_tools: false,
                supports_tool_references: default_supports_tool_references(model),
            },
        }
    }
}

/// Whether a model decides for itself how much to think.
pub open spec fn is_adaptive(model: Model) -> bool {
    model.compat matches Some(ModelCompat::AnthropicMessages(c)) && c.force_adaptive_thinking
        == Some(true)
}

pub fn thinks_adaptively(model: &Model) -> (r: bool)
    ensures
        r == is_adaptive(*model),
{
    match &model.compat {
        Some(ModelCompat::AnthropicMessages(c)) => match c.force_adaptive_thinking {
            Some(forced) => forced,
            None => false,
        },
        _ => false,
    }
}

// ---------------------------------------------------------------------------
// Caching
// ---------------------------------------------------------------------------

#[derive(Clone, Debug, PartialEq, Eq)]
pub struct CacheControl {
    pub ttl: Option<String>,
}

pub open spec fn control_json(ttl: Option<Seq<char>>) -> Json {
    Json::Object(
        no_entries().put("type"@, Json::Str("ephemeral"@)).put_opt("ttl"@, opt_str_json(ttl)),
    )
}

/// The marker of an optional cache control.
pub open spec fn marker_of(control: Option<&CacheControl>) -> Option<Json> {
    match control {
        Some(control) => Some(control_json(opt_text(control.ttl))),
        None => None,
    }
}

impl CacheControl {
    pub fn to_value(&self) -> (r: Value)
        ensures
            r@ == control_json(opt_text(self.ttl)),
    {
        let mut e = new_entries();
        put_str(&mut e, "type", "ephemeral");
        put_opt_str(&mut e, "ttl", borrow_opt(&self.ttl));
        object(e)
    }
}

/// How long a prompt is kept, where it is kept.
pub open spec fn cache_ttl(model: Model, retention: Seq<char>) -> Option<Option<Seq<char>>> {
    if retention == "none"@ {
        None
    } else if retention == "long"@ && compat_of(model).supports_long_cache_retention {
        Some(Some("1h"@))
    } else {
        Some(None)
    }
}

pub open spec fn opt_ttl(control: Option<CacheControl>) -> Option<Option<Seq<char>>> {
    match control {
        Some(control) => Some(opt_text(control.ttl)),
        None => None,
    }
}

/// `environment` is the value of `PI_CACHE_RETENTION`.
pub fn get_cache_control(model: &Model, asked: Option<&str>, environment: Option<&str>) -> (r: (
    String,
    Option<CacheControl>,
))
    ensures
        r.0@ == cache_retention(opt_str(asked), opt_str(environment)),
        opt_ttl(r.1) == cache_ttl(*model, r.0@),
{
    let retention = resolve_cache_retention(asked, environment);
    if str_eq(retention.as_str(), "none") {
        return (retention, None);
    }
    let ttl = if str_eq(retention.as_str(), "long") && RequiredAnthropicCompat::new(
        model,
    ).supports_long_cache_retention {
        Some("1h".to_owned())
    } else {
        None
    };
    (retention, Some(CacheControl { ttl }))
}

// ---------------------------------------------------------------------------
// Names of tools
// ---------------------------------------------------------------------------

/// The tools of the vendor's own command line client.
pub open spec fn claude_code_tools() -> Seq<Seq<char>> {
    Seq::<Seq<char>>::empty().push("Read"@).push("Write"@).push("Edit"@).push("Bash"@).push(
        "Grep"@,
    ).push("Glob"@).push("AskUserQuestion"@).push("EnterPlanMode"@).push("ExitPlanMode"@).push(
        "KillShell"@,
    ).push("NotebookEdit"@).push("Skill"@).push("Task"@).push("TaskOutput"@).push("TodoWrite"@).push(
        "WebFetch"@,
    ).push("WebSearch"@)
}

/// The first name that is the same as `name` but for case, where there is one.
pub open spec fn same_but_for_case(names: Seq<Seq<char>>, name: Seq<char>) -> Option<Seq<char>>
    decreases names.len(),
{
    if names.len() == 0 {
        None
    } else if lowercase(names[0]) == lowercase(name) {
        Some(names[0])
    } else {
        same_but_for_case(names.drop_first(), name)
    }
}

/// The name with the case that one of a list of names has.
pub open spec fn cased_as(names: Seq<Seq<char>>, name: Seq<char>) -> Seq<char> {
    match same_but_for_case(names, name) {
        Some(found) => found,
        None => name,
    }
}

/// The first name that is the same as `name` but for the case of ASCII letters,
/// where there is one.
pub open spec fn same_but_for_ascii_case(
    names: Seq<Seq<char>>,
    name: Seq<char>,
) -> Option<Seq<char>>
    decreases names.len(),
{
    if names.len() == 0 {
        None
    } else if ascii_lower(names[0]) == ascii_lower(name) {
        Some(names[0])
    } else {
        same_but_for_ascii_case(names.drop_first(), name)
    }
}

/// The name with the case that the ASCII letters of one of a list of names have.
pub open spec fn ascii_cased_as(names: Seq<Seq<char>>, name: Seq<char>) -> Seq<char> {
    match same_but_for_ascii_case(names, name) {
        Some(found) => found,
        None => name,
    }
}

pub open spec fn all_ascii(names: Seq<Seq<char>>) -> bool {
    forall|i: int| 0 <= i < names.len() ==> is_ascii_text(#[trigger] names[i])
}

/// The name of a tool with the case that the vendor's own client gives it.
pub open spec fn claude_code_name(name: Seq<char>) -> Seq<char> {
    cased_as(claude_code_tools(), name)
}

/// The name of a tool as a request gives it.
pub open spec fn sent_name(name: Seq<char>, oauth: bool) -> Seq<char> {
    if oauth {
        claude_code_name(name)
    } else {
        name
    }
}

fn push_name(names: &mut Vec<String>, name: &str)
    ensures
        texts(final(names)@) == texts(old(names)@).push(name@),
{
    crate::text::push_text(names, name.to_owned());
}

fn list_claude_code_tools() -> (r: Vec<String>)
    ensures
        texts(r@) == claude_code_tools(),
{
    let mut r: Vec<String> = Vec::new();
    proof {
        crate::text::lemma_texts_empty();
        assert(texts(r@) =~= Seq::<Seq<char>>::empty());
    }
    push_name(&mut r, "Read");
    push_name(&mut r, "Write");
    push_name(&mut r, "Edit");
    push_name(&mut r, "Bash");
    push_name(&mut r, "Grep");
    push_name(&mut r, "Glob");
    push_name(&mut r, "AskUserQuestion");
    push_name(&mut r, "EnterPlanMode");
    push_name(&mut r, "ExitPlanMode");
    push_name(&mut r, "KillShell");
    push_name(&mut r, "NotebookEdit");
    push_name(&mut r, "Skill");
    push_name(&mut r, "Task");
    push_name(&mut r, "TaskOutput");
    push_name(&mut r, "TodoWrite");
    push_name(&mut r, "WebFetch");
    push_name(&mut r, "WebSearch");
    r
}

/// The name with the case that one of a list of names has.
pub fn match_case(names: &Vec<String>, name: &str) -> (r: String)
    ensures
        r@ == cased_as(texts(names@), name@),
        is_ascii_text(name@) && all_ascii(texts(names@)) ==> r@ == ascii_cased_as(
            texts(names@),
            name@,
        ),
{
    let lower = to_lowercase(name);
    let ghost plain = is_ascii_text(name@) && all_ascii(texts(names@));
    let mut i: usize = 0;
    proof {
        assert(texts(names@).skip(0) =~= texts(names@));
    }
    while i < names.len()
        invariant
            i <= names@.len(),
            lower@ == lowercase(name@),
            same_but_for_case(texts(names@), name@) == same_but_for_case(
                texts(names@).skip(i as int),
                name@,
            ),
            plain == (is_ascii_text(name@) && all_ascii(texts(names@))),
            plain ==> lower@ == ascii_lower(name@),
            plain ==> same_but_for_ascii_case(texts(names@), name@) == same_but_for_ascii_case(
                texts(names@).skip(i as int),
                name@,
            ),
        decreases names.len() - i,
    {
        proof {
            assert(texts(names@)[i as int] == names@[i as int]@);
            assert(texts(names@).skip(i as int)[0] == names@[i as int]@);
            assert(texts(names@).skip(i as int).drop_first() =~= texts(names@).skip(i + 1));
        }
        if str_eq(to_lowercase(names[i].as_str()).as_str(), lower.as_str()) {
            return names[i].clone();
        }
        i += 1;
    }
    name.to_owned()
}

pub fn to_claude_code_name(name: &str) -> (r: String)
    ensures
        r@ == claude_code_name(name@),
        is_ascii_text(name@) ==> r@ == ascii_cased_as(claude_code_tools(), name@),
{
    proof {
        lemma_tools_are_ascii();
    }
    match_case(&list_claude_code_tools(), name)
}

pub fn make_sent_name(name: &str, oauth: bool) -> (r: String)
    ensures
        r@ == sent_name(name@, oauth),
{
    if oauth {
        to_claude_code_name(name)
    } else {
        name.to_owned()
    }
}

pub open spec fn tool_names(tools: Seq<Tool>) -> Seq<Seq<char>> {
    Seq::new(tools.len(), |i: int| tools[i].name@)
}

pub open spec fn own_names(tools: Option<&Vec<Tool>>) -> Seq<Seq<char>> {
    match tools {
        Some(tools) => tool_names(tools@),
        None => Seq::empty(),
    }
}

/// The name of a tool with the case that the tools of a request give it.
pub fn from_claude_code_name(name: &str, tools: Option<&Vec<Tool>>) -> (r: String)
    ensures
        r@ == cased_as(own_names(tools), name@),
        is_ascii_text(name@) && all_ascii(own_names(tools)) ==> r@ == ascii_cased_as(
            own_names(tools),
            name@,
        ),
{
    let mut names: Vec<String> = Vec::new();
    proof {
        crate::text::lemma_texts_empty();
        assert(texts(names@) =~= Seq::<Seq<char>>::empty());
    }
    if let Some(list) = tools {
        let mut i: usize = 0;
        while i < list.len()
            invariant
                i <= list@.len(),
                texts(names@) == tool_names(list@).take(i as int),
            decreases list.len() - i,
        {
            push_name(&mut names, list[i].name.as_str());
            proof {
                assert(tool_names(list@).take(i + 1) =~= tool_names(list@).take(i as int).push(
                    list@[i as int].name@,
                ));
            }
            i += 1;
        }
        proof {
            assert(tool_names(list@).take(list@.len() as int) =~= tool_names(list@));
        }
    }
    match_case(&names, name)
}

proof fn lemma_cased_as(names: Seq<Seq<char>>, name: Seq<char>)
    ensures
        lowercase(cased_as(names, name)) == lowercase(name),
        same_but_for_case(names, name) is Some ==> names.contains(cased_as(names, name)),
    decreases names.len(),
{
    if names.len() > 0 && lowercase(names[0]) != lowercase(name) {
        lemma_cased_as(names.drop_first(), name);
        if same_but_for_case(names, name) is Some {
            let found = cased_as(names, name);
            let rest = names.drop_first();
            let i = choose|i: int| 0 <= i < rest.len() && rest[i] == found;
            assert(names[i + 1] == found);
        }
    }
}

proof fn lemma_same_case(names: Seq<Seq<char>>, a: Seq<char>, b: Seq<char>)
    requires
        lowercase(a) == lowercase(b),
    ensures
        same_but_for_case(names, a) == same_but_for_case(names, b),
    decreases names.len(),
{
    if names.len() > 0 && lowercase(names[0]) != lowercase(a) {
        lemma_same_case(names.drop_first(), a, b);
    }
}

/// A name that is sent with the case of the vendor's client comes back with its own: the
/// tools of a request get their names back, where no two of them differ in case
/// alone.
pub proof fn law_names_come_back(names: Seq<Seq<char>>, i: int)
    requires
        0 <= i < names.len(),
        forall|j: int, k: int|
            0 <= j < k < names.len() ==> lowercase(#[trigger] names[j]) != lowercase(
                #[trigger] names[k],
            ),
    ensures
        cased_as(names, claude_code_name(names[i])) == names[i],
{
    let sent = claude_code_name(names[i]);
    lemma_cased_as(claude_code_tools(), names[i]);
    lemma_same_case(names, sent, names[i]);
    lemma_finds_itself(names, i);
}

proof fn lemma_finds_itself(names: Seq<Seq<char>>, i: int)
    requires
        0 <= i < names.len(),
        forall|j: int, k: int|
            0 <= j < k < names.len() ==> lowercase(#[trigger] names[j]) != lowercase(
                #[trigger] names[k],
            ),
    ensures
        same_but_for_case(names, names[i]) == Some(names[i]),
    decreases names.len(),
{
    if i > 0 {
        assert(lowercase(names[0]) != lowercase(names[i]));
        let rest = names.drop_first();
        assert forall|j: int, k: int| 0 <= j < k < rest.len() implies lowercase(#[trigger] rest[j])
            != lowercase(#[trigger] rest[k]) by {
            assert(rest[j] == names[j + 1] && rest[k] == names[k + 1]);
        }
        lemma_finds_itself(rest, i - 1);
    }
}

/// A name that has the case of the vendor's client keeps it.
pub proof fn law_client_names_stay(name: Seq<char>)
    ensures
        claude_code_name(claude_code_name(name)) == claude_code_name(name),
{
    lemma_cased_as(claude_code_tools(), name);
    lemma_same_case(claude_code_tools(), claude_code_name(name), name);
}

/// Every spelling of a name finds that name in a list in which no two names
/// differ in case alone.
pub proof fn law_spellings_find_the_name(names: Seq<Seq<char>>, i: int, name: Seq<char>)
    requires
        0 <= i < names.len(),
        forall|j: int, k: int|
            0 <= j < k < names.len() ==> lowercase(#[trigger] names[j]) != lowercase(
                #[trigger] names[k],
            ),
        lowercase(name) == lowercase(names[i]),
    ensures
        cased_as(names, name) == names[i],
{
    lemma_same_case(names, name, names[i]);
    lemma_finds_itself(names, i);
}

proof fn lemma_tools_are_ascii()
    ensures
        all_ascii(claude_code_tools()),
{
    reveal_strlit("Read");
    reveal_strlit("Write");
    reveal_strlit("Edit");
    reveal_strlit("Bash");
    reveal_strlit("Grep");
    reveal_strlit("Glob");
    reveal_strlit("AskUserQuestion");
    reveal_strlit("EnterPlanMode");
    reveal_strlit("ExitPlanMode");
    reveal_strlit("KillShell");
    reveal_strlit("NotebookEdit");
    reveal_strlit("Skill");
    reveal_strlit("Task");
    reveal_strlit("TaskOutput");
    reveal_strlit("TodoWrite");
    reveal_strlit("WebFetch");
    reveal_strlit("WebSearch");
    let names = claude_code_tools();
    assert forall|i: int| 0 <= i < names.len() implies is_ascii_text(#[trigger] names[i]) by {
        assert(is_ascii_text("Read"@));
        assert(is_ascii_text("Write"@));
        assert(is_ascii_text("Edit"@));
        assert(is_ascii_text("Bash"@));
        assert(is_ascii_text("Grep"@));
        assert(is_ascii_text("Glob"@));
        assert(is_ascii_text("AskUserQuestion"@));
        assert(is_ascii_text("EnterPlanMode"@));
        assert(is_ascii_text("ExitPlanMode"@));
        assert(is_ascii_text("KillShell"@));
        assert(is_ascii_text("NotebookEdit"@));
        assert(is_ascii_text("Skill"@));
        assert(is_ascii_text("Task"@));
        assert(is_ascii_text("TaskOutput"@));
        assert(is_ascii_text("TodoWrite"@));
        assert(is_ascii_text("WebFetch"@));
        assert(is_ascii_text("WebSearch"@));
    }
}

/// What tells the tools of the vendor's client apart whatever their case: the
/// length of a name and its first two letters.
spec fn mark_of(name: Seq<char>) -> (nat, char, char) {
    (name.len(), lower_char(name[0]), lower_char(name[1]))
}

proof fn lemma_marks(names: Seq<Seq<char>>)
    requires
        names == claude_code_tools(),
    ensures
        names.len() == 17,
        mark_of(names[0]) == (4nat, 'r', 'e'),
        mark_of(names[1]) == (5nat, 'w', 'r'),
        mark_of(names[2]) == (4nat, 'e', 'd'),
        mark_of(names[3]) == (4nat, 'b', 'a'),
        mark_of(names[4]) == (4nat, 'g', 'r'),
        mark_of(names[5]) == (4nat, 'g', 'l'),
        mark_of(names[6]) == (15nat, 'a', 's'),
        mark_of(names[7]) == (13nat, 'e', 'n'),
        mark_of(names[8]) == (12nat, 'e', 'x'),
        mark_of(names[9]) == (9nat, 'k', 'i'),
        mark_of(names[10]) == (12nat, 'n', 'o'),
        mark_of(names[11]) == (5nat, 's', 'k'),
        mark_of(names[12]) == (4nat, 't', 'a'),
        mark_of(names[13]) == (10nat, 't', 'a'),
        mark_of(names[14]) == (9nat, 't', 'o'),
        mark_of(names[15]) == (8nat, 'w', 'e'),
        mark_of(names[16]) == (9nat, 'w', 'e'),
{
    reveal_strlit("Read");
    reveal_strlit("Write");
    reveal_strlit("Edit");
    reveal_strlit("Bash");
    reveal_strlit("Grep");
    reveal_strlit("Glob");
    reveal_strlit("AskUserQuestion");
    reveal_strlit("EnterPlanMode");
    reveal_strlit("ExitPlanMode");
    reveal_strlit("KillShell");
    reveal_strlit("NotebookEdit");
    reveal_strlit("Skill");
    reveal_strlit("Task");
    reveal_strlit("TaskOutput");
    reveal_strlit("TodoWrite");
    reveal_strlit("WebFetch");
    reveal_strlit("WebSearch");
}

/// Every spelling of the name of a tool of the vendor's client, in capitals and
/// small letters, is sent as that client spells it.
pub proof fn law_every_spelling_is_sent_alike(i: int, name: Seq<char>)
    requires
        0 <= i < claude_code_tools().len(),
        ascii_lower(name) == ascii_lower(claude_code_tools()[i]),
    ensures
        is_ascii_text(name),
        ascii_cased_as(claude_code_tools(), name) == claude_code_tools()[i],
{
    let names = claude_code_tools();
    lemma_tools_are_ascii();
    lemma_marks(names);
    assert(ascii_lower(name).len() == name.len());
    assert forall|k: int| 0 <= k < name.len() implies ((#[trigger] name[k]) as u32) < 128 by {
        assert(ascii_lower(name)[k] == lower_char(name[k]));
        assert(ascii_lower(names[i])[k] == lower_char(names[i][k]));
        assert((names[i][k] as u32) < 128);
    }
    assert forall|j: int| 0 <= j < names.len() && j != i implies ascii_lower(#[trigger] names[j])
        != ascii_lower(names[i]) by {
        assert(mark_of(names[j]) != mark_of(names[i]));
        let (a, b) = (ascii_lower(names[j]), ascii_lower(names[i]));
        if a == b {
            assert(a.len() == names[j].len() && b.len() == names[i].len());
            assert(a[0] == lower_char(names[j][0]) && b[0] == lower_char(names[i][0]));
            assert(a[1] == lower_char(names[j][1]) && b[1] == lower_char(names[i][1]));
        }
    }
    lemma_ascii_spelling(names, i, name);
}

proof fn lemma_ascii_spelling(names: Seq<Seq<char>>, i: int, name: Seq<char>)
    requires
        0 <= i < names.len(),
        ascii_lower(name) == ascii_lower(names[i]),
        forall|j: int|
            0 <= j < names.len() && j != i ==> ascii_lower(#[trigger] names[j]) != ascii_lower(
                names[i],
            ),
    ensures
        same_but_for_ascii_case(names, name) == Some(names[i]),
    decreases names.len(),
{
    if i > 0 {
        let rest = names.drop_first();
        assert forall|j: int| 0 <= j < rest.len() && j != i - 1 implies ascii_lower(
            #[trigger] rest[j],
        ) != ascii_lower(rest[i - 1]) by {
            assert(rest[j] == names[j + 1]);
        }
        assert(ascii_lower(names[0]) != ascii_lower(names[i]));
        lemma_ascii_spelling(rest, i - 1, name);
    }
}

} // verus!
