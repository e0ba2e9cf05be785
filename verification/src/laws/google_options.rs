//! How the Gemini interfaces are told to think and to call, and where Vertex is
//! found.
use vstd::prelude::*;
use crate::api::google_generative_ai::{
    disabled_thinking, enabled_thinking_json, google_budget, level_effort, simple_thinking,
    thinking_json, thinking_level, tool_config, ModelFamilies, Thinking,
};
use crate::api::google_shared::{
    calling_mode, is_thought, part_text, retained, some_tool_is_strict, usable_signature,
};
use crate::api::google_vertex::{
    auth_headers, base_of, custom_base, location_host, location_of, model_path, project_of, request,
    url_segments, usable_key, valued, GoogleVertexOptions, VertexEnvironment,
};
use crate::api::headers::{OptPairs, Pairs};
use crate::json::{bool_at, str_at, Entries, Json};
use crate::laws::wire::{group_wire, lacks, says};
use crate::number::{whole, Number};
use crate::text::{contains_text, joined, trimmed, trimmed_end_of};
use crate::types::{Context, Message, Model, ThinkingBudgets, Tool};

verus! {

broadcast use group_wire;

proof fn lemma_efforts()
    ensures
        "minimal"@ != "low"@ && "minimal"@ != "medium"@ && "minimal"@ != "high"@ && "low"@
            != "medium"@ && "low"@ != "high"@ && "medium"@ != "high"@,
        "off"@ != "low"@ && "off"@ != "minimal"@ && "off"@ != "medium"@ && "off"@ != "high"@,
{
    reveal_strlit("minimal");
    reveal_strlit("low");
    reveal_strlit("medium");
    reveal_strlit("high");
    reveal_strlit("off");
    assert("minimal"@.len() == 7 && "low"@.len() == 3 && "medium"@.len() == 6 && "high"@.len()
        == 4);
    assert("low"@[0] == 'l' && "off"@[0] == 'o');
}

/// The levels of thinking that each family has.
pub proof fn law_levels_of_families(f: ModelFamilies)
    ensures
        f.gemini3_pro ==> thinking_level("minimal"@, f) == "LOW"@ && thinking_level("low"@, f)
            == "LOW"@ && thinking_level("medium"@, f) == "HIGH"@ && thinking_level("high"@, f)
            == "HIGH"@,
        !f.gemini3_pro && f.gemma4 ==> thinking_level("minimal"@, f) == "MINIMAL"@
            && thinking_level("low"@, f) == "MINIMAL"@ && thinking_level("medium"@, f) == "HIGH"@
            && thinking_level("high"@, f) == "HIGH"@,
        !f.gemini3_pro && !f.gemma4 ==> thinking_level("minimal"@, f) == "MINIMAL"@
            && thinking_level("low"@, f) == "LOW"@ && thinking_level("medium"@, f) == "MEDIUM"@
            && thinking_level("high"@, f) == "HIGH"@,
        level_effort("off"@) == "high"@,
        level_effort("low"@) == "low"@,
        disabled_thinking(f).level == if f.gemini3_pro {
            Some("LOW"@)
        } else if f.gemini3_flash || f.gemma4 {
            Some("MINIMAL"@)
        } else {
            None
        },
        !f.gemini3_pro && !f.gemini3_flash && !f.gemma4 ==> disabled_thinking(f).budget_tokens
            == Some(whole(0)),
        !disabled_thinking(f).enabled,
{
    lemma_efforts();
}

/// The budgets of thinking: what the caller states, else what suits the model, else
/// what the model thinks fit.
pub proof fn law_gemini_budgets(id: Seq<char>, b: &ThinkingBudgets)
    ensures
        b.minimal matches Some(n) ==> google_budget(id, "minimal"@, Some(b)) == n,
        b.low matches Some(n) ==> google_budget(id, "low"@, Some(b)) == n,
        b.medium matches Some(n) ==> google_budget(id, "medium"@, Some(b)) == n,
        b.high matches Some(n) ==> google_budget(id, "high"@, Some(b)) == n,
        contains_text(id, "2.5-pro"@) ==> google_budget(id, "minimal"@, None) == whole(128)
            && google_budget(id, "low"@, None) == whole(2048) && google_budget(id, "medium"@, None)
            == whole(8192) && google_budget(id, "high"@, None) == whole(32768),
        !contains_text(id, "2.5-pro"@) && contains_text(id, "2.5-flash-lite"@) ==> google_budget(
            id,
            "minimal"@,
            None,
        ) == whole(512) && google_budget(id, "high"@, None) == whole(24576),
        !contains_text(id, "2.5-pro"@) && !contains_text(id, "2.5-flash-lite"@) && contains_text(
            id,
            "2.5-flash"@,
        ) ==> google_budget(id, "minimal"@, None) == whole(128) && google_budget(id, "high"@, None)
            == whole(24576),
        !contains_text(id, "2.5-pro"@) && !contains_text(id, "2.5-flash-lite"@) && !contains_text(
            id,
            "2.5-flash"@,
        ) ==> google_budget(id, "high"@, None) == whole(-1),
        contains_text(id, "2.5-pro"@) ==> crate::api::google_vertex::google_budget(
            id,
            "minimal"@,
            None,
        ) == whole(128) && crate::api::google_vertex::google_budget(id, "high"@, None) == whole(
            32768,
        ),
        !contains_text(id, "2.5-pro"@) && contains_text(id, "2.5-flash"@)
            ==> crate::api::google_vertex::google_budget(id, "minimal"@, None) == whole(128)
            && crate::api::google_vertex::google_budget(id, "high"@, None) == whole(24576),
        b.low matches Some(n) ==> crate::api::google_vertex::google_budget(id, "low"@, Some(b))
            == n,
{
    lemma_efforts();
}

/// A simple request thinks by a level where its family has levels, else by a budget,
/// and not at all where nothing is asked.
pub proof fn law_simple_thinking(
    id: Seq<char>,
    level: Seq<char>,
    budgets: Option<&ThinkingBudgets>,
    f: ModelFamilies,
)
    ensures
        !simple_thinking(id, None, budgets, f).enabled,
        simple_thinking(id, Some(level), budgets, f).enabled,
        (f.gemini3_pro || f.gemini3_flash || f.gemma4) ==> simple_thinking(
            id,
            Some(level),
            budgets,
            f,
        ).level is Some && simple_thinking(id, Some(level), budgets, f).budget_tokens is None,
        !(f.gemini3_pro || f.gemini3_flash || f.gemma4) ==> simple_thinking(
            id,
            Some(level),
            budgets,
            f,
        ).level is None && simple_thinking(id, Some(level), budgets, f).budget_tokens == Some(
            google_budget(
                id,
                if level == "off"@ {
                    "high"@
                } else {
                    level
                },
                budgets,
            ),
        ),
        !crate::api::google_vertex::simple_thinking(id, None, budgets).enabled,
        crate::api::google_vertex::simple_thinking(id, Some(level), budgets).enabled,
{
}

/// A model that thinks sends its thoughts; a level wins over a budget; a model that
/// cannot think, or is not asked to, is told nothing.
pub proof fn law_thinking_is_told(
    level: Seq<char>,
    budget: Option<Number>,
    n: Number,
    f: ModelFamilies,
    t: Thinking,
)
    ensures
        says(
            enabled_thinking_json(Some(level), budget),
            "includeThoughts"@,
            Json::Bool(true),
        ),
        says(
            enabled_thinking_json(Some(level), budget),
            "thinkingLevel"@,
            Json::Str(level),
        ),
        says(enabled_thinking_json(None, Some(n)), "thinkingBudget"@, Json::Number(n)),
        says(enabled_thinking_json(None, Some(n)), "includeThoughts"@, Json::Bool(true)),
        lacks(enabled_thinking_json(Some(level), budget), "thinkingBudget"@),
        thinking_json(false, Some(t), f) is None,
        thinking_json(true, None, f) is None,
        t.enabled ==> thinking_json(true, Some(t), f) == Some(
            enabled_thinking_json(t.level, t.budget_tokens),
        ),
        !t.enabled ==> (thinking_json(true, Some(t), f) matches Some(off) && lacks(
            off,
            "includeThoughts"@,
        ) && (f.gemini3_pro ==> says(off, "thinkingLevel"@, Json::Str("LOW"@))) && (
        !f.gemini3_pro && (f.gemini3_flash || f.gemma4) ==> says(
            off,
            "thinkingLevel"@,
            Json::Str("MINIMAL"@),
        )) && (!f.gemini3_pro && !f.gemini3_flash && !f.gemma4 ==> says(
            off,
            "thinkingBudget"@,
            Json::Number(whole(0)),
        ))),
{
    reveal_strlit("thinkingBudget");
    reveal_strlit("thinkingLevel");
    reveal_strlit("includeThoughts");
    assert("thinkingBudget"@.len() == 14 && "thinkingLevel"@.len() == 13 && "includeThoughts"@.len()
        == 15);
}

/// How a model is told to call: never and always as it is asked, in a checked way
/// where some tool wants that, else as it likes where anything is asked.
pub proof fn law_calling_modes(tools: Seq<Tool>, strict: bool)
    ensures
        calling_mode(tools, Some("none"@), strict) == Some("NONE"@),
        calling_mode(tools, Some("any"@), strict) == Some("ANY"@),
        some_tool_is_strict(tools, strict) ==> calling_mode(tools, Some("auto"@), strict) == Some(
            "VALIDATED"@,
        ) && calling_mode(tools, None, strict) == Some("VALIDATED"@),
        !some_tool_is_strict(tools, strict) ==> calling_mode(tools, Some("auto"@), strict) == Some(
            "AUTO"@,
        ) && calling_mode(tools, None, strict) is None,
{
    reveal_strlit("none");
    reveal_strlit("any");
    reveal_strlit("auto");
    assert("none"@.len() == 4 && "any"@.len() == 3 && "auto"@.len() == 4);
    assert("none"@[0] == 'n' && "auto"@[0] == 'a');
}

/// The mode of calling is sent where tools are offered, and nowhere else.
pub proof fn law_mode_is_sent(context: Context, id: Seq<char>, choice: Option<Seq<char>>)
    ensures
        context.tools is None ==> tool_config(context, id, choice) is None,
        context.tools matches Some(tools) ==> tools@.len() > 0 ==> (calling_mode(
            tools@,
            choice,
            crate::api::google_shared::is_gemini3(id),
        ) matches Some(mode) ==> (tool_config(context, id, choice) matches Some(config) && exists|
            inner: Json,
        | #[trigger]
            says(config, "functionCallingConfig"@, inner) && says(
                inner,
                "mode"@,
                Json::Str(mode),
            ))),
{
    if let Some(tools) = context.tools {
        if let Some(mode) = calling_mode(
            tools@,
            choice,
            crate::api::google_shared::is_gemini3(id),
        ) {
            let inner = crate::json::one_entry("mode"@, Json::Str(mode));
            assert(says(
                crate::json::one_entry("functionCallingConfig"@, inner),
                "functionCallingConfig"@,
                inner,
            ));
        }
    }
}

/// What a part says of itself, and which signature stays.
pub proof fn law_parts_say_what_they_are(e: Entries, old_one: Option<Seq<char>>, new: Seq<char>)
    ensures
        is_thought(Json::Object(e)) <==> bool_at(e, "thought"@) == Some(true),
        part_text(Json::Object(e)) == str_at(e, "text"@),
        new.len() > 0 ==> retained(old_one, Some(new)) == Some(new),
        retained(old_one, Some(Seq::empty())) == old_one,
        retained(old_one, None) == old_one,
        usable_signature(false, Some(new)) is None,
        usable_signature(true, Some(new)) is Some ==> usable_signature(true, Some(new)) == Some(
            new,
        ),
        usable_signature(true, Some(new)) is Some <==> crate::api::google_shared::is_base64(new),
{
}

/// A key is used without the blanks around it, unless it is empty or only marks the
/// place of a key.
pub proof fn law_vertex_keys(key: Seq<char>)
    ensures
        usable_key(None) is None,
        trimmed(key).len() == 0 ==> usable_key(Some(key)) is None,
        trimmed(key) == "gcp-vertex-credentials"@ ==> usable_key(Some(key)) is None,
        trimmed(key).len() > 0 && trimmed(key)[0] == '<' && trimmed(key).last() == '>'
            ==> usable_key(Some(key)) is None,
        trimmed(key).len() > 0 && trimmed(key)[0] != '<' && trimmed(key)
            != "gcp-vertex-credentials"@ ==> usable_key(Some(key)) == Some(trimmed(key)),
{
    reveal_strlit("<");
    reveal_strlit(">");
    let k = trimmed(key);
    if k.len() > 0 {
        assert("<"@ =~= seq!['<']);
        assert(">"@ =~= seq!['>']);
        assert(k.take(1) =~= seq![k[0]]);
        assert(k.skip(k.len() - 1) =~= seq![k.last()]);
        assert("<"@.is_prefix_of(k) <==> k[0] == '<') by {
            if "<"@.is_prefix_of(k) {
                assert("<"@[0] == k[0]);
            }
        }
        assert(">"@.is_suffix_of(k) <==> k.last() == '>') by {
            if ">"@.is_suffix_of(k) {
                assert(">"@[0] == k[k.len() - 1]);
            }
        }
    }
}

/// A project and a location are those that are asked for, else those of the
/// environment.
pub proof fn law_vertex_place(o: &GoogleVertexOptions, environment: VertexEnvironment)
    ensures
        o.project matches Some(p) ==> project_of(Some(o), environment) == Ok::<
            Seq<char>,
            Seq<char>,
        >(p@),
        environment.cloud_project matches Some(p) ==> project_of(None, environment) == Ok::<
            Seq<char>,
            Seq<char>,
        >(p@),
        environment.cloud_project is None ==> (environment.gcloud_project matches Some(p)
            ==> project_of(None, environment) == Ok::<Seq<char>, Seq<char>>(p@)),
        environment.cloud_project is None && environment.gcloud_project is None ==> project_of(
            None,
            environment,
        ) is Err,
        o.location matches Some(l) ==> location_of(Some(o), environment) == Ok::<
            Seq<char>,
            Seq<char>,
        >(l@),
        o.location is None ==> (environment.location matches Some(l) ==> location_of(
            Some(o),
            environment,
        ) == Ok::<Seq<char>, Seq<char>>(l@)),
        o.location is None && environment.location is None ==> location_of(Some(o), environment)
            is Err,
{
}

/// The host of a location, the path of a model, and a base address of one's own.
pub proof fn law_vertex_hosts(location: Seq<char>, id: Seq<char>, custom: Seq<char>)
    ensures
        location_host("global"@) == "https://aiplatform."@ + "global"@ + ".rep.googleapis.com"@,
        location_host("us"@) == "https://aiplatform."@ + "us"@ + ".rep.googleapis.com"@,
        location != "us"@ && location != "eu"@ && location != "europe"@ && location != "asia"@
            && location != "global"@ ==> location_host(location) == "https://"@ + location
            + "-aiplatform.googleapis.com"@,
        base_of(Some(location), true, None) == "https://aiplatform.googleapis.com"@,
        base_of(Some(location), false, None) == location_host(location),
        base_of(Some(location), false, Some(custom)) == trimmed_end_of(custom, '/'),
        "publishers/"@.is_prefix_of(id) ==> model_path(id) == id,
        "projects/"@.is_prefix_of(id) ==> model_path(id) == id,
        "models/"@.is_prefix_of(id) ==> model_path(id) == id,
        !id.contains('/') && !"publishers/"@.is_prefix_of(id) && !"projects/"@.is_prefix_of(id)
            && !"models/"@.is_prefix_of(id) ==> model_path(id) == "publishers/google/models/"@ + id,
        trimmed(custom).len() > 0 && !contains_text(trimmed(custom), "{location}"@) ==> custom_base(
            custom,
        ) == Some(trimmed(custom)),
        contains_text(trimmed(custom), "{location}"@) ==> custom_base(custom) is None,
{
    if !id.contains('/') {
        crate::laws::texts::law_pair_comes_apart(id, '/', Seq::empty());
    }
}

/// A publisher that is named has the model under it.
pub proof fn law_vertex_publishers(publisher: Seq<char>, name: Seq<char>)
    requires
        !publisher.contains('/'),
        !"publishers/"@.is_prefix_of(publisher.push('/') + name),
        !"projects/"@.is_prefix_of(publisher.push('/') + name),
        !"models/"@.is_prefix_of(publisher.push('/') + name),
    ensures
        model_path(publisher.push('/') + name) == "publishers/"@ + publisher + "/models/"@ + name,
{
    crate::laws::texts::law_pair_comes_apart(publisher, '/', name);
}

/// An address is made of its base, a version, the place of the project and the
/// path of the model, in that order.
pub proof fn law_vertex_addresses(
    id: Seq<char>,
    project: Seq<char>,
    location: Seq<char>,
    custom: Seq<char>,
)
    ensures
        ({
            let s = url_segments(id, Some(project), Some(location), false, None);
            &&& s.len() >= 3
            &&& s[0] == location_host(location)
            &&& s.last() == model_path(id) + ":streamGenerateContent?alt=sse"@
            &&& s[s.len() - 2] == "projects/"@ + project + "/locations/"@ + location
            &&& !crate::api::google_vertex::has_version(location_host(location)) ==> s.len() == 4
                && s[1] == "v1"@
        }),
        ({
            let s = url_segments(id, None, None, true, None);
            &&& s[0] == "https://aiplatform.googleapis.com"@
            &&& s.last() == model_path(id) + ":streamGenerateContent?alt=sse"@
            &&& s.len() <= 3
        }),
        ({
            let s = url_segments(id, Some(project), Some(location), false, Some(custom));
            &&& s[0] == trimmed_end_of(custom, '/')
            &&& s.last() == model_path(id) + ":streamGenerateContent?alt=sse"@
            &&& s.len() <= 3
            &&& crate::api::google_vertex::has_version(trimmed_end_of(custom, '/')) ==> s.len()
                == 2
        }),
{
}

/// A request to Vertex is authorised by a key, else by a token, else not at all
/// where it goes to an address of one's own.
pub proof fn law_vertex_authority(
    key: Seq<char>,
    custom: Seq<char>,
    environment: VertexEnvironment,
)
    ensures
        auth_headers(Some(key), None, environment) == Ok::<Pairs, Seq<char>>(
            seq![("x-goog-api-key"@, key)],
        ),
        auth_headers(Some(key), Some(custom), environment) == Ok::<Pairs, Seq<char>>(Seq::empty()),
        environment.access_token matches Some(token) ==> auth_headers(None, None, environment)
            == Ok::<Pairs, Seq<char>>(seq![("Authorization"@, "Bearer "@ + token@)]),
        environment.access_token is None ==> auth_headers(None, None, environment) is Err,
        environment.access_token is None && !environment.has_credentials ==> auth_headers(
            None,
            Some(custom),
            environment,
        ) == Ok::<Pairs, Seq<char>>(Seq::empty()),
        environment.access_token is None && environment.has_credentials ==> auth_headers(
            None,
            Some(custom),
            environment,
        ) is Err,
{
    assert(Pairs::empty().push(("x-goog-api-key"@, key)) =~= seq![("x-goog-api-key"@, key)]);
    if let Some(token) = environment.access_token {
        assert(Pairs::empty().push(("Authorization"@, "Bearer "@ + token@)) =~= seq![
            ("Authorization"@, "Bearer "@ + token@),
        ]);
    }
}

/// A request to Vertex needs a project where it has no key, and a location where it
/// does not go by a key alone; a header without a value is not sent.
pub proof fn law_vertex_requests(
    model: Model,
    context: Context,
    messages: Seq<Message>,
    options: Option<&GoogleVertexOptions>,
    environment: VertexEnvironment,
    key: Seq<char>,
    headers: OptPairs,
    name: Seq<char>,
    value: Seq<char>,
)
    ensures
        options is None && project_of(options, environment) is Err ==> request(
            model,
            context,
            messages,
            options,
            None,
            environment,
        ) is Err,
        options is None && location_of(options, environment) is Err ==> request(
            model,
            context,
            messages,
            options,
            None,
            environment,
        ) is Err,
        options is None && custom_base(model.base_url@) is None ==> (request(
            model,
            context,
            messages,
            options,
            Some(key),
            environment,
        ) matches Ok(r) && r.headers.len() > 0 && r.headers[0] == ("x-goog-api-key"@, key)
            && r.url == joined(url_segments(model.id@, None, None, true, None), "/"@)),
        valued(headers.push((name, Some(value)))) == valued(headers).push((name, value)),
        valued(headers.push((name, None))) == valued(headers),
        valued(Seq::empty()).len() == 0,
{
    assert(headers.push((name, Some(value))).drop_last() =~= headers);
    assert(headers.push((name, None)).drop_last() =~= headers);
}

} // verus!
