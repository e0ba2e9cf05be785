//! What the requests to the Responses interfaces say.
use vstd::prelude::*;
use crate::api::azure_openai_responses::{
    azure_config, configured_base, deployment_of, responses_url, with_deployments, AzureEnvironment,
    AzureOpenAIResponsesOptions,
};
use crate::api::openai_codex_responses::request::{
    base_headers, codex_url, sse_headers, OpenAICodexResponsesOptions,
};
use crate::api::openai_responses::{
    deferred_mode, named_fields, output_tokens, prompt_retention, reasoning_put, sent_level,
    session_put, OpenAIResponsesOptions,
};
use crate::api::openai_responses_shared::convert::{converted_items, Conversion};
use crate::api::openai_responses_shared::items::items_json;
use crate::api::headers::{OptPairs, Pairs};
use crate::json::{get, lemma_with_entry, no_entries, Entries, EntriesSpec, Json};
use crate::laws::wire::{group_wire, says};
use crate::number::{whole, Number};
use crate::text::trimmed_end_of;
use crate::types::{mapped_level, Context, Message, Model, ToolPlacement};

verus! {

broadcast use group_wire;

proof fn lemma_reasoning_is_kept(
    e: Entries,
    model: Model,
    effort: Option<Seq<char>>,
    summary: Option<Seq<char>>,
    x: (Seq<char>, Json),
)
    requires
        e.contains(x),
    ensures
        reasoning_put(e, model, effort, summary).contains(x),
        crate::api::azure_openai_responses::reasoning_put(e, model, effort, summary).contains(x),
{
}

/// A Responses request names its model, asks for a stream that is not stored, bounds
/// the output by what was asked and never by less than the least, and says the
/// temperature, the tier, the tools and the choice.
pub proof fn law_responses_request_names_its_model(
    model: Model,
    context: Context,
    messages: Seq<Message>,
    options: Option<&OpenAIResponsesOptions>,
    p: crate::api::openai_responses::Parameters,
)
    ensures
        ({
            let body = Json::Object(named_fields(model, context, messages, options, p));
            &&& says(body, "model"@, Json::Str(model.id@))
            &&& says(body, "stream"@, Json::Bool(true))
            &&& says(body, "store"@, Json::Bool(false))
            &&& options matches Some(o) ==> {
                &&& o.stream.temperature is Some ==> says(
                    body,
                    "temperature"@,
                    Json::Number(o.stream.temperature->0),
                )
                &&& o.service_tier is Some ==> says(
                    body,
                    "service_tier"@,
                    Json::Str(o.service_tier->0@),
                )
                &&& o.tool_choice is Some ==> says(body, "tool_choice"@, o.tool_choice->0@)
                &&& o.stream.max_tokens matches Some(n) ==> {
                    &&& n.nanos >= whole(16).nanos ==> says(
                        body,
                        "max_output_tokens"@,
                        Json::Number(n),
                    )
                    &&& n.nanos < whole(16).nanos ==> says(
                        body,
                        "max_output_tokens"@,
                        Json::Number(whole(16)),
                    )
                }
            }
        }),
{
    let body = Json::Object(named_fields(model, context, messages, options, p));
    let first = first_fields(model, context, messages, options, p);
    let effort = crate::api::openai_responses::asked_effort(options);
    let summary = crate::api::openai_responses::asked_summary(options);
    assert forall|x: (Seq<char>, Json)| first.contains(x) implies #[trigger] says(
        body,
        x.0,
        x.1,
    ) by {
        lemma_reasoning_is_kept(first, model, effort, summary, x);
        assert(x == (x.0, x.1));
    }
    let a = ("model"@, Json::Str(model.id@));
    let b = ("stream"@, Json::Bool(true));
    let c = ("store"@, Json::Bool(false));
    assert(first.contains(a) && first.contains(b) && first.contains(c));
    assert(says(body, a.0, a.1) && says(body, b.0, b.1) && says(body, c.0, c.1));
    if let Some(o) = options {
        if let Some(t) = o.stream.temperature {
            let x = ("temperature"@, Json::Number(t));
            assert(first.contains(x));
            assert(says(body, x.0, x.1));
        }
        if let Some(tier) = o.service_tier {
            let x = ("service_tier"@, Json::Str(tier@));
            assert(first.contains(x));
            assert(says(body, x.0, x.1));
        }
        if let Some(choice) = o.tool_choice {
            let x = ("tool_choice"@, choice@);
            assert(first.contains(x));
            assert(says(body, x.0, x.1));
        }
        if let Some(n) = o.stream.max_tokens {
            let x = ("max_output_tokens"@, Json::Number(output_tokens(Some(n))->0));
            assert(first.contains(x));
            assert(says(body, x.0, x.1));
        }
    }
}

spec fn first_fields(
    model: Model,
    context: Context,
    messages: Seq<Message>,
    options: Option<&OpenAIResponsesOptions>,
    p: crate::api::openai_responses::Parameters,
) -> Entries {
    let tools = crate::api::openai_responses::tool_options(
        None,
        p.compat.supports_strict_mode,
        p.compat.supports_openai_grammar_tools,
    );
    let c = Conversion {
        model,
        properties: p.properties,
        deferred: p.deferred,
        mode: deferred_mode(p.compat.supports_additional_tools, p.compat.supports_tool_search),
        tool_options: Some(tools),
        parse: p.parse,
    };
    no_entries().put("model"@, Json::Str(model.id@)).put(
        "input"@,
        Json::Array(items_json(converted_items(context, messages, true, c))),
    ).put("stream"@, Json::Bool(true)).put(
        "prompt_cache_key"@,
        crate::api::openai_responses::str_or_null(
            crate::api::headers::cached_session(p.retention, p.prompt_key),
        ),
    ).put(
        "prompt_cache_retention"@,
        crate::api::openai_responses::str_or_null(prompt_retention(p.compat, p.retention)),
    ).put(
        "prompt_cache_options"@,
        if p.retention == "none"@ && p.compat.supports_explicit_prompt_cache_mode {
            crate::json::one_entry("mode"@, Json::Str("explicit"@))
        } else {
            Json::Null
        },
    ).put("store"@, Json::Bool(false)).put_opt(
        "max_output_tokens"@,
        crate::json::opt_number_json(
            output_tokens(crate::api::openai_responses::asked_max_tokens(options)),
        ),
    ).put_opt(
        "temperature"@,
        crate::json::opt_number_json(crate::api::openai_responses::asked_temperature(options)),
    ).put_opt(
        "service_tier"@,
        crate::json::opt_str_json(crate::api::openai_responses::asked_tier(options)),
    ).put_opt("tools"@, crate::api::openai_responses::offered_tools(p.immediate, tools)).put_opt(
        "tool_choice"@,
        crate::api::openai_responses::asked_choice(options),
    )
}

/// How much a model that reasons is asked to: the effort that was asked, as the
/// model calls it, with a summary that is automatic where none was asked, and with
/// the reasoning to be sent back encrypted; a model that does not reason is not
/// asked.
pub proof fn law_responses_request_says_how_to_think(
    e: Entries,
    model: Model,
    effort: Seq<char>,
    summary: Option<Seq<char>>,
)
    ensures
        !model.reasoning ==> reasoning_put(e, model, Some(effort), summary) == e,
        model.reasoning ==> ({
            let body = Json::Object(reasoning_put(e, model, Some(effort), summary));
            &&& exists|inner: Json| #[trigger]
                says(body, "reasoning"@, inner) && (mapped_level(model, effort) is None ==> says(
                    inner,
                    "effort"@,
                    Json::Str(effort),
                )) && (mapped_level(model, effort) is Some ==> says(
                    inner,
                    "effort"@,
                    Json::Str(mapped_level(model, effort)->0),
                )) && (summary is None ==> says(inner, "summary"@, Json::Str("auto"@))) && (summary
                    is Some ==> says(inner, "summary"@, Json::Str(summary->0)))
            &&& says(
                body,
                "include"@,
                Json::Array(Seq::empty().push(Json::Str("reasoning.encrypted_content"@))),
            )
        }),
{
    if model.reasoning {
        let body = Json::Object(reasoning_put(e, model, Some(effort), summary));
        let inner = crate::api::openai_responses::effort_json(
            sent_level(model, effort),
            crate::api::openai_responses::text_or(summary, "auto"@),
        );
        assert(says(body, "reasoning"@, inner));
        assert(says(body, "include"@, crate::api::openai_responses::encrypted_content()));
    }
}

/// Which mode loads tools later, and for how long a prompt is kept.
pub proof fn law_modes(compat: crate::api::openai_responses::Compat, a: bool, b: bool)
    ensures
        deferred_mode(true, b) == Some("additional-tools"@),
        deferred_mode(false, true) == Some("tool-search"@),
        deferred_mode(false, false) is None,
        compat.supports_long_cache_retention ==> prompt_retention(compat, "long"@) == Some("24h"@),
        !compat.supports_long_cache_retention ==> prompt_retention(compat, "long"@) is None,
        prompt_retention(compat, "short"@) is None,
        prompt_retention(compat, "none"@) is None,
{
    reveal_strlit("long");
    reveal_strlit("short");
    reveal_strlit("none");
    assert("long"@[0] == 'l' && "none"@[0] == 'n');
    assert("long"@.len() != "short"@.len());
}

/// A session is told in the headers that the provider knows.
pub proof fn law_session_is_told(h: Pairs, format: Seq<char>, id: Seq<char>)
    ensures
        session_put(h, "openrouter"@, Some(id)) == h.push(("x-session-id"@, id)),
        session_put(h, "openai"@, Some(id)) == h.push(("session_id"@, id)).push(
            ("x-client-request-id"@, id),
        ),
        session_put(h, format, None) == h,
{
    reveal_strlit("openrouter");
    reveal_strlit("openai");
    assert("openrouter"@.len() != "openai"@.len());
}

/// A Responses request goes to its address with the key as a bearer first.
pub proof fn law_responses_request_is_authorised(
    model: Model,
    context: Context,
    messages: Seq<Message>,
    options: Option<&OpenAIResponsesOptions>,
    key: Seq<char>,
    environment: Option<Seq<char>>,
    prompt_key: Option<Seq<char>>,
    placement: ToolPlacement,
    parse: spec_fn(Seq<char>) -> Option<Json>,
)
    requires
        key.len() > 0,
    ensures
        crate::api::openai_responses::request(
            model,
            context,
            messages,
            options,
            Some(key),
            environment,
            prompt_key,
            placement,
            parse,
        ) matches Ok(r) && r.url == trimmed_end_of(model.base_url@, '/') + "/responses"@
            && r.headers.len() > 0 && r.headers[0] == ("Authorization"@, "Bearer "@ + key),
{
}

/// A completion goes to its address with the key as a bearer first.
pub proof fn law_completions_request_is_authorised(
    model: Model,
    context: Context,
    options: Option<&crate::api::openai_completions::params::OpenAICompletionsOptions>,
    key: Seq<char>,
    environment: Option<Seq<char>>,
    inputs: crate::api::openai_completions::params::CompletionsInputs,
    parse: spec_fn(Seq<char>) -> Option<Json>,
)
    requires
        key.len() > 0,
    ensures
        crate::api::openai_completions::request::request(
            model,
            context,
            options,
            Some(key),
            environment,
            inputs,
            parse,
        ) matches Ok(r) && r.url == trimmed_end_of(model.base_url@, '/') + "/chat/completions"@
            && r.headers.len() > 0 && r.headers[0] == ("Authorization"@, "Bearer "@ + key),
{
}

/// A Codex request says its model, its instructions and what was asked.
pub proof fn law_codex_request_names_its_model(
    model: Model,
    context: Context,
    messages: Seq<Message>,
    options: Option<&OpenAICodexResponsesOptions>,
    p: crate::api::openai_codex_responses::request::Parameters,
)
    ensures
        ({
            let body = crate::api::openai_codex_responses::request::request_body(
                model,
                context,
                messages,
                options,
                p,
            );
            &&& says(body, "model"@, Json::Str(model.id@))
            &&& says(body, "stream"@, Json::Bool(true))
            &&& says(body, "store"@, Json::Bool(false))
            &&& says(body, "parallel_tool_calls"@, Json::Bool(true))
            &&& context.system_prompt is Some ==> says(
                body,
                "instructions"@,
                Json::Str(context.system_prompt->0@),
            )
            &&& context.system_prompt is None ==> says(
                body,
                "instructions"@,
                Json::Str("You are a helpful assistant."@),
            )
            &&& p.session is Some ==> says(body, "prompt_cache_key"@, Json::Str(p.session->0))
            &&& p.session is None ==> says(body, "prompt_cache_key"@, Json::Null)
            &&& options is None ==> says(body, "tool_choice"@, Json::Str("auto"@))
            &&& options matches Some(o) ==> {
                &&& o.tool_choice is Some ==> says(
                    body,
                    "tool_choice"@,
                    Json::Str(o.tool_choice->0@),
                )
                &&& o.stream.temperature is Some ==> says(
                    body,
                    "temperature"@,
                    Json::Number(o.stream.temperature->0),
                )
                &&& o.service_tier is Some ==> says(
                    body,
                    "service_tier"@,
                    Json::Str(o.service_tier->0@),
                )
            }
        }),
{
}

/// A Codex request tells the account, the token and the client, and asks for
/// events; a session is told twice.
pub proof fn law_codex_headers(
    own: Pairs,
    additional: OptPairs,
    account_id: Seq<char>,
    token: Seq<char>,
    os: Seq<char>,
    arch: Seq<char>,
    session: Seq<char>,
)
    ensures
        ({
            let base = base_headers(own, additional, account_id, token, os, arch);
            let with = sse_headers(base, Some(session));
            let without = sse_headers(base, None);
            &&& base.contains(("Authorization"@, "Bearer "@ + token))
            &&& base.contains(("chatgpt-account-id"@, account_id))
            &&& base.contains(("originator"@, "pi"@))
            &&& base.contains(("User-Agent"@, "pi ("@ + os + "; "@ + arch + ")"@))
            &&& without.contains(("accept"@, "text/event-stream"@))
            &&& without.contains(("content-type"@, "application/json"@))
            &&& without.contains(("OpenAI-Beta"@, "responses=experimental"@))
            &&& base.is_prefix_of(without)
            &&& with == without.push(("session-id"@, session)).push(
                ("x-client-request-id"@, session),
            )
        }),
{
    let base = base_headers(own, additional, account_id, token, os, arch);
    let n = base.len() as int;
    assert(base[n - 4] == ("Authorization"@, "Bearer "@ + token));
    assert(base[n - 3] == ("chatgpt-account-id"@, account_id));
    assert(base[n - 2] == ("originator"@, "pi"@));
    assert(base[n - 1] == ("User-Agent"@, "pi ("@ + os + "; "@ + arch + ")"@));
    let without = sse_headers(base, None);
    assert(without[n] == ("OpenAI-Beta"@, "responses=experimental"@));
    assert(without[n + 1] == ("accept"@, "text/event-stream"@));
    assert(without[n + 2] == ("content-type"@, "application/json"@));
    assert(base.is_prefix_of(without));
}

/// A Codex request goes to the address of the responses under the base, whatever
/// part of that path the base has.
pub proof fn law_codex_url(base: Seq<char>)
    requires
        base.len() > 0,
        base.last() != '/',
        !crate::text::is_blank(base),
        !("/codex"@.is_suffix_of(base)),
        !("/codex/responses"@.is_suffix_of(base)),
    ensures
        codex_url(Some(base)) == base + "/codex/responses"@,
        codex_url(None) == "https://chatgpt.com/backend-api/codex/responses"@,
{
    reveal_strlit("https://chatgpt.com/backend-api/codex/responses");
    reveal_strlit("https://chatgpt.com/backend-api");
    reveal_strlit("/codex/responses");
    reveal_strlit("/codex");
    let d = "https://chatgpt.com/backend-api"@;
    assert(d.last() == 'i');
    assert(!("/codex"@.is_suffix_of(d))) by {
        if "/codex"@.is_suffix_of(d) {
            assert(d.subrange(d.len() - 6, d.len() as int)[5] == "/codex"@[5]);
        }
    }
    assert(!("/codex/responses"@.is_suffix_of(d))) by {
        if "/codex/responses"@.is_suffix_of(d) {
            assert(d.subrange(d.len() - 16, d.len() as int)[15] == "/codex/responses"@[15]);
        }
    }
    assert(trimmed_end_of(d, '/') == d);
    assert(d + "/codex/responses"@ =~= "https://chatgpt.com/backend-api/codex/responses"@);
}

/// An Azure request names the deployment as its model and bounds and says what was
/// asked.
pub proof fn law_azure_request_names_its_deployment(
    model: Model,
    context: Context,
    messages: Seq<Message>,
    options: Option<&AzureOpenAIResponsesOptions>,
    deployment: Seq<char>,
    properties: Pairs,
    prompt_key: Option<Seq<char>>,
    parse: spec_fn(Seq<char>) -> Option<Json>,
)
    requires
        options matches Some(o) ==> o.stream.sampling_params is None,
    ensures
        ({
            let body = crate::api::azure_openai_responses::request_body(
                model,
                context,
                messages,
                options,
                deployment,
                properties,
                prompt_key,
                parse,
            );
            &&& says(body, "model"@, Json::Str(deployment))
            &&& says(body, "stream"@, Json::Bool(true))
            &&& says(body, "store"@, Json::Bool(false))
            &&& prompt_key is Some ==> says(body, "prompt_cache_key"@, Json::Str(prompt_key->0))
            &&& options matches Some(o) ==> (o.stream.temperature is Some ==> says(
                body,
                "temperature"@,
                Json::Number(o.stream.temperature->0),
            ))
        }),
{
    assert(crate::api::azure_openai_responses::asked_params(options) =~= no_entries());
}

/// An Azure request goes to the responses of its base in its version, with its key;
/// the deployment that is asked for wins over the map of the environment, and that
/// over the id of the model.
pub proof fn law_azure_request_finds_its_place(
    model: Model,
    context: Context,
    messages: Seq<Message>,
    options: Option<&AzureOpenAIResponsesOptions>,
    key: Seq<char>,
    environment: AzureEnvironment,
    prompt_key: Option<Seq<char>>,
    parse: spec_fn(Seq<char>) -> Option<Json>,
)
    ensures
        azure_config(model, options, environment) matches Ok((base, version)) ==> (
        crate::api::azure_openai_responses::request(
            model,
            context,
            messages,
            options,
            Some(key),
            environment,
            prompt_key,
            parse,
        ) matches Ok(r) && r.url == responses_url(base, version) && r.headers.len() > 0
            && r.headers[0] == ("api-key"@, key)),
        options is None && environment.deployment_name_map is None ==> deployment_of(
            model,
            options,
            environment,
        ) == model.id@,
        options matches Some(o) ==> (o.azure_deployment_name is Some ==> deployment_of(
            model,
            options,
            environment,
        ) == o.azure_deployment_name->0@),
        options is None && environment.api_version is None ==> (azure_config(
            model,
            options,
            environment,
        ) matches Ok((base, version)) ==> version == "v1"@),
        options is None && environment.base_url is None && environment.resource_name is Some
            ==> configured_base(model, options, environment) == Some(
            "https://"@ + environment.resource_name->0@ + ".openai.azure.com/openai/v1"@,
        ),
        options is None && environment.base_url is None && environment.resource_name is None
            && model.base_url@.len() > 0 ==> configured_base(model, options, environment) == Some(
            model.base_url@,
        ),
        options is None && environment.base_url is None && environment.resource_name is None
            && model.base_url@.len() == 0 ==> azure_config(model, options, environment) is Err,
{
}

/// A map of deployments gives the deployment of each model that it names; a later
/// entry for a model takes the place of an earlier one.
pub proof fn law_deployments_are_read(
    list: Seq<Seq<char>>,
    entry: Seq<char>,
    id: Seq<char>,
    deployment: Seq<char>,
    other: Seq<char>,
)
    requires
        crate::text::split_pair(crate::text::trimmed(entry), '=') == Some((id, deployment)),
        id.len() > 0,
        deployment.len() > 0,
    ensures
        get(with_deployments(list.push(entry)), crate::text::trimmed(id)) == Some(
            crate::text::trimmed(deployment),
        ),
        other != crate::text::trimmed(id) ==> get(with_deployments(list.push(entry)), other) == get(
            with_deployments(list),
            other,
        ),
{
    assert(list.push(entry).drop_last() =~= list);
    lemma_with_entry(
        with_deployments(list),
        crate::text::trimmed(id),
        crate::text::trimmed(deployment),
        other,
    );
}

} // verus!
