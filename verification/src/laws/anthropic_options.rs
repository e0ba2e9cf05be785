//! What a Messages request says of itself besides its conversation.
use vstd::prelude::*;
use crate::api::anthropic_messages::compat::{
    cache_ttl, compat_of, control_json, is_adaptive, references_by_default, sent_name,
};
use crate::api::anthropic_messages::request::{
    budget_within, choice_json, effort_of, features_of, first_tools, is_oauth, later_tools, request,
    request_headers, system_blocks, temperature_of, AnthropicOptions, AnthropicToolChoice,
};
use crate::laws::wire::{group_wire, lacks, says};
use crate::json::Json;
use crate::number::{whole, Number};
use crate::text::{contains_text, trimmed_end_of};
use crate::types::{mapped_level, Context, Message, Model, ModelCompat, SeriesName, ToolPlacement};

verus! {

broadcast use group_wire;

/// A choice of tools is sent by its name, and a chosen tool by its own.
pub proof fn law_choices_are_sent(name: String)
    ensures
        says(choice_json(AnthropicToolChoice::Auto), "type"@, Json::Str("auto"@)),
        says(choice_json(AnthropicToolChoice::Any), "type"@, Json::Str("any"@)),
        says(choice_json(AnthropicToolChoice::NoTool), "type"@, Json::Str("none"@)),
        says(choice_json(AnthropicToolChoice::Tool { name }), "type"@, Json::Str("tool"@)),
        says(choice_json(AnthropicToolChoice::Tool { name }), "name"@, Json::Str(name@)),
{
}

/// A cached prompt is marked; it is kept for an hour where a long time is asked and
/// can be had, and not marked at all where caching is off.
pub proof fn law_cache_is_marked(model: Model, retention: Seq<char>)
    ensures
        cache_ttl(model, "none"@) is None,
        retention != "none"@ && retention != "long"@ ==> cache_ttl(model, retention) == Some(
            None::<Seq<char>>,
        ),
        compat_of(model).supports_long_cache_retention ==> cache_ttl(model, "long"@) == Some(
            Some("1h"@),
        ),
        !compat_of(model).supports_long_cache_retention ==> cache_ttl(model, "long"@) == Some(
            None::<Seq<char>>,
        ),
        says(control_json(None), "type"@, Json::Str("ephemeral"@)),
        lacks(control_json(None), "ttl"@),
        says(control_json(Some(retention)), "type"@, Json::Str("ephemeral"@)),
        says(control_json(Some(retention)), "ttl"@, Json::Str(retention)),
{
    reveal_strlit("none");
    reveal_strlit("long");
    reveal_strlit("ttl");
    reveal_strlit("type");
    assert("none"@[0] == 'n' && "long"@[0] == 'l');
    assert("ttl"@.len() == 3 && "type"@.len() == 4);
}

/// No temperature is sent while the model thinks, or where it takes none.
pub proof fn law_temperature(model: Model, o: &AnthropicOptions)
    ensures
        temperature_of(model, None) is None,
        o.thinking_enabled == Some(true) ==> temperature_of(model, Some(o)) is None,
        !compat_of(model).supports_temperature ==> temperature_of(model, Some(o)) is None,
        o.thinking_enabled != Some(true) && compat_of(model).supports_temperature
            ==> temperature_of(model, Some(o)) == o.stream.temperature,
{
}

/// The features that are asked for by name: fine-grained streaming where tools are
/// offered to a model that does not stream them eagerly, and thinking between calls
/// unless it is switched off or the model decides for itself.
pub proof fn law_features(model: Model, context: Context)
    ensures
        ({
            let fine = "fine-grained-tool-streaming-2025-05-14"@;
            let between = "interleaved-thinking-2025-05-14"@;
            let offers = context.tools matches Some(tools) && tools@.len() > 0;
            let asked = features_of(model, context, None);
            &&& asked == features_of(model, context, Some(true))
            &&& offers && !compat_of(model).supports_eager_tool_input_streaming <==> asked.contains(
                fine,
            )
            &&& model.compat is Some && !is_adaptive(model) <==> asked.contains(between)
            &&& !features_of(model, context, Some(false)).contains(between)
        }),
{
    let fine = "fine-grained-tool-streaming-2025-05-14"@;
    let between = "interleaved-thinking-2025-05-14"@;
    reveal_strlit("fine-grained-tool-streaming-2025-05-14");
    reveal_strlit("interleaved-thinking-2025-05-14");
    assert(fine.len() == 38 && between.len() == 31);
    let offers = context.tools matches Some(tools) && tools@.len() > 0;
    let first = if offers && !compat_of(model).supports_eager_tool_input_streaming {
        Seq::<Seq<char>>::empty().push(fine)
    } else {
        Seq::<Seq<char>>::empty()
    };
    let asked = features_of(model, context, None);
    assert(features_of(model, context, Some(false)) == first);
    if first.contains(between) {
        assert(first[0] == between);
    }
    if offers && !compat_of(model).supports_eager_tool_input_streaming {
        assert(asked[0] == fine);
    }
    if model.compat is Some && !is_adaptive(model) {
        assert(asked.last() == between);
    }
    if asked.contains(fine) {
        let i = choose|i: int| 0 <= i < asked.len() && asked[i] == fine;
        assert(asked[i] == fine);
    }
    if asked.contains(between) {
        let i = choose|i: int| 0 <= i < asked.len() && asked[i] == between;
        assert(asked[i] == between);
    }
}

/// Every request says what it takes and which version it speaks, and tells its
/// session where the endpoint wants to know it.
pub proof fn law_headers_of_a_request(
    model: Model,
    key: Seq<char>,
    session: Seq<char>,
)
    requires
        model.headers is None,
    ensures
        ({
            let h = request_headers(
                model,
                Some(key),
                false,
                false,
                Seq::empty(),
                Seq::empty(),
                Seq::empty(),
                Some(session),
            );
            &&& h.contains(("accept"@, "application/json"@))
            &&& h.contains(("anthropic-version"@, "2023-06-01"@))
            &&& h.contains(("x-api-key"@, key))
            &&& compat_of(model).send_session_affinity_headers ==> h.contains(
                ("x-session-affinity"@, session),
            )
        }),
{
    let h = request_headers(
        model,
        Some(key),
        false,
        false,
        Seq::empty(),
        Seq::empty(),
        Seq::empty(),
        Some(session),
    );
    assert(h[0] == ("accept"@, "application/json"@));
    assert(h[2] == ("anthropic-version"@, "2023-06-01"@));
    assert(h[3] == ("x-api-key"@, key));
    if compat_of(model).send_session_affinity_headers {
        assert(h[4] == ("x-session-affinity"@, session));
    }
}

/// A request goes to the messages of its base address, and one that nothing
/// authorises is refused.
pub proof fn law_request_finds_its_way(
    model: Model,
    context: Context,
    key: Seq<char>,
    environment: Option<Seq<char>>,
    messages: Seq<Message>,
    placement: ToolPlacement,
)
    ensures
        key.len() > 0 ==> (request(
            model,
            context,
            None,
            Some(key),
            environment,
            messages,
            placement,
        ) matches Ok(r) && r.url == trimmed_end_of(model.base_url@, '/') + "/v1/messages"@),
        request(model, context, None, None, environment, messages, placement) == Err::<
            crate::api::finish::Request,
            Seq<char>,
        >("No API key for provider: "@ + model.provider@),
        is_oauth(Some(key)) <==> contains_text(key, "sk-ant-oat"@),
        !is_oauth(None),
{
}

/// Tools that are not offered at once are offered later, but never all of them.
pub proof fn law_tools_are_placed(p: ToolPlacement)
    ensures
        p.immediate@.len() > 0 ==> first_tools(p) == p.immediate@ && later_tools(p).len()
            == p.deferred@.len(),
        p.immediate@.len() == 0 ==> first_tools(p).len() == p.deferred@.len() && later_tools(
            p,
        ).len() == 0,
        forall|i: int|
            0 <= i < p.deferred@.len() && p.immediate@.len() > 0 ==> later_tools(p)[i] == (
            #[trigger] p.deferred@[i]).1,
        forall|i: int|
            0 <= i < p.deferred@.len() && p.immediate@.len() == 0 ==> first_tools(p)[i] == (
            #[trigger] p.deferred@[i]).1,
{
}

/// A prompt is sent as it is, behind the words by which the vendor's client
/// introduces itself where a subscription asks for them.
pub proof fn law_prompt_is_sent(series: SeriesName, prompt: Seq<char>, marker: Option<Json>)
    ensures
        system_blocks(series, None, false, marker).len() == 0,
        ({
            let plain = system_blocks(series, Some(prompt), false, marker);
            &&& plain.len() == 1
            &&& says(plain[0], "type"@, Json::Str("text"@))
            &&& says(plain[0], "text"@, Json::Str(prompt))
            &&& marker matches Some(m) ==> says(plain[0], "cache_control"@, m)
        }),
        ({
            let told = system_blocks(series, Some(prompt), true, marker);
            &&& told.len() == 2
            &&& says(
                told[0],
                "text"@,
                Json::Str(
                    "You are "@ + series.title@ + " Code, Anthropic's official CLI for "@
                        + series.title@ + "."@,
                ),
            )
            &&& says(told[1], "text"@, Json::Str(prompt))
        }),
{
}

/// The effort of a level: what the model maps it to, else one that is close to it.
pub proof fn law_efforts(model: Model, level: Seq<char>, mapped: Seq<char>)
    ensures
        effort_of(model, None) == "high"@,
        mapped_level(model, level) == Some(mapped) ==> effort_of(model, Some(level)) == mapped,
        mapped_level(model, "minimal"@) is None ==> effort_of(model, Some("minimal"@)) == "low"@,
        mapped_level(model, "low"@) is None ==> effort_of(model, Some("low"@)) == "low"@,
        mapped_level(model, "medium"@) is None ==> effort_of(model, Some("medium"@)) == "medium"@,
        mapped_level(model, "high"@) is None ==> effort_of(model, Some("high"@)) == "high"@,
        mapped_level(model, "xhigh"@) is None ==> effort_of(model, Some("xhigh"@)) == "high"@,
{
    reveal_strlit("minimal");
    reveal_strlit("low");
    reveal_strlit("medium");
    reveal_strlit("high");
    reveal_strlit("xhigh");
    assert("minimal"@.len() == 7 && "low"@.len() == 3 && "medium"@.len() == 6 && "high"@.len()
        == 4 && "xhigh"@.len() == 5);
}

/// A budget for thinking is what is asked, but leaves 1024 tokens to the answer.
pub proof fn law_budget_within(budget: Number, max_tokens: Number)
    requires
        0 <= budget.nanos,
        0 <= max_tokens.nanos,
    ensures
        budget_within(budget, max_tokens).nanos <= budget.nanos,
        max_tokens.nanos >= whole(1024).nanos ==> budget_within(budget, max_tokens).nanos + whole(
            1024,
        ).nanos <= max_tokens.nanos,
        max_tokens.nanos < whole(1024).nanos ==> budget_within(budget, max_tokens).nanos == 0,
        budget.nanos + whole(1024).nanos <= max_tokens.nanos ==> budget_within(budget, max_tokens)
            == budget,
{
}

/// Without a subscription the name of a tool is sent as it is.
pub proof fn law_names_are_sent(name: Seq<char>, model: Model)
    ensures
        sent_name(name, false) == name,
        model.provider@ != "anthropic"@ ==> !references_by_default(model),
        contains_text(model.id@, "haiku"@) ==> !references_by_default(model),
        is_adaptive(model) <==> (model.compat matches Some(ModelCompat::AnthropicMessages(c))
            && c.force_adaptive_thinking == Some(true)),
{
}

} // verus!
