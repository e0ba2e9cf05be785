//! How the tool results of a completion are sent, and what an assistant has to say
//! besides its words.
use vstd::prelude::*;
use crate::api::headers::Pairs;
use crate::api::openai_completions::compat::Compat;
use crate::api::openai_completions::messages::{
    assistant_entries, assistant_message, converted_from, deferred_names, image_parts, named_tools,
    names_added, run_end, run_images, run_messages, run_results, said, spoken, takes_images,
    thought_texts, thoughts, tool_index, tools_json, Setting,
};
use crate::json::{get, has_key, lemma_with_entry, with_entry, Json};
use crate::laws::wire::{group_wire, says};
use crate::text::joined;
use crate::types::{Content, ImageContent, Message, Model, TextContent, Tool, ToolResultMessage};

verus! {

broadcast use group_wire;

/// A run of tool results is sent as one, all of it and before what follows it: first
/// the results, then one message of the user with their images, where the model
/// takes images, then the tools that they load.
pub proof fn law_run_is_sent(run: Seq<Message>, s: Setting)
    ensures
        ({
            let results = run_results(run, s.compat);
            let images = run_images(run);
            let sent = run_messages(run, s);
            let shows = takes_images(s.model) && images.len() > 0;
            let n = results.len() as int;
            &&& sent.len() >= n && sent.take(n) =~= results
            &&& !shows && s.compat.deferred_tools_mode is None ==> sent.len() == n
            &&& shows && s.compat.deferred_tools_mode is None
                && !s.compat.requires_assistant_after_tool_result ==> sent.len() == n + 1 && says(
                sent[n],
                "role"@,
                Json::Str("user"@),
            ) && exists|list: Seq<Json>| #[trigger]
                says(sent[n], "content"@, Json::Array(list)) && list.len() == images.len() + 1
                    && says(
                    list[0],
                    "text"@,
                    Json::Str("Attached image(s) from tool result:"@),
                ) && list.skip(1) =~= images
            &&& shows && s.compat.deferred_tools_mode is None
                && s.compat.requires_assistant_after_tool_result ==> sent.len() == n + 2 && says(
                sent[n],
                "role"@,
                Json::Str("assistant"@),
            ) && says(
                sent[n],
                "content"@,
                Json::Str("I have processed the tool results."@),
            ) && says(sent[n + 1], "role"@, Json::Str("user"@))
        }),
{
    let results = run_results(run, s.compat);
    let images = run_images(run);
    let sent = run_messages(run, s);
    let n = results.len() as int;
    assert(sent.take(n) =~= results);
    if takes_images(s.model) && images.len() > 0 && s.compat.deferred_tools_mode is None
        && !s.compat.requires_assistant_after_tool_result {
        let list = Seq::<Json>::empty().push(
            crate::api::blocks::text_part("Attached image(s) from tool result:"@),
        ) + images;
        assert(list.skip(1) =~= images);
        assert(says(sent[n], "content"@, Json::Array(list)));
    }
}

/// The images of a run are those of its results, in order.
pub proof fn law_images_of_a_run(
    run: Seq<Message>,
    result: ToolResultMessage,
    content: Seq<Content>,
    image: ImageContent,
    text: TextContent,
)
    ensures
        run_images(Seq::empty()).len() == 0,
        run_images(run.push(Message::ToolResult(result))) == run_images(run) + image_parts(
            result.content@,
        ),
        image_parts(Seq::empty()).len() == 0,
        image_parts(content.push(Content::Text(text))) == image_parts(content),
        ({
            let after = image_parts(content.push(Content::Image(image)));
            &&& after.drop_last() =~= image_parts(content)
            &&& says(after.last(), "type"@, Json::Str("image_url"@))
            &&& exists|inner: Json| #[trigger]
                says(after.last(), "image_url"@, inner) && says(
                    inner,
                    "url"@,
                    Json::Str("data:"@ + image.mime_type@ + ";base64,"@ + image.data@),
                )
        }),
{
    assert(run.push(Message::ToolResult(result)).drop_last() =~= run);
    assert(content.push(Content::Text(text)).drop_last() =~= content);
    assert(content.push(Content::Image(image)).drop_last() =~= content);
    let after = image_parts(content.push(Content::Image(image)));
    let inner = crate::json::one_entry(
        "url"@,
        Json::Str(crate::api::blocks::data_url(image.mime_type@, image.data@)),
    );
    assert(says(after.last(), "image_url"@, inner));
}

proof fn lemma_run_is(messages: Seq<Message>, i: int, end: int)
    requires
        0 <= i <= end <= messages.len(),
        forall|j: int| i <= j < end ==> (#[trigger] messages[j]) is ToolResult,
        end < messages.len() ==> messages[end] !is ToolResult,
    ensures
        run_end(messages, i) == end,
    decreases end - i,
{
    if i < end {
        assert(messages[i] is ToolResult);
        lemma_run_is(messages, i + 1, end);
    }
}

/// Results that follow each other are sent together, and what follows them is sent
/// behind them.
pub proof fn law_runs_follow_each_other(
    messages: Seq<Message>,
    i: int,
    end: int,
    after_tool: bool,
    s: Setting,
)
    requires
        0 <= i < end <= messages.len(),
        forall|j: int| i <= j < end ==> (#[trigger] messages[j]) is ToolResult,
        end < messages.len() ==> messages[end] !is ToolResult,
    ensures
        ({
            let run = messages.subrange(i, end);
            let shows = takes_images(s.model) && run_images(run).len() > 0;
            converted_from(messages, i, after_tool, s) == run_messages(run, s) + converted_from(
                messages,
                end,
                !shows,
                s,
            )
        }),
        converted_from(messages, messages.len() as int, after_tool, s).len() == 0,
{
    lemma_run_is(messages, i, end);
    assert(messages[i] is ToolResult);
}

/// The names that results add are kept once each, in order, and stand for the first
/// tool of their name.
pub proof fn law_added_tools(
    names: Seq<Seq<char>>,
    more: Seq<Seq<char>>,
    name: Seq<char>,
    tools: Seq<Tool>,
    i: int,
)
    ensures
        names_added(names, Seq::empty()) == names,
        names_added(names, more).contains(name) ==> names_added(names, more.push(name))
            == names_added(names, more),
        !names_added(names, more).contains(name) ==> names_added(names, more.push(name))
            == names_added(names, more).push(name),
        0 <= i < tools.len() && tools[i].name@ == name && (forall|j: int|
            0 <= j < i ==> (#[trigger] tools[j]).name@ != name) ==> named_tools(
            tools,
            names.push(name),
        ) == named_tools(tools, names).push(tools[i]),
        (forall|j: int| 0 <= j < tools.len() ==> (#[trigger] tools[j]).name@ != name)
            ==> named_tools(tools, names.push(name)) == named_tools(tools, names),
{
    assert(more.push(name).drop_last() =~= more);
    assert(names.push(name).drop_last() =~= names);
    lemma_tool_index(tools, name);
    let k = tool_index(tools, name);
    if 0 <= i < tools.len() && tools[i].name@ == name && (forall|j: int|
        0 <= j < i ==> (#[trigger] tools[j]).name@ != name) {
        if k < i {
            assert(tools[k].name@ != name);
        }
        if i < k {
            assert(tools[i].name@ != name);
        }
    }
}

proof fn lemma_tool_index(tools: Seq<Tool>, name: Seq<char>)
    ensures
        0 <= tool_index(tools, name) <= tools.len(),
        tool_index(tools, name) < tools.len() ==> tools[tool_index(tools, name)].name@ == name,
        forall|j: int| 0 <= j < tool_index(tools, name) ==> (#[trigger] tools[j]).name@ != name,
    decreases tools.len(),
{
    if tools.len() > 0 && tools[0].name@ != name {
        let d = tools.drop_first();
        lemma_tool_index(d, name);
        assert forall|j: int| 0 <= j < tool_index(tools, name) implies (#[trigger] tools[j]).name@
            != name by {
            if j > 0 {
                assert(d[j - 1].name@ != name);
            }
        }
    }
}

/// The tools that a run of results loads are sent behind them, to the endpoints that
/// load tools in that way.
pub proof fn law_loaded_tools_are_sent(run: Seq<Message>, s: Setting)
    requires
        s.compat.deferred_tools_mode == Some("kimi"@),
        named_tools(s.tools, deferred_names(run)).len() > 0,
    ensures
        ({
            let last = run_messages(run, s).last();
            &&& says(last, "role"@, Json::Str("system"@))
            &&& says(
                last,
                "tools"@,
                Json::Array(tools_json(named_tools(s.tools, deferred_names(run)), s.compat)),
            )
        }),
{
}

/// Thinking that has to go back as text goes back as the first text, with a blank
/// line between two thoughts; one provider gets back as `reasoning_content` what came
/// as `reasoning`.
pub proof fn law_thinking_goes_back_as_text(model: Model, content: Seq<Content>, compat: Compat)
    requires
        thoughts(content).len() > 0,
    ensures
        compat.requires_thinking_as_text ==> (get(said(model, content, compat), "content"@) matches
            Some(Json::Array(list)) && list.len() == spoken(content).len() + 1 && says(
            list[0],
            "text"@,
            Json::Str(joined(thought_texts(thoughts(content)), "\n\n"@)),
        ) && forall|i: int|
            0 <= i < spoken(content).len() ==> says(
                #[trigger] list[i + 1],
                "text"@,
                Json::Str(spoken(content)[i]),
            )),
        !compat.requires_thinking_as_text && model.provider@ == "opencode-go"@ && thoughts(
            content,
        )[0].1 == Some("reasoning"@) ==> get(said(model, content, compat), "reasoning_content"@)
            == Some(Json::Str(joined(thought_texts(thoughts(content)), "\n"@))),
{
    let begin = crate::json::EntriesSpec::put(
        crate::json::EntriesSpec::put(
            crate::json::no_entries(),
            "role"@,
            Json::Str("assistant"@),
        ),
        "content"@,
        if compat.requires_assistant_after_tool_result {
            Json::Str(Seq::empty())
        } else {
            Json::Null
        },
    );
    let text = joined(spoken(content), Seq::empty());
    let with_text = if text.len() > 0 {
        with_entry(begin, "content"@, Json::Str(text))
    } else {
        begin
    };
    let list = Seq::<Json>::empty().push(
        crate::api::blocks::text_part(joined(thought_texts(thoughts(content)), "\n\n"@)),
    ) + crate::api::openai_completions::messages::text_parts(spoken(content));
    lemma_with_entry(begin, "content"@, Json::Array(list), "content"@);
    reveal_strlit("reasoning_content");
    assert("reasoning_content"@.len() > 0);
    lemma_with_entry(
        with_text,
        "reasoning_content"@,
        Json::Str(joined(thought_texts(thoughts(content)), "\n"@)),
        "reasoning_content"@,
    );
}

/// An assistant that has to have reasoning has some, if only an empty one, and the
/// encrypted reasoning of its calls goes back with them.
pub proof fn law_reasoning_goes_along(
    model: Model,
    content: Seq<Content>,
    compat: Compat,
    properties: Pairs,
    parse: spec_fn(Seq<char>) -> Option<Json>,
)
    ensures
        compat.requires_reasoning_content_on_assistant_messages && model.reasoning ==> get(
            assistant_entries(model, content, compat, properties, parse),
            "reasoning_content"@,
        ) is Some,
        ({
            let details = crate::api::openai_completions::messages::reasoning_details(
                content,
                parse,
            );
            let calls = crate::api::openai_completions::messages::calls_json(content, properties);
            calls.len() > 0 && details.len() > 0 ==> get(
                assistant_entries(model, content, compat, properties, parse),
                "reasoning_details"@,
            ) == Some(Json::Array(details))
        }),
{
    let begun = said(model, content, compat);
    let details = crate::api::openai_completions::messages::reasoning_details(content, parse);
    let calls = crate::api::openai_completions::messages::calls_json(content, properties);
    let first = with_entry(begun, "tool_calls"@, Json::Array(calls));
    let called = if calls.len() == 0 {
        begun
    } else if details.len() == 0 {
        first
    } else {
        with_entry(first, "reasoning_details"@, Json::Array(details))
    };
    reveal_strlit("reasoning_details");
    reveal_strlit("reasoning_content");
    assert("reasoning_details"@[10] == 'd' && "reasoning_content"@[10] == 'c');
    lemma_with_entry(first, "reasoning_details"@, Json::Array(details), "reasoning_details"@);
    lemma_with_entry(
        called,
        "reasoning_content"@,
        Json::Str(Seq::empty()),
        "reasoning_content"@,
    );
    lemma_with_entry(
        called,
        "reasoning_content"@,
        Json::Str(Seq::empty()),
        "reasoning_details"@,
    );
    assert(has_key(called, "reasoning_content"@) ==> get(called, "reasoning_content"@) is Some);
}

/// The encrypted reasoning of a conversation is that of its calls, in order.
pub proof fn law_details_are_collected(
    content: Seq<Content>,
    call: crate::types::ToolCall,
    detail: Json,
    parse: spec_fn(Seq<char>) -> Option<Json>,
)
    ensures
        call.thought_signature is None
            ==> crate::api::openai_completions::messages::reasoning_details(
            content.push(Content::ToolCall(call)),
            parse,
        ) == crate::api::openai_completions::messages::reasoning_details(content, parse),
        call.thought_signature matches Some(signature) ==> parse(signature@) == Some(detail)
            ==> crate::api::openai_completions::messages::reasoning_details(
            content.push(Content::ToolCall(call)),
            parse,
        ) == crate::api::openai_completions::messages::reasoning_details(content, parse).push(
            detail,
        ),
{
    assert(content.push(Content::ToolCall(call)).drop_last() =~= content);
}

/// An assistant that neither says nor calls anything is not sent.
pub proof fn law_silence_is_not_sent(
    model: Model,
    content: Seq<Content>,
    compat: Compat,
    properties: Pairs,
    parse: spec_fn(Seq<char>) -> Option<Json>,
)
    ensures
        ({
            let e = assistant_entries(model, content, compat, properties, parse);
            let sent = assistant_message(model, content, compat, properties, parse);
            &&& get(e, "tool_calls"@) is Some ==> sent == Some(Json::Object(e))
            &&& get(e, "tool_calls"@) is None && get(e, "content"@) == Some(Json::Null) ==> sent
                is None
            &&& get(e, "tool_calls"@) is None && get(e, "content"@) == Some(
                Json::Str(Seq::empty()),
            ) ==> sent is None
            &&& get(e, "content"@) matches Some(Json::Str(text)) ==> text.len() > 0 ==> sent
                == Some(Json::Object(e))
        }),
{
}

} // verus!
