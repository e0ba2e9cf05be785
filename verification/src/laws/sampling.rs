//! How tools are sampled, and what the input of a grammar tool is streamed as.
use vstd::prelude::*;
use crate::api::constrained_sampling::{
    append_step, grammar_input_property, grammar_properties, grammar_sampling, grammar_tool_input,
    strict_sampling, JsonBuffer,
};
use crate::api::openai_stream::{custom_call_finished, CallItem, CustomInput, Progress};
use crate::json::{escaped, get, one_entry, Entries, Json};
use crate::text::is_blank;
use crate::types::{Block, ConstrainedSampling, ConstrainedSamplingConfig, Event, Tool};

verus! {

/// A tool that asks for strict sampling gets it where it can be had; where it
/// cannot, a tool that must have it is refused and any other goes without.
pub proof fn law_strict_sampling(tool: Tool)
    ensures
        tool.constrained_sampling is None ==> strict_sampling(tool, true) == Ok::<
            Option<bool>,
            Seq<char>,
        >(None) && strict_sampling(tool, false) == Ok::<Option<bool>, Seq<char>>(None),
        tool.constrained_sampling matches Some(
            ConstrainedSampling::Config(ConstrainedSamplingConfig::JsonSchema { strict }),
        ) ==> {
            &&& strict_sampling(tool, true) == Ok::<Option<bool>, Seq<char>>(Some(true))
            &&& strict@ == "require"@ ==> strict_sampling(tool, false) is Err
            &&& strict@ != "require"@ ==> strict_sampling(tool, false) == Ok::<
                Option<bool>,
                Seq<char>,
            >(None)
        },
{
}

/// A grammar tool is sampled by its Lark grammar, else by its regular expression,
/// and takes its input under the one property that it requires.
pub proof fn law_grammar_sampling(
    tool: Tool,
    variants: Vec<(String, String)>,
    lark: Seq<char>,
    regex: Seq<char>,
    property: Seq<char>,
)
    requires
        tool.constrained_sampling == Some(
            ConstrainedSampling::Config(ConstrainedSamplingConfig::Grammar { variants }),
        ),
        grammar_input_property(tool) == Ok::<Seq<char>, Seq<char>>(property),
    ensures
        grammar_sampling(tool, false) matches Ok(None),
        get(crate::types::pairs(variants@), "openai_lark"@) == Some(lark) && !is_blank(lark) ==> (
        grammar_sampling(tool, true) matches Ok(Some(g)) && g.format == "lark"@ && g.definition
            == lark && g.input_property == property),
        get(crate::types::pairs(variants@), "openai_lark"@) is None && get(
            crate::types::pairs(variants@),
            "openai_regex"@,
        ) == Some(regex) && !is_blank(regex) ==> (grammar_sampling(tool, true) matches Ok(Some(g))
            && g.format == "regex"@ && g.definition == regex && g.input_property == property),
        get(crate::types::pairs(variants@), "openai_lark"@) is None && get(
            crate::types::pairs(variants@),
            "openai_regex"@,
        ) is None ==> grammar_sampling(tool, true) is Err,
{
}

/// The property that takes the input of a grammar tool is the only one that it
/// requires.
pub proof fn law_input_property(tool: Tool)
    ensures
        grammar_input_property(tool) matches Ok(name) ==> (tool.parameters.required matches Some(
            required,
        ) && required@.len() == 1 && required@[0]@ == name),
        tool.parameters.required is None ==> grammar_input_property(tool) is Err,
        tool.parameters.properties is None ==> grammar_input_property(tool) is Err,
        tool.parameters.type_ is None ==> grammar_input_property(tool) is Err,
{
}

/// Each grammar tool is listed with its property, in order, and no other tool is.
pub proof fn law_grammar_tools_are_listed(tools: Seq<Tool>, tool: Tool, supports: bool)
    ensures
        grammar_properties(Seq::empty(), supports).len() == 0,
        grammar_sampling(tool, supports) matches Ok(Some(g)) ==> grammar_properties(
            tools.push(tool),
            supports,
        ) == grammar_properties(tools, supports).push((tool.name@, g.input_property)),
        !(grammar_sampling(tool, supports) matches Ok(Some(_))) ==> grammar_properties(
            tools.push(tool),
            supports,
        ) == grammar_properties(tools, supports),
{
    assert(tools.push(tool).drop_last() =~= tools);
}

/// The input of a grammar tool is the text under its property.
pub proof fn law_grammar_input_is_found(
    name: Seq<char>,
    e: Entries,
    property: Seq<char>,
    input: Seq<char>,
)
    ensures
        get(e, property) == Some(Json::Str(input)) ==> grammar_tool_input(
            name,
            Json::Object(e),
            property,
        ) == Ok::<Seq<char>, Seq<char>>(input),
        get(e, property) is None ==> grammar_tool_input(name, Json::Object(e), property) is Err,
        grammar_tool_input(name, Json::Null, property) is Err,
{
}

/// What is streamed of the input of a grammar tool: the beginning of an object with
/// its property, then the input as it grows, then the end of the object.
pub proof fn law_input_is_streamed_as_json(
    property: Seq<char>,
    before: Seq<char>,
    more: Seq<char>,
)
    requires
        more.len() > 0,
    ensures
        append_step(
            JsonBuffer { input: Seq::empty(), started: false, closed: false },
            property,
            more,
            false,
        ) == (
            JsonBuffer { input: more, started: true, closed: false },
            Ok::<Option<Seq<char>>, Seq<char>>(
                Some("{\""@ + property + "\":\""@ + escaped(more)),
            ),
        ),
        append_step(
            JsonBuffer { input: before, started: true, closed: false },
            property,
            before + more,
            false,
        ) == (
            JsonBuffer { input: before + more, started: true, closed: false },
            Ok::<Option<Seq<char>>, Seq<char>>(Some(escaped(more))),
        ),
        append_step(
            JsonBuffer { input: before, started: true, closed: false },
            property,
            before,
            true,
        ) == (
            JsonBuffer { input: before, started: true, closed: true },
            Ok::<Option<Seq<char>>, Seq<char>>(Some("\"}"@)),
        ),
        append_step(
            JsonBuffer { input: before, started: true, closed: false },
            property,
            before,
            false,
        ).1 matches Ok(None),
        append_step(
            JsonBuffer { input: before, started: true, closed: true },
            property,
            before + more,
            true,
        ).1 is Err,
        !before.is_prefix_of(more) ==> append_step(
            JsonBuffer { input: before, started: true, closed: false },
            property,
            more,
            true,
        ).1 is Err,
{
    let whole = before + more;
    let nothing = Seq::<char>::empty();
    assert(whole.take(before.len() as int) =~= before);
    assert(before.is_prefix_of(whole));
    assert(whole.skip(before.len() as int) =~= more);
    assert(before.take(before.len() as int) =~= before);
    assert(before.is_prefix_of(before));
    assert(before.skip(before.len() as int) =~= nothing);
    assert(more.take(0) =~= nothing);
    assert(nothing.is_prefix_of(more));
    assert(more.skip(0) =~= more);
    assert(escaped(nothing) =~= nothing);
    assert(nothing + escaped(more) + nothing =~= escaped(more));
    assert(nothing + nothing + "\"}"@ =~= "\"}"@);
    let open = "{\""@ + property + "\":\""@;
    assert(open + escaped(more) + nothing =~= open + escaped(more));
    assert(whole.len() != before.len());
}

/// A custom call that ends has the input of its item under its property; the end of
/// its JSON is sent on, and then the call as it then is.
pub proof fn law_custom_call_ends(
    p: Progress,
    at: int,
    item: CallItem,
    property: Seq<char>,
    before: Seq<char>,
    more: Seq<char>,
)
    requires
        0 <= at < p.reply.content.len(),
        p.reply.content[at] is ToolCall,
        item.input == before + more,
        item.input.len() > 0,
    ensures
        ({
            let custom = CustomInput {
                property,
                buffer: JsonBuffer { input: before, started: true, closed: false },
            };
            let after = custom_call_finished(p, at, item, custom);
            let was = p.reply.content[at]->ToolCall_0;
            let now = after.reply.content[at];
            &&& after.reply.content.len() == p.reply.content.len()
            &&& now matches Block::ToolCall(call) && call.id == was.id && call.name == was.name
                && call.arguments == one_entry(property, Json::Str(item.input)) && (item.namespace
                is Some ==> call.namespace == item.namespace) && (item.namespace is None
                ==> call.namespace == was.namespace)
            &&& after.sent.len() == p.sent.len() + 2
            &&& after.sent[p.sent.len() as int] matches Event::ToolCallDelta {
                content_index,
                delta,
                ..
            } && content_index == at && delta == escaped(more) + "\"}"@
            &&& after.sent.last() == (Event::ToolCallEnd {
                content_index: at,
                tool_call: now->ToolCall_0,
                partial: after.reply,
            })
        }),
{
    let whole = before + more;
    assert(whole.take(before.len() as int) =~= before);
    assert(before.is_prefix_of(whole));
    assert(whole.skip(before.len() as int) =~= more);
    assert(Seq::<char>::empty() + escaped(more) + "\"}"@ =~= escaped(more) + "\"}"@);
}

} // verus!
