//! Constrained sampling: which tools are sampled strictly or by a grammar, and
//! how the text of a grammar tool is streamed as JSON.
use vstd::prelude::*;
use vstd::string::*;
use crate::json::{as_object, escape, escaped, find_key, get, get_value, lemma_key_index_is, Json, Value};
use crate::text::{blank, cat3, cat5, is_blank, skip_chars, starts_with, str_eq};
use crate::types::{
    pairs, ConstrainedSampling, ConstrainedSamplingConfig, PropertySchema, Tool,
};

verus! {

#[derive(Clone, Debug, PartialEq, Eq)]
pub struct GrammarConstrainedSampling {
    pub format: String,
    pub definition: String,
    pub input_property: String,
}

/// The JSON text that has been streamed so far for the input of a grammar tool.
#[derive(Clone, Debug, PartialEq, Eq)]
pub struct GrammarToolInputJsonBuffer {
    pub input: String,
    pub started: bool,
    pub closed: bool,
}

/// What a buffer holds.
pub struct JsonBuffer {
    pub input: Seq<char>,
    pub started: bool,
    pub closed: bool,
}

impl View for GrammarToolInputJsonBuffer {
    type V = JsonBuffer;

    open spec fn view(&self) -> JsonBuffer {
        JsonBuffer { input: self.input@, started: self.started, closed: self.closed }
    }
}

/// A buffer from which nothing has been streamed.
pub open spec fn empty_buffer() -> JsonBuffer {
    JsonBuffer { input: Seq::empty(), started: false, closed: false }
}

impl Default for GrammarToolInputJsonBuffer {
    fn default() -> (r: Self)
        ensures
            r@ == empty_buffer(),
    {
        GrammarToolInputJsonBuffer { input: String::new(), started: false, closed: false }
    }
}

/// The texts of a result.
pub open spec fn res_text(r: Result<String, String>) -> Result<Seq<char>, Seq<char>> {
    match r {
        Ok(s) => Ok(s@),
        Err(e) => Err(e@),
    }
}

/// The texts of a result that may be empty.
pub open spec fn res_opt_text(r: Result<Option<String>, String>) -> Result<
    Option<Seq<char>>,
    Seq<char>,
> {
    match r {
        Ok(s) => Ok(crate::text::opt_text(s)),
        Err(e) => Err(e@),
    }
}

/// The string under a property of the arguments of a tool call.
pub open spec fn grammar_tool_input(
    tool_name: Seq<char>,
    arguments: Json,
    property: Seq<char>,
) -> Result<Seq<char>, Seq<char>> {
    match arguments {
        Json::Object(entries) => match get(entries, property) {
            Some(Json::Str(input)) => Ok(input),
            _ => Err(not_a_string(tool_name, property)),
        },
        _ => Err(not_a_string(tool_name, property)),
    }
}

pub open spec fn not_a_string(tool_name: Seq<char>, property: Seq<char>) -> Seq<char> {
    "Grammar tool call \""@ + tool_name + "\" requires argument \""@ + property
        + "\" to be a string."@
}

/// Reads the input of a grammar tool from the arguments of a call.
pub fn get_grammar_tool_input(tool_name: &str, arguments: &Value, input_property: &str) -> (r:
    Result<String, String>)
    ensures
        res_text(r) == grammar_tool_input(tool_name@, arguments@, input_property@),
{
    match arguments.as_object() {
        Some(entries) => match get_value(entries, input_property) {
            Some(Value::Str(input)) => return Ok(input.clone()),
            _ => {},
        },
        None => {},
    }
    Err(
        cat5(
            "Grammar tool call \"",
            tool_name,
            "\" requires argument \"",
            input_property,
            "\" to be a string.",
        ),
    )
}

// ---------------------------------------------------------------------------
// Streaming the input as JSON
// ---------------------------------------------------------------------------

pub open spec fn opening(property: Seq<char>) -> Seq<char> {
    "{\""@ + property + "\":\""@
}

/// What one step does to a buffer, and what it streams.
pub open spec fn append_step(
    buffer: JsonBuffer,
    property: Seq<char>,
    next_input: Seq<char>,
    close: bool,
) -> (JsonBuffer, Result<Option<Seq<char>>, Seq<char>>) {
    if buffer.closed {
        if close && next_input == buffer.input {
            (buffer, Ok(None))
        } else {
            (
                buffer,
                Err(
                    "grammar tool input for property \""@ + property
                        + "\" changed after it was closed"@,
                ),
            )
        }
    } else if !buffer.input.is_prefix_of(next_input) {
        (
            buffer,
            Err("grammar tool input for property \""@ + property + "\" changed non-monotonically"@),
        )
    } else if !close && next_input.len() == buffer.input.len() {
        (buffer, Ok(None))
    } else {
        let open = if buffer.started {
            Seq::empty()
        } else {
            opening(property)
        };
        let body = escaped(next_input.skip(buffer.input.len() as int));
        let end = if close {
            "\"}"@
        } else {
            Seq::empty()
        };
        (
            JsonBuffer { input: next_input, started: true, closed: close },
            Ok(Some(open + body + end)),
        )
    }
}

/// Takes the input of a grammar tool as it is known now and gives the JSON text
/// to stream next, or `None` where there is nothing to stream yet.
pub fn append_grammar_tool_input_json_delta(
    buffer: &mut GrammarToolInputJsonBuffer,
    input_property: &str,
    next_input: &str,
    close: bool,
) -> (r: Result<Option<String>, String>)
    ensures
        (final(buffer)@, res_opt_text(r)) == append_step(
            old(buffer)@,
            input_property@,
            next_input@,
            close,
        ),
{
    if buffer.closed {
        if close && str_eq(next_input, buffer.input.as_str()) {
            return Ok(None);
        }
        return Err(
            cat3(
                "grammar tool input for property \"",
                input_property,
                "\" changed after it was closed",
            ),
        );
    }
    if !starts_with(next_input, buffer.input.as_str()) {
        return Err(
            cat3(
                "grammar tool input for property \"",
                input_property,
                "\" changed non-monotonically",
            ),
        );
    }
    let sent: usize = crate::text::char_count(buffer.input.as_str());
    let input_delta = skip_chars(next_input, sent);
    if !close && input_delta.as_str().is_empty() {
        return Ok(None);
    }
    let mut delta = if buffer.started {
        String::new()
    } else {
        cat3("{\"", input_property, "\":\"")
    };
    buffer.started = true;
    delta.append(escape(input_delta.as_str()).as_str());
    buffer.input = next_input.to_owned();
    if close {
        delta.append("\"}");
        buffer.closed = true;
    }
    proof {
        let open = if old(buffer)@.started {
            Seq::empty()
        } else {
            opening(input_property@)
        };
        let body = escaped(next_input@.skip(old(buffer)@.input.len() as int));
        if !close {
            assert(open + body + Seq::<char>::empty() =~= open + body);
        }
    }
    Ok(Some(delta))
}

/// All that has been streamed from a buffer.
pub open spec fn streamed(buffer: JsonBuffer, property: Seq<char>) -> Seq<char> {
    if buffer.started {
        let text = opening(property) + escaped(buffer.input);
        if buffer.closed {
            text + "\"}"@
        } else {
            text
        }
    } else {
        Seq::empty()
    }
}

/// Whether a buffer can come of streaming: it holds input only once it has
/// started, and it is closed only once it has started.
pub open spec fn buffer_wf(buffer: JsonBuffer) -> bool {
    !buffer.started ==> buffer.input.len() == 0 && !buffer.closed
}

pub proof fn lemma_escaped_concat(a: Seq<char>, b: Seq<char>)
    ensures
        escaped(a + b) == escaped(a) + escaped(b),
    decreases b.len(),
{
    if b.len() == 0 {
        assert(a + b =~= a);
        assert(escaped(a) + escaped(b) =~= escaped(a));
    } else {
        lemma_escaped_concat(a, b.drop_last());
        assert((a + b).drop_last() =~= a + b.drop_last());
        assert((a + b).last() == b.last());
        assert(escaped(a) + (escaped(b.drop_last()) + crate::json::escape_char(b.last()))
            =~= escaped(a) + escaped(b.drop_last()) + crate::json::escape_char(b.last()));
    }
}

/// Each step adds to the streamed text exactly the delta that it returns, and
/// keeps the buffer well formed. A step that fails changes nothing.
pub proof fn law_deltas_add_up(
    buffer: JsonBuffer,
    property: Seq<char>,
    next_input: Seq<char>,
    close: bool,
)
    requires
        buffer_wf(buffer),
    ensures
        ({
            let (after, result) = append_step(buffer, property, next_input, close);
            &&& buffer_wf(after)
            &&& result matches Ok(Some(delta)) ==> streamed(after, property) == streamed(
                buffer,
                property,
            ) + delta && after.input == next_input
            &&& !(result matches Ok(Some(_))) ==> after == buffer
        }),
{
    let (after, result) = append_step(buffer, property, next_input, close);
    if let Ok(Some(delta)) = result {
        let tail = next_input.skip(buffer.input.len() as int);
        assert(buffer.input + tail =~= next_input);
        lemma_escaped_concat(buffer.input, tail);
        let end = if close {
            "\"}"@
        } else {
            Seq::<char>::empty()
        };
        if buffer.started {
            assert(streamed(buffer, property) + delta =~= opening(property) + escaped(next_input)
                + end);
        } else {
            assert(buffer.input =~= Seq::<char>::empty());
            assert(escaped(buffer.input) =~= Seq::<char>::empty());
            assert(escaped(next_input) =~= escaped(tail));
            assert(streamed(buffer, property) + delta =~= opening(property) + escaped(next_input)
                + end);
        }
        assert(streamed(after, property) =~= opening(property) + escaped(next_input) + end);
    }
}

/// A buffer that has been closed has streamed one JSON object whose single
/// property is the input.
pub proof fn law_closed_stream_is_an_object(buffer: JsonBuffer, property: Seq<char>)
    requires
        buffer_wf(buffer),
        buffer.closed,
    ensures
        streamed(buffer, property) == "{\""@ + property + "\":\""@ + escaped(buffer.input) + "\"}"@,
{
}

// ---------------------------------------------------------------------------
// Sampling of tools
// ---------------------------------------------------------------------------

/// Whether a schema has one type, and which.
pub open spec fn has_type(types: Option<Vec<String>>, name: Seq<char>) -> bool {
    types matches Some(types) && types@.len() == 1 && types@[0]@ == name
}

pub open spec fn property_at(properties: Seq<(String, PropertySchema)>) -> Seq<(
    Seq<char>,
    PropertySchema,
)> {
    Seq::new(properties.len(), |i: int| (properties[i].0@, properties[i].1))
}

/// The one required string property of a tool's parameters, which takes the
/// input of a grammar tool.
pub open spec fn grammar_input_property(tool: Tool) -> Result<Seq<char>, Seq<char>> {
    let schema = tool.parameters;
    if !has_type(schema.type_, "object"@) {
        Err("grammar constrained sampling requires an object parameter schema"@)
    } else if !(schema.required matches Some(required) && required@.len() == 1) {
        Err("grammar constrained sampling requires exactly one required string property"@)
    } else {
        let name = schema.required->0@[0]@;
        let property = match schema.properties {
            Some(properties) => get(property_at(properties@), name),
            None => None,
        };
        match property {
            None => Err(
                "grammar constrained sampling requires a properties entry for "@ + name,
            ),
            Some(property) => if has_type(property.type_, "string"@) {
                Ok(name)
            } else {
                Err(
                    "grammar constrained sampling property "@ + name + " must have type string"@,
                )
            },
        }
    }
}

fn is_type(types: &Option<Vec<String>>, name: &str) -> (r: bool)
    ensures
        r == has_type(*types, name@),
{
    match types {
        Some(types) => types.len() == 1 && str_eq(types[0].as_str(), name),
        None => false,
    }
}

fn infer_grammar_input_property(tool: &Tool) -> (r: Result<String, String>)
    ensures
        res_text(r) == grammar_input_property(*tool),
{
    let schema = &tool.parameters;
    if !is_type(&schema.type_, "object") {
        return Err(
            "grammar constrained sampling requires an object parameter schema".to_owned(),
        );
    }
    let input_property = match &schema.required {
        Some(required) if required.len() == 1 => required[0].clone(),
        _ => {
            return Err(
                "grammar constrained sampling requires exactly one required string property".to_owned(),
            );
        },
    };
    match &schema.properties {
        Some(properties) => match find_key(properties, input_property.as_str()) {
            Some(i) => {
                proof {
                    lemma_key_index_is(property_at(properties@), input_property@, i as int);
                }
                if is_type(&properties[i].1.type_, "string") {
                    return Ok(input_property);
                }
                return Err(
                    cat3(
                        "grammar constrained sampling property ",
                        input_property.as_str(),
                        " must have type string",
                    ),
                );
            },
            None => {
                proof {
                    lemma_key_index_is(
                        property_at(properties@),
                        input_property@,
                        properties@.len() as int,
                    );
                }
            },
        },
        None => {},
    }
    Err(
        crate::text::cat2(
            "grammar constrained sampling requires a properties entry for ",
            input_property.as_str(),
        ),
    )
}

/// Whether a tool is to be sampled strictly by its JSON schema.
pub open spec fn strict_sampling(tool: Tool, supports_strict_mode: bool) -> Result<
    Option<bool>,
    Seq<char>,
> {
    match tool.constrained_sampling {
        Some(ConstrainedSampling::Config(ConstrainedSamplingConfig::JsonSchema { strict })) => {
            if supports_strict_mode {
                Ok(Some(true))
            } else if strict@ == "require"@ {
                Err(
                    "Tool \""@ + tool.name@
                        + "\" requires JSON-schema constrained sampling, but strict tools are unsupported."@,
                )
            } else {
                Ok(None)
            }
        },
        _ => Ok(None),
    }
}

/// `strict_sampling`, where a refusal counts as nothing asked.
pub open spec fn strict_or_none(tool: Tool, supports_strict_mode: bool) -> Option<bool> {
    match strict_sampling(tool, supports_strict_mode) {
        Ok(strict) => strict,
        Err(_) => None,
    }
}

pub fn resolve_json_schema_strict_sampling(tool: &Tool, supports_strict_mode: bool) -> (r: Result<
    Option<bool>,
    String,
>)
    ensures
        match r {
            Ok(strict) => strict_sampling(*tool, supports_strict_mode) == Ok::<
                Option<bool>,
                Seq<char>,
            >(strict),
            Err(e) => strict_sampling(*tool, supports_strict_mode) == Err::<
                Option<bool>,
                Seq<char>,
            >(e@),
        },
{
    match &tool.constrained_sampling {
        Some(ConstrainedSampling::Config(ConstrainedSamplingConfig::JsonSchema { strict })) => {
            if supports_strict_mode {
                return Ok(Some(true));
            }
            if str_eq(strict.as_str(), "require") {
                return Err(
                    cat3(
                        "Tool \"",
                        tool.name.as_str(),
                        "\" requires JSON-schema constrained sampling, but strict tools are unsupported.",
                    ),
                );
            }
            Ok(None)
        },
        _ => Ok(None),
    }
}

/// Whether a tool is sampled strictly, where a refusal counts as nothing asked.
pub fn strict_sampling_or_none(tool: &Tool, supports_strict_mode: bool) -> (r: Option<bool>)
    ensures
        r == strict_or_none(*tool, supports_strict_mode),
{
    match resolve_json_schema_strict_sampling(tool, supports_strict_mode) {
        Ok(strict) => strict,
        Err(_) => None,
    }
}

/// What a grammar tool is sampled by.
pub struct GrammarSampling {
    pub format: Seq<char>,
    pub definition: Seq<char>,
    pub input_property: Seq<char>,
}

impl View for GrammarConstrainedSampling {
    type V = GrammarSampling;

    open spec fn view(&self) -> GrammarSampling {
        GrammarSampling {
            format: self.format@,
            definition: self.definition@,
            input_property: self.input_property@,
        }
    }
}

/// The grammar of a kind that a tool offers, unless it is blank.
pub open spec fn grammar_definition(variants: Seq<(String, String)>, kind: Seq<char>) -> Option<
    Seq<char>,
> {
    match get(pairs(variants), kind) {
        Some(definition) => if is_blank(definition) {
            None
        } else {
            Some(definition)
        },
        None => None,
    }
}

/// The grammar that a tool is sampled by: the Lark grammar before the regular
/// expression.
pub open spec fn grammar_sampling(tool: Tool, supports_grammar_tools: bool) -> Result<
    Option<GrammarSampling>,
    Seq<char>,
> {
    match tool.constrained_sampling {
        Some(ConstrainedSampling::Config(ConstrainedSamplingConfig::Grammar { variants })) => {
            let lark = grammar_definition(variants@, "openai_lark"@);
            let regex = grammar_definition(variants@, "openai_regex"@);
            if !supports_grammar_tools {
                Ok(None)
            } else if lark is None && regex is None {
                Err(
                    "Tool \""@ + tool.name@
                        + "\" cannot use grammar constrained sampling: no supported grammar variant was provided."@,
                )
            } else {
                match grammar_input_property(tool) {
                    Ok(input_property) => Ok(
                        Some(
                            GrammarSampling {
                                format: if lark is Some {
                                    "lark"@
                                } else {
                                    "regex"@
                                },
                                definition: if lark is Some {
                                    lark->0
                                } else {
                                    regex->0
                                },
                                input_property,
                            },
                        ),
                    ),
                    Err(message) => Err(
                        "Tool \""@ + tool.name@ + "\" cannot use grammar constrained sampling: "@
                            + message + "."@,
                    ),
                }
            }
        },
        _ => Ok(None),
    }
}

/// `grammar_sampling`, where a refusal counts as no grammar.
pub open spec fn grammar_or_none(tool: Tool, supports_grammar_tools: bool) -> Option<
    GrammarSampling,
> {
    match grammar_sampling(tool, supports_grammar_tools) {
        Ok(grammar) => grammar,
        Err(_) => None,
    }
}

fn find_definition(variants: &Vec<(String, String)>, kind: &str) -> (r: Option<String>)
    ensures
        crate::text::opt_text(r) == grammar_definition(variants@, kind@),
{
    match find_key(variants, kind) {
        Some(i) => {
            proof {
                lemma_key_index_is(pairs(variants@), kind@, i as int);
            }
            if blank(variants[i].1.as_str()) {
                None
            } else {
                Some(variants[i].1.clone())
            }
        },
        None => {
            proof {
                lemma_key_index_is(pairs(variants@), kind@, variants@.len() as int);
            }
            None
        },
    }
}

pub fn resolve_grammar_constrained_sampling(
    tool: &Tool,
    supports_openai_grammar_tools: bool,
) -> (r: Result<Option<GrammarConstrainedSampling>, String>)
    ensures
        match r {
            Ok(Some(grammar)) => grammar_sampling(*tool, supports_openai_grammar_tools) == Ok::<
                Option<GrammarSampling>,
                Seq<char>,
            >(Some(grammar@)),
            Ok(None) => grammar_sampling(*tool, supports_openai_grammar_tools) == Ok::<
                Option<GrammarSampling>,
                Seq<char>,
            >(None),
            Err(e) => grammar_sampling(*tool, supports_openai_grammar_tools) == Err::<
                Option<GrammarSampling>,
                Seq<char>,
            >(e@),
        },
{
    let variants = match &tool.constrained_sampling {
        Some(ConstrainedSampling::Config(ConstrainedSamplingConfig::Grammar { variants })) => variants,
        _ => {
            return Ok(None);
        },
    };
    if !supports_openai_grammar_tools {
        return Ok(None);
    }
    let lark = find_definition(variants, "openai_lark");
    let regex = find_definition(variants, "openai_regex");
    let (format, definition) = match (lark, regex) {
        (Some(definition), _) => ("lark".to_owned(), definition),
        (None, Some(definition)) => ("regex".to_owned(), definition),
        (None, None) => {
            return Err(
                cat3(
                    "Tool \"",
                    tool.name.as_str(),
                    "\" cannot use grammar constrained sampling: no supported grammar variant was provided.",
                ),
            );
        },
    };
    match infer_grammar_input_property(tool) {
        Ok(input_property) => Ok(
            Some(GrammarConstrainedSampling { format, definition, input_property }),
        ),
        Err(message) => Err(
            cat5(
                "Tool \"",
                tool.name.as_str(),
                "\" cannot use grammar constrained sampling: ",
                message.as_str(),
                ".",
            ),
        ),
    }
}

/// The grammar of a tool, where a refusal counts as no grammar.
pub fn grammar_sampling_or_none(tool: &Tool, supports_openai_grammar_tools: bool) -> (r: Option<
    GrammarConstrainedSampling,
>)
    ensures
        match r {
            Some(grammar) => grammar_or_none(*tool, supports_openai_grammar_tools) == Some(
                grammar@,
            ),
            None => grammar_or_none(*tool, supports_openai_grammar_tools) is None,
        },
{
    match resolve_grammar_constrained_sampling(tool, supports_openai_grammar_tools) {
        Ok(grammar) => grammar,
        Err(_) => None,
    }
}

/// The name of each grammar tool, with the property that takes its input.
pub open spec fn grammar_properties(tools: Seq<Tool>, supports_grammar_tools: bool) -> Seq<
    (Seq<char>, Seq<char>),
>
    decreases tools.len(),
{
    if tools.len() == 0 {
        Seq::empty()
    } else {
        let before = grammar_properties(tools.drop_last(), supports_grammar_tools);
        match grammar_or_none(tools.last(), supports_grammar_tools) {
            Some(grammar) => before.push((tools.last().name@, grammar.input_property)),
            None => before,
        }
    }
}

pub fn create_grammar_tool_input_properties(
    tools: Option<&Vec<Tool>>,
    supports_openai_grammar_tools: bool,
) -> (r: Vec<(String, String)>)
    ensures
        pairs(r@) == match tools {
            Some(tools) => grammar_properties(tools@, supports_openai_grammar_tools),
            None => Seq::empty(),
        },
{
    let mut properties: Vec<(String, String)> = Vec::new();
    proof {
        assert(pairs(properties@) =~= Seq::<(Seq<char>, Seq<char>)>::empty());
    }
    if let Some(tools) = tools {
        let mut i: usize = 0;
        while i < tools.len()
            invariant
                i <= tools@.len(),
                pairs(properties@) == grammar_properties(
                    tools@.take(i as int),
                    supports_openai_grammar_tools,
                ),
            decreases tools.len() - i,
        {
            let ghost before = properties@;
            proof {
                assert(tools@.take(i + 1).drop_last() =~= tools@.take(i as int));
            }
            if let Some(grammar) = grammar_sampling_or_none(
                &tools[i],
                supports_openai_grammar_tools,
            ) {
                properties.push((tools[i].name.clone(), grammar.input_property));
                proof {
                    assert(pairs(properties@) =~= pairs(before).push(
                        (tools@[i as int].name@, grammar@.input_property),
                    ));
                }
            }
            i += 1;
        }
        proof {
            assert(tools@.take(tools@.len() as int) =~= tools@);
        }
    }
    properties
}

/// The property that takes the input of a tool, where the tool is a grammar
/// tool.
pub fn find_property(properties: &Vec<(String, String)>, tool_name: &str) -> (r: Option<String>)
    ensures
        crate::text::opt_text(r) == get(pairs(properties@), tool_name@),
{
    match find_key(properties, tool_name) {
        Some(i) => {
            proof {
                lemma_key_index_is(pairs(properties@), tool_name@, i as int);
            }
            Some(properties[i].1.clone())
        },
        None => {
            proof {
                lemma_key_index_is(pairs(properties@), tool_name@, properties@.len() as int);
            }
            None
        },
    }
}

} // verus!
