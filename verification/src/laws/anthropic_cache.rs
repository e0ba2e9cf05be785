//! What is marked for the cache in a Messages request, and the schemas of its tools.
use vstd::prelude::*;
use crate::api::anthropic_messages::messages::{
    input_schema, last_marked, marked_message, tool_json, tools_json,
};
use crate::json::{get, lemma_with_entry, str_at, str_items, Entries, Json};
use crate::laws::wire::{group_wire, lacks, says};
use crate::text::texts;
use crate::types::{JsonSchemaObject, Tool};

verus! {

broadcast use group_wire;

/// Only the last message is marked, and only where there is a marker.
pub proof fn law_last_message_is_marked(messages: Seq<Json>, message: Json, marker: Json)
    ensures
        last_marked(messages, None) == messages,
        last_marked(Seq::empty(), Some(marker)).len() == 0,
        last_marked(messages.push(message), Some(marker)) == messages.push(
            marked_message(message, marker),
        ),
{
    assert(messages.push(message).drop_last() =~= messages);
}

/// A message of the user is marked on its last block, by the marker alone; a plain
/// text becomes one block that says the same; a message of an assistant stays.
pub proof fn law_message_is_marked(
    e: Entries,
    list: Seq<Json>,
    block: Entries,
    text: Seq<char>,
    marker: Json,
)
    ensures
        str_at(e, "role"@) != Some("user"@) ==> marked_message(Json::Object(e), marker)
            == Json::Object(e),
        str_at(e, "role"@) == Some("user"@) && get(e, "content"@) == Some(
            Json::Array(list.push(Json::Object(block))),
        ) && (str_at(block, "type"@) == Some("text"@) || str_at(block, "type"@) == Some("image"@)
            || str_at(block, "type"@) == Some("tool_result"@)) ==> (marked_message(
            Json::Object(e),
            marker,
        ) matches Json::Object(now) && get(now, "content"@) == Some(
            Json::Array(list.push(Json::Object(block.push(("cache_control"@, marker))))),
        ) && forall|key: Seq<char>|
            key != "content"@ ==> #[trigger] get(now, key) == get(e, key)),
        str_at(e, "role"@) == Some("user"@) && get(e, "content"@) == Some(Json::Str(text)) ==> (
        marked_message(Json::Object(e), marker) matches Json::Object(now) && (get(now, "content"@)
            matches Some(Json::Array(parts)) && parts.len() == 1 && says(
            parts[0],
            "type"@,
            Json::Str("text"@),
        ) && says(parts[0], "text"@, Json::Str(text)) && says(
            parts[0],
            "cache_control"@,
            marker,
        )) && forall|key: Seq<char>|
            key != "content"@ ==> #[trigger] get(now, key) == get(e, key)),
{
    let all = list.push(Json::Object(block));
    assert(all.drop_last() =~= list);
    let marked = Json::Array(list.push(Json::Object(block.push(("cache_control"@, marker)))));
    lemma_set(e, marked);
    if let Json::Object(now) = marked_message(Json::Object(e), marker) {
        if str_at(e, "role"@) == Some("user"@) && get(e, "content"@) == Some(Json::Str(text)) {
            let parts = Seq::<Json>::empty().push(
                Json::Object(
                    crate::json::EntriesSpec::put(
                        crate::json::EntriesSpec::put(
                            crate::json::EntriesSpec::put(
                                crate::json::no_entries(),
                                "type"@,
                                Json::Str("text"@),
                            ),
                            "text"@,
                            Json::Str(text),
                        ),
                        "cache_control"@,
                        marker,
                    ),
                ),
            );
            lemma_set(e, Json::Array(parts));
        }
    }
}

proof fn lemma_set(e: Entries, value: Json)
    ensures
        ({
            let now = crate::json::with_entry(e, "content"@, value);
            &&& get(now, "content"@) == Some(value)
            &&& forall|key: Seq<char>| key != "content"@ ==> #[trigger] get(now, key) == get(e, key)
        }),
{
    let now = crate::json::with_entry(e, "content"@, value);
    lemma_with_entry(e, "content"@, value, "content"@);
    assert forall|key: Seq<char>| key != "content"@ implies #[trigger] get(now, key) == get(
        e,
        key,
    ) by {
        lemma_with_entry(e, "content"@, value, key);
    }
}

/// The schema of a tool is that of an object with its properties and the names that
/// it requires.
pub proof fn law_schemas_are_sent(schema: JsonSchemaObject, i: int)
    ensures
        ({
            let sent = input_schema(false, schema);
            &&& says(sent, "type"@, Json::Str("object"@))
            &&& schema.required matches Some(required) ==> says(
                sent,
                "required"@,
                Json::Array(str_items(texts(required@))),
            )
            &&& schema.required is None ==> says(sent, "required"@, Json::Array(Seq::empty()))
            &&& schema.properties is None ==> says(sent, "properties"@, Json::Object(Seq::empty()))
            &&& schema.properties matches Some(properties) ==> exists|inner: Entries| #[trigger]
                says(sent, "properties"@, Json::Object(inner)) && inner.len() == properties@.len()
                    && (0 <= i < properties@.len() ==> inner[i] == (
                    properties@[i].0@,
                    properties@[i].1.value@,
                ))
        }),
{
    if let Some(properties) = schema.properties {
        let inner = crate::api::anthropic_messages::messages::property_entries(properties@);
        assert(says(input_schema(false, schema), "properties"@, Json::Object(inner)));
    }
}

/// Only the last tool of a list carries the marker, and no tool says of itself what
/// does not hold of it.
pub proof fn law_last_tool_is_marked(tools: Seq<Tool>, tool: Tool, marker: Json, i: int)
    ensures
        tools_json(tools, false, false, false, Some(marker), false).len() == tools.len(),
        tools.len() > 0 ==> says(
            tools_json(tools, false, false, false, Some(marker), false).last(),
            "cache_control"@,
            marker,
        ),
        0 <= i < tools.len() - 1 ==> tools_json(tools, false, false, false, Some(marker), false)[i]
            == tool_json(tools[i], false, false, false, None, false),
        lacks(tool_json(tool, false, false, false, None, false), "cache_control"@),
        lacks(tool_json(tool, false, false, false, None, false), "defer_loading"@),
        lacks(tool_json(tool, false, false, false, None, false), "eager_input_streaming"@),
        lacks(tool_json(tool, false, false, false, None, false), "strict"@),
{
    reveal_strlit("name");
    reveal_strlit("description");
    reveal_strlit("input_schema");
    reveal_strlit("eager_input_streaming");
    reveal_strlit("strict");
    reveal_strlit("defer_loading");
    reveal_strlit("cache_control");
    assert("name"@.len() == 4 && "description"@.len() == 11 && "input_schema"@.len() == 12);
    assert("eager_input_streaming"@.len() == 21 && "strict"@.len() == 6 && "defer_loading"@.len()
        == 13 && "cache_control"@.len() == 13);
    assert("defer_loading"@[0] == 'd' && "cache_control"@[0] == 'c');
}

} // verus!
