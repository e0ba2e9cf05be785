//! The ids under which tool calls are sent, what is marked in them, and what a turn of
//! Gemini shows.
use vstd::prelude::*;
use crate::api::google_shared::messages::{
    contents_of, image_parts, is_meta_key, plain_entries, plain_items, plain_schema, Part,
};
use crate::api::google_shared::takes_images_in_results;
use crate::api::mistral_conversations::ids::{alnum_of, candidate, normalized};
use crate::api::mistral_conversations::request::request_headers;
use crate::api::openai_completions::messages::normalized_id;
use crate::api::headers::Pairs;
use crate::json::{get, Entries, Json};
use crate::laws::responses_tools::is_plain;
use crate::laws::texts::law_pair_comes_apart;
use crate::text::{is_alnum, texts};
use crate::types::{Content, ImageContent, Message, Model, TextContent, ToolResultMessage};

verus! {

/// An id that can be sent as it is, is: one of two parts becomes one word, and one of
/// a single part stays.
pub proof fn law_completions_ids_stay(
    call: Seq<char>,
    item: Seq<char>,
    provider: Seq<char>,
    id: Seq<char>,
)
    requires
        is_plain(call),
        is_plain(item),
        !id.contains('|'),
    ensures
        call.len() + 1 + item.len() <= 40 ==> normalized_id(call.push('|') + item, provider) == call
            + "_"@ + item,
        call.len() <= 40 ==> normalized_id(call.push('|'), provider) == call,
        31 <= call.len() && call.len() + 1 + item.len() > 40 && crate::hash::hash_of(
            call.push('|') + item,
        ).len() >= 8 ==> normalized_id(call.push('|') + item, provider) == call.take(31) + "_"@
            + crate::hash::hash_of(call.push('|') + item).take(8),
        provider != "openai"@ ==> normalized_id(id, provider) == id,
        id.len() <= 40 ==> normalized_id(id, provider) == id,
        provider == "openai"@ && id.len() > 40 ==> normalized_id(id, provider) == id.take(40),
{
    reveal_strlit("_");
    lemma_no_bar(call);
    law_pair_comes_apart(call, '|', item);
    law_pair_comes_apart(call, '|', Seq::empty());
    law_pair_comes_apart(id, '|', Seq::empty());
    assert(call.push('|') + Seq::<char>::empty() =~= call.push('|'));
    assert(crate::api::blocks::safe_id(call) =~= call);
    assert(crate::api::blocks::safe_id(item) =~= item);
    assert(crate::api::blocks::safe_id(Seq::<char>::empty()) =~= Seq::<char>::empty());
    let hash = crate::hash::hash_of(call.push('|') + item);
    if hash.len() >= 8 {
        assert(crate::text::first_chars(hash, 8) =~= hash.take(8));
    }
    if call.len() >= 31 {
        assert(crate::text::first_chars(call, 31) =~= call.take(31));
    }
}

proof fn lemma_no_bar(s: Seq<char>)
    requires
        is_plain(s),
    ensures
        !s.contains('|'),
{
    if s.contains('|') {
        let i = choose|i: int| 0 <= i < s.len() && s[i] == '|';
        assert(is_alnum(s[i]) || s[i] == '_' || s[i] == '-');
    }
}

/// An id that a Messages request can send as it is, is.
pub proof fn law_messages_ids_stay(id: Seq<char>)
    requires
        is_plain(id),
    ensures
        crate::api::anthropic_messages::messages::normalized_id(id) == id,
{
    assert(crate::api::blocks::safe_id(id) =~= id);
}

proof fn lemma_alnum_stays(s: Seq<char>)
    requires
        forall|i: int| 0 <= i < s.len() ==> is_alnum(#[trigger] s[i]),
    ensures
        alnum_of(s) == s,
    decreases s.len(),
{
    if s.len() > 0 {
        let d = s.drop_last();
        assert forall|i: int| 0 <= i < d.len() implies is_alnum(#[trigger] d[i]) by {
            assert(d[i] == s[i]);
        }
        lemma_alnum_stays(d);
        assert(is_alnum(s[s.len() - 1]));
        assert(d.push(s.last()) =~= s);
    } else {
        assert(s =~= Seq::<char>::empty());
    }
}

/// An id of nine letters and digits stands for itself with Mistral, where it stands
/// for no other, and an id that is known keeps the one that stands for it.
pub proof fn law_mistral_ids_stay(
    before: Pairs,
    id: Seq<char>,
    after: Pairs,
    sent: Seq<char>,
    known: Seq<char>,
)
    requires
        normalized(before, id, after, sent),
    ensures
        get(before, id) == Some(known) ==> sent == known && after == before,
        before.len() == 0 && id.len() == 9 && (forall|i: int|
            0 <= i < id.len() ==> is_alnum(#[trigger] id[i])) ==> sent == id && after == before.push(
            (id, id),
        ),
{
    if before.len() == 0 && id.len() == 9 && (forall|i: int|
        0 <= i < id.len() ==> is_alnum(#[trigger] id[i])) {
        lemma_alnum_stays(id);
        assert(candidate(id, 0) == id);
        assert(before =~= Pairs::empty());
        let swapped = crate::api::mistral_conversations::ids::swapped(before);
        assert(swapped.len() == 0);
        crate::json::lemma_key_index(swapped, id);
        assert(crate::api::mistral_conversations::ids::is_free(before, id, 0));
        assert(get(before, id) is None) by {
            crate::json::lemma_key_index(before, id);
        }
        if exists|n: nat|
            #![trigger candidate(id, n)]
            n <= u64::MAX && crate::api::mistral_conversations::ids::is_first_free(before, id, n)
                && sent == candidate(id, n) && after == before.push((id, sent)) {
            let n = choose|n: nat|
                #![trigger candidate(id, n)]
                n <= u64::MAX && crate::api::mistral_conversations::ids::is_first_free(
                    before,
                    id,
                    n,
                ) && sent == candidate(id, n) && after == before.push((id, sent));
            assert(n == 0);
        }
    }
}

/// A Mistral request says what it takes and sends its key.
pub proof fn law_mistral_headers(model: Model, key: Seq<char>, session: Option<Seq<char>>)
    requires
        model.headers is None,
    ensures
        ({
            let h = request_headers(model, key, None, session);
            &&& h.len() == 3
            &&& h[0] == ("accept"@, "text/event-stream"@)
            &&& h[1] == ("authorization"@, "Bearer "@ + key)
            &&& h[2] == ("content-type"@, "application/json"@)
        }),
{
}

/// The images of a tool result are those of its blocks, in order, and where they may
/// not stand in the answer they are announced in a turn of their own.
pub proof fn law_gemini_images(
    content: Seq<Content>,
    image: ImageContent,
    text: TextContent,
    messages: Seq<Message>,
    result: ToolResultMessage,
    model: Model,
)
    ensures
        image_parts(Seq::empty()).len() == 0,
        image_parts(content.push(Content::Text(text))) == image_parts(content),
        image_parts(content.push(Content::Image(image))) == image_parts(content).push(
            Part::InlineData { mime_type: image.mime_type@, data: image.data@ },
        ),
        texts(model.input@).contains("image"@) && image_parts(result.content@).len() > 0
            && !takes_images_in_results(model.id@) ==> (contents_of(
            messages.push(Message::ToolResult(result)),
            model,
        ).last().parts[0] matches Part::Text { text: said, thought, .. } && said
            == "Tool result image:"@ && !thought),
{
    assert(content.push(Content::Text(text)).drop_last() =~= content);
    assert(content.push(Content::Image(image)).drop_last() =~= content);
    assert(messages.push(Message::ToolResult(result)).drop_last() =~= messages);
}

/// A plain schema says what the schema says, in the same order, but for the words
/// about the schema itself.
pub proof fn law_plain_schemas(e: Entries, key: Seq<char>, value: Json, a: Seq<Json>)
    ensures
        is_meta_key(key) ==> plain_entries(e.push((key, value))) == plain_entries(e),
        !is_meta_key(key) ==> plain_entries(e.push((key, value))) == plain_entries(e).push(
            (key, plain_schema(value)),
        ),
        plain_items(a.push(value)) == plain_items(a).push(plain_schema(value)),
        plain_schema(Json::Object(e)) == Json::Object(plain_entries(e)),
        plain_schema(Json::Array(a)) == Json::Array(plain_items(a)),
        plain_schema(Json::Null) == Json::Null,
        plain_schema(Json::Str(key)) == Json::Str(key),
{
    assert(e.push((key, value)).drop_last() =~= e);
    assert(a.push(value).drop_last() =~= a);
}

} // verus!
