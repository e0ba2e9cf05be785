//! What an image request asks for, and what is made of the answer.
use vstd::prelude::*;
use crate::api::blocks::data_url;
use crate::api::openrouter_images::{
    image_of, image_url, images_in, images_of, images_request, input_parts, request_body, usage_of,
    ImagesContext, ImagesModel, ImagesOptions, ImagesStopReason,
};
use crate::json::{array_at, object_at, str_at, Entries, EntriesSpec, Json};
use crate::laws::anthropic_events::count;
use crate::laws::completions_stream::field;
use crate::laws::wire::{group_wire, says};
use crate::number::Number;
use crate::text::trimmed_end_of;
use crate::types::{Block, Content, ModelCostRates};

verus! {

broadcast use group_wire;

/// An address that is no data carries no image.
pub proof fn law_other_addresses_carry_no_image(url: Seq<char>)
    requires
        !"data:"@.is_prefix_of(url),
    ensures
        image_of(url) is None,
{
}

/// A request for images names its model, asks for no stream, and holds all of the
/// input in order: a text as it is, an image in its address.
pub proof fn law_images_are_asked(model: ImagesModel, context: ImagesContext, i: int)
    requires
        0 <= i < context.input@.len(),
    ensures
        ({
            let body = request_body(model, context);
            let parts = input_parts(context.input@);
            &&& says(body, "model"@, Json::Str(model.model.id@))
            &&& says(body, "stream"@, Json::Bool(false))
            &&& exists|list: Seq<Json>| #[trigger]
                says(body, "messages"@, Json::Array(list)) && list.len() == 1 && says(
                    list[0],
                    "role"@,
                    Json::Str("user"@),
                ) && says(list[0], "content"@, Json::Array(parts))
            &&& parts.len() == context.input@.len()
            &&& context.input@[i] matches Content::Text(text) ==> says(
                parts[i],
                "type"@,
                Json::Str("text"@),
            ) && says(parts[i], "text"@, Json::Str(text.text@))
            &&& context.input@[i] matches Content::Image(image) ==> says(
                parts[i],
                "type"@,
                Json::Str("image_url"@),
            ) && exists|inner: Json| #[trigger]
                says(parts[i], "image_url"@, inner) && says(
                    inner,
                    "url"@,
                    Json::Str(
                        "data:"@ + image.mime_type@ + ";base64,"@ + image.data@,
                    ),
                )
        }),
{
    let body = request_body(model, context);
    let parts = input_parts(context.input@);
    let message = Json::Object(
        crate::json::no_entries().put("role"@, Json::Str("user"@)).put(
            "content"@,
            Json::Array(parts),
        ),
    );
    assert(crate::json::one_item(message) == Json::Array(seq![message])) by {
        assert(Seq::<Json>::empty().push(message) =~= seq![message]);
    }
    assert(says(body, "messages"@, Json::Array(seq![message])));
    if let Content::Image(image) = context.input@[i] {
        let inner = crate::json::one_entry(
            "url"@,
            Json::Str(data_url(image.mime_type@, image.data@)),
        );
        assert(says(parts[i], "image_url"@, inner));
    }
}

/// A model that can also write is asked for text, and any is asked for images.
pub proof fn law_modalities_are_asked(model: ImagesModel, context: ImagesContext, i: int)
    ensures
        0 <= i < model.output@.len() && model.output@[i]@ == "text"@ ==> says(
            request_body(model, context),
            "modalities"@,
            Json::Array(seq![Json::Str("image"@), Json::Str("text"@)]),
        ),
        (forall|j: int| 0 <= j < model.output@.len() ==> (#[trigger] model.output@[j])@ != "text"@)
            ==> says(
            request_body(model, context),
            "modalities"@,
            Json::Array(seq![Json::Str("image"@)]),
        ),
{
    let all = crate::text::texts(model.output@);
    let image = Seq::<Json>::empty().push(Json::Str("image"@));
    assert(image =~= seq![Json::Str("image"@)]);
    assert(image.push(Json::Str("text"@)) =~= seq![Json::Str("image"@), Json::Str("text"@)]);
    if 0 <= i < model.output@.len() && model.output@[i]@ == "text"@ {
        assert(all[i] == "text"@);
        assert(all.contains("text"@));
    }
    if all.contains("text"@) {
        let k = choose|k: int| 0 <= k < all.len() && all[k] == "text"@;
        assert(model.output@[k]@ == "text"@);
    }
}

/// A request without a key fails, and one with a key goes to the completions of its
/// base address.
pub proof fn law_images_need_a_key(
    model: ImagesModel,
    context: ImagesContext,
    options: Option<&ImagesOptions>,
    key: Seq<char>,
    timestamp: Number,
)
    ensures
        key.len() > 0 ==> (images_request(model, context, options, Some(key), timestamp) matches Ok(
            r,
        ) && r.url == trimmed_end_of(model.model.base_url@, '/') + "/chat/completions"@ && r.body
            == request_body(model, context)),
        images_request(model, context, options, None, timestamp) matches Err(reply)
            && reply.stop_reason == ImagesStopReason::Error && reply.error_message == Some(
            "No API key for provider: "@ + model.provider@,
        ) && reply.output.len() == 0 && reply.model == model.model.id@ && reply.provider
            == model.provider@ && reply.api == model.api@ && reply.timestamp == timestamp,
        images_request(model, context, options, Some(Seq::empty()), timestamp) is Err,
{
}

/// The images of an answer are those whose addresses carry them, in order.
pub proof fn law_images_are_found(a: Seq<Json>, b: Seq<Json>, e: Entries, nested: Entries)
    ensures
        images_of(a + b) == images_of(a) + images_of(b),
        str_at(e, "image_url"@) matches Some(url) ==> image_url(Json::Object(e)) == url,
        str_at(e, "image_url"@) is None && object_at(e, "image_url"@) == Some(nested)
            ==> image_url(Json::Object(e)) == field(nested, "url"@),
        image_of(image_url(Json::Object(e))) matches Some((mime_type, data)) ==> images_of(
            seq![Json::Object(e)],
        ) == seq![Block::Image { data, mime_type }],
        image_of(image_url(Json::Object(e))) is None ==> images_of(seq![Json::Object(e)]).len()
            == 0,
    decreases b.len(),
{
    reveal_with_fuel(images_of, 2);
    assert(seq![Json::Object(e)].drop_last() =~= Seq::<Json>::empty());
    if b.len() == 0 {
        assert(a + b =~= a);
        assert(images_of(a) + images_of(b) =~= images_of(a));
    } else {
        law_images_are_found(a, b.drop_last(), e, nested);
        assert((a + b).drop_last() =~= a + b.drop_last());
        assert((a + b).last() == b.last());
        assert(images_of(a + b) =~= images_of(a) + images_of(b));
    }
}

/// An answer is taken for what it says: its id, its text and then its images, and
/// what cannot be read is told as an error.
pub proof fn law_answer_is_taken(
    model: ImagesModel,
    timestamp: Number,
    e: Entries,
    choice: Entries,
    message: Entries,
    list: Seq<Json>,
)
    requires
        array_at(e, "choices"@) == Some(seq![Json::Object(choice)]),
        object_at(choice, "message"@) == Some(message),
        array_at(message, "images"@) == Some(list),
    ensures
        ({
            let reply = images_in(model, timestamp, Some(Json::Object(e)));
            let text = field(message, "content"@);
            &&& reply.response_id == str_at(e, "id"@)
            &&& reply.model == model.model.id@
            &&& reply.stop_reason == ImagesStopReason::Stop
            &&& reply.error_message is None
            &&& reply.usage is Some <==> object_at(e, "usage"@) is Some
            &&& text.len() == 0 ==> reply.output =~= images_of(list)
            &&& text.len() > 0 ==> reply.output.len() == 1 + images_of(list).len() && (
            reply.output[0] matches Block::Text(block) && block.text == text)
                && reply.output.skip(1) =~= images_of(list)
        }),
        images_in(model, timestamp, None).stop_reason == ImagesStopReason::Error,
        images_in(model, timestamp, Some(Json::Null)).stop_reason == ImagesStopReason::Error,
{
}

/// The tokens of an answer are counted once: those that were read from a cache or
/// written to one are part of the prompt and no input, and the total is the sum.
pub proof fn law_images_usage(e: Entries, details: Entries, rates: ModelCostRates)
    requires
        object_at(e, "prompt_tokens_details"@) == Some(details),
        0 <= count(e, "prompt_tokens"@).nanos < 1_000_000_000_000_000_000,
        0 <= count(e, "completion_tokens"@).nanos < 1_000_000_000_000_000_000,
        0 <= count(details, "cached_tokens"@).nanos < 1_000_000_000_000_000_000,
        0 <= count(details, "cache_write_tokens"@).nanos < 1_000_000_000_000_000_000,
        count(details, "cached_tokens"@).nanos >= count(details, "cache_write_tokens"@).nanos,
        count(details, "cached_tokens"@).nanos <= count(e, "prompt_tokens"@).nanos,
    ensures
        ({
            let u = usage_of(e, rates);
            &&& u.cache_write == count(details, "cache_write_tokens"@)
            &&& u.cache_read.nanos + u.cache_write.nanos == count(details, "cached_tokens"@).nanos
            &&& u.input.nanos + u.cache_read.nanos + u.cache_write.nanos == count(
                e,
                "prompt_tokens"@,
            ).nanos
            &&& u.output == count(e, "completion_tokens"@)
            &&& u.total_tokens.nanos == u.input.nanos + u.output.nanos + u.cache_read.nanos
                + u.cache_write.nanos
            &&& u.reasoning is None
        }),
{
}

} // verus!
