//! The image interface of OpenRouter.
use vstd::prelude::*;
use vstd::string::*;
use crate::api::blocks::{data_url, make_data_url, make_text_part, text_part};
use crate::api::finish::{ProviderRequest, Request};
use crate::api::headers::{
    new_pairs, no_key, opt_headers, opt_list, overridden, override_headers, push_pair, set_pairs,
    OptPairs, Pairs,
};
use crate::json::{
    array1, array_at, as_object, entries, get_array, get_number_or_zero, get_object, get_str,
    get_str_or_empty, is_parser, items, new_entries, new_items, no_entries, number_at,
    number_or_zero, object, object1, object_at, one_entry, one_item, parse_with, parser_of,
    push_item, put, put_array, put_bool, put_str, str_at, string, text_or_empty, with_entries,
    Entries, EntriesSpec, Json, Value,
};
use crate::number::{difference, excess, greater, price, sum, total, whole, Number};
use crate::text::{
    cat2, char_count, contains_string, opt_str, opt_text, skip_chars, split_once, split_pair,
    starts_with, texts, trim_end_of, trimmed_end_of,
};
use crate::types::{
    blocks, Block, Content, ImageContent, Model, ModelCostRates, ProviderHeaders,
    ProviderRequestOptions, TextBlock, TextContent, Usage, UsageCost,
};

verus! {

/// Options of an image request.
#[derive(Clone, Debug, Default)]
pub struct ImagesOptions {
    pub request: ProviderRequestOptions,
    pub metadata: Option<Vec<(String, Value)>>,
}

/// A model that makes images, and what it can put out besides.
#[derive(Clone, Debug)]
pub struct ImagesModel {
    pub model: Model,
    pub api: String,
    pub provider: String,
    pub output: Vec<String>,
}

/// What images are to be made of.
#[derive(Clone, Debug)]
pub struct ImagesContext {
    pub input: Vec<Content>,
}

#[derive(Clone, Copy, Debug, PartialEq, Eq, Structural)]
pub enum ImagesStopReason {
    Stop,
    Error,
    Aborted,
}

/// The images that a model has made, or why there are none.
#[derive(Debug, PartialEq, Eq)]
pub struct AssistantImages {
    pub api: String,
    pub provider: String,
    pub model: String,
    pub output: Vec<Content>,
    pub response_id: Option<String>,
    pub usage: Option<Usage>,
    pub stop_reason: ImagesStopReason,
    pub error_message: Option<String>,
    pub timestamp: Number,
}

/// What a reply with images holds.
#[verifier::ext_equal]
pub struct Images {
    pub api: Seq<char>,
    pub provider: Seq<char>,
    pub model: Seq<char>,
    pub output: Seq<Block>,
    pub response_id: Option<Seq<char>>,
    pub usage: Option<Usage>,
    pub stop_reason: ImagesStopReason,
    pub error_message: Option<Seq<char>>,
    pub timestamp: Number,
}

impl View for AssistantImages {
    type V = Images;

    open spec fn view(&self) -> Images {
        Images {
            api: self.api@,
            provider: self.provider@,
            model: self.model@,
            output: blocks(self.output@),
            response_id: opt_text(self.response_id),
            usage: self.usage,
            stop_reason: self.stop_reason,
            error_message: opt_text(self.error_message),
            timestamp: self.timestamp,
        }
    }
}

/// A reply without images yet.
pub open spec fn no_images(model: ImagesModel, timestamp: Number) -> Images {
    Images {
        api: model.api@,
        provider: model.provider@,
        model: model.model.id@,
        output: Seq::empty(),
        response_id: None,
        usage: None,
        stop_reason: ImagesStopReason::Stop,
        error_message: None,
        timestamp,
    }
}

pub fn empty_output(model: &ImagesModel, timestamp: Number) -> (r: AssistantImages)
    ensures
        r@ == no_images(*model, timestamp),
{
    let r = AssistantImages {
        api: model.api.clone(),
        provider: model.provider.clone(),
        model: model.model.id.clone(),
        output: Vec::new(),
        response_id: None,
        usage: None,
        stop_reason: ImagesStopReason::Stop,
        error_message: None,
        timestamp,
    };
    proof {
        assert(r@.output =~= Seq::<Block>::empty());
    }
    r
}

/// A reply that says only why there are no images.
pub open spec fn failed(model: ImagesModel, timestamp: Number, error: Seq<char>) -> Images {
    Images {
        stop_reason: ImagesStopReason::Error,
        error_message: Some(error),
        ..no_images(model, timestamp)
    }
}

/// The reply to a request that failed.
pub fn error_output(model: &ImagesModel, timestamp: Number, error: String) -> (r: AssistantImages)
    ensures
        r@ == failed(*model, timestamp, error@),
{
    let mut r = empty_output(model, timestamp);
    r.stop_reason = ImagesStopReason::Error;
    r.error_message = Some(error);
    r
}

// ---------------------------------------------------------------------------
// Request
// ---------------------------------------------------------------------------

/// A part of what images are to be made of.
pub open spec fn input_part(item: Content) -> Json {
    match item {
        Content::Text(text) => text_part(text.text@),
        Content::Image(image) => Json::Object(
            no_entries().put("type"@, Json::Str("image_url"@)).put(
                "image_url"@,
                one_entry("url"@, Json::Str(data_url(image.mime_type@, image.data@))),
            ),
        ),
        _ => Json::Object(no_entries()),
    }
}

pub open spec fn input_parts(input: Seq<Content>) -> Seq<Json> {
    Seq::new(input.len(), |i: int| input_part(input[i]))
}

/// What a model is asked to put out: images, and text where it can.
pub open spec fn modalities(output: Seq<Seq<char>>) -> Seq<Json> {
    let image = Seq::<Json>::empty().push(Json::Str("image"@));
    if output.contains("text"@) {
        image.push(Json::Str("text"@))
    } else {
        image
    }
}

/// The body of a request.
pub open spec fn request_body(model: ImagesModel, context: ImagesContext) -> Json {
    Json::Object(
        no_entries().put("model"@, Json::Str(model.model.id@)).put(
            "messages"@,
            one_item(
                Json::Object(
                    no_entries().put("role"@, Json::Str("user"@)).put(
                        "content"@,
                        Json::Array(input_parts(context.input@)),
                    ),
                ),
            ),
        ).put("stream"@, Json::Bool(false)).put(
            "modalities"@,
            Json::Array(modalities(texts(model.output@))),
        ),
    )
}

fn make_input_part(item: &Content) -> (r: Value)
    ensures
        r@ == input_part(*item),
{
    match item {
        Content::Text(text) => make_text_part(text.text.as_str()),
        Content::Image(image) => {
            let url = make_data_url(image.mime_type.as_str(), image.data.as_str());
            let mut e = new_entries();
            put_str(&mut e, "type", "image_url");
            put(&mut e, "image_url", object1("url", Value::Str(url)));
            object(e)
        },
        _ => object(new_entries()),
    }
}

pub fn build_params(model: &ImagesModel, context: &ImagesContext) -> (r: Value)
    ensures
        r@ == request_body(*model, *context),
{
    let mut content = new_items();
    let mut i: usize = 0;
    while i < context.input.len()
        invariant
            i <= context.input@.len(),
            items(content@) == input_parts(context.input@.take(i as int)),
        decreases context.input.len() - i,
    {
        push_item(&mut content, make_input_part(&context.input[i]));
        proof {
            assert(input_parts(context.input@.take(i + 1)) =~= input_parts(
                context.input@.take(i as int),
            ).push(input_part(context.input@[i as int])));
        }
        i += 1;
    }
    proof {
        assert(context.input@.take(context.input@.len() as int) =~= context.input@);
    }
    let mut wanted = new_items();
    push_item(&mut wanted, string("image"));
    if contains_string(&model.output, "text") {
        push_item(&mut wanted, string("text"));
    }
    let mut message = new_entries();
    put_str(&mut message, "role", "user");
    put_array(&mut message, "content", content);
    let mut e = new_entries();
    put_str(&mut e, "model", model.model.id.as_str());
    put(&mut e, "messages", array1(object(message)));
    put_bool(&mut e, "stream", false);
    put_array(&mut e, "modalities", wanted);
    object(e)
}

pub open spec fn asked_headers(options: Option<&ImagesOptions>) -> OptPairs {
    match options {
        Some(o) => match o.request.headers {
            Some(h) => opt_headers(Some(&h)),
            None => opt_headers(None),
        },
        None => opt_headers(None),
    }
}

/// The request for images, or the reply that there is no key for it. The
/// headers of the model come over the first ones, and those that are asked for
/// over all.
pub open spec fn images_request(
    model: ImagesModel,
    context: ImagesContext,
    options: Option<&ImagesOptions>,
    api_key: Option<Seq<char>>,
    timestamp: Number,
) -> Result<Request, Images> {
    if api_key matches Some(key) && key.len() > 0 {
        Ok(
            Request {
                url: trimmed_end_of(model.model.base_url@, '/') + "/chat/completions"@,
                headers: overridden(
                    with_entries(
                        Pairs::empty().push(("Authorization"@, "Bearer "@ + api_key->0)),
                        opt_list(model.model.headers),
                    ),
                    asked_headers(options),
                ),
                body: request_body(model, context),
            },
        )
    } else {
        Err(failed(model, timestamp, no_key(model.provider@)))
    }
}

/// Prepares the request for images, or the reply that there is no key for it.
pub fn prepare_images(
    model: &ImagesModel,
    context: &ImagesContext,
    options: Option<&ImagesOptions>,
    api_key: Option<&str>,
    timestamp: Number,
) -> (r: Result<ProviderRequest, AssistantImages>)
    ensures
        match r {
            Ok(request) => images_request(*model, *context, options, opt_str(api_key), timestamp)
                == Ok::<Request, Images>(request@),
            Err(output) => images_request(*model, *context, options, opt_str(api_key), timestamp)
                == Err::<Request, Images>(output@),
        },
{
    let key: &str = match api_key {
        Some(key) => key,
        None => "",
    };
    proof {
        reveal_strlit("");
    }
    if key.is_empty() {
        return Err(
            error_output(
                model,
                timestamp,
                cat2("No API key for provider: ", model.provider.as_str()),
            ),
        );
    }
    let mut headers = new_pairs();
    push_pair(&mut headers, "Authorization", cat2("Bearer ", key).as_str());
    let asked: Option<&ProviderHeaders> = match options {
        Some(o) => match &o.request.headers {
            Some(h) => Some(h),
            None => None,
        },
        None => None,
    };
    if let Some(own) = &model.model.headers {
        set_pairs(&mut headers, own);
    }
    override_headers(&mut headers, asked);
    let base = trim_end_of(model.model.base_url.as_str(), '/');
    Ok(
        ProviderRequest {
            url: cat2(base.as_str(), "/chat/completions"),
            headers,
            body: build_params(model, context),
        },
    )
}

// ---------------------------------------------------------------------------
// Reply
// ---------------------------------------------------------------------------

/// The tokens that were written to a cache, as they are reported.
pub open spec fn cache_written(e: Entries) -> Number {
    match object_at(e, "prompt_tokens_details"@) {
        Some(details) => number_or_zero(number_at(details, "cache_write_tokens"@)),
        None => whole(0),
    }
}

/// The tokens that were read from a cache. Those that were written are reported
/// among them, and do not count.
pub open spec fn cache_read(e: Entries) -> Number {
    let reported = match object_at(e, "prompt_tokens_details"@) {
        Some(details) => number_or_zero(number_at(details, "cached_tokens"@)),
        None => whole(0),
    };
    if cache_written(e).nanos > 0 {
        excess(reported, cache_written(e))
    } else {
        reported
    }
}

/// The cost of tokens, at rates for a million of them.
pub open spec fn cost_of(
    rates: ModelCostRates,
    input: Number,
    output: Number,
    read: Number,
    written: Number,
) -> UsageCost {
    let (a, b, c, d) = (
        price(rates.input, input),
        price(rates.output, output),
        price(rates.cache_read, read),
        price(rates.cache_write, written),
    );
    UsageCost {
        input: a,
        output: b,
        cache_read: c,
        cache_write: d,
        total: total(total(total(a, b), c), d),
    }
}

/// The usage of a reply. Tokens that were read from a cache or written to one
/// are no input.
pub open spec fn usage_of(e: Entries, rates: ModelCostRates) -> Usage {
    let (read, written) = (cache_read(e), cache_written(e));
    let input = greater(
        difference(difference(number_or_zero(number_at(e, "prompt_tokens"@)), read), written),
        whole(0),
    );
    let output = number_or_zero(number_at(e, "completion_tokens"@));
    Usage {
        input,
        output,
        cache_read: read,
        cache_write: written,
        cache_write_1h: None,
        reasoning: None,
        total_tokens: sum(sum(sum(input, output), read), written),
        cost: cost_of(rates, input, output, read, written),
    }
}

fn usage_entries(raw: &Vec<(String, Value)>, model: &ImagesModel) -> (r: Usage)
    ensures
        r == usage_of(entries(raw@), model.model.cost),
{
    let (reported, written): (Number, Number) = match get_object(raw, "prompt_tokens_details") {
        Some(details) => (
            get_number_or_zero(details, "cached_tokens"),
            get_number_or_zero(details, "cache_write_tokens"),
        ),
        None => (Number::zero(), Number::zero()),
    };
    let read = if written.nanos > 0 {
        reported.less(written)
    } else {
        reported
    };
    let input = get_number_or_zero(raw, "prompt_tokens").minus(read).minus(written).max(
        Number::zero(),
    );
    let output = get_number_or_zero(raw, "completion_tokens");
    let rates = &model.model.cost;
    let (a, b, c, d) = (
        rates.input.price_of(input),
        rates.output.price_of(output),
        rates.cache_read.price_of(read),
        rates.cache_write.price_of(written),
    );
    Usage {
        input,
        output,
        cache_read: read,
        cache_write: written,
        cache_write_1h: None,
        reasoning: None,
        total_tokens: input.plus(output).plus(read).plus(written),
        cost: UsageCost {
            input: a,
            output: b,
            cache_read: c,
            cache_write: d,
            total: a.plus(b).plus(c).plus(d),
        },
    }
}

/// The entries of a value, none where it is no object.
pub open spec fn entries_or_none(j: Json) -> Entries {
    match as_object(j) {
        Some(e) => e,
        None => no_entries(),
    }
}

/// Reads the usage of a reply.
pub fn parse_usage(raw: &Value, model: &ImagesModel) -> (r: Usage)
    ensures
        r == usage_of(entries_or_none(raw@), model.model.cost),
{
    match raw.as_object() {
        Some(e) => usage_entries(e, model),
        None => usage_entries(&new_entries(), model),
    }
}

/// The type and the data of an image that its address carries.
pub open spec fn image_of(url: Seq<char>) -> Option<(Seq<char>, Seq<char>)> {
    if "data:"@.is_prefix_of(url) {
        match split_pair(url.skip("data:"@.len() as int), ';') {
            Some((mime_type, payload)) => if "base64,"@.is_prefix_of(payload) {
                Some((mime_type, payload.skip("base64,"@.len() as int)))
            } else {
                None
            },
            None => None,
        }
    } else {
        None
    }
}

/// Reads an address that carries an image.
pub fn parse_image_data_url(url: &str) -> (r: Option<(String, String)>)
    ensures
        match r {
            Some((mime_type, data)) => image_of(url@) == Some((mime_type@, data@)),
            None => image_of(url@) is None,
        },
{
    if !starts_with(url, "data:") {
        return None;
    }
    let rest = skip_chars(url, char_count("data:"));
    match split_once(rest.as_str(), ';') {
        Some((mime_type, payload)) => {
            if starts_with(payload.as_str(), "base64,") {
                let data = skip_chars(payload.as_str(), char_count("base64,"));
                Some((mime_type, data))
            } else {
                None
            }
        },
        None => None,
    }
}

/// The address of an image in a reply: given as it is, or inside an object.
pub open spec fn image_url(image: Json) -> Seq<char> {
    match as_object(image) {
        Some(e) => match str_at(e, "image_url"@) {
            Some(url) => url,
            None => match object_at(e, "image_url"@) {
                Some(nested) => text_or_empty(str_at(nested, "url"@)),
                None => Seq::empty(),
            },
        },
        None => Seq::empty(),
    }
}

/// The images in a reply whose addresses carry them.
pub open spec fn images_of(list: Seq<Json>) -> Seq<Block>
    decreases list.len(),
{
    if list.len() == 0 {
        Seq::empty()
    } else {
        let before = images_of(list.drop_last());
        match image_of(image_url(list.last())) {
            Some((mime_type, data)) => before.push(Block::Image { data, mime_type }),
            None => before,
        }
    }
}

/// The text of a message, unless it is empty.
pub open spec fn texts_of(message: Entries) -> Seq<Block> {
    match str_at(message, "content"@) {
        Some(text) => if text.len() > 0 {
            Seq::<Block>::empty().push(Block::Text(TextBlock { text, text_signature: None }))
        } else {
            Seq::empty()
        },
        None => Seq::empty(),
    }
}

/// What a message puts out: its text, then its images.
pub open spec fn message_output(message: Entries) -> Seq<Block> {
    texts_of(message) + match array_at(message, "images"@) {
        Some(list) => images_of(list),
        None => Seq::empty(),
    }
}

/// The message of the first choice.
pub open spec fn first_message(e: Entries) -> Option<Entries> {
    match array_at(e, "choices"@) {
        Some(choices) => if choices.len() > 0 {
            match as_object(choices[0]) {
                Some(choice) => object_at(choice, "message"@),
                None => None,
            }
        } else {
            None
        },
        None => None,
    }
}

/// The reply that a parsed response makes.
pub open spec fn images_in(
    model: ImagesModel,
    timestamp: Number,
    parsed: Option<Json>,
) -> Images {
    match parsed {
        None => failed(model, timestamp, "Failed to parse image generation response"@),
        Some(j) => match as_object(j) {
            None => failed(model, timestamp, "Malformed image generation response"@),
            Some(e) => Images {
                response_id: str_at(e, "id"@),
                usage: match object_at(e, "usage"@) {
                    Some(usage) => Some(usage_of(usage, model.model.cost)),
                    None => None,
                },
                output: match first_message(e) {
                    Some(message) => message_output(message),
                    None => Seq::empty(),
                },
                ..no_images(model, timestamp)
            },
        },
    }
}

fn find_image_url(image: &Value) -> (r: String)
    ensures
        r@ == image_url(image@),
{
    match image.as_object() {
        Some(e) => match get_str(e, "image_url") {
            Some(url) => url,
            None => match get_object(e, "image_url") {
                Some(nested) => get_str_or_empty(nested, "url"),
                None => String::new(),
            },
        },
        None => String::new(),
    }
}

fn push_block(list: &mut Vec<Content>, item: Content)
    ensures
        blocks(final(list)@) == blocks(old(list)@).push(item@),
{
    list.push(item);
    proof {
        assert(blocks(list@) =~= blocks(old(list)@).push(item@));
    }
}

fn read_message(message: &Vec<(String, Value)>) -> (r: Vec<Content>)
    ensures
        blocks(r@) == message_output(entries(message@)),
{
    let mut out: Vec<Content> = Vec::new();
    proof {
        assert(blocks(out@) =~= Seq::<Block>::empty());
    }
    if let Some(text) = get_str(message, "content") {
        if !text.as_str().is_empty() {
            push_block(&mut out, Content::Text(TextContent { text, text_signature: None }));
        }
    }
    let ghost said = texts_of(entries(message@));
    assert(blocks(out@) == said);
    assert(said + Seq::<Block>::empty() =~= said);
    if let Some(images) = get_array(message, "images") {
        let ghost list = items(images@);
        let mut i: usize = 0;
        while i < images.len()
            invariant
                i <= images@.len(),
                list == items(images@),
                blocks(out@) == said + images_of(list.take(i as int)),
            decreases images.len() - i,
        {
            let ghost before = images_of(list.take(i as int));
            proof {
                assert(list.take(i + 1).drop_last() =~= list.take(i as int));
                assert(list.take(i + 1).last() == images@[i as int]@);
            }
            let url = find_image_url(&images[i]);
            if let Some((mime_type, data)) = parse_image_data_url(url.as_str()) {
                let image = Content::Image(ImageContent { data, mime_type });
                push_block(&mut out, image);
                proof {
                    assert(blocks(out@) =~= said + before.push(image@));
                }
            }
            i += 1;
        }
        proof {
            assert(list.take(images@.len() as int) =~= list);
        }
    }
    out
}

/// The reply that a parsed response makes.
pub fn collect_images(model: &ImagesModel, timestamp: Number, parsed: &Option<Value>) -> (r:
    AssistantImages)
    ensures
        r@ == images_in(*model, timestamp, crate::json::opt_json(*parsed)),
{
    let value = match parsed {
        Some(value) => value,
        None => {
            return error_output(
                model,
                timestamp,
                "Failed to parse image generation response".to_owned(),
            );
        },
    };
    let e = match value.as_object() {
        Some(e) => e,
        None => {
            return error_output(
                model,
                timestamp,
                "Malformed image generation response".to_owned(),
            );
        },
    };
    let mut r = empty_output(model, timestamp);
    r.response_id = get_str(e, "id");
    if let Some(usage) = get_object(e, "usage") {
        r.usage = Some(usage_entries(usage, model));
    }
    if let Some(choices) = get_array(e, "choices") {
        proof {
            assert(items(choices@).len() == choices@.len());
        }
        if choices.len() > 0 {
            if let Some(choice) = choices[0].as_object() {
                if let Some(message) = get_object(choice, "message") {
                    r.output = read_message(message);
                }
            }
        }
    }
    r
}

/// Reads the body of a response.
pub fn read_images<P: Fn(&str) -> Option<Value>>(
    model: &ImagesModel,
    timestamp: Number,
    body: &str,
    parse: &P,
) -> (r: AssistantImages)
    requires
        is_parser(*parse),
    ensures
        r@ == images_in(*model, timestamp, parser_of(*parse)(body@)),
{
    let parsed = parse_with(parse, body);
    collect_images(model, timestamp, &parsed)
}

// ---------------------------------------------------------------------------
// Laws
// ---------------------------------------------------------------------------

/// An image that is put into an address comes out of it, unless its type has a
/// semicolon.
pub proof fn law_image_comes_back(mime_type: Seq<char>, data: Seq<char>)
    requires
        !mime_type.contains(';'),
    ensures
        image_of(data_url(mime_type, data)) == Some((mime_type, data)),
{
    let url = data_url(mime_type, data);
    let (first, second) = ("data:"@, ";base64,"@);
    reveal_strlit("data:");
    reveal_strlit(";base64,");
    reveal_strlit("base64,");
    assert(url.subrange(0, first.len() as int) =~= first);
    let rest = url.skip(first.len() as int);
    assert(rest =~= mime_type + second + data);
    assert(rest[mime_type.len() as int] == ';');
    crate::text::lemma_index_of(rest, ';');
    let i = crate::text::index_of(rest, ';');
    if i < mime_type.len() {
        assert(rest[i] == mime_type[i]);
    }
    assert(i == mime_type.len());
    assert(rest.take(i) =~= mime_type);
    let payload = rest.skip(i + 1);
    assert(payload =~= "base64,"@ + data);
    assert(payload.subrange(0, "base64,"@.len() as int) =~= "base64,"@);
    assert(payload.skip("base64,"@.len() as int) =~= data);
}

} // verus!
