//! How messages and tools become the contents and tools of a request.
use vstd::prelude::*;
use vstd::string::*;
use crate::api::blocks::{make_safe_id, safe_id};
use crate::api::google_shared::{
    needs_call_id, requires_tool_call_id, resolve_thought_signature,
    supports_multimodal_function_response, takes_images_in_results, usable_signature,
};
use crate::api::openai_completions::messages::{block_texts, collect_block_texts};
use crate::json::{
    array, array1, entries, items, new_entries, new_items, no_entries, object, object1, one_entry,
    one_item, opt_str_json, push_item, put, put_array, put_bool, put_object, put_opt_str, put_str,
    Entries, EntriesSpec, Json, Value,
};
use crate::text::{
    blank, borrow_opt, contains_string, first_chars, is_blank, join, joined, opt_text, str_eq,
    take_chars, texts,
};
use crate::types::{
    AssistantMessage, Content, Message, Model, Tool, ToolResultMessage, UserMessageContent,
};

verus! {

// ---------------------------------------------------------------------------
// Contents and parts
// ---------------------------------------------------------------------------

/// A part of what somebody says.
#[derive(Debug, PartialEq)]
pub enum GooglePart {
    Text { text: String, thought: bool, thought_signature: Option<String> },
    InlineData { mime_type: String, data: String },
    FunctionCall {
        name: String,
        args: Value,
        id: Option<String>,
        thought_signature: Option<String>,
    },
    FunctionResponse { name: String, response: Value, parts: Vec<GooglePart>, id: Option<String> },
}

/// What one side says: its role and the parts.
#[derive(Clone, Debug, PartialEq)]
pub struct GoogleContent {
    pub role: String,
    pub parts: Vec<GooglePart>,
}

/// What a part holds.
#[verifier::ext_equal]
pub enum Part {
    Text { text: Seq<char>, thought: bool, thought_signature: Option<Seq<char>> },
    InlineData { mime_type: Seq<char>, data: Seq<char> },
    FunctionCall {
        name: Seq<char>,
        args: Json,
        id: Option<Seq<char>>,
        thought_signature: Option<Seq<char>>,
    },
    FunctionResponse { name: Seq<char>, response: Json, parts: Seq<Part>, id: Option<Seq<char>> },
}

/// What a content holds.
#[verifier::ext_equal]
pub struct Turn {
    pub role: Seq<char>,
    pub parts: Seq<Part>,
}

pub open spec fn part_of(p: GooglePart) -> Part
    decreases p,
{
    match p {
        GooglePart::Text { text, thought, thought_signature } => Part::Text {
            text: text@,
            thought,
            thought_signature: opt_text(thought_signature),
        },
        GooglePart::InlineData { mime_type, data } => Part::InlineData {
            mime_type: mime_type@,
            data: data@,
        },
        GooglePart::FunctionCall { name, args, id, thought_signature } => Part::FunctionCall {
            name: name@,
            args: args@,
            id: opt_text(id),
            thought_signature: opt_text(thought_signature),
        },
        GooglePart::FunctionResponse { name, response, parts, id } => Part::FunctionResponse {
            name: name@,
            response: response@,
            parts: Seq::new(
                parts@.len(),
                |i: int|
                    if 0 <= i < parts@.len() {
                        part_of(parts@[i])
                    } else {
                        Part::InlineData { mime_type: Seq::empty(), data: Seq::empty() }
                    },
            ),
            id: opt_text(id),
        },
    }
}

impl View for GooglePart {
    type V = Part;

    open spec fn view(&self) -> Part {
        part_of(*self)
    }
}

impl Clone for GooglePart {
    fn clone(&self) -> (r: Self)
        ensures
            r@ == self@,
        decreases self,
    {
        match self {
            GooglePart::Text { text, thought, thought_signature } => GooglePart::Text {
                text: text.clone(),
                thought: *thought,
                thought_signature: thought_signature.clone(),
            },
            GooglePart::InlineData { mime_type, data } => GooglePart::InlineData {
                mime_type: mime_type.clone(),
                data: data.clone(),
            },
            GooglePart::FunctionCall { name, args, id, thought_signature } => {
                GooglePart::FunctionCall {
                    name: name.clone(),
                    args: args.clone(),
                    id: id.clone(),
                    thought_signature: thought_signature.clone(),
                }
            },
            GooglePart::FunctionResponse { name, response, parts, id } => {
                let mut copies: Vec<GooglePart> = Vec::new();
                let mut i: usize = 0;
                while i < parts.len()
                    invariant
                        i <= parts.len(),
                        copies.len() == i,
                        forall|j: int| 0 <= j < i ==> copies[j]@ == parts[j]@,
                        self matches GooglePart::FunctionResponse { parts: own, .. } && *own
                            == *parts,
                    decreases parts.len() - i,
                {
                    assert(decreases_to!(*self => self->FunctionResponse_parts@[i as int]));
                    let copy = parts[i].clone();
                    copies.push(copy);
                    i += 1;
                }
                let r = GooglePart::FunctionResponse {
                    name: name.clone(),
                    response: response.clone(),
                    parts: copies,
                    id: id.clone(),
                };
                proof {
                    assert(r@->FunctionResponse_parts =~= self@->FunctionResponse_parts);
                }
                r
            },
        }
    }
}

/// What a list of parts holds.
pub open spec fn parts_of(s: Seq<GooglePart>) -> Seq<Part> {
    Seq::new(s.len(), |i: int| s[i]@)
}

impl View for GoogleContent {
    type V = Turn;

    open spec fn view(&self) -> Turn {
        Turn { role: self.role@, parts: parts_of(self.parts@) }
    }
}

/// What a list of contents holds.
pub open spec fn turns(s: Seq<GoogleContent>) -> Seq<Turn> {
    Seq::new(s.len(), |i: int| s[i]@)
}

/// How a part is sent.
pub open spec fn part_json(p: Part) -> Json
    decreases p,
{
    match p {
        Part::Text { text, thought, thought_signature } => Json::Object(
            no_entries().put("text"@, Json::Str(text)).put("thought"@, Json::Bool(thought)).put_opt(
                "thoughtSignature"@,
                opt_str_json(thought_signature),
            ),
        ),
        Part::InlineData { mime_type, data } => one_entry(
            "inlineData"@,
            Json::Object(
                no_entries().put("mimeType"@, Json::Str(mime_type)).put("data"@, Json::Str(data)),
            ),
        ),
        Part::FunctionCall { name, args, id, thought_signature } => Json::Object(
            no_entries().put(
                "functionCall"@,
                Json::Object(
                    no_entries().put("name"@, Json::Str(name)).put("args"@, args).put_opt(
                        "id"@,
                        opt_str_json(id),
                    ),
                ),
            ).put_opt("thoughtSignature"@, opt_str_json(thought_signature)),
        ),
        Part::FunctionResponse { name, response, parts, id } => one_entry(
            "functionResponse"@,
            Json::Object(
                no_entries().put("name"@, Json::Str(name)).put("response"@, response).put_if(
                    parts.len() > 0,
                    "parts"@,
                    Json::Array(parts_json(parts)),
                ).put_opt("id"@, opt_str_json(id)),
            ),
        ),
    }
}

/// How a list of parts is sent.
pub open spec fn parts_json(parts: Seq<Part>) -> Seq<Json>
    decreases parts,
{
    if parts.len() == 0 {
        Seq::empty()
    } else {
        parts_json(parts.drop_last()).push(part_json(parts.last()))
    }
}

/// How a content is sent.
pub open spec fn turn_json(turn: Turn) -> Json {
    Json::Object(
        no_entries().put("role"@, Json::Str(turn.role)).put(
            "parts"@,
            Json::Array(parts_json(turn.parts)),
        ),
    )
}

/// How a list of contents is sent.
pub open spec fn turns_json(list: Seq<Turn>) -> Seq<Json> {
    Seq::new(list.len(), |i: int| turn_json(list[i]))
}

impl GooglePart {
    pub fn to_value(&self) -> (r: Value)
        ensures
            r@ == part_json(self@),
        decreases self,
    {
        match self {
            GooglePart::Text { text, thought, thought_signature } => {
                let mut e = new_entries();
                put_str(&mut e, "text", text.as_str());
                put_bool(&mut e, "thought", *thought);
                put_opt_str(&mut e, "thoughtSignature", borrow_opt(thought_signature));
                object(e)
            },
            GooglePart::InlineData { mime_type, data } => {
                let mut e = new_entries();
                put_str(&mut e, "mimeType", mime_type.as_str());
                put_str(&mut e, "data", data.as_str());
                object1("inlineData", object(e))
            },
            GooglePart::FunctionCall { name, args, id, thought_signature } => {
                let mut call = new_entries();
                put_str(&mut call, "name", name.as_str());
                put(&mut call, "args", args.clone());
                put_opt_str(&mut call, "id", borrow_opt(id));
                let mut e = new_entries();
                put_object(&mut e, "functionCall", call);
                put_opt_str(&mut e, "thoughtSignature", borrow_opt(thought_signature));
                object(e)
            },
            GooglePart::FunctionResponse { name, response, parts, id } => {
                let mut e = new_entries();
                put_str(&mut e, "name", name.as_str());
                put(&mut e, "response", response.clone());
                if parts.len() > 0 {
                    let mut list = new_items();
                    let ghost sent = parts_of(parts@);
                    let mut i: usize = 0;
                    while i < parts.len()
                        invariant
                            i <= parts@.len(),
                            sent == parts_of(parts@),
                            items(list@) == parts_json(sent.take(i as int)),
                            *self == (GooglePart::FunctionResponse {
                                name: *name,
                                response: *response,
                                parts: *parts,
                                id: *id,
                            }),
                        decreases parts.len() - i,
                    {
                        assert(decreases_to!(*self => self->parts@[i as int]));
                        push_item(&mut list, parts[i].to_value());
                        proof {
                            assert(sent.take(i + 1).drop_last() =~= sent.take(i as int));
                        }
                        i += 1;
                    }
                    proof {
                        assert(sent.take(parts@.len() as int) =~= sent);
                        assert(self@->FunctionResponse_parts =~= sent);
                    }
                    put_array(&mut e, "parts", list);
                }
                put_opt_str(&mut e, "id", borrow_opt(id));
                object1("functionResponse", object(e))
            },
        }
    }
}

fn push_part(parts: &mut Vec<GooglePart>, part: GooglePart)
    ensures
        parts_of(final(parts)@) == parts_of(old(parts)@).push(part@),
{
    parts.push(part);
    proof {
        assert(parts_of(parts@) =~= parts_of(old(parts)@).push(part@));
    }
}

fn push_turn(contents: &mut Vec<GoogleContent>, content: GoogleContent)
    ensures
        turns(final(contents)@) == turns(old(contents)@).push(content@),
{
    contents.push(content);
    proof {
        assert(turns(contents@) =~= turns(old(contents)@).push(content@));
    }
}

fn new_parts() -> (r: Vec<GooglePart>)
    ensures
        parts_of(r@) == Seq::<Part>::empty(),
{
    let r: Vec<GooglePart> = Vec::new();
    proof {
        assert(parts_of(r@) =~= Seq::<Part>::empty());
    }
    r
}

impl GoogleContent {
    pub fn to_value(&self) -> (r: Value)
        ensures
            r@ == turn_json(self@),
    {
        let mut list = new_items();
        let mut i: usize = 0;
        while i < self.parts.len()
            invariant
                i <= self.parts@.len(),
                items(list@) == parts_json(self@.parts.take(i as int)),
            decreases self.parts.len() - i,
        {
            push_item(&mut list, self.parts[i].to_value());
            proof {
                assert(self@.parts.take(i + 1).drop_last() =~= self@.parts.take(i as int));
            }
            i += 1;
        }
        proof {
            assert(self@.parts.take(self.parts@.len() as int) =~= self@.parts);
        }
        let mut e = new_entries();
        put_str(&mut e, "role", self.role.as_str());
        put_array(&mut e, "parts", list);
        object(e)
    }
}

/// The contents of a request as they are sent.
pub fn contents_value(contents: &Vec<GoogleContent>) -> (r: Value)
    ensures
        r@ == Json::Array(turns_json(turns(contents@))),
{
    let mut list = new_items();
    let mut i: usize = 0;
    while i < contents.len()
        invariant
            i <= contents@.len(),
            items(list@) == turns_json(turns(contents@).take(i as int)),
        decreases contents.len() - i,
    {
        push_item(&mut list, contents[i].to_value());
        proof {
            assert(turns_json(turns(contents@).take(i + 1)) =~= turns_json(
                turns(contents@).take(i as int),
            ).push(turn_json(turns(contents@)[i as int])));
        }
        i += 1;
    }
    proof {
        assert(turns(contents@).take(contents@.len() as int) =~= turns(contents@));
    }
    array(list)
}

// ---------------------------------------------------------------------------
// Messages
// ---------------------------------------------------------------------------

/// The identifier of a tool call as a model takes it.
pub open spec fn call_id(model_id: Seq<char>, series: Seq<char>, id: Seq<char>) -> Seq<char> {
    if needs_call_id(model_id, series) {
        first_chars(safe_id(id), 64)
    } else {
        id
    }
}

pub fn normalize_tool_call_id(model_id: &str, series: &str, id: &str) -> (r: String)
    ensures
        r@ == call_id(model_id@, series@, id@),
{
    if !requires_tool_call_id(model_id, series) {
        return id.to_owned();
    }
    let safe = make_safe_id(id);
    take_chars(safe.as_str(), 64)
}

/// A text that is no thought.
pub open spec fn said(text: Seq<char>) -> Part {
    Part::Text { text, thought: false, thought_signature: None }
}

/// What a user says and shows.
pub open spec fn user_parts(content: Seq<Content>) -> Seq<Part>
    decreases content.len(),
{
    if content.len() == 0 {
        Seq::empty()
    } else {
        let before = user_parts(content.drop_last());
        match content.last() {
            Content::Text(text) => before.push(said(text.text@)),
            Content::Image(image) => before.push(
                Part::InlineData { mime_type: image.mime_type@, data: image.data@ },
            ),
            _ => before,
        }
    }
}

/// The images among some content.
pub open spec fn image_parts(content: Seq<Content>) -> Seq<Part>
    decreases content.len(),
{
    if content.len() == 0 {
        Seq::empty()
    } else {
        let before = image_parts(content.drop_last());
        match content.last() {
            Content::Image(image) => before.push(
                Part::InlineData { mime_type: image.mime_type@, data: image.data@ },
            ),
            _ => before,
        }
    }
}

/// What an assistant said, thought and called. Blank texts stay out unless
/// they carry a signature; the thoughts of another model are said as texts.
pub open spec fn assistant_parts(content: Seq<Content>, same_model: bool, with_ids: bool) -> Seq<
    Part,
>
    decreases content.len(),
{
    if content.len() == 0 {
        Seq::empty()
    } else {
        let before = assistant_parts(content.drop_last(), same_model, with_ids);
        match content.last() {
            Content::Text(text) => {
                let signature = usable_signature(same_model, opt_text(text.text_signature));
                if is_blank(text.text@) && signature is None {
                    before
                } else {
                    before.push(
                        Part::Text {
                            text: text.text@,
                            thought: false,
                            thought_signature: signature,
                        },
                    )
                }
            },
            Content::Thinking(thinking) => {
                let signature = usable_signature(
                    same_model,
                    opt_text(thinking.thinking_signature),
                );
                if is_blank(thinking.thinking@) && signature is None {
                    before
                } else {
                    before.push(
                        Part::Text {
                            text: thinking.thinking@,
                            thought: same_model,
                            thought_signature: signature,
                        },
                    )
                }
            },
            Content::ToolCall(call) => before.push(
                Part::FunctionCall {
                    name: call.name@,
                    args: call.arguments@,
                    id: if with_ids {
                        Some(call.id@)
                    } else {
                        None
                    },
                    thought_signature: usable_signature(
                        same_model,
                        opt_text(call.thought_signature),
                    ),
                },
            ),
            Content::Image(_) => before,
        }
    }
}

/// What is said of the result of a tool.
pub open spec fn response_text(content: Seq<Content>, shows_images: bool) -> Seq<char> {
    if block_texts(content).len() > 0 {
        joined(block_texts(content), "\n"@)
    } else if shows_images {
        "(see attached image)"@
    } else {
        Seq::empty()
    }
}

/// The images of a result that the model can take.
pub open spec fn shown_images(result: ToolResultMessage, model: Model) -> Seq<Part> {
    if texts(model.input@).contains("image"@) {
        image_parts(result.content@)
    } else {
        Seq::empty()
    }
}

/// The result of a tool.
pub open spec fn response_part(result: ToolResultMessage, model: Model) -> Part {
    let images = shown_images(result, model);
    Part::FunctionResponse {
        name: result.tool_name@,
        response: one_entry(
            if result.is_error {
                "error"@
            } else {
                "output"@
            },
            Json::Str(response_text(result.content@, images.len() > 0)),
        ),
        parts: if takes_images_in_results(model.id@) {
            images
        } else {
            Seq::empty()
        },
        id: if needs_call_id(model.id@, model.anthropic_series.id@) {
            Some(result.tool_call_id@)
        } else {
            None
        },
    }
}

/// Whether some part is the result of a tool.
pub open spec fn holds_response(parts: Seq<Part>) -> bool {
    exists|i: int| 0 <= i < parts.len() && (#[trigger] parts[i]) is FunctionResponse
}

/// The contents with one more result of a tool: results that follow each other
/// stand in one content.
pub open spec fn with_response(list: Seq<Turn>, part: Part) -> Seq<Turn> {
    if list.len() > 0 && list.last().role == "user"@ && holds_response(list.last().parts) {
        list.drop_last().push(Turn { role: list.last().role, parts: list.last().parts.push(part) })
    } else {
        list.push(Turn { role: "user"@, parts: Seq::<Part>::empty().push(part) })
    }
}

/// The contents with the images of a result behind them, where the result
/// itself cannot hold them.
pub open spec fn with_images(list: Seq<Turn>, images: Seq<Part>, model_id: Seq<char>) -> Seq<Turn> {
    if images.len() > 0 && !takes_images_in_results(model_id) {
        list.push(
            Turn {
                role: "user"@,
                parts: Seq::<Part>::empty().push(said("Tool result image:"@)) + images,
            },
        )
    } else {
        list
    }
}

/// The contents with what one side says, unless it says nothing.
pub open spec fn with_turn(list: Seq<Turn>, role: Seq<char>, parts: Seq<Part>) -> Seq<Turn> {
    if parts.len() > 0 {
        list.push(Turn { role, parts })
    } else {
        list
    }
}

/// Whether a message comes from the model that it is sent to.
pub open spec fn same_model(assistant: AssistantMessage, model: Model) -> bool {
    assistant.provider@ == model.provider@ && assistant.model@ == model.id@
}

/// The contents with one more message.
pub open spec fn with_message(list: Seq<Turn>, message: Message, model: Model) -> Seq<Turn> {
    match message {
        Message::User(user) => match user.content {
            UserMessageContent::Text(text) => with_turn(
                list,
                "user"@,
                Seq::<Part>::empty().push(said(text@)),
            ),
            UserMessageContent::Blocks(blocks) => with_turn(list, "user"@, user_parts(blocks@)),
        },
        Message::Assistant(assistant) => with_turn(
            list,
            "model"@,
            assistant_parts(
                assistant.content@,
                same_model(assistant, model),
                needs_call_id(model.id@, model.anthropic_series.id@),
            ),
        ),
        Message::ToolResult(result) => with_images(
            with_response(list, response_part(result, model)),
            shown_images(result, model),
            model.id@,
        ),
    }
}

/// The contents of a conversation.
pub open spec fn contents_of(messages: Seq<Message>, model: Model) -> Seq<Turn>
    decreases messages.len(),
{
    if messages.len() == 0 {
        Seq::empty()
    } else {
        with_message(contents_of(messages.drop_last(), model), messages.last(), model)
    }
}

fn make_said(text: &str) -> (r: GooglePart)
    ensures
        r@ == said(text@),
{
    GooglePart::Text { text: text.to_owned(), thought: false, thought_signature: None }
}

fn collect_user_parts(content: &Vec<Content>) -> (r: Vec<GooglePart>)
    ensures
        parts_of(r@) == user_parts(content@),
{
    let mut r = new_parts();
    let mut i: usize = 0;
    while i < content.len()
        invariant
            i <= content@.len(),
            parts_of(r@) == user_parts(content@.take(i as int)),
        decreases content.len() - i,
    {
        proof {
            assert(content@.take(i + 1).drop_last() =~= content@.take(i as int));
        }
        match &content[i] {
            Content::Text(text) => push_part(&mut r, make_said(text.text.as_str())),
            Content::Image(image) => push_part(
                &mut r,
                GooglePart::InlineData {
                    mime_type: image.mime_type.clone(),
                    data: image.data.clone(),
                },
            ),
            _ => {},
        }
        i += 1;
    }
    proof {
        assert(content@.take(content@.len() as int) =~= content@);
    }
    r
}

fn collect_images(content: &Vec<Content>) -> (r: Vec<GooglePart>)
    ensures
        parts_of(r@) == image_parts(content@),
{
    let mut r = new_parts();
    let mut i: usize = 0;
    while i < content.len()
        invariant
            i <= content@.len(),
            parts_of(r@) == image_parts(content@.take(i as int)),
        decreases content.len() - i,
    {
        proof {
            assert(content@.take(i + 1).drop_last() =~= content@.take(i as int));
        }
        if let Content::Image(image) = &content[i] {
            push_part(
                &mut r,
                GooglePart::InlineData {
                    mime_type: image.mime_type.clone(),
                    data: image.data.clone(),
                },
            );
        }
        i += 1;
    }
    proof {
        assert(content@.take(content@.len() as int) =~= content@);
    }
    r
}

fn collect_assistant_parts(content: &Vec<Content>, same_model: bool, with_ids: bool) -> (r: Vec<
    GooglePart,
>)
    ensures
        parts_of(r@) == assistant_parts(content@, same_model, with_ids),
{
    let mut r = new_parts();
    let mut i: usize = 0;
    while i < content.len()
        invariant
            i <= content@.len(),
            parts_of(r@) == assistant_parts(content@.take(i as int), same_model, with_ids),
        decreases content.len() - i,
    {
        proof {
            assert(content@.take(i + 1).drop_last() =~= content@.take(i as int));
        }
        match &content[i] {
            Content::Text(text) => {
                let signature = resolve_thought_signature(
                    same_model,
                    borrow_opt(&text.text_signature),
                );
                if !(blank(text.text.as_str()) && signature.is_none()) {
                    push_part(
                        &mut r,
                        GooglePart::Text {
                            text: text.text.clone(),
                            thought: false,
                            thought_signature: signature,
                        },
                    );
                }
            },
            Content::Thinking(thinking) => {
                let signature = resolve_thought_signature(
                    same_model,
                    borrow_opt(&thinking.thinking_signature),
                );
                if !(blank(thinking.thinking.as_str()) && signature.is_none()) {
                    push_part(
                        &mut r,
                        GooglePart::Text {
                            text: thinking.thinking.clone(),
                            thought: same_model,
                            thought_signature: signature,
                        },
                    );
                }
            },
            Content::ToolCall(call) => {
                push_part(
                    &mut r,
                    GooglePart::FunctionCall {
                        name: call.name.clone(),
                        args: call.arguments.clone(),
                        id: if with_ids {
                            Some(call.id.clone())
                        } else {
                            None
                        },
                        thought_signature: resolve_thought_signature(
                            same_model,
                            borrow_opt(&call.thought_signature),
                        ),
                    },
                );
            },
            Content::Image(_) => {},
        }
        i += 1;
    }
    proof {
        assert(content@.take(content@.len() as int) =~= content@);
    }
    r
}

fn has_response(parts: &Vec<GooglePart>) -> (r: bool)
    ensures
        r == holds_response(parts_of(parts@)),
{
    let mut i: usize = 0;
    while i < parts.len()
        invariant
            i <= parts@.len(),
            forall|j: int| 0 <= j < i ==> !((#[trigger] parts_of(parts@)[j]) is FunctionResponse),
        decreases parts.len() - i,
    {
        match &parts[i] {
            GooglePart::FunctionResponse { .. } => {
                assert(parts_of(parts@)[i as int] is FunctionResponse);
                return true;
            },
            _ => {
                assert(!(parts_of(parts@)[i as int] is FunctionResponse));
            },
        }
        i += 1;
    }
    false
}

fn add_turn(contents: &mut Vec<GoogleContent>, role: &str, parts: Vec<GooglePart>)
    ensures
        turns(final(contents)@) == with_turn(turns(old(contents)@), role@, parts_of(parts@)),
{
    if parts.len() > 0 {
        push_turn(contents, GoogleContent { role: role.to_owned(), parts });
    }
}

fn add_response(contents: &mut Vec<GoogleContent>, part: GooglePart)
    ensures
        turns(final(contents)@) == with_response(turns(old(contents)@), part@),
{
    let n: usize = contents.len();
    if n > 0 && str_eq(contents[n - 1].role.as_str(), "user") && has_response(
        &contents[n - 1].parts,
    ) {
        let last = contents.pop();
        match last {
            Some(content) => {
                let mut content = content;
                let ghost parts = content@.parts;
                proof {
                    assert(content@ == turns(old(contents)@).last());
                    assert(turns(contents@) =~= turns(old(contents)@).drop_last());
                }
                push_part(&mut content.parts, part);
                push_turn(contents, content);
            },
            None => {},
        }
    } else {
        let mut parts = new_parts();
        push_part(&mut parts, part);
        push_turn(contents, GoogleContent { role: "user".to_owned(), parts });
    }
}

fn make_response_text(content: &Vec<Content>, shows_images: bool) -> (r: String)
    ensures
        r@ == response_text(content@, shows_images),
{
    let words = collect_block_texts(content);
    if words.len() > 0 {
        join(&words, "\n")
    } else if shows_images {
        "(see attached image)".to_owned()
    } else {
        String::new()
    }
}

fn add_result(contents: &mut Vec<GoogleContent>, result: &ToolResultMessage, model: &Model)
    ensures
        turns(final(contents)@) == with_message(
            turns(old(contents)@),
            Message::ToolResult(*result),
            *model,
        ),
{
    let images = if contains_string(&model.input, "image") {
        collect_images(&result.content)
    } else {
        new_parts()
    };
    let shows_images = images.len() > 0;
    let in_result = supports_multimodal_function_response(model.id.as_str());
    let id = if requires_tool_call_id(
        model.id.as_str(),
        model.anthropic_series.id.as_str(),
    ) {
        Some(result.tool_call_id.clone())
    } else {
        None
    };
    let text = make_response_text(&result.content, shows_images);
    let key = if result.is_error {
        "error"
    } else {
        "output"
    };
    let response = object1(key, Value::Str(text));
    if in_result {
        let part = GooglePart::FunctionResponse {
            name: result.tool_name.clone(),
            response,
            parts: images,
            id,
        };
        proof {
            assert(part@->FunctionResponse_parts =~= parts_of(images@));
        }
        add_response(contents, part);
    } else {
        let part = GooglePart::FunctionResponse {
            name: result.tool_name.clone(),
            response,
            parts: new_parts(),
            id,
        };
        proof {
            assert(part@->FunctionResponse_parts =~= Seq::<Part>::empty());
        }
        add_response(contents, part);
        if shows_images {
            let mut parts = new_parts();
            push_part(&mut parts, make_said("Tool result image:"));
            let ghost first = parts_of(parts@);
            let ghost shown = parts_of(images@);
            let mut images = images;
            parts.append(&mut images);
            proof {
                assert(parts_of(parts@) =~= first + shown);
            }
            push_turn(contents, GoogleContent { role: "user".to_owned(), parts });
        }
    }
}

/// The contents of a conversation. The messages are those that `model` takes:
/// the identifiers of their tool calls have been normalized.
pub fn convert_messages(model: &Model, messages: &Vec<Message>) -> (r: Vec<GoogleContent>)
    ensures
        turns(r@) == contents_of(messages@, *model),
{
    let mut contents: Vec<GoogleContent> = Vec::new();
    let with_ids = requires_tool_call_id(
        model.id.as_str(),
        model.anthropic_series.id.as_str(),
    );
    proof {
        assert(turns(contents@) =~= Seq::<Turn>::empty());
    }
    let mut i: usize = 0;
    while i < messages.len()
        invariant
            i <= messages@.len(),
            with_ids == needs_call_id(model.id@, model.anthropic_series.id@),
            turns(contents@) == contents_of(messages@.take(i as int), *model),
        decreases messages.len() - i,
    {
        proof {
            assert(messages@.take(i + 1).drop_last() =~= messages@.take(i as int));
        }
        match &messages[i] {
            Message::User(user) => match &user.content {
                UserMessageContent::Text(text) => {
                    let mut parts = new_parts();
                    push_part(&mut parts, make_said(text.as_str()));
                    add_turn(&mut contents, "user", parts);
                },
                UserMessageContent::Blocks(blocks) => {
                    let parts = collect_user_parts(blocks);
                    add_turn(&mut contents, "user", parts);
                },
            },
            Message::Assistant(assistant) => {
                let same = str_eq(assistant.provider.as_str(), model.provider.as_str()) && str_eq(
                    assistant.model.as_str(),
                    model.id.as_str(),
                );
                let parts = collect_assistant_parts(&assistant.content, same, with_ids);
                add_turn(&mut contents, "model", parts);
            },
            Message::ToolResult(result) => {
                add_result(&mut contents, result, model);
            },
        }
        i += 1;
    }
    proof {
        assert(messages@.take(messages@.len() as int) =~= messages@);
    }
    contents
}

// ---------------------------------------------------------------------------
// Tools
// ---------------------------------------------------------------------------

/// A key of a JSON schema that declares something of the schema itself.
pub open spec fn is_meta_key(key: Seq<char>) -> bool {
    key == "$schema"@ || key == "$id"@ || key == "$anchor"@ || key == "$dynamicAnchor"@ || key
        == "$vocabulary"@ || key == "$comment"@ || key == "$defs"@ || key == "definitions"@
}

fn meta_key(key: &str) -> (r: bool)
    ensures
        r == is_meta_key(key@),
{
    str_eq(key, "$schema") || str_eq(key, "$id") || str_eq(key, "$anchor") || str_eq(
        key,
        "$dynamicAnchor",
    ) || str_eq(key, "$vocabulary") || str_eq(key, "$comment") || str_eq(key, "$defs") || str_eq(
        key,
        "definitions",
    )
}

/// A value without meta declarations, at any depth.
pub open spec fn plain_schema(j: Json) -> Json
    decreases j,
{
    match j {
        Json::Object(e) => Json::Object(plain_entries(e)),
        Json::Array(a) => Json::Array(plain_items(a)),
        _ => j,
    }
}

pub open spec fn plain_entries(e: Entries) -> Entries
    decreases e,
{
    if e.len() == 0 {
        Seq::empty()
    } else {
        let before = plain_entries(e.drop_last());
        if is_meta_key(e.last().0) {
            before
        } else {
            before.put(e.last().0, plain_schema(e.last().1))
        }
    }
}

pub open spec fn plain_items(a: Seq<Json>) -> Seq<Json>
    decreases a,
{
    if a.len() == 0 {
        Seq::empty()
    } else {
        plain_items(a.drop_last()).push(plain_schema(a.last()))
    }
}

/// Strips meta declarations from a schema.
pub fn sanitize_for_openapi(value: &Value) -> (r: Value)
    ensures
        r@ == plain_schema(value@),
    decreases value,
{
    match value {
        Value::Object(e) => {
            let mut out = new_entries();
            let mut i: usize = 0;
            let ghost list = entries(e@);
            while i < e.len()
                invariant
                    i <= e.len(),
                    list == entries(e@),
                    entries(out@) == plain_entries(list.take(i as int)),
                    *value == Value::Object(*e),
                decreases e.len() - i,
            {
                assert(decreases_to!(*value => value->Object_0@[i as int].1));
                proof {
                    assert(list.take(i + 1).drop_last() =~= list.take(i as int));
                    assert(list.take(i + 1).last() == (e@[i as int].0@, e@[i as int].1@));
                }
                if !meta_key(e[i].0.as_str()) {
                    let v = sanitize_for_openapi(&e[i].1);
                    put(&mut out, e[i].0.as_str(), v);
                }
                i += 1;
            }
            proof {
                assert(list.take(e@.len() as int) =~= list);
                assert(value@->Object_0 =~= list);
            }
            object(out)
        },
        Value::Array(a) => {
            let mut out = new_items();
            let mut i: usize = 0;
            let ghost list = items(a@);
            while i < a.len()
                invariant
                    i <= a.len(),
                    list == items(a@),
                    items(out@) == plain_items(list.take(i as int)),
                    *value == Value::Array(*a),
                decreases a.len() - i,
            {
                assert(decreases_to!(*value => value->Array_0@[i as int]));
                proof {
                    assert(list.take(i + 1).drop_last() =~= list.take(i as int));
                    assert(list.take(i + 1).last() == a@[i as int]@);
                }
                let v = sanitize_for_openapi(&a[i]);
                push_item(&mut out, v);
                i += 1;
            }
            proof {
                assert(list.take(a@.len() as int) =~= list);
                assert(value@->Array_0 =~= list);
            }
            array(out)
        },
        _ => value.clone(),
    }
}

/// How a function is declared: by a schema as it is, or by one without meta
/// declarations.
pub open spec fn declaration(tool: Tool, use_parameters: bool) -> Json {
    let named = no_entries().put("name"@, Json::Str(tool.name@)).put(
        "description"@,
        Json::Str(tool.description@),
    );
    Json::Object(
        if use_parameters {
            named.put("parameters"@, plain_schema(tool.parameters.value@))
        } else {
            named.put("parametersJsonSchema"@, tool.parameters.value@)
        },
    )
}

pub open spec fn declarations(tools: Seq<Tool>, use_parameters: bool) -> Seq<Json> {
    Seq::new(tools.len(), |i: int| declaration(tools[i], use_parameters))
}

/// How tools are sent.
pub open spec fn tools_json(tools: Seq<Tool>, use_parameters: bool) -> Option<Json> {
    if tools.len() == 0 {
        None
    } else {
        Some(
            one_item(
                one_entry(
                    "functionDeclarations"@,
                    Json::Array(declarations(tools, use_parameters)),
                ),
            ),
        )
    }
}

fn make_declaration(tool: &Tool, use_parameters: bool) -> (r: Value)
    ensures
        r@ == declaration(*tool, use_parameters),
{
    let mut e = new_entries();
    put_str(&mut e, "name", tool.name.as_str());
    put_str(&mut e, "description", tool.description.as_str());
    let schema = tool.parameters.to_value();
    if use_parameters {
        put(&mut e, "parameters", sanitize_for_openapi(&schema));
    } else {
        put(&mut e, "parametersJsonSchema", schema);
    }
    object(e)
}

pub fn convert_tools(tools: &Vec<Tool>, use_parameters: bool) -> (r: Option<Value>)
    ensures
        crate::json::opt_json(r) == tools_json(tools@, use_parameters),
{
    if tools.len() == 0 {
        return None;
    }
    let mut list = new_items();
    let mut i: usize = 0;
    while i < tools.len()
        invariant
            i <= tools@.len(),
            items(list@) == declarations(tools@.take(i as int), use_parameters),
        decreases tools.len() - i,
    {
        push_item(&mut list, make_declaration(&tools[i], use_parameters));
        proof {
            assert(declarations(tools@.take(i + 1), use_parameters) =~= declarations(
                tools@.take(i as int),
                use_parameters,
            ).push(declaration(tools@[i as int], use_parameters)));
        }
        i += 1;
    }
    proof {
        assert(tools@.take(tools@.len() as int) =~= tools@);
    }
    Some(array1(object1("functionDeclarations", array(list))))
}

// ---------------------------------------------------------------------------
// Laws
// ---------------------------------------------------------------------------

proof fn lemma_plain_entries(e: Entries)
    ensures
        forall|i: int|
            0 <= i < plain_entries(e).len() ==> !is_meta_key((#[trigger] plain_entries(e)[i]).0),
        plain_entries(plain_entries(e)) == plain_entries(e),
    decreases e,
{
    if e.len() > 0 {
        let before = e.drop_last();
        lemma_plain_entries(before);
        if !is_meta_key(e.last().0) {
            law_plain_schema_is_plain(e.last().1);
            let grown = plain_entries(before).push((e.last().0, plain_schema(e.last().1)));
            assert(grown.drop_last() =~= plain_entries(before));
        }
    }
}

proof fn lemma_plain_items(a: Seq<Json>)
    ensures
        plain_items(plain_items(a)) == plain_items(a),
    decreases a,
{
    if a.len() > 0 {
        let before = a.drop_last();
        lemma_plain_items(before);
        law_plain_schema_is_plain(a.last());
        let grown = plain_items(before).push(plain_schema(a.last()));
        assert(grown.drop_last() =~= plain_items(before));
    }
}

/// Stripping meta declarations leaves none behind, so stripping once more
/// changes nothing.
pub proof fn law_plain_schema_is_plain(j: Json)
    ensures
        plain_schema(plain_schema(j)) == plain_schema(j),
        plain_schema(j) matches Json::Object(e) ==> forall|i: int|
            0 <= i < e.len() ==> !is_meta_key((#[trigger] e[i]).0),
    decreases j,
{
    match j {
        Json::Object(e) => {
            lemma_plain_entries(e);
        },
        Json::Array(a) => {
            lemma_plain_items(a);
        },
        _ => {},
    }
}

/// The results of tools that follow each other stand in one content, where no
/// images have to stand between them.
pub proof fn law_results_stand_together(
    messages: Seq<Message>,
    first: ToolResultMessage,
    second: ToolResultMessage,
    model: Model,
)
    requires
        takes_images_in_results(model.id@) || shown_images(first, model).len() == 0,
    ensures
        ({
            let one = contents_of(messages.push(Message::ToolResult(first)), model);
            let two = with_response(one, response_part(second, model));
            &&& two.len() == one.len()
            &&& two.last().role == "user"@
            &&& two.last().parts == one.last().parts.push(response_part(second, model))
        }),
{
    let list = messages.push(Message::ToolResult(first));
    assert(list.drop_last() =~= messages);
    let before = contents_of(messages, model);
    let one = with_response(before, response_part(first, model));
    assert(contents_of(list, model) == one);
    let parts = one.last().parts;
    assert(parts[parts.len() - 1] is FunctionResponse);
    assert(holds_response(parts));
}

} // verus!
