//! Headers that GitHub Copilot asks of a request.
use vstd::prelude::*;
use crate::api::headers::{new_pairs, push_pair, Pairs};
use crate::types::{pairs, Content, Message, UserMessageContent};

verus! {

/// Who a request comes from: the user where there is no message or the last one
/// is the user's, else the agent.
pub open spec fn initiator(messages: Seq<Message>) -> Seq<char> {
    if messages.len() > 0 && !(messages.last() is User) {
        "agent"@
    } else {
        "user"@
    }
}

pub fn infer_copilot_initiator(messages: &Vec<Message>) -> (r: &'static str)
    ensures
        r@ == initiator(messages@),
{
    if messages.len() > 0 {
        match &messages[messages.len() - 1] {
            Message::User(_) => "user",
            _ => "agent",
        }
    } else {
        "user"
    }
}

/// Whether a list of blocks holds an image.
pub open spec fn holds_image(content: Seq<Content>) -> bool {
    exists|i: int| 0 <= i < content.len() && (#[trigger] content[i]) is Image
}

/// Whether a message of the user or of a tool holds an image.
pub open spec fn message_holds_image(message: Message) -> bool {
    match message {
        Message::User(user) => match user.content {
            UserMessageContent::Blocks(content) => holds_image(content@),
            _ => false,
        },
        Message::ToolResult(tool) => holds_image(tool.content@),
        _ => false,
    }
}

pub open spec fn any_holds_image(messages: Seq<Message>) -> bool {
    exists|i: int| 0 <= i < messages.len() && message_holds_image(#[trigger] messages[i])
}

pub fn has_image(content: &Vec<Content>) -> (r: bool)
    ensures
        r == holds_image(content@),
{
    let mut i: usize = 0;
    while i < content.len()
        invariant
            i <= content@.len(),
            forall|j: int| 0 <= j < i ==> !(content@[j] is Image),
        decreases content.len() - i,
    {
        if let Content::Image(_) = &content[i] {
            return true;
        }
        i += 1;
    }
    false
}

pub fn has_copilot_vision_input(messages: &Vec<Message>) -> (r: bool)
    ensures
        r == any_holds_image(messages@),
{
    let mut i: usize = 0;
    while i < messages.len()
        invariant
            i <= messages@.len(),
            forall|j: int| 0 <= j < i ==> !message_holds_image(messages@[j]),
        decreases messages.len() - i,
    {
        let found = match &messages[i] {
            Message::User(user) => match &user.content {
                UserMessageContent::Blocks(content) => has_image(content),
                _ => false,
            },
            Message::ToolResult(tool) => has_image(&tool.content),
            _ => false,
        };
        if found {
            return true;
        }
        i += 1;
    }
    false
}

pub struct CopilotDynamicHeadersParams<'a> {
    pub messages: &'a Vec<Message>,
    pub has_images: bool,
}

pub open spec fn copilot_headers(messages: Seq<Message>, has_images: bool) -> Pairs {
    let always = Pairs::empty().push(("X-Initiator"@, initiator(messages))).push(
        ("Openai-Intent"@, "conversation-edits"@),
    );
    if has_images {
        always.push(("Copilot-Vision-Request"@, "true"@))
    } else {
        always
    }
}

pub fn build_copilot_dynamic_headers(params: CopilotDynamicHeadersParams<'_>) -> (r: Vec<
    (String, String),
>)
    ensures
        pairs(r@) == copilot_headers(params.messages@, params.has_images),
{
    let mut headers = new_pairs();
    push_pair(&mut headers, "X-Initiator", infer_copilot_initiator(params.messages));
    push_pair(&mut headers, "Openai-Intent", "conversation-edits");
    if params.has_images {
        push_pair(&mut headers, "Copilot-Vision-Request", "true");
    }
    headers
}

} // verus!
