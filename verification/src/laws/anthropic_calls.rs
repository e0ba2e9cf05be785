//! How tool calls and tool results find each other on the Messages interface.
use vstd::prelude::*;
use crate::api::anthropic_messages::messages::{
    assistant_blocks, content_blocks, converted, marked_message, message_taken, messages_json,
    messages_taken, references, result_json, role_message, run_ended, sibling_blocks, user_blocks,
    Run, Setting,
};
use crate::api::openai_completions::messages::added_names;
use crate::json::{key_index, lemma_key_index, EntriesSpec, Json};
use crate::laws::wire::{group_wire, says};
use crate::types::{Content, Message, ToolResultMessage, UserMessageContent};

verus! {

broadcast use group_wire;

/// Whether a block is the call of an id.
pub open spec fn is_use(block: Json, id: Seq<char>) -> bool {
    says(block, "type"@, Json::Str("tool_use"@)) && says(block, "id"@, Json::Str(id))
}

/// Whether a message that is sent calls a tool under an id.
pub open spec fn uses(message: Json, id: Seq<char>) -> bool {
    exists|list: Seq<Json>, k: int|
        says(message, "content"@, Json::Array(list)) && 0 <= k < list.len() && is_use(
            #[trigger] list[k],
            id,
        )
}

/// Whether a block gives the result of a call.
pub open spec fn is_answer(block: Json, id: Seq<char>) -> bool {
    says(block, "tool_use_id"@, Json::Str(id))
}

/// Whether a message that is sent gives the result of the call of an id.
pub open spec fn answers(message: Json, id: Seq<char>) -> bool {
    exists|list: Seq<Json>, k: int|
        says(message, "content"@, Json::Array(list)) && 0 <= k < list.len() && is_answer(
            #[trigger] list[k],
            id,
        )
}

/// Whether one of the first messages of a list uses an id.
pub open spec fn used_within(sent: Seq<Json>, n: int, id: Seq<char>) -> bool {
    exists|k: int| 0 <= k < n && uses(#[trigger] sent[k], id)
}

/// Whether an assistant called a tool under an id in the first messages of a
/// conversation.
pub open spec fn called_within(messages: Seq<Message>, n: int, id: Seq<char>) -> bool {
    exists|j: int|
        0 <= j < n && message_calls(#[trigger] messages[j], id)
}

pub open spec fn message_calls(message: Message, id: Seq<char>) -> bool {
    message matches Message::Assistant(a) && calls(a.content@, id)
}

pub open spec fn calls(content: Seq<Content>, id: Seq<char>) -> bool {
    exists|k: int|
        0 <= k < content.len() && ((#[trigger] content[k]) matches Content::ToolCall(call)
            && call.id@ == id)
}

proof fn lemma_names()
    ensures
        "tool_use_id"@ != "type"@,
        "tool_use_id"@ != "text"@,
        "tool_use_id"@ != "source"@,
        "tool_use_id"@ != "thinking"@,
        "tool_use_id"@ != "signature"@,
        "tool_use_id"@ != "data"@,
        "tool_use_id"@ != "id"@,
        "tool_use_id"@ != "name"@,
        "tool_use_id"@ != "input"@,
        "tool_use_id"@ != "content"@,
        "tool_use_id"@ != "is_error"@,
        "tool_use_id"@ != "cache_control"@,
        "role"@ != "content"@,
{
    reveal_strlit("tool_use_id");
    reveal_strlit("type");
    reveal_strlit("text");
    reveal_strlit("source");
    reveal_strlit("thinking");
    reveal_strlit("signature");
    reveal_strlit("data");
    reveal_strlit("id");
    reveal_strlit("name");
    reveal_strlit("input");
    reveal_strlit("content");
    reveal_strlit("is_error");
    reveal_strlit("cache_control");
    reveal_strlit("role");
    let n = "tool_use_id"@.len();
    assert("type"@.len() != n && "text"@.len() != n && "source"@.len() != n);
    assert("thinking"@.len() != n && "signature"@.len() != n && "data"@.len() != n);
    assert("id"@.len() != n && "name"@.len() != n && "input"@.len() != n);
    assert("content"@.len() != n && "is_error"@.len() != n && "cache_control"@.len() != n);
    assert("role"@.len() != "content"@.len());
}

proof fn lemma_user_blocks(content: Seq<Content>, k: int, id: Seq<char>)
    requires
        0 <= k < user_blocks(content).len(),
    ensures
        !is_answer(user_blocks(content)[k], id),
    decreases content.len(),
{
    lemma_names();
    if content.len() > 0 {
        if k < user_blocks(content.drop_last()).len() {
            lemma_user_blocks(content.drop_last(), k, id);
        }
    }
}

proof fn lemma_assistant_blocks(content: Seq<Content>, s: Setting, k: int, id: Seq<char>)
    requires
        0 <= k < assistant_blocks(content, s).len(),
    ensures
        !is_answer(assistant_blocks(content, s)[k], id),
    decreases content.len(),
{
    lemma_names();
    if content.len() > 0 {
        if k < assistant_blocks(content.drop_last(), s).len() {
            lemma_assistant_blocks(content.drop_last(), s, k, id);
        }
    }
}

proof fn lemma_siblings(result: ToolResultMessage, list: Seq<Json>, k: int, id: Seq<char>)
    requires
        0 <= k < sibling_blocks(result, list).len(),
    ensures
        !is_answer(sibling_blocks(result, list)[k], id),
{
    lemma_names();
    let blocks = content_blocks(converted(result.content@));
    assert(sibling_blocks(result, list) == blocks);
}

/// The call of an assistant is among its blocks.
proof fn lemma_call_is_among(content: Seq<Content>, s: Setting, id: Seq<char>) -> (k: int)
    requires
        calls(content, id),
    ensures
        0 <= k < assistant_blocks(content, s).len(),
        is_use(assistant_blocks(content, s)[k], id),
    decreases content.len(),
{
    let before = assistant_blocks(content.drop_last(), s);
    let j = choose|j: int|
        0 <= j < content.len() && ((#[trigger] content[j]) matches Content::ToolCall(call)
            && call.id@ == id);
    if j == content.len() - 1 {
        assistant_blocks(content, s).len() - 1
    } else {
        assert(content.drop_last()[j] == content[j]);
        assert(calls(content.drop_last(), id));
        let k = lemma_call_is_among(content.drop_last(), s, id);
        assert(assistant_blocks(content, s)[k] == before[k]);
        k
    }
}

/// What a message of a role says as its content.
proof fn lemma_role_message(role: Seq<char>, content: Json, v: Json)
    ensures
        says(role_message(role, content), "content"@, v) <==> v == content,
{
    lemma_names();
}

spec fn run_holds(r: Run, messages: Seq<Message>) -> bool {
    &&& forall|id: Seq<char>|
        #[trigger] called_within(messages, messages.len() as int, id) ==> used_within(
            r.messages,
            r.messages.len() as int,
            id,
        )
    &&& forall|m: int, id: Seq<char>|
        0 <= m < r.messages.len() && #[trigger] answers(r.messages[m], id) ==> used_within(
            r.messages,
            m,
            id,
        )
    &&& forall|k: int, id: Seq<char>|
        0 <= k < r.results.len() && #[trigger] is_answer(r.results[k], id) ==> used_within(
            r.messages,
            r.messages.len() as int,
            id,
        )
    &&& forall|k: int, id: Seq<char>|
        0 <= k < r.siblings.len() ==> !(#[trigger] is_answer(r.siblings[k], id))
}

proof fn lemma_used_later(sent: Seq<Json>, n: int, more: Seq<Json>, m: int, id: Seq<char>)
    requires
        used_within(sent, n, id),
        0 <= n <= sent.len() <= more.len(),
        n <= m <= more.len(),
        forall|k: int| 0 <= k < sent.len() ==> #[trigger] more[k] == sent[k],
    ensures
        used_within(more, m, id),
{
    let k = choose|k: int| 0 <= k < n && uses(#[trigger] sent[k], id);
    assert(uses(more[k], id));
}

/// A message that answers nothing new may be put last.
proof fn lemma_put_last(r: Run, messages: Seq<Message>, message: Json, after: Run)
    requires
        run_holds(r, messages),
        after.messages == r.messages.push(message),
        after.results.len() == 0,
        after.siblings.len() == 0,
        forall|id: Seq<char>| #[trigger]
            answers(message, id) ==> used_within(r.messages, r.messages.len() as int, id),
    ensures
        run_holds(after, messages),
{
    let n = r.messages.len() as int;
    assert forall|id: Seq<char>| #[trigger]
        called_within(messages, messages.len() as int, id) implies used_within(
        after.messages,
        after.messages.len() as int,
        id,
    ) by {
        lemma_used_later(r.messages, n, after.messages, n + 1, id);
    }
    assert forall|m: int, id: Seq<char>|
        0 <= m < after.messages.len() && #[trigger] answers(
            after.messages[m],
            id,
        ) implies used_within(after.messages, m, id) by {
        if m < n {
            assert(answers(r.messages[m], id));
            lemma_used_later(r.messages, m, after.messages, m, id);
        } else {
            lemma_used_later(r.messages, n, after.messages, n, id);
        }
    }
}

proof fn lemma_run_ended(r: Run, messages: Seq<Message>)
    requires
        run_holds(r, messages),
    ensures
        run_holds(run_ended(r), messages),
        run_ended(r).results.len() == 0,
        r.results.len() == 0 ==> run_ended(r) == r,
{
    if r.results.len() > 0 {
        let list = r.results + r.siblings;
        let message = role_message("user"@, Json::Array(list));
        assert forall|id: Seq<char>| #[trigger] answers(message, id) implies used_within(
            r.messages,
            r.messages.len() as int,
            id,
        ) by {
            let (l, k) = choose|l: Seq<Json>, k: int|
                says(message, "content"@, Json::Array(l)) && 0 <= k < l.len() && is_answer(
                    #[trigger] l[k],
                    id,
                );
            lemma_role_message("user"@, Json::Array(list), Json::Array(l));
            if k < r.results.len() {
                assert(is_answer(r.results[k], id));
            } else {
                assert(is_answer(r.siblings[k - r.results.len()], id));
            }
        }
        lemma_put_last(r, messages, message, run_ended(r));
    }
}

/// No result is left over where none is collected.
spec fn tidy(r: Run) -> bool {
    r.results.len() == 0 ==> r.siblings.len() == 0
}

proof fn lemma_message_taken(r: Run, messages: Seq<Message>, message: Message, s: Setting)
    requires
        run_holds(r, messages),
        tidy(r),
        message matches Message::ToolResult(result) ==> called_within(
            messages,
            messages.len() as int,
            result.tool_call_id@,
        ),
    ensures
        run_holds(message_taken(r, message, s), messages.push(message)),
        tidy(message_taken(r, message, s)),
{
    lemma_names();
    lemma_run_ended(r, messages);
    let ended = run_ended(r);
    let after = message_taken(r, message, s);
    let n = ended.messages.len() as int;
    let all = messages.push(message);
    match message {
        Message::User(user) => {
            if after.messages.len() > n {
                assert forall|id: Seq<char>| !(#[trigger] answers(after.messages.last(), id)) by {
                    if answers(after.messages.last(), id) {
                        let (l, k) = choose|l: Seq<Json>, k: int|
                            says(after.messages.last(), "content"@, Json::Array(l)) && 0 <= k
                                < l.len() && is_answer(#[trigger] l[k], id);
                        match user.content {
                            UserMessageContent::Text(text) => {
                                lemma_role_message("user"@, Json::Str(text@), Json::Array(l));
                            },
                            UserMessageContent::Blocks(blocks) => {
                                lemma_role_message(
                                    "user"@,
                                    Json::Array(user_blocks(blocks@)),
                                    Json::Array(l),
                                );
                                lemma_user_blocks(blocks@, k, id);
                            },
                        }
                    }
                }
                lemma_put_last(ended, messages, after.messages.last(), after);
            } else {
                assert(after == ended);
            }
            lemma_no_new_calls(after, messages, message);
        },
        Message::Assistant(a) => {
            let blocks = assistant_blocks(a.content@, s);
            if blocks.len() > 0 {
                let put = role_message("assistant"@, Json::Array(blocks));
                assert(after.messages == ended.messages.push(put));
                assert forall|id: Seq<char>| !(#[trigger] answers(put, id)) by {
                    if answers(put, id) {
                        let (l, k) = choose|l: Seq<Json>, k: int|
                            says(put, "content"@, Json::Array(l)) && 0 <= k < l.len() && is_answer(
                                #[trigger] l[k],
                                id,
                            );
                        lemma_role_message("assistant"@, Json::Array(blocks), Json::Array(l));
                        lemma_assistant_blocks(a.content@, s, k, id);
                    }
                }
                lemma_put_last(ended, messages, put, after);
            } else {
                assert(after == ended);
            }
            assert forall|id: Seq<char>| #[trigger]
                called_within(all, all.len() as int, id) implies used_within(
                after.messages,
                after.messages.len() as int,
                id,
            ) by {
                if calls(a.content@, id) {
                    let k = lemma_call_is_among(a.content@, s, id);
                    lemma_role_message("assistant"@, Json::Array(blocks), Json::Array(blocks));
                    assert(is_use(blocks[k], id));
                    assert(uses(after.messages[n], id));
                } else {
                    let j = choose|j: int|
                        0 <= j < all.len() && message_calls(#[trigger] all[j], id);
                    assert(messages[j] == all[j]);
                    assert(called_within(messages, messages.len() as int, id));
                }
            }
        },
        Message::ToolResult(result) => {
            let (list, loaded) = references(added_names(result), s, r.loaded);
            assert forall|k: int, id: Seq<char>|
                0 <= k < after.results.len() && #[trigger] is_answer(
                    after.results[k],
                    id,
                ) implies used_within(after.messages, after.messages.len() as int, id) by {
                if k < r.results.len() {
                    assert(is_answer(r.results[k], id));
                } else {
                    assert(after.results[k] == result_json(result, list));
                    assert(id == result.tool_call_id@);
                }
            }
            assert forall|k: int, id: Seq<char>| 0 <= k < after.siblings.len() implies !(
            #[trigger] is_answer(after.siblings[k], id)) by {
                if k < r.siblings.len() {
                    assert(!is_answer(r.siblings[k], id));
                } else {
                    lemma_siblings(result, list, k - r.siblings.len(), id);
                }
            }
            lemma_no_new_calls(after, messages, message);
        },
    }
}

proof fn lemma_no_new_calls(r: Run, messages: Seq<Message>, message: Message)
    requires
        run_holds(r, messages),
        message !is Assistant,
    ensures
        run_holds(r, messages.push(message)),
{
    let all = messages.push(message);
    assert forall|id: Seq<char>| #[trigger]
        called_within(all, all.len() as int, id) implies used_within(
        r.messages,
        r.messages.len() as int,
        id,
    ) by {
        let j = choose|j: int|
            0 <= j < all.len() && message_calls(#[trigger] all[j], id);
        assert(messages[j] == all[j]);
        assert(called_within(messages, messages.len() as int, id));
    }
}

/// Whether every tool result answers a call that was made before it.
pub open spec fn results_answer_calls(messages: Seq<Message>) -> bool {
    forall|i: int|
        0 <= i < messages.len() ==> ((#[trigger] messages[i]) matches Message::ToolResult(result)
            ==> called_within(messages, i, result.tool_call_id@))
}

proof fn lemma_messages_taken(messages: Seq<Message>, s: Setting)
    requires
        results_answer_calls(messages),
    ensures
        run_holds(messages_taken(messages, s), messages),
        tidy(messages_taken(messages, s)),
    decreases messages.len(),
{
    if messages.len() > 0 {
        let rest = messages.drop_last();
        assert forall|i: int| 0 <= i < rest.len() implies ((#[trigger] rest[i]) matches
            Message::ToolResult(result) ==> called_within(rest, i, result.tool_call_id@)) by {
            if let Message::ToolResult(result) = rest[i] {
                assert(messages[i] == rest[i]);
                lemma_called_in(messages, rest, i, result.tool_call_id@);
            }
        }
        lemma_messages_taken(rest, s);
        if let Message::ToolResult(result) = messages.last() {
            assert(messages[messages.len() - 1] is ToolResult);
            lemma_called_in(messages, rest, messages.len() - 1, result.tool_call_id@);
        }
        lemma_message_taken(messages_taken(rest, s), rest, messages.last(), s);
        assert(rest.push(messages.last()) =~= messages);
    }
}

proof fn lemma_called_in(messages: Seq<Message>, rest: Seq<Message>, n: int, id: Seq<char>)
    requires
        called_within(messages, n, id),
        rest == messages.drop_last(),
        messages.len() > 0,
        0 <= n <= rest.len(),
    ensures
        called_within(rest, n, id),
{
    let j = choose|j: int|
        0 <= j < n && message_calls(#[trigger] messages[j], id);
    assert(rest[j] == messages[j]);
}

/// Marking a message for the cache gives no new answer.
proof fn lemma_marked(message: Json, marker: Json, id: Seq<char>)
    requires
        answers(marked_message(message, marker), id),
    ensures
        answers(message, id),
{
    lemma_names();
    let after = marked_message(message, marker);
    if after != message {
        let e = message->Object_0;
        let (l, k) = choose|l: Seq<Json>, k: int|
            says(after, "content"@, Json::Array(l)) && 0 <= k < l.len() && is_answer(
                #[trigger] l[k],
                id,
            );
        lemma_key_index(e, "content"@);
        let at = key_index(e, "content"@);
        let x = ("content"@, Json::Array(l));
        let i = choose|i: int| 0 <= i < after->Object_0.len() && after->Object_0[i] == x;
        if i != at {
            assert(e[i] == x);
            assert(says(message, "content"@, Json::Array(l)));
        } else {
            match e[at].1 {
                Json::Array(list) => {
                    assert(says(message, "content"@, Json::Array(list)));
                    let block = list.last()->Object_0;
                    if k == list.len() - 1 {
                        assert(l[k] == Json::Object(block.put("cache_control"@, marker)));
                        assert(is_answer(list[k], id));
                    } else {
                        assert(is_answer(list[k], id));
                    }
                },
                _ => {},
            }
        }
    }
}

/// Results find their calls. Where every tool result of a conversation has the id
/// of an earlier call, every `tool_use_id` that is sent is the `id` of a `tool_use`
/// in an earlier message that is sent.
pub proof fn law_results_find_their_calls(
    messages: Seq<Message>,
    s: Setting,
    marker: Option<Json>,
    m: int,
    id: Seq<char>,
)
    requires
        results_answer_calls(messages),
        0 <= m < messages_json(messages, s, marker).len(),
        answers(messages_json(messages, s, marker)[m], id),
    ensures
        used_within(messages_json(messages, s, marker), m, id),
{
    lemma_messages_taken(messages, s);
    lemma_run_ended(messages_taken(messages, s), messages);
    let plain = run_ended(messages_taken(messages, s)).messages;
    let sent = messages_json(messages, s, marker);
    if let Some(marker) = marker {
        if m == plain.len() - 1 {
            lemma_marked(plain[m], marker, id);
        }
        assert(answers(plain[m], id));
        let k = choose|k: int| 0 <= k < m && uses(#[trigger] plain[k], id);
        assert(sent[k] == plain[k]);
        assert(uses(sent[k], id));
    }
}

} // verus!
