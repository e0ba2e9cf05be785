//! Which headers a request has in the end.
use vstd::prelude::*;
use crate::api::github_copilot_headers::{any_holds_image, copilot_headers};
use crate::api::headers::{
    cache_retention, cached_session, client_key, gives_header, has_name, name_index, overridden,
    same_name, with_header, OptPairs, Pairs,
};
use crate::api::mistral_conversations::request::{merged, merged_or_removed};
use crate::api::openai_codex_responses::request::{adjusted, without_name};
use crate::json::{get, lemma_with_entry};
use crate::text::{ascii_lower, is_blank};
use crate::types::{Message, UserMessageContent};

verus! {

/// The value that the last entry of a key gives, where one gives any.
pub open spec fn last_given(overrides: OptPairs, key: Seq<char>) -> Option<Seq<char>>
    decreases overrides.len(),
{
    if overrides.len() == 0 {
        None
    } else if overrides.last().0 == key && overrides.last().1 is Some {
        overrides.last().1
    } else {
        last_given(overrides.drop_last(), key)
    }
}

/// What is asked for wins: a header holds the last value that was asked for it, or
/// what it held before where none was.
pub proof fn law_asked_headers_win(m: Pairs, overrides: OptPairs, key: Seq<char>)
    ensures
        get(overridden(m, overrides), key) == match last_given(overrides, key) {
            Some(value) => Some(value),
            None => get(m, key),
        },
    decreases overrides.len(),
{
    if overrides.len() > 0 {
        law_asked_headers_win(m, overrides.drop_last(), key);
        if let Some(value) = overrides.last().1 {
            lemma_with_entry(
                overridden(m, overrides.drop_last()),
                overrides.last().0,
                value,
                key,
            );
        }
    }
}

pub proof fn lemma_name_index(m: Pairs, name: Seq<char>)
    ensures
        0 <= name_index(m, name) <= m.len(),
        has_name(m, name) ==> same_name(m[name_index(m, name)].0, name),
        forall|j: int| 0 <= j < name_index(m, name) ==> !same_name((#[trigger] m[j]).0, name),
    decreases m.len(),
{
    if m.len() > 0 && !same_name(m[0].0, name) {
        let d = m.drop_first();
        lemma_name_index(d, name);
        assert forall|j: int| 0 <= j < name_index(m, name) implies !same_name(
            (#[trigger] m[j]).0,
            name,
        ) by {
            if j > 0 {
                assert(d[j - 1] == m[j]);
            }
        }
    }
}

pub open spec fn is_first_named(m: Pairs, name: Seq<char>, i: int) -> bool {
    &&& 0 <= i < m.len()
    &&& ascii_lower(m[i].0) == ascii_lower(name)
    &&& forall|j: int| 0 <= j < i ==> ascii_lower((#[trigger] m[j]).0) != ascii_lower(name)
}

/// A header that is set holds its value, whatever case its name had before; every
/// header of another name stays.
pub proof fn law_header_is_set(m: Pairs, name: Seq<char>, value: Seq<char>, i: int)
    ensures
        exists|k: int|
            is_first_named(with_header(m, name, value), name, k) && with_header(
                m,
                name,
                value,
            )[k].1 == value,
        0 <= i < m.len() && ascii_lower(m[i].0) != ascii_lower(name) ==> with_header(
            m,
            name,
            value,
        )[i] == m[i],
        m.len() <= with_header(m, name, value).len() <= m.len() + 1,
{
    lemma_name_index(m, name);
    let k = name_index(m, name);
    let after = with_header(m, name, value);
    assert forall|j: int| 0 <= j < k implies ascii_lower((#[trigger] after[j]).0) != ascii_lower(
        name,
    ) by {
        assert(!same_name(m[j].0, name));
    }
    assert(is_first_named(after, name, k));
    assert(after[k].1 == value);
}

/// A header that is taken away is gone whatever the case of its name, and every
/// header of another name stays, in its order.
pub proof fn law_header_is_taken_away(m: Pairs, name: Seq<char>)
    ensures
        forall|i: int|
            0 <= i < without_name(m, name).len() ==> ascii_lower(
                (#[trigger] without_name(m, name)[i]).0,
            ) != ascii_lower(name),
        forall|x: (Seq<char>, Seq<char>)|
            m.contains(x) && ascii_lower(x.0) != ascii_lower(name) ==> #[trigger] without_name(
                m,
                name,
            ).contains(x),
        forall|x: (Seq<char>, Seq<char>)| #[trigger]
            without_name(m, name).contains(x) ==> m.contains(x),
    decreases m.len(),
{
    if m.len() > 0 {
        let rest = m.drop_last();
        law_header_is_taken_away(rest, name);
        let before = without_name(rest, name);
        let after = without_name(m, name);
        assert forall|x: (Seq<char>, Seq<char>)|
            m.contains(x) && ascii_lower(x.0) != ascii_lower(name) implies #[trigger] after.contains(
            x,
        ) by {
            let i = choose|i: int| 0 <= i < m.len() && m[i] == x;
            if i < rest.len() {
                assert(rest[i] == x);
                assert(before.contains(x));
                let j = choose|j: int| 0 <= j < before.len() && before[j] == x;
                assert(after[j] == x);
            } else {
                assert(after.last() == x);
                assert(after[after.len() - 1] == x);
            }
        }
        assert forall|x: (Seq<char>, Seq<char>)| #[trigger] after.contains(x) implies m.contains(
            x,
        ) by {
            let j = choose|j: int| 0 <= j < after.len() && after[j] == x;
            if j < before.len() {
                assert(before[j] == x);
                assert(before.contains(x));
                let i = choose|i: int| 0 <= i < rest.len() && rest[i] == x;
                assert(m[i] == x);
            } else {
                assert(m[m.len() - 1] == x);
            }
        }
    }
}

/// Asking for headers in two lists is asking for the one and then for the other.
pub proof fn law_asking_in_two(m: Pairs, a: OptPairs, b: OptPairs)
    ensures
        overridden(m, a + b) == overridden(overridden(m, a), b),
        adjusted(m, a + b) == adjusted(adjusted(m, a), b),
        merged_or_removed(m, a + b) == merged_or_removed(merged_or_removed(m, a), b),
    decreases b.len(),
{
    if b.len() == 0 {
        assert(a + b =~= a);
    } else {
        law_asking_in_two(m, a, b.drop_last());
        assert((a + b).drop_last() =~= a + b.drop_last());
        assert((a + b).last() == b.last());
    }
}

/// One header that is asked for is set, and one that is asked away is taken away.
pub proof fn law_one_header_is_asked(m: Pairs, name: Seq<char>, value: Seq<char>)
    ensures
        adjusted(m, seq![(name, Some(value))]) == with_header(m, name, value),
        adjusted(m, seq![(name, None)]) == without_name(m, name),
        merged_or_removed(m, seq![(name, Some(value))]) == with_header(m, name, value),
        merged(m, seq![(name, value)]) == with_header(m, name, value),
        !has_name(m, name) ==> merged_or_removed(m, seq![(name, None)]) == m,
        has_name(m, name) ==> merged_or_removed(m, seq![(name, None)]) == m.remove(
            name_index(m, name),
        ),
{
    let given: OptPairs = seq![(name, Some(value))];
    let taken: OptPairs = seq![(name, None)];
    let plain: Pairs = seq![(name, value)];
    assert(given.drop_last() =~= Seq::empty());
    assert(taken.drop_last() =~= Seq::empty());
    assert(plain.drop_last() =~= Seq::empty());
    assert(given.last() == (name, Some(value)));
    assert(taken.last() == (name, None::<Seq<char>>));
    assert(plain.last() == (name, value));
    reveal_with_fuel(adjusted, 2);
    reveal_with_fuel(merged_or_removed, 2);
    reveal_with_fuel(merged, 2);
}

/// A key that is not empty is used as it is; without one a request is only made
/// where a header gives the authority; else the error names the provider.
pub proof fn law_key_is_used(
    provider: Seq<char>,
    api_key: Option<Seq<char>>,
    headers: OptPairs,
)
    ensures
        api_key matches Some(key) ==> (key.len() > 0 ==> client_key(provider, api_key, headers)
            == Ok::<Seq<char>, Seq<char>>(key)),
        api_key is None && (gives_header(headers, "authorization"@) || gives_header(
            headers,
            "cf-aig-authorization"@,
        )) ==> client_key(provider, api_key, headers) is Ok,
        api_key is None && !gives_header(headers, "authorization"@) && !gives_header(
            headers,
            "cf-aig-authorization"@,
        ) ==> client_key(provider, api_key, headers) == Err::<Seq<char>, Seq<char>>(
            "No API key for provider: "@ + provider,
        ),
        gives_header(headers, "authorization"@) <==> exists|i: int|
            0 <= i < headers.len() && ascii_lower((#[trigger] headers[i]).0) == ascii_lower(
                "authorization"@,
            ) && headers[i].1 is Some && !is_blank(headers[i].1->0),
{
    if exists|i: int|
        0 <= i < headers.len() && ascii_lower((#[trigger] headers[i]).0) == ascii_lower(
            "authorization"@,
        ) && headers[i].1 is Some && !is_blank(headers[i].1->0) {
        let i = choose|i: int|
            0 <= i < headers.len() && ascii_lower((#[trigger] headers[i]).0) == ascii_lower(
                "authorization"@,
            ) && headers[i].1 is Some && !is_blank(headers[i].1->0);
        assert(same_name(headers[i].0, "authorization"@));
    }
}

/// The retention that is asked for is used; else it is long where the environment
/// says so and short otherwise. A session is only told where something is retained.
pub proof fn law_retention(
    asked: Option<Seq<char>>,
    environment: Option<Seq<char>>,
    session: Option<Seq<char>>,
)
    ensures
        asked is Some ==> cache_retention(asked, environment) == asked->0,
        asked is None && environment == Some("long"@) ==> cache_retention(asked, environment)
            == "long"@,
        asked is None && environment != Some("long"@) ==> cache_retention(asked, environment)
            == "short"@,
        cached_session("none"@, session) is None,
        cached_session("short"@, session) == session,
        cached_session("long"@, session) == session,
{
    reveal_strlit("none");
    reveal_strlit("short");
    reveal_strlit("long");
    assert("none"@[0] == 'n' && "short"@[0] == 's' && "long"@[0] == 'l');
}

/// Copilot is told who speaks: a user where the last message is one or there is
/// none, an agent otherwise; and that images come where one does.
pub proof fn law_copilot_is_told(messages: Seq<Message>, has_images: bool)
    ensures
        ({
            let h = copilot_headers(messages, has_images);
            &&& messages.len() == 0 ==> h.contains(("X-Initiator"@, "user"@))
            &&& messages.len() > 0 && messages.last() is User ==> h.contains(
                ("X-Initiator"@, "user"@),
            )
            &&& messages.len() > 0 && messages.last() !is User ==> h.contains(
                ("X-Initiator"@, "agent"@),
            )
            &&& h.contains(("Openai-Intent"@, "conversation-edits"@))
            &&& has_images <==> h.len() == 3
            &&& has_images ==> h.contains(("Copilot-Vision-Request"@, "true"@))
        }),
{
    let h = copilot_headers(messages, has_images);
    assert(h[0].0 == "X-Initiator"@);
    assert(h[1] == ("Openai-Intent"@, "conversation-edits"@));
    assert(h.contains(h[0]));
    if has_images {
        assert(h[2] == ("Copilot-Vision-Request"@, "true"@));
    }
}

/// A conversation shows images exactly if a user or a tool result does.
pub proof fn law_images_are_seen(messages: Seq<Message>)
    ensures
        any_holds_image(messages) <==> exists|i: int|
            0 <= i < messages.len() && match #[trigger] messages[i] {
                Message::User(user) => user.content matches UserMessageContent::Blocks(blocks)
                    && exists|k: int| 0 <= k < blocks@.len() && (#[trigger] blocks@[k]) is Image,
                Message::ToolResult(result) => exists|k: int|
                    0 <= k < result.content@.len() && (#[trigger] result.content@[k]) is Image,
                Message::Assistant(_) => false,
            },
{
}

} // verus!
