//! Request headers, and the keys that a request is authorised with.
use vstd::prelude::*;
use vstd::string::*;
use crate::api::constrained_sampling::res_text;
use crate::json::{find_key, lemma_key_index_is, with_entries, with_entry};
use crate::text::{
    ascii_lower, blank, cat2, eq_ignore_ascii_case, is_blank, opt_is, opt_str, str_eq,
};
use crate::types::{opt_pairs, pairs, ProviderHeaders};

verus! {

/// Names with values.
pub type Pairs = Seq<(Seq<char>, Seq<char>)>;

/// Names with values that may be missing.
pub type OptPairs = Seq<(Seq<char>, Option<Seq<char>>)>;

pub fn new_pairs() -> (r: Vec<(String, String)>)
    ensures
        pairs(r@) == Pairs::empty(),
{
    let r: Vec<(String, String)> = Vec::new();
    proof {
        assert(pairs(r@) =~= Pairs::empty());
    }
    r
}

/// Adds a pair at the end.
pub fn push_pair(m: &mut Vec<(String, String)>, key: &str, value: &str)
    ensures
        pairs(final(m)@) == pairs(old(m)@).push((key@, value@)),
{
    m.push((key.to_owned(), value.to_owned()));
    proof {
        assert(pairs(m@) =~= pairs(old(m)@).push((key@, value@)));
    }
}

/// Replaces the first value of a name, or adds a pair at the end.
pub fn set_pair(m: &mut Vec<(String, String)>, key: &str, value: &str)
    ensures
        pairs(final(m)@) == with_entry(pairs(old(m)@), key@, value@),
{
    match find_key(m, key) {
        Some(i) => {
            proof {
                lemma_key_index_is(pairs(m@), key@, i as int);
            }
            m.set(i, (key.to_owned(), value.to_owned()));
            proof {
                assert(pairs(m@) =~= pairs(old(m)@).update(i as int, (key@, value@)));
            }
        },
        None => {
            proof {
                lemma_key_index_is(pairs(m@), key@, m@.len() as int);
            }
            push_pair(m, key, value);
        },
    }
}

/// Sets each pair of a second list in turn.
pub fn set_pairs(m: &mut Vec<(String, String)>, overrides: &Vec<(String, String)>)
    ensures
        pairs(final(m)@) == with_entries(pairs(old(m)@), pairs(overrides@)),
{
    let mut i: usize = 0;
    while i < overrides.len()
        invariant
            i <= overrides@.len(),
            pairs(m@) == with_entries(pairs(old(m)@), pairs(overrides@).take(i as int)),
        decreases overrides.len() - i,
    {
        set_pair(m, overrides[i].0.as_str(), overrides[i].1.as_str());
        proof {
            assert(pairs(overrides@).take(i + 1).drop_last() =~= pairs(overrides@).take(i as int));
        }
        i += 1;
    }
    proof {
        assert(pairs(overrides@).take(overrides@.len() as int) =~= pairs(overrides@));
    }
}

/// A copy of a list of pairs.
pub fn clone_pairs(m: &Vec<(String, String)>) -> (r: Vec<(String, String)>)
    ensures
        pairs(r@) == pairs(m@),
{
    let mut r = new_pairs();
    append_pairs(&mut r, m);
    proof {
        assert(Pairs::empty() + pairs(m@) =~= pairs(m@));
    }
    r
}

/// Adds the pairs of a second list at the end.
pub fn append_pairs(m: &mut Vec<(String, String)>, added: &Vec<(String, String)>)
    ensures
        pairs(final(m)@) == pairs(old(m)@) + pairs(added@),
{
    let mut i: usize = 0;
    proof {
        assert(pairs(m@) + pairs(added@).take(0) =~= pairs(m@));
    }
    while i < added.len()
        invariant
            i <= added@.len(),
            pairs(m@) == pairs(old(m)@) + pairs(added@).take(i as int),
        decreases added.len() - i,
    {
        push_pair(m, added[i].0.as_str(), added[i].1.as_str());
        proof {
            assert(pairs(old(m)@) + pairs(added@).take(i + 1) =~= (pairs(old(m)@) + pairs(
                added@,
            ).take(i as int)).push((added@[i as int].0@, added@[i as int].1@)));
        }
        i += 1;
    }
    proof {
        assert(pairs(added@).take(added@.len() as int) =~= pairs(added@));
    }
}

/// The headers of a model, or none.
pub open spec fn opt_list(m: Option<Vec<(String, String)>>) -> Pairs {
    match m {
        Some(m) => pairs(m@),
        None => Seq::empty(),
    }
}

pub fn clone_opt_pairs(m: &Option<Vec<(String, String)>>) -> (r: Vec<(String, String)>)
    ensures
        pairs(r@) == opt_list(*m),
{
    match m {
        Some(m) => clone_pairs(m),
        None => new_pairs(),
    }
}

/// What optional headers of a request hold.
pub open spec fn opt_headers(h: Option<&ProviderHeaders>) -> OptPairs {
    match h {
        Some(h) => opt_pairs(h@),
        None => Seq::empty(),
    }
}

/// The list with every given value set in turn; a missing value changes
/// nothing.
pub open spec fn overridden(m: Pairs, overrides: OptPairs) -> Pairs
    decreases overrides.len(),
{
    if overrides.len() == 0 {
        m
    } else {
        let before = overridden(m, overrides.drop_last());
        match overrides.last().1 {
            Some(value) => with_entry(before, overrides.last().0, value),
            None => before,
        }
    }
}

/// Sets every header that has a value.
pub fn override_headers(m: &mut Vec<(String, String)>, overrides: Option<&ProviderHeaders>)
    ensures
        pairs(final(m)@) == overridden(pairs(old(m)@), opt_headers(overrides)),
{
    if let Some(overrides) = overrides {
        let mut i: usize = 0;
        while i < overrides.len()
            invariant
                i <= overrides@.len(),
                pairs(m@) == overridden(pairs(old(m)@), opt_pairs(overrides@).take(i as int)),
            decreases overrides.len() - i,
        {
            proof {
                assert(opt_pairs(overrides@).take(i + 1).drop_last() =~= opt_pairs(
                    overrides@,
                ).take(i as int));
            }
            if let Some(value) = &overrides[i].1 {
                set_pair(m, overrides[i].0.as_str(), value.as_str());
            }
            i += 1;
        }
        proof {
            assert(opt_pairs(overrides@).take(overrides@.len() as int) =~= opt_pairs(overrides@));
        }
    }
}

// ---------------------------------------------------------------------------
// Names without regard to case
// ---------------------------------------------------------------------------

pub open spec fn same_name(a: Seq<char>, b: Seq<char>) -> bool {
    ascii_lower(a) == ascii_lower(b)
}

/// The position of the first header with a name, whatever its case, or the
/// length where there is none.
pub open spec fn name_index(m: Pairs, name: Seq<char>) -> int
    decreases m.len(),
{
    if m.len() == 0 || same_name(m[0].0, name) {
        0
    } else {
        1 + name_index(m.drop_first(), name)
    }
}

pub open spec fn has_name(m: Pairs, name: Seq<char>) -> bool {
    name_index(m, name) < m.len()
}

/// The list with the value of the first header of a name replaced, or with the
/// header added at the end. The name that is there stays as it is written.
pub open spec fn with_header(m: Pairs, name: Seq<char>, value: Seq<char>) -> Pairs {
    if has_name(m, name) {
        m.update(name_index(m, name), (m[name_index(m, name)].0, value))
    } else {
        m.push((name, value))
    }
}

pub proof fn lemma_name_index_is(m: Pairs, name: Seq<char>, i: int)
    requires
        0 <= i <= m.len(),
        forall|j: int| 0 <= j < i ==> !same_name(m[j].0, name),
        i < m.len() ==> same_name(m[i].0, name),
    ensures
        name_index(m, name) == i,
    decreases m.len(),
{
    if i > 0 {
        assert(!same_name(m[0].0, name));
        lemma_name_index_is(m.drop_first(), name, i - 1);
    }
}

/// The position of the first header with a name.
pub fn find_name(m: &Vec<(String, String)>, name: &str) -> (r: Option<usize>)
    ensures
        match r {
            Some(i) => i < m@.len() && i == name_index(pairs(m@), name@),
            None => name_index(pairs(m@), name@) == m@.len(),
        },
{
    let mut i: usize = 0;
    while i < m.len()
        invariant
            i <= m@.len(),
            forall|j: int| 0 <= j < i ==> !same_name(pairs(m@)[j].0, name@),
        decreases m.len() - i,
    {
        if eq_ignore_ascii_case(m[i].0.as_str(), name) {
            proof {
                lemma_name_index_is(pairs(m@), name@, i as int);
            }
            return Some(i);
        }
        i += 1;
    }
    proof {
        lemma_name_index_is(pairs(m@), name@, m@.len() as int);
    }
    None
}

pub fn set_header(m: &mut Vec<(String, String)>, name: &str, value: &str)
    ensures
        pairs(final(m)@) == with_header(pairs(old(m)@), name@, value@),
{
    match find_name(m, name) {
        Some(i) => {
            let key = m[i].0.clone();
            m.set(i, (key, value.to_owned()));
            proof {
                assert(pairs(m@) =~= pairs(old(m)@).update(
                    i as int,
                    (pairs(old(m)@)[i as int].0, value@),
                ));
            }
        },
        None => {
            push_pair(m, name, value);
        },
    }
}

/// Whether a header of a name is given and its value is not blank.
pub open spec fn gives_header(m: OptPairs, name: Seq<char>) -> bool {
    exists|i: int|
        0 <= i < m.len() && same_name((#[trigger] m[i]).0, name) && (m[i].1 matches Some(value)
            && !is_blank(value))
}

pub fn has_header(headers: Option<&ProviderHeaders>, name: &str) -> (r: bool)
    ensures
        r == gives_header(opt_headers(headers), name@),
{
    let list = match headers {
        Some(list) => list,
        None => {
            return false;
        },
    };
    let mut i: usize = 0;
    while i < list.len()
        invariant
            i <= list@.len(),
            headers == Some(list),
            forall|j: int|
                0 <= j < i ==> !(same_name((#[trigger] opt_pairs(list@)[j]).0, name@) && (
                opt_pairs(list@)[j].1 matches Some(value) && !is_blank(value))),
        decreases list.len() - i,
    {
        if eq_ignore_ascii_case(list[i].0.as_str(), name) {
            if let Some(value) = &list[i].1 {
                if !blank(value.as_str()) {
                    proof {
                        let h = opt_pairs(list@)[i as int];
                        assert(same_name(h.0, name@));
                    }
                    return true;
                }
            }
        }
        i += 1;
    }
    false
}

// ---------------------------------------------------------------------------
// Keys
// ---------------------------------------------------------------------------

pub open spec fn no_key(provider: Seq<char>) -> Seq<char> {
    "No API key for provider: "@ + provider
}

/// The key that a client sends: the key given, or any word where a header
/// authorises the request.
pub open spec fn client_key(
    provider: Seq<char>,
    api_key: Option<Seq<char>>,
    headers: OptPairs,
) -> Result<Seq<char>, Seq<char>> {
    if api_key matches Some(key) && key.len() > 0 {
        Ok(api_key->0)
    } else if gives_header(headers, "authorization"@) || gives_header(
        headers,
        "cf-aig-authorization"@,
    ) {
        Ok("unused"@)
    } else {
        Err(no_key(provider))
    }
}

pub fn get_client_api_key(
    provider: &str,
    api_key: Option<&str>,
    headers: Option<&ProviderHeaders>,
) -> (r: Result<String, String>)
    ensures
        res_text(r) == client_key(provider@, opt_str(api_key), opt_headers(headers)),
{
    if let Some(api_key) = api_key {
        if !api_key.is_empty() {
            return Ok(api_key.to_owned());
        }
    }
    if has_header(headers, "authorization") || has_header(headers, "cf-aig-authorization") {
        return Ok("unused".to_owned());
    }
    Err(cat2("No API key for provider: ", provider))
}

/// How long a prompt is to be kept in a cache: what is asked for, else what the
/// environment asks for, else a short time.
pub open spec fn cache_retention(asked: Option<Seq<char>>, environment: Option<Seq<char>>) -> Seq<
    char,
> {
    match asked {
        Some(asked) => asked,
        None => if environment == Some("long"@) {
            "long"@
        } else {
            "short"@
        },
    }
}

/// `environment` is the value of `PI_CACHE_RETENTION`.
pub fn resolve_cache_retention(asked: Option<&str>, environment: Option<&str>) -> (r: String)
    ensures
        r@ == cache_retention(opt_str(asked), opt_str(environment)),
{
    if let Some(asked) = asked {
        return asked.to_owned();
    }
    if opt_is(environment, "long") {
        return "long".to_owned();
    }
    "short".to_owned()
}

/// The session that a request names, unless nothing is to be cached.
pub open spec fn cached_session(retention: Seq<char>, session: Option<Seq<char>>) -> Option<
    Seq<char>,
> {
    if retention == "none"@ {
        None
    } else {
        session
    }
}

pub fn cache_session<'a>(retention: &str, session: Option<&'a str>) -> (r: Option<&'a str>)
    ensures
        opt_str(r) == cached_session(retention@, opt_str(session)),
{
    if str_eq(retention, "none") {
        None
    } else {
        session
    }
}

} // verus!
