//! What a piece of JSON says under a key.
use vstd::prelude::*;
use crate::json::{no_entries, one_entry, with_entry, Entries, EntriesSpec, Json};

verus! {

/// Whether a piece of JSON is an object that has a value under a key.
pub open spec fn says(j: Json, key: Seq<char>, value: Json) -> bool {
    j matches Json::Object(e) && e.contains((key, value))
}

/// Whether a piece of JSON is an object that has nothing under a key.
pub open spec fn lacks(j: Json, key: Seq<char>) -> bool {
    j matches Json::Object(e) && forall|v: Json| !(#[trigger] e.contains((key, v)))
}

pub broadcast proof fn lemma_put(e: Entries, key: Seq<char>, value: Json, x: (Seq<char>, Json))
    ensures
        #[trigger] e.put(key, value).contains(x) <==> (x == (key, value) || e.contains(x)),
{
    let after = e.put(key, value);
    assert(after[e.len() as int] == (key, value));
    if e.contains(x) {
        let i = choose|i: int| 0 <= i < e.len() && e[i] == x;
        assert(after[i] == x);
    }
    if after.contains(x) {
        let i = choose|i: int| 0 <= i < after.len() && after[i] == x;
        if i < e.len() {
            assert(e[i] == x);
        }
    }
}

pub broadcast proof fn lemma_put_opt(
    e: Entries,
    key: Seq<char>,
    value: Option<Json>,
    x: (Seq<char>, Json),
)
    ensures
        #[trigger] e.put_opt(key, value).contains(x) <==> (value is Some && x == (key, value->0)
            || e.contains(x)),
{
    if let Some(v) = value {
        lemma_put(e, key, v, x);
        assert(e.put_opt(key, value) == e.put(key, v));
    }
}

pub broadcast proof fn lemma_put_if(
    e: Entries,
    condition: bool,
    key: Seq<char>,
    value: Json,
    x: (Seq<char>, Json),
)
    ensures
        #[trigger] e.put_if(condition, key, value).contains(x) <==> (condition && x == (key, value)
            || e.contains(x)),
{
    if condition {
        lemma_put(e, key, value, x);
        assert(e.put_if(condition, key, value) == e.put(key, value));
    }
}

pub broadcast proof fn lemma_no_entries(x: (Seq<char>, Json))
    ensures
        !(#[trigger] no_entries().contains(x)),
{
}

pub broadcast proof fn lemma_one_entry(key: Seq<char>, value: Json, k: Seq<char>, v: Json)
    ensures
        #[trigger] says(one_entry(key, value), k, v) <==> k == key && v == value,
{
    lemma_put(no_entries(), key, value, (k, v));
    lemma_no_entries((k, v));
}

pub broadcast group group_wire {
    lemma_put,
    lemma_put_opt,
    lemma_put_if,
    lemma_no_entries,
    lemma_one_entry,
}

/// Setting an entry keeps the entries of other keys.
pub proof fn lemma_with_entry_contains(
    e: Entries,
    key: Seq<char>,
    value: Json,
    x: (Seq<char>, Json),
)
    ensures
        with_entry(e, key, value).contains((key, value)),
        x.0 != key ==> (with_entry(e, key, value).contains(x) <==> e.contains(x)),
{
    crate::json::lemma_key_index(e, key);
    let after = with_entry(e, key, value);
    let at = crate::json::key_index(e, key);
    assert(after[at] == (key, value));
    if x.0 != key {
        if e.contains(x) {
            let i = choose|i: int| 0 <= i < e.len() && e[i] == x;
            assert(after[i] == x);
        }
        if after.contains(x) {
            let i = choose|i: int| 0 <= i < after.len() && after[i] == x;
            assert(e[i] == x);
        }
    }
}

} // verus!
