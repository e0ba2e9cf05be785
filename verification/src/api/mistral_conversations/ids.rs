//! Identifiers of tool calls: nine letters and digits, one for each id.
use vstd::prelude::*;
use vstd::string::*;
use crate::api::headers::{new_pairs, push_pair, Pairs};
use crate::hash::{hash_of, short_hash};
use crate::json::{find_key, get, has_key, lemma_key_index, lemma_key_index_is};
use crate::text::{
    cat3, char_count, char_is_alnum, decimal, decimal_text, first_chars, is_alnum, take_chars,
};
use crate::types::pairs;

verus! {

/// The characters that the id of a tool call has.
pub const MISTRAL_TOOL_CALL_ID_LENGTH: usize = 9;

/// The letters and digits of a text.
pub open spec fn alnum_of(s: Seq<char>) -> Seq<char>
    decreases s.len(),
{
    if s.len() == 0 {
        Seq::empty()
    } else if is_alnum(s.last()) {
        alnum_of(s.drop_last()).push(s.last())
    } else {
        alnum_of(s.drop_last())
    }
}

/// What an id is hashed from.
pub open spec fn seed_of(id: Seq<char>, attempt: nat) -> Seq<char> {
    let base = if alnum_of(id).len() == 0 {
        id
    } else {
        alnum_of(id)
    };
    if attempt == 0 {
        base
    } else {
        base + ":"@ + decimal(attempt)
    }
}

/// The id that stands for an id at an attempt. An id of nine letters and digits
/// stands for itself at first.
pub open spec fn candidate(id: Seq<char>, attempt: nat) -> Seq<char> {
    if attempt == 0 && alnum_of(id).len() == MISTRAL_TOOL_CALL_ID_LENGTH {
        alnum_of(id)
    } else {
        first_chars(alnum_of(hash_of(seed_of(id, attempt))), MISTRAL_TOOL_CALL_ID_LENGTH as int)
    }
}

fn keep_alnum(s: &str) -> (r: String)
    ensures
        r@ == alnum_of(s@),
{
    let mut r = String::new();
    for c in it: s.chars()
        invariant
            it.seq() == s@,
            r@ == alnum_of(s@.take(it.index() as int)),
    {
        proof {
            let next = s@.take(it.index() as int + 1);
            assert(next.drop_last() =~= s@.take(it.index() as int));
            assert(next.last() == c);
        }
        if char_is_alnum(c) {
            r.push(c);
        }
    }
    proof {
        assert(s@.take(s@.len() as int) =~= s@);
    }
    r
}

pub fn derive_mistral_tool_call_id(id: &str, attempt: u64) -> (r: String)
    ensures
        r@ == candidate(id@, attempt as nat),
{
    let normalized = keep_alnum(id);
    if attempt == 0 && char_count(normalized.as_str()) == MISTRAL_TOOL_CALL_ID_LENGTH {
        return normalized;
    }
    let base = if normalized.as_str().is_empty() {
        id
    } else {
        normalized.as_str()
    };
    let hash = if attempt == 0 {
        short_hash(base)
    } else {
        let seed = cat3(base, ":", decimal_text(attempt as u128).as_str());
        short_hash(seed.as_str())
    };
    let kept = keep_alnum(hash.as_str());
    take_chars(kept.as_str(), MISTRAL_TOOL_CALL_ID_LENGTH)
}

proof fn lemma_alnum_of(s: Seq<char>)
    ensures
        forall|i: int| 0 <= i < alnum_of(s).len() ==> is_alnum(#[trigger] alnum_of(s)[i]),
    decreases s.len(),
{
    if s.len() > 0 {
        let before = alnum_of(s.drop_last());
        lemma_alnum_of(s.drop_last());
        assert forall|i: int| 0 <= i < alnum_of(s).len() implies is_alnum(
            #[trigger] alnum_of(s)[i],
        ) by {
            if i < before.len() {
                assert(alnum_of(s)[i] == before[i]);
            }
        }
    }
}

/// An id that is sent has at most nine characters, all of them letters and
/// digits.
pub proof fn law_candidate_is_short(id: Seq<char>, attempt: nat)
    ensures
        candidate(id, attempt).len() <= MISTRAL_TOOL_CALL_ID_LENGTH,
        forall|i: int|
            0 <= i < candidate(id, attempt).len() ==> is_alnum(
                #[trigger] candidate(id, attempt)[i],
            ),
{
    lemma_alnum_of(id);
    lemma_alnum_of(hash_of(seed_of(id, attempt)));
}

/// The ids that were given out: each id with the one that stands for it, and
/// the same the other way round.
#[derive(Debug)]
pub struct MistralToolCallIdNormalizer {
    id_map: Vec<(String, String)>,
    reverse_map: Vec<(String, String)>,
}

impl View for MistralToolCallIdNormalizer {
    type V = Pairs;

    closed spec fn view(&self) -> Pairs {
        pairs(self.id_map@)
    }
}

pub open spec fn swapped(m: Pairs) -> Pairs {
    Seq::new(m.len(), |i: int| (m[i].1, m[i].0))
}

/// Whether no two ids share an id that stands for them, and no id has two.
pub open spec fn is_bijection(m: Pairs) -> bool {
    &&& forall|i: int, j: int| 0 <= i < j < m.len() ==> (#[trigger] m[i]).0 != (#[trigger] m[j]).0
    &&& forall|i: int, j: int| 0 <= i < j < m.len() ==> (#[trigger] m[i]).1 != (#[trigger] m[j]).1
}

/// Whether an attempt gives an id that stands for no other.
pub open spec fn is_free(m: Pairs, id: Seq<char>, attempt: nat) -> bool {
    !has_key(swapped(m), candidate(id, attempt))
}

/// Whether an attempt is the first that gives an id that stands for no other.
pub open spec fn is_first_free(m: Pairs, id: Seq<char>, attempt: nat) -> bool {
    is_free(m, id, attempt) && forall|k: nat| k < attempt ==> !is_free(m, id, k)
}

/// What `normalize` gives for an id and does to the ids that were given out. An
/// id that is known keeps the id that stands for it. Another gets the first one
/// that is free. Should every attempt be taken, it gets the last of them, and
/// that is not remembered.
pub open spec fn normalized(before: Pairs, id: Seq<char>, after: Pairs, r: Seq<char>) -> bool {
    match get(before, id) {
        Some(known) => r == known && after == before,
        None => {
            ||| exists|n: nat|
                #![trigger candidate(id, n)]
                n <= u64::MAX && is_first_free(before, id, n) && r == candidate(id, n) && after
                    == before.push((id, r))
            ||| (forall|n: nat| n <= u64::MAX ==> !is_free(before, id, n)) && r == candidate(
                id,
                u64::MAX as nat,
            ) && after == before
        },
    }
}

impl MistralToolCallIdNormalizer {
    pub closed spec fn wf(&self) -> bool {
        &&& pairs(self.reverse_map@) == swapped(pairs(self.id_map@))
        &&& is_bijection(pairs(self.id_map@))
    }

    pub fn new() -> (r: Self)
        ensures
            r.wf(),
            r@ == Pairs::empty(),
    {
        let r = MistralToolCallIdNormalizer { id_map: new_pairs(), reverse_map: new_pairs() };
        proof {
            assert(pairs(r.reverse_map@) =~= swapped(pairs(r.id_map@)));
        }
        r
    }

    /// In every state of a normalizer, no two ids share an id that stands for them.
    pub proof fn law_ids_stay_apart(&self)
        requires
            self.wf(),
        ensures
            is_bijection(self@),
    {
    }

    pub fn normalize(&mut self, id: &str) -> (r: String)
        requires
            old(self).wf(),
        ensures
            final(self).wf(),
            normalized(old(self)@, id@, final(self)@, r@),
    {
        if let Some(i) = find_key(&self.id_map, id) {
            proof {
                lemma_key_index_is(pairs(self.id_map@), id@, i as int);
            }
            return self.id_map[i].1.clone();
        }
        proof {
            lemma_key_index_is(pairs(self.id_map@), id@, self.id_map@.len() as int);
        }
        let ghost m = pairs(self.id_map@);
        let mut attempt: u64 = 0;
        loop
            invariant
                *self == *old(self),
                old(self).wf(),
                m == pairs(self.id_map@),
                m == old(self)@,
                get(m, id@) is None,
                forall|j: int| 0 <= j < m.len() ==> (#[trigger] m[j]).0 != id@,
                forall|k: nat| k < attempt ==> !is_free(m, id@, k),
            decreases u64::MAX - attempt,
        {
            let chosen = derive_mistral_tool_call_id(id, attempt);
            match find_key(&self.reverse_map, chosen.as_str()) {
                None => {
                    proof {
                        lemma_key_index_is(
                            pairs(self.reverse_map@),
                            chosen@,
                            self.reverse_map@.len() as int,
                        );
                        assert(is_first_free(m, id@, attempt as nat));
                        assert forall|j: int| 0 <= j < m.len() implies (#[trigger] m[j]).1
                            != chosen@ by {
                            assert(swapped(m)[j].0 == self.reverse_map@[j].0@);
                        }
                    }
                    push_pair(&mut self.id_map, id, chosen.as_str());
                    push_pair(&mut self.reverse_map, chosen.as_str(), id);
                    proof {
                        assert(pairs(self.reverse_map@) =~= swapped(pairs(self.id_map@)));
                        assert(candidate(id@, attempt as nat) == chosen@);
                    }
                    return chosen;
                },
                Some(i) => {
                    proof {
                        lemma_key_index_is(pairs(self.reverse_map@), chosen@, i as int);
                        assert(!is_free(m, id@, attempt as nat));
                    }
                },
            }
            if attempt == u64::MAX {
                return chosen;
            }
            attempt += 1;
        }
    }
}

/// What was given out stays one to one, and an id that was given out is given
/// out again for the same id.
pub proof fn law_normalizer_is_bijective(
    before: Pairs,
    id: Seq<char>,
    after: Pairs,
    r: Seq<char>,
    again: Seq<char>,
    last: Pairs,
)
    requires
        is_bijection(before),
        normalized(before, id, after, r),
        normalized(after, id, last, again),
    ensures
        is_bijection(after),
        again == r,
        last == after,
        get(after, id) is Some ==> forall|j: int|
            0 <= j < after.len() && (#[trigger] after[j]).0 != id ==> after[j].1 != r,
{
    lemma_key_index(before, id);
    lemma_key_index(after, id);
    match get(before, id) {
        Some(known) => {
            let at = crate::json::key_index(before, id);
            assert forall|j: int| 0 <= j < after.len() && (#[trigger] after[j]).0
                != id implies after[j].1 != r by {
                assert(before[at].1 == known);
            }
        },
        None => {
            if exists|n: nat|
                #![trigger candidate(id, n)]
                n <= u64::MAX && is_first_free(before, id, n) && r == candidate(id, n) && after
                    == before.push((id, r)) {
                let n = choose|n: nat|
                    #![trigger candidate(id, n)]
                    n <= u64::MAX && is_first_free(before, id, n) && r == candidate(id, n) && after
                        == before.push((id, r));
                lemma_key_index(swapped(before), r);
                assert forall|j: int| 0 <= j < before.len() implies (#[trigger] before[j]).1
                    != r by {
                    assert(swapped(before)[j].0 == before[j].1);
                }
                assert forall|j: int| 0 <= j < before.len() implies (#[trigger] before[j]).0
                    != id by {}
                lemma_key_index_is(after, id, before.len() as int);
                assert(get(after, id) == Some(r));
            }
        },
    }
}

/// Whether a normalizer that knew no id gave `given` for `ids` in turn, with
/// `states` before, between and after the calls, and found a free id each time.
pub open spec fn is_normalizing(
    ids: Seq<Seq<char>>,
    given: Seq<Seq<char>>,
    states: Seq<Pairs>,
) -> bool {
    &&& given.len() == ids.len()
    &&& states.len() == ids.len() + 1
    &&& states[0] == Pairs::empty()
    &&& forall|k: int|
        #![trigger given[k]]
        0 <= k < ids.len() ==> normalized(states[k], ids[k], states[k + 1], given[k]) && get(
            states[k + 1],
            ids[k],
        ) is Some
}

/// One call keeps what was given out, and remembers what it gives.
proof fn lemma_normalized(before: Pairs, id: Seq<char>, after: Pairs, r: Seq<char>)
    requires
        is_bijection(before),
        normalized(before, id, after, r),
        get(after, id) is Some,
    ensures
        is_bijection(after),
        get(after, id) == Some(r),
        forall|other: Seq<char>|
            get(before, other) is Some ==> #[trigger] get(after, other) == get(before, other),
{
    lemma_key_index(before, id);
    if get(before, id) is None {
        lemma_key_index(after, id);
        let n = choose|n: nat|
            #![trigger candidate(id, n)]
            n <= u64::MAX && is_first_free(before, id, n) && r == candidate(id, n) && after
                == before.push((id, r));
        lemma_key_index(swapped(before), r);
        assert forall|j: int| 0 <= j < before.len() implies (#[trigger] before[j]).1 != r by {
            assert(swapped(before)[j].0 == before[j].1);
        }
        lemma_key_index_is(after, id, before.len() as int);
        assert forall|other: Seq<char>| get(before, other) is Some implies #[trigger] get(
            after,
            other,
        ) == get(before, other) by {
            lemma_key_index(before, other);
            lemma_key_index_is(after, other, crate::json::key_index(before, other));
        }
    }
}

/// After some calls the normalizer is one to one and remembers all it gave.
proof fn lemma_normalizing(
    ids: Seq<Seq<char>>,
    given: Seq<Seq<char>>,
    states: Seq<Pairs>,
    n: int,
)
    requires
        is_normalizing(ids, given, states),
        0 <= n <= ids.len(),
    ensures
        is_bijection(states[n]),
        forall|k: int| #![trigger given[k]] 0 <= k < n ==> get(states[n], ids[k]) == Some(given[k]),
    decreases n,
{
    if n > 0 {
        lemma_normalizing(ids, given, states, n - 1);
        assert(normalized(states[n - 1], ids[n - 1], states[n - 1 + 1], given[n - 1]));
        lemma_normalized(states[n - 1], ids[n - 1], states[n], given[n - 1]);
        assert forall|k: int| #![trigger given[k]] 0 <= k < n implies get(states[n], ids[k])
            == Some(given[k]) by {
            if k < n - 1 {
                assert(get(states[n - 1], ids[k]) == Some(given[k]));
            }
        }
    }
}

/// However many ids are normalized in turn, the same id is given for two of them
/// exactly if they are the same.
pub proof fn law_normalizing_is_one_to_one(
    ids: Seq<Seq<char>>,
    given: Seq<Seq<char>>,
    states: Seq<Pairs>,
    i: int,
    j: int,
)
    requires
        is_normalizing(ids, given, states),
        0 <= i < ids.len(),
        0 <= j < ids.len(),
    ensures
        given[i] == given[j] <==> ids[i] == ids[j],
{
    let n = ids.len() as int;
    lemma_normalizing(ids, given, states, n);
    let m = states[n];
    assert(get(m, ids[i]) == Some(given[i]));
    assert(get(m, ids[j]) == Some(given[j]));
    lemma_key_index(m, ids[i]);
    lemma_key_index(m, ids[j]);
    let a = crate::json::key_index(m, ids[i]);
    let b = crate::json::key_index(m, ids[j]);
    assert(m[a].1 == given[i] && m[b].1 == given[j]);
    if a < b {
        assert(m[a].1 != m[b].1);
    } else if b < a {
        assert(m[b].1 != m[a].1);
    }
}

} // verus!
