//! JSON values, how they are read and built, and their text.
use vstd::prelude::*;
use vstd::string::*;
use crate::number::{number_text, Number};
use crate::text::{str_eq, texts};

verus! {

/// A JSON value. An object is the list of its entries in order. A number that
/// billionths cannot hold is kept as its text, beside the billionths next to it.
#[derive(Debug, PartialEq, Eq)]
pub enum Value {
    Null,
    Bool(bool),
    Number(Number),
    Precise { text: String, nearest: Number },
    Str(String),
    Array(Vec<Value>),
    Object(Vec<(String, Value)>),
}

/// What a JSON value holds.
#[verifier::ext_equal]
pub enum Json {
    Null,
    Bool(bool),
    Number(Number),
    Precise { text: Seq<char>, nearest: Number },
    Str(Seq<char>),
    Array(Seq<Json>),
    Object(Seq<(Seq<char>, Json)>),
}

/// What the entries of a JSON object hold.
pub type Entries = Seq<(Seq<char>, Json)>;

pub open spec fn json(v: Value) -> Json
    decreases v,
{
    match v {
        Value::Null => Json::Null,
        Value::Bool(b) => Json::Bool(b),
        Value::Number(n) => Json::Number(n),
        Value::Precise { text, nearest } => Json::Precise { text: text@, nearest },
        Value::Str(s) => Json::Str(s@),
        Value::Array(a) => Json::Array(
            Seq::new(
                a@.len(),
                |i: int|
                    if 0 <= i < a@.len() {
                        json(a@[i])
                    } else {
                        Json::Null
                    },
            ),
        ),
        Value::Object(e) => Json::Object(
            Seq::new(
                e@.len(),
                |i: int|
                    if 0 <= i < e@.len() {
                        (e@[i].0@, json(e@[i].1))
                    } else {
                        (Seq::empty(), Json::Null)
                    },
            ),
        ),
    }
}

impl View for Value {
    type V = Json;

    open spec fn view(&self) -> Json {
        json(*self)
    }
}

/// What a list of values holds.
pub open spec fn items(s: Seq<Value>) -> Seq<Json> {
    Seq::new(s.len(), |i: int| s[i]@)
}

/// What a list of entries holds.
pub open spec fn entries(s: Seq<(String, Value)>) -> Entries {
    Seq::new(s.len(), |i: int| (s[i].0@, s[i].1@))
}

/// What an optional value holds.
pub open spec fn opt_json(v: Option<Value>) -> Option<Json> {
    match v {
        Some(v) => Some(v@),
        None => None,
    }
}

impl Clone for Value {
    fn clone(&self) -> (r: Self)
        ensures
            r@ == self@,
        decreases self,
    {
        match self {
            Value::Null => Value::Null,
            Value::Bool(b) => Value::Bool(*b),
            Value::Number(n) => Value::Number(*n),
            Value::Precise { text, nearest } => Value::Precise {
                text: text.clone(),
                nearest: *nearest,
            },
            Value::Str(s) => Value::Str(s.clone()),
            Value::Array(a) => {
                let mut out: Vec<Value> = Vec::new();
                let mut i: usize = 0;
                while i < a.len()
                    invariant
                        i <= a.len(),
                        out.len() == i,
                        forall|j: int| 0 <= j < i ==> out[j]@ == a[j]@,
                        *self == Value::Array(*a),
                    decreases a.len() - i,
                {
                    assert(decreases_to!(*self => self->Array_0@[i as int]));
                    let c = a[i].clone();
                    out.push(c);
                    i += 1;
                }
                let r = Value::Array(out);
                proof {
                    assert(r@->Array_0 =~= self@->Array_0);
                }
                r
            },
            Value::Object(a) => {
                let mut out: Vec<(String, Value)> = Vec::new();
                let mut i: usize = 0;
                while i < a.len()
                    invariant
                        i <= a.len(),
                        out.len() == i,
                        forall|j: int|
                            0 <= j < i ==> out[j].1@ == a[j].1@ && out[j].0@ == a[j].0@,
                        *self == Value::Object(*a),
                    decreases a.len() - i,
                {
                    assert(decreases_to!(*self => self->Object_0@[i as int].1));
                    let c = a[i].1.clone();
                    out.push((a[i].0.clone(), c));
                    i += 1;
                }
                let r = Value::Object(out);
                proof {
                    assert(r@->Object_0 =~= self@->Object_0);
                }
                r
            },
        }
    }
}

pub fn clone_opt_value(v: &Option<Value>) -> (r: Option<Value>)
    ensures
        opt_json(r) == opt_json(*v),
{
    match v {
        Some(v) => Some(v.clone()),
        None => None,
    }
}

/// A copy of a list of entries.
pub fn clone_entries(e: &Vec<(String, Value)>) -> (r: Vec<(String, Value)>)
    ensures
        entries(r@) == entries(e@),
{
    let mut r: Vec<(String, Value)> = Vec::new();
    let mut i: usize = 0;
    while i < e.len()
        invariant
            i <= e.len(),
            entries(r@) == entries(e@).take(i as int),
        decreases e.len() - i,
    {
        put(&mut r, e[i].0.as_str(), e[i].1.clone());
        proof {
            assert(entries(e@).take(i + 1) =~= entries(e@).take(i as int).push(
                entries(e@)[i as int],
            ));
        }
        i += 1;
    }
    proof {
        assert(entries(e@).take(e@.len() as int) =~= entries(e@));
    }
    r
}

/// A copy of a list of values.
pub fn clone_items(a: &Vec<Value>) -> (r: Vec<Value>)
    ensures
        items(r@) == items(a@),
{
    let mut r: Vec<Value> = Vec::new();
    let mut i: usize = 0;
    while i < a.len()
        invariant
            i <= a.len(),
            items(r@) == items(a@).take(i as int),
        decreases a.len() - i,
    {
        push_item(&mut r, a[i].clone());
        proof {
            assert(items(a@).take(i + 1) =~= items(a@).take(i as int).push(items(a@)[i as int]));
        }
        i += 1;
    }
    proof {
        assert(items(a@).take(a@.len() as int) =~= items(a@));
    }
    r
}

// ---------------------------------------------------------------------------
// Lists keyed by text
// ---------------------------------------------------------------------------

/// The position of the first entry with a key, or the length where there is
/// none.
pub open spec fn key_index<K, A>(m: Seq<(K, A)>, key: K) -> int
    decreases m.len(),
{
    if m.len() == 0 || m[0].0 == key {
        0
    } else {
        1 + key_index(m.drop_first(), key)
    }
}

pub open spec fn has_key<K, A>(m: Seq<(K, A)>, key: K) -> bool {
    key_index(m, key) < m.len()
}

/// What the first entry with a key holds.
pub open spec fn get<K, A>(m: Seq<(K, A)>, key: K) -> Option<A> {
    if has_key(m, key) {
        Some(m[key_index(m, key)].1)
    } else {
        None
    }
}

/// The list with the first entry of a key replaced, or with a new entry at the
/// end where the key is not there.
pub open spec fn with_entry<K, A>(m: Seq<(K, A)>, key: K, value: A) -> Seq<(K, A)> {
    if has_key(m, key) {
        m.update(key_index(m, key), (key, value))
    } else {
        m.push((key, value))
    }
}

/// The list without the first entry of a key.
pub open spec fn without_entry<K, A>(m: Seq<(K, A)>, key: K) -> Seq<(K, A)> {
    if has_key(m, key) {
        m.remove(key_index(m, key))
    } else {
        m
    }
}

/// `with_entry` for each entry of a second list in turn.
pub open spec fn with_entries<K, A>(m: Seq<(K, A)>, overrides: Seq<(K, A)>) -> Seq<(K, A)>
    decreases overrides.len(),
{
    if overrides.len() == 0 {
        m
    } else {
        with_entry(with_entries(m, overrides.drop_last()), overrides.last().0, overrides.last().1)
    }
}

pub proof fn lemma_key_index<K, A>(m: Seq<(K, A)>, key: K)
    ensures
        0 <= key_index(m, key) <= m.len(),
        has_key(m, key) ==> m[key_index(m, key)].0 == key,
        forall|j: int| 0 <= j < key_index(m, key) ==> m[j].0 != key,
    decreases m.len(),
{
    if m.len() == 0 || m[0].0 == key {
    } else {
        let d = m.drop_first();
        lemma_key_index(d, key);
        assert forall|j: int| 0 <= j < key_index(m, key) implies m[j].0 != key by {
            if j > 0 {
                assert(d[j - 1].0 != key);
            }
        }
    }
}

/// The first position whose key is `key` is where `key_index` points.
pub proof fn lemma_key_index_is<K, A>(m: Seq<(K, A)>, key: K, i: int)
    requires
        0 <= i <= m.len(),
        forall|j: int| 0 <= j < i ==> m[j].0 != key,
        i < m.len() ==> m[i].0 == key,
    ensures
        key_index(m, key) == i,
{
    lemma_key_index(m, key);
}

/// What a list with one entry set holds under a key.
pub proof fn lemma_with_entry<K, A>(m: Seq<(K, A)>, key: K, value: A, other: K)
    ensures
        get(with_entry(m, key, value), key) == Some(value),
        other != key ==> get(with_entry(m, key, value), other) == get(m, other),
{
    let after = with_entry(m, key, value);
    lemma_key_index(m, key);
    lemma_key_index_is(after, key, key_index(m, key));
    if other != key {
        lemma_key_index(m, other);
        let at = key_index(m, other);
        if at < m.len() {
            lemma_key_index_is(after, other, at);
        } else {
            lemma_key_index_is(after, other, after.len() as int);
        }
    }
}

/// Whether entry `i` is the last one with its key.
pub open spec fn is_last_of_key<K, A>(list: Seq<(K, A)>, i: int) -> bool {
    &&& 0 <= i < list.len()
    &&& forall|j: int| i < j < list.len() ==> (#[trigger] list[j]).0 != list[i].0
}

/// What a list with several entries set holds: under the key of each of them
/// the last value that is given for it, and under any other key what it held.
pub proof fn lemma_with_entries<K, A>(m: Seq<(K, A)>, overrides: Seq<(K, A)>)
    ensures
        forall|i: int| #[trigger]
            is_last_of_key(overrides, i) ==> get(with_entries(m, overrides), overrides[i].0)
                == Some(overrides[i].1),
        forall|key: K|
            (forall|j: int| 0 <= j < overrides.len() ==> (#[trigger] overrides[j]).0 != key)
                ==> #[trigger] get(with_entries(m, overrides), key) == get(m, key),
    decreases overrides.len(),
{
    if overrides.len() > 0 {
        let rest = overrides.drop_last();
        let before = with_entries(m, rest);
        let (last_key, last_value) = overrides.last();
        lemma_with_entries(m, rest);
        assert forall|i: int| #[trigger] is_last_of_key(overrides, i) implies get(
            with_entries(m, overrides),
            overrides[i].0,
        ) == Some(overrides[i].1) by {
            lemma_with_entry(before, last_key, last_value, overrides[i].0);
            if i < rest.len() {
                assert(overrides[overrides.len() - 1].0 != overrides[i].0);
                assert(is_last_of_key(rest, i)) by {
                    assert forall|j: int| i < j < rest.len() implies (#[trigger] rest[j]).0
                        != rest[i].0 by {
                        assert(overrides[j].0 != overrides[i].0);
                    }
                }
            }
        }
        assert forall|key: K|
            (forall|j: int| 0 <= j < overrides.len() ==> (#[trigger] overrides[j]).0
                != key) implies #[trigger] get(with_entries(m, overrides), key) == get(m, key) by {
            assert(overrides[overrides.len() - 1].0 != key);
            assert forall|j: int| 0 <= j < rest.len() implies (#[trigger] rest[j]).0 != key by {
                assert(overrides[j].0 != key);
            }
            lemma_with_entry(before, last_key, last_value, key);
        }
    }
}

/// The position of the first entry with a numeric key.
pub fn find_index<V>(m: &Vec<(u64, V)>, key: u64) -> (r: Option<usize>)
    ensures
        match r {
            Some(i) => i < m@.len() && m@[i as int].0 == key && forall|j: int|
                0 <= j < i ==> m@[j].0 != key,
            None => forall|j: int| 0 <= j < m@.len() ==> m@[j].0 != key,
        },
{
    let mut i: usize = 0;
    while i < m.len()
        invariant
            i <= m@.len(),
            forall|j: int| 0 <= j < i ==> m@[j].0 != key,
        decreases m.len() - i,
    {
        if m[i].0 == key {
            return Some(i);
        }
        i += 1;
    }
    None
}

/// The position of the first entry with a key.
pub fn find_key<V>(m: &Vec<(String, V)>, key: &str) -> (r: Option<usize>)
    ensures
        match r {
            Some(i) => i < m@.len() && m@[i as int].0@ == key@ && forall|j: int|
                0 <= j < i ==> m@[j].0@ != key@,
            None => forall|j: int| 0 <= j < m@.len() ==> m@[j].0@ != key@,
        },
{
    let mut i: usize = 0;
    while i < m.len()
        invariant
            i <= m@.len(),
            forall|j: int| 0 <= j < i ==> m@[j].0@ != key@,
        decreases m.len() - i,
    {
        if str_eq(m[i].0.as_str(), key) {
            return Some(i);
        }
        i += 1;
    }
    None
}

// ---------------------------------------------------------------------------
// Reading
// ---------------------------------------------------------------------------

pub open spec fn as_str(j: Json) -> Option<Seq<char>> {
    match j {
        Json::Str(s) => Some(s),
        _ => None,
    }
}

pub open spec fn as_number(j: Json) -> Option<Number> {
    match j {
        Json::Number(n) => Some(n),
        Json::Precise { nearest, .. } => Some(nearest),
        _ => None,
    }
}

pub open spec fn as_bool(j: Json) -> Option<bool> {
    match j {
        Json::Bool(b) => Some(b),
        _ => None,
    }
}

pub open spec fn as_array(j: Json) -> Option<Seq<Json>> {
    match j {
        Json::Array(a) => Some(a),
        _ => None,
    }
}

pub open spec fn as_object(j: Json) -> Option<Entries> {
    match j {
        Json::Object(e) => Some(e),
        _ => None,
    }
}

pub open spec fn str_at(m: Entries, key: Seq<char>) -> Option<Seq<char>> {
    match get(m, key) {
        Some(j) => as_str(j),
        None => None,
    }
}

pub open spec fn number_at(m: Entries, key: Seq<char>) -> Option<Number> {
    match get(m, key) {
        Some(j) => as_number(j),
        None => None,
    }
}

pub open spec fn bool_at(m: Entries, key: Seq<char>) -> Option<bool> {
    match get(m, key) {
        Some(j) => as_bool(j),
        None => None,
    }
}

pub open spec fn array_at(m: Entries, key: Seq<char>) -> Option<Seq<Json>> {
    match get(m, key) {
        Some(j) => as_array(j),
        None => None,
    }
}

pub open spec fn object_at(m: Entries, key: Seq<char>) -> Option<Entries> {
    match get(m, key) {
        Some(j) => as_object(j),
        None => None,
    }
}

/// A text that may be missing, read as empty where it is.
pub open spec fn text_or_empty(s: Option<Seq<char>>) -> Seq<char> {
    match s {
        Some(s) => s,
        None => Seq::empty(),
    }
}

/// A number that may be missing, read as zero where it is.
pub open spec fn number_or_zero(n: Option<Number>) -> Number {
    match n {
        Some(n) => n,
        None => crate::number::whole(0),
    }
}

impl Value {
    pub fn as_str(&self) -> (r: Option<&str>)
        ensures
            crate::text::opt_str(r) == as_str(self@),
    {
        match self {
            Value::Str(s) => Some(s.as_str()),
            _ => None,
        }
    }

    pub fn as_number(&self) -> (r: Option<Number>)
        ensures
            r == as_number(self@),
    {
        match self {
            Value::Number(n) => Some(*n),
            Value::Precise { nearest, .. } => Some(*nearest),
            _ => None,
        }
    }

    pub fn as_bool(&self) -> (r: Option<bool>)
        ensures
            r == as_bool(self@),
    {
        match self {
            Value::Bool(b) => Some(*b),
            _ => None,
        }
    }

    pub fn as_array(&self) -> (r: Option<&Vec<Value>>)
        ensures
            match r {
                Some(a) => as_array(self@) == Some(items(a@)),
                None => as_array(self@) is None,
            },
    {
        match self {
            Value::Array(a) => {
                proof {
                    assert(self@->Array_0 =~= items(a@));
                }
                Some(a)
            },
            _ => None,
        }
    }

    pub fn as_object(&self) -> (r: Option<&Vec<(String, Value)>>)
        ensures
            match r {
                Some(e) => as_object(self@) == Some(entries(e@)),
                None => as_object(self@) is None,
            },
    {
        match self {
            Value::Object(e) => {
                proof {
                    assert(self@->Object_0 =~= entries(e@));
                }
                Some(e)
            },
            _ => None,
        }
    }
}

/// The first value under a key.
pub fn get_value<'a>(m: &'a Vec<(String, Value)>, key: &str) -> (r: Option<&'a Value>)
    ensures
        match r {
            Some(v) => get(entries(m@), key@) == Some(v@),
            None => get(entries(m@), key@) is None,
        },
{
    match find_key(m, key) {
        Some(i) => {
            proof {
                lemma_key_index_is(entries(m@), key@, i as int);
            }
            Some(&m[i].1)
        },
        None => {
            proof {
                lemma_key_index_is(entries(m@), key@, m@.len() as int);
            }
            None
        },
    }
}

pub fn has_entry(m: &Vec<(String, Value)>, key: &str) -> (r: bool)
    ensures
        r == has_key(entries(m@), key@),
{
    get_value(m, key).is_some()
}

pub fn get_str(m: &Vec<(String, Value)>, key: &str) -> (r: Option<String>)
    ensures
        crate::text::opt_text(r) == str_at(entries(m@), key@),
{
    match get_value(m, key) {
        Some(v) => match v {
            Value::Str(s) => Some(s.clone()),
            _ => None,
        },
        None => None,
    }
}

pub fn get_str_or_empty(m: &Vec<(String, Value)>, key: &str) -> (r: String)
    ensures
        r@ == text_or_empty(str_at(entries(m@), key@)),
{
    match get_str(m, key) {
        Some(s) => s,
        None => String::new(),
    }
}

pub fn get_number(m: &Vec<(String, Value)>, key: &str) -> (r: Option<Number>)
    ensures
        r == number_at(entries(m@), key@),
{
    match get_value(m, key) {
        Some(v) => v.as_number(),
        None => None,
    }
}

pub fn get_number_or_zero(m: &Vec<(String, Value)>, key: &str) -> (r: Number)
    ensures
        r == number_or_zero(number_at(entries(m@), key@)),
{
    match get_number(m, key) {
        Some(n) => n,
        None => Number::zero(),
    }
}

pub fn get_bool(m: &Vec<(String, Value)>, key: &str) -> (r: Option<bool>)
    ensures
        r == bool_at(entries(m@), key@),
{
    match get_value(m, key) {
        Some(v) => v.as_bool(),
        None => None,
    }
}

pub fn get_array<'a>(m: &'a Vec<(String, Value)>, key: &str) -> (r: Option<&'a Vec<Value>>)
    ensures
        match r {
            Some(a) => array_at(entries(m@), key@) == Some(items(a@)),
            None => array_at(entries(m@), key@) is None,
        },
{
    match get_value(m, key) {
        Some(v) => v.as_array(),
        None => None,
    }
}

pub fn get_object<'a>(m: &'a Vec<(String, Value)>, key: &str) -> (r: Option<
    &'a Vec<(String, Value)>,
>)
    ensures
        match r {
            Some(e) => object_at(entries(m@), key@) == Some(entries(e@)),
            None => object_at(entries(m@), key@) is None,
        },
{
    match get_value(m, key) {
        Some(v) => v.as_object(),
        None => None,
    }
}

// ---------------------------------------------------------------------------
// Building
// ---------------------------------------------------------------------------

/// Steps that build the entries of an object.
pub trait EntriesSpec: Sized {
    /// With one more entry at the end.
    spec fn put(self, key: Seq<char>, value: Json) -> Self;

    /// With one more entry at the end, where there is a value.
    spec fn put_opt(self, key: Seq<char>, value: Option<Json>) -> Self;

    /// With one more entry at the end, where a condition holds.
    spec fn put_if(self, condition: bool, key: Seq<char>, value: Json) -> Self;
}

impl EntriesSpec for Entries {
    open spec fn put(self, key: Seq<char>, value: Json) -> Entries {
        self.push((key, value))
    }

    open spec fn put_opt(self, key: Seq<char>, value: Option<Json>) -> Entries {
        match value {
            Some(value) => self.push((key, value)),
            None => self,
        }
    }

    open spec fn put_if(self, condition: bool, key: Seq<char>, value: Json) -> Entries {
        if condition {
            self.push((key, value))
        } else {
            self
        }
    }
}

/// No entries yet.
pub open spec fn no_entries() -> Entries {
    Seq::empty()
}

/// An optional text as a value.
pub open spec fn opt_str_json(s: Option<Seq<char>>) -> Option<Json> {
    match s {
        Some(s) => Some(Json::Str(s)),
        None => None,
    }
}

/// An optional number as a value.
pub open spec fn opt_number_json(n: Option<Number>) -> Option<Json> {
    match n {
        Some(n) => Some(Json::Number(n)),
        None => None,
    }
}

/// An optional flag as a value.
pub open spec fn opt_bool_json(b: Option<bool>) -> Option<Json> {
    match b {
        Some(b) => Some(Json::Bool(b)),
        None => None,
    }
}

pub fn new_entries() -> (r: Vec<(String, Value)>)
    ensures
        entries(r@) == no_entries(),
{
    let r: Vec<(String, Value)> = Vec::new();
    proof {
        assert(entries(r@) =~= no_entries());
    }
    r
}

pub fn new_items() -> (r: Vec<Value>)
    ensures
        items(r@) == Seq::<Json>::empty(),
{
    let r: Vec<Value> = Vec::new();
    proof {
        assert(items(r@) =~= Seq::<Json>::empty());
    }
    r
}

/// Adds an entry at the end.
pub fn put(m: &mut Vec<(String, Value)>, key: &str, value: Value)
    ensures
        entries(final(m)@) == entries(old(m)@).put(key@, value@),
{
    m.push((key.to_owned(), value));
    proof {
        assert(entries(m@) =~= entries(old(m)@).push((key@, value@)));
    }
}

pub fn put_str(m: &mut Vec<(String, Value)>, key: &str, value: &str)
    ensures
        entries(final(m)@) == entries(old(m)@).put(key@, Json::Str(value@)),
{
    put(m, key, Value::Str(value.to_owned()));
}

pub fn put_bool(m: &mut Vec<(String, Value)>, key: &str, value: bool)
    ensures
        entries(final(m)@) == entries(old(m)@).put(key@, Json::Bool(value)),
{
    put(m, key, Value::Bool(value));
}

pub fn put_object(m: &mut Vec<(String, Value)>, key: &str, value: Vec<(String, Value)>)
    ensures
        entries(final(m)@) == entries(old(m)@).put(key@, Json::Object(entries(value@))),
{
    put(m, key, object(value));
}

pub fn put_array(m: &mut Vec<(String, Value)>, key: &str, value: Vec<Value>)
    ensures
        entries(final(m)@) == entries(old(m)@).put(key@, Json::Array(items(value@))),
{
    put(m, key, array(value));
}

pub fn put_opt_str(m: &mut Vec<(String, Value)>, key: &str, value: Option<&str>)
    ensures
        entries(final(m)@) == entries(old(m)@).put_opt(
            key@,
            opt_str_json(crate::text::opt_str(value)),
        ),
{
    match value {
        Some(value) => put_str(m, key, value),
        None => {},
    }
}

pub fn put_opt_number(m: &mut Vec<(String, Value)>, key: &str, value: Option<Number>)
    ensures
        entries(final(m)@) == entries(old(m)@).put_opt(key@, opt_number_json(value)),
{
    match value {
        Some(value) => put(m, key, Value::Number(value)),
        None => {},
    }
}

pub fn put_opt_bool(m: &mut Vec<(String, Value)>, key: &str, value: Option<bool>)
    ensures
        entries(final(m)@) == entries(old(m)@).put_opt(key@, opt_bool_json(value)),
{
    match value {
        Some(value) => put_bool(m, key, value),
        None => {},
    }
}

/// Adds an entry, where there is a value for it.
pub fn put_opt_value(m: &mut Vec<(String, Value)>, key: &str, value: Option<Value>)
    ensures
        entries(final(m)@) == entries(old(m)@).put_opt(key@, opt_json(value)),
{
    match value {
        Some(value) => put(m, key, value),
        None => {},
    }
}

/// Replaces the first entry of a key, or adds one at the end.
pub fn set_entry(m: &mut Vec<(String, Value)>, key: &str, value: Value)
    ensures
        entries(final(m)@) == with_entry(entries(old(m)@), key@, value@),
{
    match find_key(m, key) {
        Some(i) => {
            proof {
                lemma_key_index_is(entries(m@), key@, i as int);
            }
            m.set(i, (key.to_owned(), value));
            proof {
                assert(entries(m@) =~= entries(old(m)@).update(i as int, (key@, value@)));
            }
        },
        None => {
            proof {
                lemma_key_index_is(entries(m@), key@, m@.len() as int);
            }
            put(m, key, value);
        },
    }
}

/// Sets each entry of a second list in turn.
pub fn set_entries(m: &mut Vec<(String, Value)>, overrides: &Vec<(String, Value)>)
    ensures
        entries(final(m)@) == with_entries(entries(old(m)@), entries(overrides@)),
{
    let mut i: usize = 0;
    while i < overrides.len()
        invariant
            i <= overrides@.len(),
            entries(m@) == with_entries(entries(old(m)@), entries(overrides@).take(i as int)),
        decreases overrides.len() - i,
    {
        set_entry(m, overrides[i].0.as_str(), overrides[i].1.clone());
        proof {
            let next = entries(overrides@).take(i + 1);
            assert(next.drop_last() =~= entries(overrides@).take(i as int));
        }
        i += 1;
    }
    proof {
        assert(entries(overrides@).take(overrides@.len() as int) =~= entries(overrides@));
    }
}

pub fn push_item(a: &mut Vec<Value>, value: Value)
    ensures
        items(final(a)@) == items(old(a)@).push(value@),
{
    a.push(value);
    proof {
        assert(items(a@) =~= items(old(a)@).push(value@));
    }
}

/// Moves the values of a second list to the end of the first.
pub fn append_items(a: &mut Vec<Value>, b: Vec<Value>)
    ensures
        items(final(a)@) == items(old(a)@) + items(b@),
{
    let mut b = b;
    let ghost added = b@;
    a.append(&mut b);
    proof {
        assert(items(a@) =~= items(old(a)@) + items(added));
    }
}

pub fn object(e: Vec<(String, Value)>) -> (r: Value)
    ensures
        r@ == Json::Object(entries(e@)),
{
    let r = Value::Object(e);
    proof {
        assert(r@->Object_0 =~= entries(e@));
    }
    r
}

pub fn array(a: Vec<Value>) -> (r: Value)
    ensures
        r@ == Json::Array(items(a@)),
{
    let r = Value::Array(a);
    proof {
        assert(r@->Array_0 =~= items(a@));
    }
    r
}

pub fn string(s: &str) -> (r: Value)
    ensures
        r@ == Json::Str(s@),
{
    Value::Str(s.to_owned())
}

/// The texts of a list as values.
pub open spec fn str_items(s: Seq<Seq<char>>) -> Seq<Json> {
    Seq::new(s.len(), |i: int| Json::Str(s[i]))
}

pub fn string_array(v: &Vec<String>) -> (r: Value)
    ensures
        r@ == Json::Array(str_items(texts(v@))),
{
    let mut a = new_items();
    let mut i: usize = 0;
    while i < v.len()
        invariant
            i <= v@.len(),
            items(a@) == str_items(texts(v@)).take(i as int),
        decreases v.len() - i,
    {
        push_item(&mut a, string(v[i].as_str()));
        proof {
            assert(str_items(texts(v@)).take(i + 1) =~= str_items(texts(v@)).take(i as int).push(
                Json::Str(v@[i as int]@),
            ));
        }
        i += 1;
    }
    proof {
        assert(str_items(texts(v@)).take(v@.len() as int) =~= str_items(texts(v@)));
    }
    array(a)
}

/// An object with one entry.
pub open spec fn one_entry(key: Seq<char>, value: Json) -> Json {
    Json::Object(no_entries().put(key, value))
}

pub fn object1(key: &str, value: Value) -> (r: Value)
    ensures
        r@ == one_entry(key@, value@),
{
    let mut e = new_entries();
    put(&mut e, key, value);
    object(e)
}

/// An array with one value.
pub open spec fn one_item(value: Json) -> Json {
    Json::Array(Seq::<Json>::empty().push(value))
}

pub fn array1(value: Value) -> (r: Value)
    ensures
        r@ == one_item(value@),
{
    let mut a = new_items();
    push_item(&mut a, value);
    array(a)
}

// ---------------------------------------------------------------------------
// Text
// ---------------------------------------------------------------------------

pub open spec fn hex_digit(d: int) -> char {
    if d < 10 {
        ((d + 48) as u8) as char
    } else {
        ((d + 87) as u8) as char
    }
}

/// A control character below U+0020 as a `\u` escape.
pub open spec fn unicode_escape(c: char) -> Seq<char> {
    "\\u00"@.push(hex_digit(c as int / 16)).push(hex_digit(c as int % 16))
}

/// How a character stands inside a JSON string.
pub open spec fn escape_char(c: char) -> Seq<char> {
    if c == '"' {
        "\\\""@
    } else if c == '\\' {
        "\\\\"@
    } else if c == '\n' {
        "\\n"@
    } else if c == '\r' {
        "\\r"@
    } else if c == '\t' {
        "\\t"@
    } else if c == '\u{8}' {
        "\\b"@
    } else if c == '\u{c}' {
        "\\f"@
    } else if (c as u32) < 0x20 {
        unicode_escape(c)
    } else {
        Seq::<char>::empty().push(c)
    }
}

/// How a text stands inside a JSON string.
pub open spec fn escaped(s: Seq<char>) -> Seq<char>
    decreases s.len(),
{
    if s.len() == 0 {
        Seq::empty()
    } else {
        escaped(s.drop_last()) + escape_char(s.last())
    }
}

pub open spec fn quoted(s: Seq<char>) -> Seq<char> {
    "\""@ + escaped(s) + "\""@
}

/// The compact JSON text of a value.
pub open spec fn json_text(j: Json) -> Seq<char>
    decreases j,
{
    match j {
        Json::Null => "null"@,
        Json::Bool(b) => if b {
            "true"@
        } else {
            "false"@
        },
        Json::Number(n) => number_text(n),
        Json::Precise { text, .. } => text,
        Json::Str(s) => quoted(s),
        Json::Array(a) => "["@ + items_text(a) + "]"@,
        Json::Object(e) => "{"@ + entries_text(e) + "}"@,
    }
}

/// The texts of a list of values, with commas between them.
pub open spec fn items_text(a: Seq<Json>) -> Seq<char>
    decreases a,
{
    if a.len() == 0 {
        Seq::empty()
    } else if a.len() == 1 {
        json_text(a[0])
    } else {
        items_text(a.drop_last()) + ","@ + json_text(a.last())
    }
}

/// The texts of a list of entries, with commas between them.
pub open spec fn entries_text(e: Entries) -> Seq<char>
    decreases e,
{
    if e.len() == 0 {
        Seq::empty()
    } else if e.len() == 1 {
        quoted(e[0].0) + ":"@ + json_text(e[0].1)
    } else {
        entries_text(e.drop_last()) + ","@ + (quoted(e.last().0) + ":"@ + json_text(e.last().1))
    }
}

fn hex_char(d: u8) -> (r: char)
    requires
        d < 16,
    ensures
        r == hex_digit(d as int),
{
    if d < 10 {
        (d + 48) as char
    } else {
        (d + 87) as char
    }
}

/// The `\u` escape of a control character.
pub fn push_unicode_escape(out: &mut String, c: char)
    requires
        (c as u32) < 0x20,
    ensures
        final(out)@ == old(out)@ + unicode_escape(c),
{
    let code: u8 = c as u8;
    out.append("\\u00");
    out.push(hex_char(code / 16));
    out.push(hex_char(code % 16));
    proof {
        assert(out@ =~= old(out)@ + unicode_escape(c));
    }
}

pub fn escape(s: &str) -> (r: String)
    ensures
        r@ == escaped(s@),
{
    let mut r = String::new();
    for c in it: s.chars()
        invariant
            it.seq() == s@,
            r@ == escaped(s@.take(it.index() as int)),
    {
        let ghost before = r@;
        if c == '"' {
            r.append("\\\"");
        } else if c == '\\' {
            r.append("\\\\");
        } else if c == '\n' {
            r.append("\\n");
        } else if c == '\r' {
            r.append("\\r");
        } else if c == '\t' {
            r.append("\\t");
        } else if c == '\u{8}' {
            r.append("\\b");
        } else if c == '\u{c}' {
            r.append("\\f");
        } else if (c as u32) < 0x20 {
            push_unicode_escape(&mut r, c);
        } else {
            r.push(c);
            proof {
                assert(r@ =~= before + Seq::<char>::empty().push(c));
            }
        }
        proof {
            let next = s@.take(it.index() as int + 1);
            assert(next.drop_last() =~= s@.take(it.index() as int));
            assert(next.last() == c);
        }
    }
    proof {
        assert(s@.take(s@.len() as int) =~= s@);
    }
    r
}

pub fn quote(s: &str) -> (r: String)
    ensures
        r@ == quoted(s@),
{
    crate::text::cat3("\"", escape(s).as_str(), "\"")
}

/// The compact JSON text of a value.
pub fn json_stringify(v: &Value) -> (r: String)
    ensures
        r@ == json_text(v@),
    decreases v,
{
    match v {
        Value::Null => "null".to_owned(),
        Value::Bool(b) => if *b {
            "true".to_owned()
        } else {
            "false".to_owned()
        },
        Value::Number(n) => n.text(),
        Value::Precise { text, .. } => text.clone(),
        Value::Str(s) => quote(s.as_str()),
        Value::Array(a) => {
            let mut body = String::new();
            let mut i: usize = 0;
            let ghost list = items(a@);
            while i < a.len()
                invariant
                    i <= a.len(),
                    list == items(a@),
                    body@ == items_text(list.take(i as int)),
                    *v == Value::Array(*a),
                decreases a.len() - i,
            {
                assert(decreases_to!(*v => v->Array_0@[i as int]));
                let ghost before = body@;
                let t = json_stringify(&a[i]);
                if i > 0 {
                    body.append(",");
                }
                body.append(t.as_str());
                proof {
                    let next = list.take(i + 1);
                    assert(next.drop_last() =~= list.take(i as int));
                    assert(next.last() == a@[i as int]@);
                    if i == 0 {
                        assert(before =~= Seq::<char>::empty());
                        assert(body@ =~= t@);
                    }
                }
                i += 1;
            }
            proof {
                assert(list.take(a@.len() as int) =~= list);
                assert(v@->Array_0 =~= list);
            }
            crate::text::cat3("[", body.as_str(), "]")
        },
        Value::Object(e) => {
            let mut body = String::new();
            let mut i: usize = 0;
            let ghost list = entries(e@);
            while i < e.len()
                invariant
                    i <= e.len(),
                    list == entries(e@),
                    body@ == entries_text(list.take(i as int)),
                    *v == Value::Object(*e),
                decreases e.len() - i,
            {
                assert(decreases_to!(*v => v->Object_0@[i as int].1));
                let ghost before = body@;
                let t = json_stringify(&e[i].1);
                let key = quote(e[i].0.as_str());
                let entry = crate::text::cat3(key.as_str(), ":", t.as_str());
                if i > 0 {
                    body.append(",");
                }
                body.append(entry.as_str());
                proof {
                    let next = list.take(i + 1);
                    assert(next.drop_last() =~= list.take(i as int));
                    assert(next.last() == (e@[i as int].0@, e@[i as int].1@));
                    if i == 0 {
                        assert(before =~= Seq::<char>::empty());
                        assert(body@ =~= entry@);
                    }
                }
                i += 1;
            }
            proof {
                assert(list.take(e@.len() as int) =~= list);
                assert(v@->Object_0 =~= list);
            }
            crate::text::cat3("{", body.as_str(), "}")
        },
    }
}

// ---------------------------------------------------------------------------
// Parsers
// ---------------------------------------------------------------------------

/// Whether `p` says what the parser `f` makes of every text.
pub open spec fn parses_as<F: Fn(&str) -> Option<Value>>(
    f: F,
    p: spec_fn(Seq<char>) -> Option<Json>,
) -> bool {
    forall|s: &str, v: Option<Value>| #[trigger]
        call_ensures(f, (s,), v) ==> opt_json(v) == p(s@)
}

/// Whether `f` reads every text, and every text in one way only.
pub open spec fn is_parser<F: Fn(&str) -> Option<Value>>(f: F) -> bool {
    &&& forall|s: &str| call_requires(f, (s,))
    &&& exists|p: spec_fn(Seq<char>) -> Option<Json>| parses_as(f, p)
}

/// What the parser `f` makes of each text.
pub open spec fn parser_of<F: Fn(&str) -> Option<Value>>(f: F) -> spec_fn(Seq<char>) -> Option<
    Json,
> {
    choose|p: spec_fn(Seq<char>) -> Option<Json>| parses_as(f, p)
}

/// Whether `p` says what the lenient reader `f` makes of every text.
pub open spec fn reads_as<F: Fn(&str) -> Value>(f: F, p: spec_fn(Seq<char>) -> Json) -> bool {
    forall|s: &str, v: Value| #[trigger] call_ensures(f, (s,), v) ==> v@ == p(s@)
}

/// Whether `f` makes a value of every text, and of every text one value only.
pub open spec fn is_reader<F: Fn(&str) -> Value>(f: F) -> bool {
    &&& forall|s: &str| call_requires(f, (s,))
    &&& exists|p: spec_fn(Seq<char>) -> Json| reads_as(f, p)
}

/// What the lenient reader `f` makes of each text.
pub open spec fn reader_of<F: Fn(&str) -> Value>(f: F) -> spec_fn(Seq<char>) -> Json {
    choose|p: spec_fn(Seq<char>) -> Json| reads_as(f, p)
}

/// Hands a text to a lenient reader.
pub fn read_with<F: Fn(&str) -> Value>(f: &F, s: &str) -> (r: Value)
    requires
        is_reader(*f),
    ensures
        r@ == reader_of(*f)(s@),
        call_ensures(*f, (s,), r),
{
    f(s)
}

/// Hands a text to a parser.
pub fn parse_with<F: Fn(&str) -> Option<Value>>(f: &F, s: &str) -> (r: Option<Value>)
    requires
        is_parser(*f),
    ensures
        opt_json(r) == parser_of(*f)(s@),
        call_ensures(*f, (s,), r),
{
    f(s)
}

/// What a parse gives: a value, or why there is none.
pub open spec fn res_json(r: Result<Value, String>) -> Result<Json, Seq<char>> {
    match r {
        Ok(v) => Ok(v@),
        Err(e) => Err(e@),
    }
}

/// Whether `p` says what the checked parser `f` makes of every text.
pub open spec fn checks_as<F: Fn(&str) -> Result<Value, String>>(
    f: F,
    p: spec_fn(Seq<char>) -> Result<Json, Seq<char>>,
) -> bool {
    forall|s: &str, v: Result<Value, String>| #[trigger]
        call_ensures(f, (s,), v) ==> res_json(v) == p(s@)
}

/// Whether `f` reads every text or says why not, and every text in one way only.
pub open spec fn is_checked_parser<F: Fn(&str) -> Result<Value, String>>(f: F) -> bool {
    &&& forall|s: &str| call_requires(f, (s,))
    &&& exists|p: spec_fn(Seq<char>) -> Result<Json, Seq<char>>| checks_as(f, p)
}

/// What the checked parser `f` makes of each text.
pub open spec fn checked_parser_of<F: Fn(&str) -> Result<Value, String>>(f: F) -> spec_fn(
    Seq<char>,
) -> Result<Json, Seq<char>> {
    choose|p: spec_fn(Seq<char>) -> Result<Json, Seq<char>>| checks_as(f, p)
}

/// Hands a text to a checked parser.
pub fn check_with<F: Fn(&str) -> Result<Value, String>>(f: &F, s: &str) -> (r: Result<
    Value,
    String,
>)
    requires
        is_checked_parser(*f),
    ensures
        res_json(r) == checked_parser_of(*f)(s@),
        call_ensures(*f, (s,), r),
{
    f(s)
}

} // verus!
