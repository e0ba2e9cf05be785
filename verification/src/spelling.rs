//! Which texts spell a flat JSON object, and what it is to read them all.
use vstd::prelude::*;
use vstd::string::*;
use crate::json::{escape_char, hex_digit, unicode_escape, Entries, Json};
use crate::number::whole;
use crate::text::{decimal, is_digit, lemma_decimal};

verus! {

/// Whether a text stands for a character inside a JSON string.
pub open spec fn spells_char(t: Seq<char>, c: char) -> bool {
    t == escape_char(c) || ((c as u32) < 0x20 && t == unicode_escape(c))
}

/// Whether `t` is what stands between the quotes of a JSON string that holds `s`.
pub open spec fn spells_text(t: Seq<char>, s: Seq<char>) -> bool
    decreases s.len(),
{
    if s.len() == 0 {
        t.len() == 0
    } else {
        exists|k: int|
            0 <= k <= t.len() && spells_char(#[trigger] t.take(k), s[0]) && spells_text(
                t.skip(k),
                s.drop_first(),
            )
    }
}

/// Whether a text is a JSON string that holds `s`.
pub open spec fn spells_string(t: Seq<char>, s: Seq<char>) -> bool {
    &&& t.len() >= 2
    &&& t[0] == '"'
    &&& t.last() == '"'
    &&& spells_text(t.subrange(1, t.len() - 1), s)
}

/// The whole numbers below this one are numbers that every reader holds exactly.
pub open spec fn plain_limit() -> int {
    0x20_0000_0000_0000
}

/// Whether a text is the JSON text of a string or of a plain whole number.
pub open spec fn spells_scalar(t: Seq<char>, j: Json) -> bool {
    match j {
        Json::Str(s) => spells_string(t, s),
        Json::Number(n) => exists|k: int|
            0 <= k < plain_limit() && n == whole(k) && t == #[trigger] decimal(k as nat),
        _ => false,
    }
}

/// Whether a text is an entry of a JSON object: a key, a colon and a scalar.
pub open spec fn spells_entry(t: Seq<char>, key: Seq<char>, j: Json) -> bool {
    exists|k: int|
        0 <= k < t.len() && t[k] == ':' && spells_string(#[trigger] t.take(k), key)
            && spells_scalar(t.skip(k + 1), j)
}

/// Whether a text is a list of entries with commas between them.
pub open spec fn spells_entries(t: Seq<char>, e: Entries) -> bool
    decreases e.len(),
{
    if e.len() == 0 {
        t.len() == 0
    } else if e.len() == 1 {
        spells_entry(t, e[0].0, e[0].1)
    } else {
        exists|k: int|
            0 <= k < t.len() && t[k] == ',' && spells_entry(#[trigger] t.take(k), e[0].0, e[0].1)
                && spells_entries(t.skip(k + 1), e.drop_first())
    }
}

pub open spec fn keys_differ(e: Entries) -> bool {
    forall|i: int, j: int| 0 <= i < j < e.len() ==> (#[trigger] e[i]).0 != (#[trigger] e[j]).0
}

/// Whether a text is a JSON object of strings and plain whole numbers, in which
/// no key stands twice.
pub open spec fn spells_record(t: Seq<char>, e: Entries) -> bool {
    &&& keys_differ(e)
    &&& t.len() >= 2
    &&& t[0] == '{'
    &&& t.last() == '}'
    &&& spells_entries(t.subrange(1, t.len() - 1), e)
}

/// Whether a parser reads every flat JSON object as what it spells.
pub open spec fn reads_records(parse: spec_fn(Seq<char>) -> Option<Json>) -> bool {
    forall|t: Seq<char>, e: Entries| #[trigger]
        spells_record(t, e) ==> parse(t) == Some(Json::Object(e))
}

pub proof fn lemma_spells_concat(a: Seq<char>, s: Seq<char>, b: Seq<char>, r: Seq<char>)
    requires
        spells_text(a, s),
        spells_text(b, r),
    ensures
        spells_text(a + b, s + r),
    decreases s.len(),
{
    if s.len() == 0 {
        assert(a + b =~= b);
        assert(s + r =~= r);
    } else {
        let k = choose|k: int|
            0 <= k <= a.len() && spells_char(#[trigger] a.take(k), s[0]) && spells_text(
                a.skip(k),
                s.drop_first(),
            );
        lemma_spells_concat(a.skip(k), s.drop_first(), b, r);
        assert((a + b).take(k) =~= a.take(k));
        assert((a + b).skip(k) =~= a.skip(k) + b);
        assert((s + r).drop_first() =~= s.drop_first() + r);
        assert((s + r)[0] == s[0]);
    }
}

pub proof fn lemma_spells_one(t: Seq<char>, c: char)
    requires
        spells_char(t, c),
    ensures
        spells_text(t, Seq::<char>::empty().push(c)),
{
    let s = Seq::<char>::empty().push(c);
    reveal_with_fuel(spells_text, 2);
    assert(t.take(t.len() as int) =~= t);
    assert(t.skip(t.len() as int).len() == 0);
    assert(s.drop_first().len() == 0);
}

pub proof fn lemma_spells_string(t: Seq<char>, s: Seq<char>)
    requires
        spells_text(t, s),
    ensures
        spells_string("\""@ + t + "\""@, s),
{
    reveal_strlit("\"");
    let q = "\""@ + t + "\""@;
    assert(q.subrange(1, q.len() - 1) =~= t);
}

pub proof fn lemma_spells_entry(a: Seq<char>, key: Seq<char>, b: Seq<char>, j: Json)
    requires
        spells_string(a, key),
        spells_scalar(b, j),
    ensures
        spells_entry(a + ":"@ + b, key, j),
{
    reveal_strlit(":");
    let t = a + ":"@ + b;
    assert(t.take(a.len() as int) =~= a);
    assert(t.skip((a.len() + 1) as int) =~= b);
}

pub proof fn lemma_spells_more(a: Seq<char>, e: Entries, b: Seq<char>, key: Seq<char>, j: Json)
    requires
        e.len() > 0,
        spells_entries(a, e),
        spells_entry(b, key, j),
    ensures
        spells_entries(a + ","@ + b, e.push((key, j))),
    decreases e.len(),
{
    reveal_strlit(",");
    let t = a + ","@ + b;
    let more = e.push((key, j));
    assert(more[0] == e[0]);
    if e.len() == 1 {
        let rest = more.drop_first();
        assert(rest.len() == 1 && rest[0] == (key, j));
        assert(t.take(a.len() as int) =~= a);
        assert(t.skip((a.len() + 1) as int) =~= b);
        assert(spells_entries(b, rest));
    } else {
        let k = choose|k: int|
            0 <= k < a.len() && a[k] == ',' && spells_entry(#[trigger] a.take(k), e[0].0, e[0].1)
                && spells_entries(a.skip(k + 1), e.drop_first());
        lemma_spells_more(a.skip(k + 1), e.drop_first(), b, key, j);
        assert(t.take(k) =~= a.take(k));
        assert(t.skip(k + 1) =~= a.skip(k + 1) + ","@ + b);
        assert(more.drop_first() =~= e.drop_first().push((key, j)));
    }
}

pub proof fn lemma_spells_record(t: Seq<char>, e: Entries)
    requires
        keys_differ(e),
        spells_entries(t, e),
    ensures
        spells_record("{"@ + t + "}"@, e),
{
    reveal_strlit("{");
    reveal_strlit("}");
    let r = "{"@ + t + "}"@;
    assert(r.subrange(1, r.len() - 1) =~= t);
}

// ---------------------------------------------------------------------------
// One text spells one object
// ---------------------------------------------------------------------------

proof fn lemma_char_begins(t: Seq<char>, c: char)
    requires
        spells_char(t, c),
    ensures
        t.len() > 0,
        t[0] != '"',
        t[0] != '\\' ==> t.len() == 1 && t[0] == c,
        t[0] == '\\' ==> t.len() >= 2,
        t[0] == '\\' && t[1] == 'u' ==> t.len() == 6 && (c as u32) < 0x20 && t == unicode_escape(c),
        t[0] == '\\' && t[1] != 'u' ==> t.len() == 2 && t == escape_char(c),
{
    reveal_strlit("\\\"");
    reveal_strlit("\\\\");
    reveal_strlit("\\n");
    reveal_strlit("\\r");
    reveal_strlit("\\t");
    reveal_strlit("\\b");
    reveal_strlit("\\f");
    reveal_strlit("\\u00");
}

proof fn lemma_escapes_differ(c: char, d: char)
    requires
        escape_char(c).len() == 2,
        escape_char(d).len() == 2,
        escape_char(c)[1] == escape_char(d)[1],
    ensures
        c == d,
{
    reveal_strlit("\\\"");
    reveal_strlit("\\\\");
    reveal_strlit("\\n");
    reveal_strlit("\\r");
    reveal_strlit("\\t");
    reveal_strlit("\\b");
    reveal_strlit("\\f");
    reveal_strlit("\\u00");
}

proof fn lemma_codes_differ(c: char, d: char)
    requires
        (c as u32) < 0x20,
        (d as u32) < 0x20,
        unicode_escape(c) == unicode_escape(d),
    ensures
        c == d,
{
    reveal_strlit("\\u00");
    assert(unicode_escape(c)[4] == hex_digit(c as int / 16));
    assert(unicode_escape(c)[5] == hex_digit(c as int % 16));
    assert(unicode_escape(d)[4] == hex_digit(d as int / 16));
    assert(unicode_escape(d)[5] == hex_digit(d as int % 16));
}

/// Two characters whose spellings begin a text are the same.
proof fn lemma_one_char(u: Seq<char>, i: int, c: char, j: int, d: char)
    requires
        0 <= i <= u.len(),
        0 <= j <= u.len(),
        spells_char(u.take(i), c),
        spells_char(u.take(j), d),
    ensures
        i == j,
        c == d,
{
    let (x, y) = (u.take(i), u.take(j));
    lemma_char_begins(x, c);
    lemma_char_begins(y, d);
    assert(x[0] == u[0] && y[0] == u[0]);
    if u[0] == '\\' {
        assert(x[1] == u[1] && y[1] == u[1]);
        if u[1] == 'u' {
            assert(x == y);
            lemma_codes_differ(c, d);
        } else {
            lemma_escapes_differ(c, d);
        }
    }
}

/// Two strings that begin a text and end at a quote are the same.
proof fn lemma_one_text(u: Seq<char>, i: int, s: Seq<char>, j: int, r: Seq<char>)
    requires
        0 <= i < u.len(),
        0 <= j < u.len(),
        u[i] == '"',
        u[j] == '"',
        spells_text(u.take(i), s),
        spells_text(u.take(j), r),
    ensures
        i == j,
        s == r,
    decreases s.len(),
{
    let (x, y) = (u.take(i), u.take(j));
    if s.len() == 0 {
        if r.len() > 0 {
            let k = choose|k: int|
                0 <= k <= y.len() && spells_char(#[trigger] y.take(k), r[0]) && spells_text(
                    y.skip(k),
                    r.drop_first(),
                );
            lemma_char_begins(y.take(k), r[0]);
            assert(y.take(k)[0] == u[0]);
        }
        assert(s =~= r);
    } else {
        let k = choose|k: int|
            0 <= k <= x.len() && spells_char(#[trigger] x.take(k), s[0]) && spells_text(
                x.skip(k),
                s.drop_first(),
            );
        lemma_char_begins(x.take(k), s[0]);
        assert(x.take(k)[0] == u[0]);
        assert(x.take(k) =~= u.take(k));
        assert(r.len() > 0);
        let l = choose|l: int|
            0 <= l <= y.len() && spells_char(#[trigger] y.take(l), r[0]) && spells_text(
                y.skip(l),
                r.drop_first(),
            );
        assert(y.take(l) =~= u.take(l));
        lemma_one_char(u, k, s[0], l, r[0]);
        assert(x.skip(k) =~= u.skip(k).take(i - k));
        assert(y.skip(k) =~= u.skip(k).take(j - k));
        lemma_one_text(u.skip(k), i - k, s.drop_first(), j - k, r.drop_first());
        assert(s =~= Seq::<char>::empty().push(s[0]) + s.drop_first());
        assert(r =~= Seq::<char>::empty().push(r[0]) + r.drop_first());
    }
}

/// Two quoted strings that begin a text are the same.
proof fn lemma_one_string(u: Seq<char>, i: int, s: Seq<char>, j: int, r: Seq<char>)
    requires
        0 <= i <= u.len(),
        0 <= j <= u.len(),
        spells_string(u.take(i), s),
        spells_string(u.take(j), r),
    ensures
        i == j,
        s == r,
{
    let v = u.skip(1);
    assert(u.take(i).subrange(1, i - 1) =~= v.take(i - 2));
    assert(u.take(j).subrange(1, j - 1) =~= v.take(j - 2));
    assert(v[i - 2] == u.take(i).last());
    assert(v[j - 2] == u.take(j).last());
    lemma_one_text(v, i - 2, s, j - 2, r);
}

/// Whether `i` is the end of an entry in a text of entries.
spec fn ends_entry(u: Seq<char>, i: int) -> bool {
    0 <= i <= u.len() && (i < u.len() ==> u[i] == ',')
}

proof fn lemma_one_scalar(u: Seq<char>, i: int, a: Json, j: int, b: Json)
    requires
        ends_entry(u, i),
        ends_entry(u, j),
        spells_scalar(u.take(i), a),
        spells_scalar(u.take(j), b),
    ensures
        i == j,
        a == b,
{
    let (x, y) = (u.take(i), u.take(j));
    if let Json::Number(n) = a {
        let k = choose|k: int|
            0 <= k < plain_limit() && n == whole(k) && x == #[trigger] decimal(k as nat);
        lemma_decimal(k as nat);
        assert(x[0] == u[0] && is_digit(x[0]));
        if let Json::Number(m) = b {
            let l = choose|l: int|
                0 <= l < plain_limit() && m == whole(l) && y == #[trigger] decimal(l as nat);
            lemma_decimal(l as nat);
            if i < j {
                assert(y[i] == u[i] && is_digit(y[i]));
            }
            if j < i {
                assert(x[j] == u[j] && is_digit(x[j]));
            }
        } else {
            assert(y[0] == u[0]);
        }
    } else if let Json::Str(s) = a {
        assert(x[0] == u[0]);
        if let Json::Str(r) = b {
            lemma_one_string(u, i, s, j, r);
        } else {
            let l = choose|l: int|
                0 <= l < plain_limit() && b->Number_0 == whole(l) && y == #[trigger] decimal(
                    l as nat,
                );
            lemma_decimal(l as nat);
            assert(y[0] == u[0] && is_digit(y[0]));
        }
    }
}

proof fn lemma_one_entry(
    u: Seq<char>,
    i: int,
    key: Seq<char>,
    a: Json,
    j: int,
    other: Seq<char>,
    b: Json,
)
    requires
        ends_entry(u, i),
        ends_entry(u, j),
        spells_entry(u.take(i), key, a),
        spells_entry(u.take(j), other, b),
    ensures
        i == j,
        key == other,
        a == b,
{
    let (x, y) = (u.take(i), u.take(j));
    let k = choose|k: int|
        0 <= k < x.len() && x[k] == ':' && spells_string(#[trigger] x.take(k), key)
            && spells_scalar(x.skip(k + 1), a);
    let l = choose|l: int|
        0 <= l < y.len() && y[l] == ':' && spells_string(#[trigger] y.take(l), other)
            && spells_scalar(y.skip(l + 1), b);
    assert(x.take(k) =~= u.take(k));
    assert(y.take(l) =~= u.take(l));
    lemma_one_string(u, k, key, l, other);
    let v = u.skip(k + 1);
    assert(x.skip(k + 1) =~= v.take(i - k - 1));
    assert(y.skip(k + 1) =~= v.take(j - k - 1));
    lemma_one_scalar(v, i - k - 1, a, j - k - 1, b);
}

/// The end of the first of some entries, where its text begins `t`.
spec fn first_end(t: Seq<char>, e: Entries, k: int) -> bool {
    &&& ends_entry(t, k)
    &&& spells_entry(t.take(k), e[0].0, e[0].1)
    &&& e.len() == 1 ==> k == t.len()
    &&& e.len() > 1 ==> k < t.len() && spells_entries(t.skip(k + 1), e.drop_first())
}

proof fn lemma_first_end(t: Seq<char>, e: Entries) -> (k: int)
    requires
        e.len() > 0,
        spells_entries(t, e),
    ensures
        first_end(t, e, k),
{
    if e.len() == 1 {
        assert(t.take(t.len() as int) =~= t);
        t.len() as int
    } else {
        choose|k: int|
            0 <= k < t.len() && t[k] == ',' && spells_entry(#[trigger] t.take(k), e[0].0, e[0].1)
                && spells_entries(t.skip(k + 1), e.drop_first())
    }
}

proof fn lemma_one_list(t: Seq<char>, e: Entries, f: Entries)
    requires
        spells_entries(t, e),
        spells_entries(t, f),
    ensures
        e == f,
    decreases e.len(),
{
    if e.len() == 0 || f.len() == 0 {
        assert(t.len() == 0);
        assert(e =~= f);
    } else {
        let k = lemma_first_end(t, e);
        let l = lemma_first_end(t, f);
        lemma_one_entry(t, k, e[0].0, e[0].1, l, f[0].0, f[0].1);
        if e.len() > 1 {
            lemma_one_list(t.skip(k + 1), e.drop_first(), f.drop_first());
            assert(e =~= Entries::empty().push(e[0]) + e.drop_first());
            assert(f =~= Entries::empty().push(f[0]) + f.drop_first());
        } else {
            assert(e =~= f);
        }
    }
}

/// A text spells one flat JSON object at most.
pub proof fn law_spelling_is_unambiguous(t: Seq<char>, e: Entries, f: Entries)
    requires
        spells_record(t, e),
        spells_record(t, f),
    ensures
        e == f,
{
    lemma_one_list(t.subrange(1, t.len() - 1), e, f);
}

/// There is a parser that reads every flat JSON object.
pub proof fn law_records_can_be_read() -> (parse: spec_fn(Seq<char>) -> Option<Json>)
    ensures
        reads_records(parse),
{
    let parse = |t: Seq<char>|
        if exists|e: Entries| spells_record(t, e) {
            Some(Json::Object(choose|e: Entries| spells_record(t, e)))
        } else {
            None
        };
    assert forall|t: Seq<char>, e: Entries| #[trigger] spells_record(t, e) implies parse(t) == Some(
        Json::Object(e),
    ) by {
        law_spelling_is_unambiguous(t, e, choose|e: Entries| spells_record(t, e));
    }
    parse
}

} // verus!
