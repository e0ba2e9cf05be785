//! What a piece of JSON holds under a key, how it is written, and how numbers are
//! written and priced.
use vstd::prelude::*;
use crate::api::constrained_sampling::lemma_escaped_concat;
use crate::hash::{base36, code_units};
use crate::json::{
    array_at, bool_at, entries_text, escaped, get, items_text, json_text, lemma_key_index,
    lemma_key_index_is, number_at, object_at, quoted, str_at, with_entry, without_entry, Entries,
    Json,
};
use crate::number::{
    difference, excess, greater, in_halves, index_value, lesser, number_text, price, sum,
    thousandfold, total, whole, Cost, Number,
};
use crate::text::decimal;

verus! {

/// What is found under a key is what the first entry with that key holds, and
/// nothing is found where no entry has it.
pub proof fn law_first_entry_is_found<A>(m: Seq<(Seq<char>, A)>, key: Seq<char>, i: int)
    ensures
        0 <= i < m.len() && m[i].0 == key && (forall|j: int|
            0 <= j < i ==> (#[trigger] m[j]).0 != key) ==> get(m, key) == Some(m[i].1),
        (forall|j: int| 0 <= j < m.len() ==> (#[trigger] m[j]).0 != key) ==> get(m, key) is None,
        get(m, key) is None ==> forall|j: int| 0 <= j < m.len() ==> (#[trigger] m[j]).0 != key,
{
    lemma_key_index(m, key);
    if 0 <= i < m.len() && m[i].0 == key && (forall|j: int|
        0 <= j < i ==> (#[trigger] m[j]).0 != key) {
        lemma_key_index_is(m, key, i);
    }
}

/// Setting an entry changes one entry or adds one at the end; all others stay where
/// they are.
pub proof fn law_entry_is_set<A>(m: Seq<(Seq<char>, A)>, key: Seq<char>, value: A, i: int)
    requires
        0 <= i < m.len(),
    ensures
        m[i].0 != key ==> with_entry(m, key, value)[i] == m[i],
        get(m, key) is None ==> with_entry(m, key, value) == m.push((key, value)),
        get(m, key) is Some ==> with_entry(m, key, value).len() == m.len(),
        get(with_entry(m, key, value), key) == Some(value),
{
    lemma_key_index(m, key);
    crate::json::lemma_with_entry(m, key, value, key);
}

/// Taking an entry away leaves nothing under its key, where no key stands twice, and
/// all else as it was.
pub proof fn law_entry_is_taken_away<A>(m: Seq<(Seq<char>, A)>, key: Seq<char>, other: Seq<char>)
    requires
        forall|i: int, j: int|
            0 <= i < j < m.len() ==> (#[trigger] m[i]).0 != (#[trigger] m[j]).0,
    ensures
        get(without_entry(m, key), key) is None,
        other != key ==> get(without_entry(m, key), other) == get(m, other),
        get(m, key) is None ==> without_entry(m, key) == m,
{
    lemma_key_index(m, key);
    let at = crate::json::key_index(m, key);
    let after = without_entry(m, key);
    if at < m.len() {
        assert forall|j: int| 0 <= j < after.len() implies (#[trigger] after[j]).0 != key by {
            if j < at {
                assert(after[j] == m[j]);
            } else {
                assert(after[j] == m[j + 1]);
                assert(m[at].0 != m[j + 1].0);
            }
        }
        lemma_key_index_is(after, key, after.len() as int);
    }
    if other != key && at < m.len() {
        lemma_key_index(m, other);
        let k = crate::json::key_index(m, other);
        if k == m.len() {
            assert forall|j: int| 0 <= j < after.len() implies (#[trigger] after[j]).0 != other by {
                if j < at {
                    assert(after[j] == m[j]);
                } else {
                    assert(after[j] == m[j + 1]);
                }
            }
            lemma_key_index_is(after, other, after.len() as int);
        } else if k < at {
            assert forall|j: int| 0 <= j < k implies (#[trigger] after[j]).0 != other by {
                assert(after[j] == m[j]);
            }
            lemma_key_index_is(after, other, k);
        } else {
            assert forall|j: int| 0 <= j < k - 1 implies (#[trigger] after[j]).0 != other by {
                if j < at {
                    assert(after[j] == m[j]);
                } else {
                    assert(after[j] == m[j + 1]);
                }
            }
            lemma_key_index_is(after, other, k - 1);
        }
    }
}

/// A value is read under a key only as what it is.
pub proof fn law_values_are_read_as_they_are(
    e: Entries,
    key: Seq<char>,
    s: Seq<char>,
    n: Number,
    b: bool,
    a: Seq<Json>,
    o: Entries,
)
    ensures
        str_at(e, key) == Some(s) <==> get(e, key) == Some(Json::Str(s)),
        bool_at(e, key) == Some(b) <==> get(e, key) == Some(Json::Bool(b)),
        array_at(e, key) == Some(a) <==> get(e, key) == Some(Json::Array(a)),
        object_at(e, key) == Some(o) <==> get(e, key) == Some(Json::Object(o)),
        get(e, key) == Some(Json::Number(n)) ==> number_at(e, key) == Some(n),
        get(e, key) is None || get(e, key) == Some(Json::Null) ==> number_at(e, key) is None,
        get(e, key) == Some(Json::Str(s)) ==> number_at(e, key) is None,
{
}

/// How a character stands in a JSON string.
pub proof fn law_characters_are_escaped(c: char)
    ensures
        escaped(Seq::empty()).len() == 0,
        c as u32 >= 0x20 && c != '"' && c != '\\' ==> escaped(seq![c]) == seq![c],
        escaped(seq!['"']) == seq!['\\', '"'],
        escaped(seq!['\\']) == seq!['\\', '\\'],
        escaped(seq!['\n']) == seq!['\\', 'n'],
        escaped(seq!['\r']) == seq!['\\', 'r'],
        escaped(seq!['\t']) == seq!['\\', 't'],
        (c as u32) < 0x20 ==> escaped(seq![c]).len() >= 2 && escaped(seq![c])[0] == '\\',
{
    reveal_strlit("\\\"");
    reveal_strlit("\\\\");
    reveal_strlit("\\n");
    reveal_strlit("\\r");
    reveal_strlit("\\t");
    reveal_strlit("\\b");
    reveal_strlit("\\f");
    reveal_strlit("\\u00");
    reveal_with_fuel(escaped, 2);
    lemma_one(c);
    lemma_one('"');
    lemma_one('\\');
    lemma_one('\n');
    lemma_one('\r');
    lemma_one('\t');
    assert(Seq::<char>::empty().push(c) =~= seq![c]);
    assert("\\\""@ =~= seq!['\\', '"']);
    assert("\\\\"@ =~= seq!['\\', '\\']);
    assert("\\n"@ =~= seq!['\\', 'n']);
    assert("\\r"@ =~= seq!['\\', 'r']);
    assert("\\t"@ =~= seq!['\\', 't']);
}

proof fn lemma_one(c: char)
    ensures
        escaped(seq![c]) == crate::json::escape_char(c),
{
    reveal_with_fuel(escaped, 2);
    assert(seq![c].drop_last() =~= Seq::<char>::empty());
    assert(Seq::<char>::empty() + crate::json::escape_char(c) =~= crate::json::escape_char(c));
}

/// A text is escaped piece by piece.
pub proof fn law_texts_are_escaped_in_pieces(a: Seq<char>, b: Seq<char>)
    ensures
        escaped(a + b) == escaped(a) + escaped(b),
{
    lemma_escaped_concat(a, b);
}

/// How the values of JSON are written.
pub proof fn law_values_are_written(s: Seq<char>, n: Number, x: Json, key: Seq<char>)
    ensures
        json_text(Json::Null) == "null"@,
        json_text(Json::Bool(true)) == "true"@,
        json_text(Json::Bool(false)) == "false"@,
        json_text(Json::Str(s)) == "\""@ + escaped(s) + "\""@,
        json_text(Json::Array(Seq::empty())) =~= "["@ + "]"@,
        json_text(Json::Object(Seq::empty())) =~= "{"@ + "}"@,
        json_text(Json::Array(seq![x])) =~= "["@ + json_text(x) + "]"@,
        json_text(Json::Object(seq![(key, x)])) =~= "{"@ + (json_text(Json::Str(key)) + ":"@
            + json_text(x)) + "}"@,
{
    assert(items_text(seq![x]) == json_text(x));
    assert(entries_text(seq![(key, x)]) == quoted(key) + ":"@ + json_text(x));
}

/// Lists of values and of entries are written one after another, with a comma
/// between them.
pub proof fn law_lists_are_written(a: Seq<Json>, b: Seq<Json>, d: Entries, e: Entries)
    requires
        a.len() > 0,
        d.len() > 0,
    ensures
        b.len() > 0 ==> items_text(a + b) == items_text(a) + ","@ + items_text(b),
        e.len() > 0 ==> entries_text(d + e) == entries_text(d) + ","@ + entries_text(e),
        json_text(Json::Array(a)) == "["@ + items_text(a) + "]"@,
        json_text(Json::Object(d)) == "{"@ + entries_text(d) + "}"@,
    decreases b.len() + e.len(),
{
    if b.len() > 0 {
        assert((a + b).drop_last() =~= a + b.drop_last());
        assert((a + b).last() == b.last());
        if b.len() == 1 {
            assert(a + b.drop_last() =~= a);
        } else {
            law_lists_are_written(a, b.drop_last(), d, e);
            assert(items_text(a + b) =~= items_text(a) + ","@ + items_text(b));
        }
    }
    if e.len() > 0 {
        assert((d + e).drop_last() =~= d + e.drop_last());
        assert((d + e).last() == e.last());
        if e.len() == 1 {
            assert(d + e.drop_last() =~= d);
        } else {
            law_lists_are_written(a, b, d, e.drop_last());
            assert(entries_text(d + e) =~= entries_text(d) + ","@ + entries_text(e));
        }
    }
}

/// A whole number is written as its digits, with a sign where it is negative.
pub proof fn law_whole_numbers_are_written(n: nat)
    requires
        n < 1_000_000_000_000_000_000,
    ensures
        number_text(whole(n as int)) == decimal(n),
        n > 0 ==> number_text(whole(-(n as int))) == "-"@ + decimal(n),
{
    reveal_strlit("");
    assert(""@ =~= Seq::<char>::empty());
    let size: nat = (n * 1_000_000_000) as nat;
    assert(size / 1_000_000_000 == n);
    assert(size % 1_000_000_000 == 0);
    assert(whole(n as int).nanos == size);
    assert(whole(-(n as int)).nanos == -(size as int));
    assert(""@ + decimal(n) + ""@ =~= decimal(n));
    assert("-"@ + decimal(n) + ""@ =~= "-"@ + decimal(n));
}

/// Numbers add up, and are compared, as numbers do, where they can be held.
pub proof fn law_numbers_add_up(a: Number, b: Number)
    requires
        -1_000_000_000_000_000_000_000_000_000_000 < a.nanos
            < 1_000_000_000_000_000_000_000_000_000_000,
        -1_000_000_000_000_000_000_000_000_000_000 < b.nanos
            < 1_000_000_000_000_000_000_000_000_000_000,
    ensures
        sum(a, b).nanos == a.nanos + b.nanos,
        difference(a, b).nanos == a.nanos - b.nanos,
        greater(a, b).nanos >= a.nanos && greater(a, b).nanos >= b.nanos,
        greater(a, b) == a || greater(a, b) == b,
        lesser(a, b).nanos <= a.nanos && lesser(a, b).nanos <= b.nanos,
        lesser(a, b) == a || lesser(a, b) == b,
        thousandfold(a).nanos == a.nanos * 1000,
        a.nanos >= b.nanos ==> excess(a, b).nanos == a.nanos - b.nanos,
        a.nanos <= b.nanos ==> excess(a, b).nanos == 0,
        a.nanos <= 0 ==> index_value(a) == 0,
{
}

/// A price is the rate times the units, and prices add up, where they can be held.
pub proof fn law_prices_add_up(rate: Number, units: Number, a: Cost, b: Cost)
    requires
        0 <= rate.nanos < 1_000_000_000_000_000,
        0 <= units.nanos < 1_000_000_000_000_000,
        0 <= a.parts < 1_000_000_000_000_000_000_000_000_000_000,
        0 <= b.parts < 1_000_000_000_000_000_000_000_000_000_000,
    ensures
        price(rate, units).parts == rate.nanos * units.nanos,
        total(a, b).parts == a.parts + b.parts,
        in_halves(a, 2) == a,
        in_halves(a, 4).parts == 2 * a.parts,
        2 * in_halves(a, 1).parts <= a.parts < 2 * in_halves(a, 1).parts + 2,
{
    assert(0 <= rate.nanos * units.nanos < 1_000_000_000_000_000_000_000_000_000_000)
        by (nonlinear_arith)
        requires
            0 <= rate.nanos < 1_000_000_000_000_000,
            0 <= units.nanos < 1_000_000_000_000_000,
    ;
    assert(a.parts * 2 / 2 == a.parts);
    assert(a.parts * 4 / 2 == 2 * a.parts);
}

/// What a text in base 36 stands for.
pub open spec fn base36_value(s: Seq<char>) -> nat
    decreases s.len(),
{
    if s.len() == 0 {
        0
    } else {
        let c = s.last() as nat;
        base36_value(s.drop_last()) * 36 + (if c < 97 {
            (c - 48) as nat
        } else {
            (c - 87) as nat
        })
    }
}

/// A number written in base 36 stands for that number.
pub proof fn law_base36_reads_back(n: nat)
    ensures
        base36(n).len() > 0,
        base36_value(base36(n)) == n,
        forall|i: int|
            0 <= i < base36(n).len() ==> ('0' <= #[trigger] base36(n)[i] <= '9' || 'a'
                <= base36(n)[i] <= 'z'),
    decreases n,
{
    let d: int = n as int % 36;
    let c = crate::hash::base36_digit(d);
    assert(c as nat == if d < 10 {
        d + 48
    } else {
        d + 87
    });
    if n < 36 {
        assert(base36(n).drop_last() =~= Seq::<char>::empty());
        reveal_with_fuel(base36_value, 2);
    } else {
        law_base36_reads_back(n / 36);
        assert(base36(n).drop_last() =~= base36(n / 36));
    }
}

/// The code units of a text: one for a character of the basic plane, two for any
/// other, from which the character can be had back.
pub proof fn law_code_units(s: Seq<char>, c: char)
    ensures
        code_units(Seq::empty()).len() == 0,
        (c as u32) < 0x10000 ==> code_units(s.push(c)) == code_units(s).push(c as u32),
        c as u32 >= 0x10000 ==> {
            let after = code_units(s.push(c));
            let n = code_units(s).len() as int;
            &&& after.len() == n + 2
            &&& after.take(n) =~= code_units(s)
            &&& 0xd800 <= after[n] < 0xdc00
            &&& 0xdc00 <= after[n + 1] < 0xe000
            &&& (after[n] - 0xd800) * 0x400 + (after[n + 1] - 0xdc00) + 0x10000 == c as u32
        },
{
    assert(s.push(c).drop_last() =~= s);
}

} // verus!
