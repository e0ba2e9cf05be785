//! What cutting, joining and cleaning a text keeps of it.
use vstd::prelude::*;
use crate::api::blocks::safe_id;
use crate::text::{
    ascii_lower, decimal, digits_value, first_chars, index_of, is_alnum, is_blank, is_space, joined,
    lemma_decimal, lemma_index_of, lemma_not_blank, split_on, split_pair, text_after, text_position,
    trimmed, trimmed_end, trimmed_end_of, trimmed_start,
};

verus! {

/// Two texts that are put together around a character are found again where the
/// first does not hold that character.
pub proof fn law_pair_comes_apart(a: Seq<char>, c: char, b: Seq<char>)
    requires
        !a.contains(c),
    ensures
        split_pair(a.push(c) + b, c) == Some((a, b)),
        split_pair(a, c) is None,
{
    let s = a.push(c) + b;
    lemma_index_of(s, c);
    let i = index_of(s, c);
    assert(s[a.len() as int] == c);
    assert(s.contains(c));
    if i < a.len() {
        assert(s[i] == a[i]);
        assert(a.contains(c));
    }
    assert(i == a.len());
    assert(s.take(i) =~= a);
    assert(s.skip(i + 1) =~= b);
}

/// A text is cut at every place where a character stands: put together again around
/// that character, the pieces are the text, and none of them holds it.
pub proof fn law_pieces_make_the_text(s: Seq<char>, c: char)
    ensures
        split_on(s, c).len() > 0,
        joined(split_on(s, c), seq![c]) == s,
        forall|i: int| 0 <= i < split_on(s, c).len() ==> !(#[trigger] split_on(s, c)[i]).contains(c),
    decreases s.len(),
{
    lemma_index_of(s, c);
    let i = index_of(s, c);
    if i < s.len() {
        let rest = s.skip(i + 1);
        law_pieces_make_the_text(rest, c);
        let tail = split_on(rest, c);
        lemma_joined_first(s.take(i), tail, seq![c]);
        assert(s.take(i) + seq![c] + rest =~= s);
        assert forall|j: int| 0 <= j < split_on(s, c).len() implies !(#[trigger] split_on(
            s,
            c,
        )[j]).contains(c) by {
            if j == 0 {
                let first = s.take(i);
                assert(split_on(s, c)[0] == first);
                if first.contains(c) {
                    let k = choose|k: int| 0 <= k < first.len() && first[k] == c;
                    assert(s[k] == c);
                }
            } else {
                assert(split_on(s, c)[j] == tail[j - 1]);
            }
        }
    }
}

proof fn lemma_joined_first(first: Seq<char>, tail: Seq<Seq<char>>, sep: Seq<char>)
    requires
        tail.len() > 0,
    ensures
        joined(seq![first] + tail, sep) == first + sep + joined(tail, sep),
    decreases tail.len(),
{
    let all = seq![first] + tail;
    assert(all.last() == tail.last());
    if tail.len() == 1 {
        assert(all.drop_last() =~= seq![first]);
        assert(joined(seq![first], sep) == first);
    } else {
        lemma_joined_first(first, tail.drop_last(), sep);
        assert(all.drop_last() =~= seq![first] + tail.drop_last());
        assert(joined(all, sep) =~= first + sep + joined(tail, sep));
    }
}

/// Joining puts the separator between the texts and nowhere else.
pub proof fn law_joined_in_two(a: Seq<Seq<char>>, b: Seq<Seq<char>>, sep: Seq<char>)
    ensures
        a.len() > 0 && b.len() > 0 ==> joined(a + b, sep) == joined(a, sep) + sep + joined(b, sep),
        joined(Seq::<Seq<char>>::empty(), sep).len() == 0,
        a.len() == 1 ==> joined(a, sep) == a[0],
    decreases b.len(),
{
    if a.len() > 0 && b.len() > 0 {
        assert((a + b).drop_last() =~= a + b.drop_last());
        assert((a + b).last() == b.last());
        if b.len() == 1 {
            assert(a + b.drop_last() =~= a);
        } else {
            law_joined_in_two(a, b.drop_last(), sep);
            assert(joined(a + b, sep) =~= joined(a, sep) + sep + joined(b, sep));
        }
    }
}

proof fn lemma_trimmed_start_is(s: Seq<char>) -> (k: int)
    ensures
        0 <= k <= s.len(),
        trimmed_start(s) == s.skip(k),
        forall|i: int| 0 <= i < k ==> is_space(#[trigger] s[i]),
        k < s.len() ==> !is_space(s[k]),
    decreases s.len(),
{
    if s.len() > 0 && is_space(s[0]) {
        let d = s.drop_first();
        let k = lemma_trimmed_start_is(d);
        assert(d.skip(k) =~= s.skip(k + 1));
        assert forall|i: int| 0 <= i < k + 1 implies is_space(#[trigger] s[i]) by {
            if i > 0 {
                assert(d[i - 1] == s[i]);
            }
        }
        if k < d.len() {
            assert(d[k] == s[k + 1]);
        }
        k + 1
    } else {
        assert(s.skip(0) =~= s);
        0
    }
}

proof fn lemma_trimmed_end_is(s: Seq<char>) -> (n: int)
    ensures
        0 <= n <= s.len(),
        trimmed_end(s) == s.take(n),
        forall|i: int| n <= i < s.len() ==> is_space(#[trigger] s[i]),
        n > 0 ==> !is_space(s[n - 1]),
    decreases s.len(),
{
    if s.len() > 0 && is_space(s.last()) {
        let d = s.drop_last();
        let n = lemma_trimmed_end_is(d);
        assert(d.take(n) =~= s.take(n));
        assert forall|i: int| n <= i < s.len() implies is_space(#[trigger] s[i]) by {
            if i < d.len() {
                assert(d[i] == s[i]);
            }
        }
        if n > 0 {
            assert(d[n - 1] == s[n - 1]);
        }
        n
    } else {
        assert(s.take(s.len() as int) =~= s);
        s.len() as int
    }
}

/// Trimming takes away white space at both ends and nothing else: what is left
/// begins and ends with another character, and is the part of the text between the
/// white space.
pub proof fn law_trimming_takes_only_space(s: Seq<char>)
    ensures
        ({
            let t = trimmed(s);
            &&& t.len() > 0 ==> !is_space(t[0]) && !is_space(t.last())
            &&& exists|k: int, n: int|
                0 <= k <= n <= s.len() && t == #[trigger] s.subrange(k, n) && (forall|i: int|
                    0 <= i < k ==> is_space(#[trigger] s[i])) && (forall|i: int|
                    n <= i < s.len() ==> is_space(#[trigger] s[i]))
        }),
{
    let k = lemma_trimmed_start_is(s);
    let inner = trimmed_start(s);
    let n = lemma_trimmed_end_is(inner);
    let t = trimmed(s);
    assert(t =~= s.subrange(k, k + n));
    assert forall|i: int| k + n <= i < s.len() implies is_space(#[trigger] s[i]) by {
        assert(inner[i - k] == s[i]);
    }
    if t.len() > 0 {
        assert(t[0] == inner[0] && inner[0] == s[k]);
        assert(t.last() == inner[n - 1]);
    }
}

/// A text is blank exactly if it is made of white space.
pub proof fn law_blank_is_all_space(s: Seq<char>)
    ensures
        is_blank(s) <==> forall|i: int| 0 <= i < s.len() ==> is_space(#[trigger] s[i]),
{
    if exists|i: int| 0 <= i < s.len() && !is_space(#[trigger] s[i]) {
        let i = choose|i: int| 0 <= i < s.len() && !is_space(#[trigger] s[i]);
        lemma_not_blank(s, i);
    } else {
        let k = lemma_trimmed_start_is(s);
        if k < s.len() {
            assert(is_space(s[k]));
        }
        assert(trimmed_start(s).len() == 0);
        let n = lemma_trimmed_end_is(trimmed_start(s));
    }
}

/// Blanks, tabs and line ends are white space, letters and digits are not.
pub proof fn law_white_space(c: char)
    ensures
        is_space(' ') && is_space('\t') && is_space('\n') && is_space('\r'),
        is_alnum(c) ==> !is_space(c),
{
}

/// What is cut off at the end is one character over and over, and all of it.
pub proof fn law_end_is_cut_off(s: Seq<char>, c: char)
    ensures
        ({
            let t = trimmed_end_of(s, c);
            &&& t.is_prefix_of(s)
            &&& t.len() > 0 ==> t.last() != c
            &&& forall|i: int| t.len() <= i < s.len() ==> #[trigger] s[i] == c
        }),
    decreases s.len(),
{
    if s.len() > 0 && s.last() == c {
        law_end_is_cut_off(s.drop_last(), c);
        let t = trimmed_end_of(s, c);
        assert(t =~= s.take(t.len() as int)) by {
            assert(t =~= s.drop_last().take(t.len() as int));
        }
        assert forall|i: int| t.len() <= i < s.len() implies #[trigger] s[i] == c by {
            if i < s.len() - 1 {
                assert(s.drop_last()[i] == s[i]);
            }
        }
        assert(t.is_prefix_of(s));
    } else {
        assert(s.is_prefix_of(s));
    }
}

/// A text that is cut keeps its beginning and is no longer than it may be.
pub proof fn law_cut_text_keeps_its_beginning(s: Seq<char>, n: nat)
    ensures
        first_chars(s, n as int).is_prefix_of(s),
        first_chars(s, n as int).len() <= n,
        s.len() <= n ==> first_chars(s, n as int) == s,
        s.len() > n ==> first_chars(s, n as int).len() == n,
{
}

/// A number is written in digits that give it back.
pub proof fn law_decimals_read_back(a: nat, b: nat)
    ensures
        digits_value(decimal(a)) == a,
        decimal(a) == decimal(b) ==> a == b,
{
    lemma_decimal(a);
    lemma_decimal(b);
}

/// A text that is made safe keeps its length and its letters, digits, underscores
/// and hyphens; everything else in it becomes an underscore. So a safe text stays.
pub proof fn law_safe_text(s: Seq<char>)
    ensures
        safe_id(s).len() == s.len(),
        forall|i: int|
            0 <= i < s.len() ==> #[trigger] safe_id(s)[i] == if is_alnum(s[i]) || s[i] == '_'
                || s[i] == '-' {
                s[i]
            } else {
                '_'
            },
        safe_id(safe_id(s)) == safe_id(s),
{
    assert(safe_id(safe_id(s)) =~= safe_id(s));
}

/// Lowering the case of a text keeps its length and every character but the
/// capitals, and lowering it again changes nothing.
pub proof fn law_lower_case(s: Seq<char>)
    ensures
        ascii_lower(s).len() == s.len(),
        forall|i: int|
            0 <= i < s.len() && !('A' <= s[i] <= 'Z') ==> #[trigger] ascii_lower(s)[i] == s[i],
        forall|i: int|
            0 <= i < s.len() && 'A' <= s[i] <= 'Z' ==> (#[trigger] ascii_lower(s)[i]) as u32
                == s[i] as u32 + 32,
        ascii_lower(ascii_lower(s)) == ascii_lower(s),
{
    assert(ascii_lower(ascii_lower(s)) =~= ascii_lower(s));
}

/// What follows the first place where a text stands is found exactly where it
/// stands.
pub proof fn law_text_after_its_first_place(s: Seq<char>, sep: Seq<char>)
    ensures
        match text_position(s, sep) {
            Some(i) => {
                &&& 0 <= i && i + sep.len() <= s.len()
                &&& s.subrange(i, i + sep.len()) == sep
                &&& forall|j: int| 0 <= j < i ==> !sep.is_prefix_of(#[trigger] s.skip(j))
                &&& text_after(s, sep) == Some(s.skip(i + sep.len()))
            },
            None => {
                &&& text_after(s, sep) is None
                &&& forall|j: int| 0 <= j <= s.len() ==> !sep.is_prefix_of(#[trigger] s.skip(j))
            },
        },
    decreases s.len(),
{
    assert(s.skip(0) =~= s);
    if sep.is_prefix_of(s) {
        assert(s.subrange(0, sep.len() as int) =~= sep);
    } else if s.len() > 0 {
        let d = s.drop_first();
        law_text_after_its_first_place(d, sep);
        assert forall|j: int| 0 < j <= s.len() implies #[trigger] s.skip(j) == d.skip(j - 1) by {
            assert(s.skip(j) =~= d.skip(j - 1));
        }
        if let Some(i) = text_position(d, sep) {
            assert(s.subrange(i + 1, i + 1 + sep.len()) =~= d.subrange(i, i + sep.len()));
            assert forall|j: int| 0 <= j < i + 1 implies !sep.is_prefix_of(#[trigger] s.skip(j)) by {
                if j > 0 {
                    assert(s.skip(j) == d.skip(j - 1));
                }
            }
        } else {
            assert forall|j: int| 0 <= j <= s.len() implies !sep.is_prefix_of(
                #[trigger] s.skip(j),
            ) by {
                if j > 0 {
                    assert(s.skip(j) == d.skip(j - 1));
                }
            }
        }
    }
}

} // verus!
