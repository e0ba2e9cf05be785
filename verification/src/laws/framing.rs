//! How streams of bytes are cut into events, and how versions are read in names.
use vstd::prelude::*;
use crate::api::anthropic_messages::sse::{
    break_index, buffer_decoded, is_break, line_decoded, line_taken, trimmed_breaks, Decoded,
    Pending, SseEvent,
};
use crate::api::google_shared::is_gemini3;
use crate::api::google_vertex::is_version;
use crate::api::mistral_conversations::events::{
    after_boundary, boundary_index, boundary_len, data_lines, framed, has_boundary, is_boundary,
    lines,
};
use crate::text::{
    all_digits, ascii_lower, decimal, digit_run, index_of, is_digit, joined, lemma_decimal,
    lemma_index_of, trimmed_start, u32_of, utf8_lossy,
};

verus! {

proof fn lemma_field(name: Seq<char>, value: Seq<char>)
    requires
        !name.contains(':'),
    ensures
        index_of(name.push(':') + value, ':') == name.len(),
        (name.push(':') + value).take(name.len() as int) == name,
        (name.push(':') + value).skip(name.len() as int + 1) == value,
{
    let s = name.push(':') + value;
    lemma_index_of(s, ':');
    let i = index_of(s, ':');
    assert(s[name.len() as int] == ':');
    if i < name.len() {
        assert(s[i] == name[i]);
        assert(name.contains(':'));
    }
    assert(s.take(name.len() as int) =~= name);
    assert(s.skip(name.len() as int + 1) =~= value);
}

/// How the lines of a server-sent event are taken: one that begins with `event:`
/// names it, each that begins with `data:` adds to its data, and one space behind
/// the colon does not count; a comment and any other line say nothing; an empty line
/// ends the event.
pub proof fn law_lines_are_taken(p: Pending, value: Seq<char>, comment: Seq<char>)
    requires
        value.len() > 0 ==> value[0] != ' ',
    ensures
        ({
            let (after, event) = line_decoded(p, "event"@.push(':') + value);
            event is None && after.event == Some(value) && after.data == p.data
        }),
        ({
            let (after, event) = line_decoded(p, "event"@.push(':') + (seq![' '] + value));
            event is None && after.event == Some(value) && after.data == p.data
        }),
        ({
            let (after, event) = line_decoded(p, "data"@.push(':') + value);
            event is None && after.event == p.event && after.data == p.data.push(value)
        }),
        ({
            let (after, event) = line_decoded(p, "data"@.push(':') + (seq![' '] + value));
            event is None && after.event == p.event && after.data == p.data.push(value)
        }),
        ({
            let (after, event) = line_decoded(p, "id"@.push(':') + value);
            event is None && after.event == p.event && after.data == p.data
        }),
        ({
            let (after, event) = line_decoded(p, seq![':'] + comment);
            event is None && after.event == p.event && after.data == p.data
        }),
        ({
            let (after, event) = line_decoded(p, Seq::empty());
            &&& p.event is None && p.data.len() == 0 ==> event is None && after == p
            &&& p.event is Some || p.data.len() > 0 ==> event == Some(
                SseEvent { event: p.event, data: joined(p.data, "\n"@), raw: p.raw },
            ) && after.event is None && after.data.len() == 0 && after.raw.len() == 0
        }),
{
    reveal_strlit("event");
    reveal_strlit("data");
    reveal_strlit("id");
    assert("event"@.len() == 5 && "data"@.len() == 4 && "id"@.len() == 2);
    let spaced = seq![' '] + value;
    assert(spaced.skip(1) =~= value);
    lemma_field("event"@, value);
    lemma_field("event"@, spaced);
    lemma_field("data"@, value);
    lemma_field("data"@, spaced);
    lemma_field("id"@, value);
    assert(("event"@.push(':') + value)[0] == 'e');
    assert(("event"@.push(':') + spaced)[0] == 'e');
    assert(("data"@.push(':') + value)[0] == 'd');
    assert(("data"@.push(':') + spaced)[0] == 'd');
}

proof fn lemma_first_break(line: Seq<u8>, b: u8, rest: Seq<u8>)
    requires
        is_break(b),
        forall|i: int| 0 <= i < line.len() ==> !is_break(#[trigger] line[i]),
    ensures
        break_index(line.push(b) + rest) == line.len(),
    decreases line.len(),
{
    let s = line.push(b) + rest;
    if line.len() == 0 {
        assert(s[0] == b);
    } else {
        let d = line.drop_first();
        assert(s[0] == line[0]);
        assert(s.drop_first() =~= d.push(b) + rest);
        assert forall|i: int| 0 <= i < d.len() implies !is_break(#[trigger] d[i]) by {
            assert(d[i] == line[i + 1]);
        }
        lemma_first_break(d, b, rest);
    }
}

proof fn lemma_no_break(s: Seq<u8>)
    requires
        forall|i: int| 0 <= i < s.len() ==> !is_break(#[trigger] s[i]),
    ensures
        break_index(s) == s.len(),
    decreases s.len(),
{
    if s.len() > 0 {
        let d = s.drop_first();
        assert forall|i: int| 0 <= i < d.len() implies !is_break(#[trigger] d[i]) by {
            assert(d[i] == s[i + 1]);
        }
        lemma_no_break(d);
    }
}

/// A line is taken as soon as a carriage return or a line feed ends it, without that
/// end, and what follows is taken next; bytes that end no line wait.
pub proof fn law_lines_are_cut(d: Decoded, line: Seq<u8>, b: u8, rest: Seq<u8>, said: Seq<char>)
    requires
        b == 10 || b == 13,
        forall|i: int| 0 <= i < line.len() ==> (#[trigger] line[i]) != 10 && line[i] != 13,
        utf8_lossy(line.push(b)) == said.push(b as char),
        said.len() > 0 ==> said.last() != '\r' && said.last() != '\n',
    ensures
        buffer_decoded(Decoded { buffer: line.push(b) + rest, ..d }) == buffer_decoded(
            line_taken(Decoded { buffer: rest, ..d }, said),
        ),
        buffer_decoded(Decoded { buffer: line, ..d }) == (Decoded { buffer: line, ..d }),
{
    lemma_first_break(line, b, rest);
    lemma_no_break(line);
    let whole = line.push(b) + rest;
    assert(whole.take(line.len() as int + 1) =~= line.push(b));
    assert(whole.skip(line.len() as int + 1) =~= rest);
    let text = said.push(b as char);
    assert(b == 10 ==> b as char == '\n');
    assert(b == 13 ==> b as char == '\r');
    assert(text.drop_last() =~= said);
    reveal_with_fuel(trimmed_breaks, 3);
    assert(trimmed_breaks(text) == said);
}

/// The lines of a text: no line holds an end of a line, and a text that is put
/// together around one has the lines of both halves.
pub proof fn law_lines_of_a_text(a: Seq<char>, c: char, b: Seq<char>)
    requires
        c == '\r' || c == '\n',
    ensures
        lines(a).len() > 0,
        lines(a.push(c) + b) == lines(a) + lines(b),
        (forall|i: int| 0 <= i < a.len() ==> (#[trigger] a[i]) != '\r' && a[i] != '\n') ==> lines(a)
            =~= seq![a],
    decreases a.len() + b.len(),
{
    if a.len() > 0 {
        law_lines_of_a_text(a.drop_last(), c, Seq::empty());
        if forall|i: int| 0 <= i < a.len() ==> (#[trigger] a[i]) != '\r' && a[i] != '\n' {
            let d = a.drop_last();
            assert forall|i: int| 0 <= i < d.len() implies (#[trigger] d[i]) != '\r' && d[i]
                != '\n' by {
                assert(d[i] == a[i]);
            }
            assert(lines(d) =~= seq![d]);
            assert(lines(d).drop_last() =~= Seq::<Seq<char>>::empty());
            assert(d.push(a.last()) =~= a);
            assert(a.last() == a[a.len() - 1]);
            assert(lines(a) =~= seq![a]);
        }
    } else {
        assert(a =~= Seq::<char>::empty());
        assert(Seq::<Seq<char>>::empty().push(Seq::<char>::empty()) =~= seq![a]);
    }
    let s = a.push(c) + b;
    if b.len() == 0 {
        assert(s =~= a.push(c));
        assert(s.drop_last() =~= a);
        assert(lines(b) =~= seq![Seq::<char>::empty()]);
        assert(lines(s) =~= lines(a) + lines(b));
    } else {
        law_lines_of_a_text(a, c, b.drop_last());
        assert(s.drop_last() =~= a.push(c) + b.drop_last());
        assert(s.last() == b.last());
        let before = lines(b.drop_last());
        lemma_lines_not_empty(b.drop_last());
        let both = lines(a) + before;
        assert(both.last() == before.last());
        assert(both.drop_last() =~= lines(a) + before.drop_last());
        assert(lines(s) =~= lines(a) + lines(b));
    }
}

proof fn lemma_lines_not_empty(s: Seq<char>)
    ensures
        lines(s).len() > 0,
    decreases s.len(),
{
    if s.len() > 0 {
        lemma_lines_not_empty(s.drop_last());
    }
}

/// The data of a Mistral event is what stands behind `data:` on its lines, in order
/// and without the blanks in front; other lines say nothing.
pub proof fn law_data_is_found(a: Seq<Seq<char>>, b: Seq<Seq<char>>, value: Seq<char>, other: Seq<char>)
    requires
        !"data:"@.is_prefix_of(other),
    ensures
        data_lines(a + b) == data_lines(a) + data_lines(b),
        data_lines(seq!["data:"@ + value]) == seq![trimmed_start(value)],
        data_lines(seq![other]).len() == 0,
    decreases b.len(),
{
    reveal_with_fuel(data_lines, 2);
    reveal_strlit("data:");
    let one = "data:"@ + value;
    assert(seq![one].drop_last() =~= Seq::<Seq<char>>::empty());
    assert(seq![other].drop_last() =~= Seq::<Seq<char>>::empty());
    assert(one.take(5) =~= "data:"@);
    assert("data:"@.is_prefix_of(one));
    assert(one.skip(5) =~= value);
    assert(data_lines(seq![one]) =~= seq![trimmed_start(value)]);
    if b.len() == 0 {
        assert(a + b =~= a);
        assert(data_lines(a) + data_lines(b) =~= data_lines(a));
    } else {
        law_data_is_found(a, b.drop_last(), value, other);
        assert((a + b).drop_last() =~= a + b.drop_last());
        assert((a + b).last() == b.last());
        assert(data_lines(a + b) =~= data_lines(a) + data_lines(b));
    }
}

/// An empty line ends a Mistral event, however its lines end: the event is what
/// stands before it, and what stands behind it comes next. A buffer without an empty
/// line waits.
pub proof fn law_events_are_cut(s: Seq<u8>, i: int)
    ensures
        0 <= i && i + 1 < s.len() && s[i] == 10 && s[i + 1] == 10 ==> boundary_len(s, i) == 2,
        0 <= i && i + 3 < s.len() && s[i] == 13 && s[i + 1] == 10 && s[i + 2] == 13 && s[i + 3]
            == 10 ==> boundary_len(s, i) == 4,
        0 <= i && i + 2 == s.len() && s[i] == 13 && s[i + 1] == 13 ==> boundary_len(s, i) == 2,
        0 <= i < s.len() && s[i] != 10 && s[i] != 13 ==> boundary_len(s, i) == 0,
        0 <= i < s.len() && i + 1 < s.len() && s[i + 1] != 10 && s[i + 1] != 13 ==> boundary_len(
            s,
            i,
        ) == 0,
        is_boundary(s, i) ==> framed(s).0.len() > 0 && framed(s).0[0] == utf8_lossy(s.take(i))
            && framed(s).0.skip(1) == framed(s.skip(i + boundary_len(s, i))).0 && framed(s).1
            == framed(s.skip(i + boundary_len(s, i))).1,
        (forall|j: int| 0 <= j < s.len() ==> boundary_len(s, j) == 0) ==> framed(s).0.len() == 0
            && framed(s).1 == s,
{
    if is_boundary(s, i) {
        let k = boundary_index(s);
        assert(has_boundary(s));
        assert(is_boundary(s, k));
        assert(k == i) by {
            if k < i {
                assert(boundary_len(s, k) == 0);
            }
            if i < k {
                assert(boundary_len(s, i) == 0);
            }
        }
        let rest = framed(after_boundary(s)).0;
        let first = Seq::<Seq<char>>::empty().push(utf8_lossy(s.take(i)));
        assert(framed(s).0 == first + rest);
        assert((first + rest).skip(1) =~= rest);
    }
    if forall|j: int| 0 <= j < s.len() ==> boundary_len(s, j) == 0 {
        if has_boundary(s) {
            let k = choose|k: int| is_boundary(s, k);
            assert(boundary_len(s, k) == 0);
        }
    }
}

proof fn lemma_run(s: Seq<char>, rest: Seq<char>)
    requires
        all_digits(s),
        rest.len() > 0 ==> !is_digit(rest[0]),
    ensures
        digit_run(s + rest) == s.len(),
    decreases s.len(),
{
    let all = s + rest;
    if s.len() > 0 {
        let d = s.drop_first();
        assert(all[0] == s[0]);
        assert(all.drop_first() =~= d + rest);
        assert forall|i: int| 0 <= i < d.len() implies is_digit(#[trigger] d[i]) by {
            assert(d[i] == s[i + 1]);
        }
        lemma_run(d, rest);
    } else {
        assert(all =~= rest);
    }
}

/// A number in digits is read as that number, where 32 bits hold it.
pub proof fn law_digits_are_read(n: nat, rest: Seq<char>)
    requires
        rest.len() > 0 ==> !is_digit(rest[0]),
    ensures
        n <= u32::MAX ==> u32_of(decimal(n)) == Some(n),
        n > u32::MAX ==> u32_of(decimal(n)) is None,
        u32_of(Seq::empty()) is None,
        rest.len() > 0 ==> u32_of(rest) is None,
        digit_run(decimal(n) + rest) == decimal(n).len(),
{
    lemma_decimal(n);
    lemma_run(decimal(n), rest);
    if rest.len() > 0 {
        assert(!is_digit(rest[0]));
    }
}

/// A model of Gemini is of the third generation or later where its number says so.
pub proof fn law_gemini_generations(n: nat, rest: Seq<char>)
    requires
        rest.len() > 0 ==> !is_digit(rest[0]),
        ascii_lower("gemini-"@ + decimal(n) + rest) == "gemini-"@ + decimal(n) + rest,
        n <= u32::MAX,
    ensures
        is_gemini3("gemini-"@ + decimal(n) + rest) <==> n >= 3,
{
    reveal_strlit("gemini-");
    reveal_strlit("gemini-live-");
    let id = "gemini-"@ + decimal(n) + rest;
    lemma_decimal(n);
    law_digits_are_read(n, rest);
    assert(id.take(7) =~= "gemini-"@);
    assert("gemini-"@.is_prefix_of(id));
    assert(id.skip(7) =~= decimal(n) + rest);
    assert(id[7] == decimal(n)[0]);
    assert(is_digit(decimal(n)[0]));
    if "gemini-live-"@.is_prefix_of(id) {
        assert("gemini-live-"@[7] == id[7]);
    }
    assert((decimal(n) + rest).take(decimal(n).len() as int) =~= decimal(n));
}

/// A segment of an address is a version where it is a `v` with a number behind it,
/// and never without the `v`.
pub proof fn law_versions(n: nat, segment: Seq<char>)
    ensures
        is_version("v"@ + decimal(n)),
        is_version("v"@ + decimal(n) + "beta"@),
        is_version("v"@ + decimal(n) + "beta"@ + decimal(n)),
        segment.len() > 0 && segment[0] != 'v' ==> !is_version(segment),
        segment.len() == 0 ==> !is_version(segment),
{
    reveal_strlit("v");
    reveal_strlit("beta");
    lemma_decimal(n);
    let a = "v"@ + decimal(n);
    lemma_run(decimal(n), Seq::empty());
    assert(decimal(n) + Seq::<char>::empty() =~= decimal(n));
    assert(a.take(1) =~= "v"@);
    assert("v"@.is_prefix_of(a));
    assert(a.skip(1) =~= decimal(n));
    let b = "v"@ + decimal(n) + "beta"@;
    lemma_run(decimal(n), "beta"@);
    assert(b.take(1) =~= "v"@);
    assert("v"@.is_prefix_of(b));
    assert(b.skip(1) =~= decimal(n) + "beta"@);
    assert((decimal(n) + "beta"@).skip(decimal(n).len() as int) =~= "beta"@);
    assert("beta"@.take(4) =~= "beta"@);
    assert("beta"@.is_prefix_of("beta"@));
    assert(all_digits("beta"@.skip(4)));
    let tail = "beta"@ + decimal(n);
    let c = "v"@ + decimal(n) + "beta"@ + decimal(n);
    lemma_run(decimal(n), tail);
    assert(c.take(1) =~= "v"@);
    assert("v"@.is_prefix_of(c));
    assert(c.skip(1) =~= decimal(n) + tail);
    assert((decimal(n) + tail).skip(decimal(n).len() as int) =~= tail);
    assert(tail.take(4) =~= "beta"@);
    assert("beta"@.is_prefix_of(tail));
    assert(tail.skip(4) =~= decimal(n));
    if "v"@.is_prefix_of(segment) {
        assert("v"@[0] == segment[0]);
    }
}

} // verus!
