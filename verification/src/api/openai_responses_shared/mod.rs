//! What the adapters of the OpenAI Responses interface share: the items of a
//! request, and how messages and tools become such items.
pub mod convert;
pub mod items;

use vstd::prelude::*;
use vstd::string::*;
use crate::json::{
    as_object, get_number, get_str, is_parser, no_entries, number_at, opt_str_json, parse_with,
    parser_of, push_unicode_escape, str_at, unicode_escape, Entries, EntriesSpec, Json, Value,
};
use crate::number::{whole, Cost, Number};
use crate::spelling::{
    keys_differ, lemma_spells_concat, lemma_spells_entry, lemma_spells_more, lemma_spells_one,
    lemma_spells_record, lemma_spells_string, reads_records, spells_char, spells_entries,
    spells_entry, spells_record, spells_scalar, spells_text,
};
use crate::text::{cat3, cat5, decimal, opt_is, opt_str, opt_text, starts_with, borrow_opt};
use crate::types::Usage;

verus! {

// ---------------------------------------------------------------------------
// Text signatures
// ---------------------------------------------------------------------------

/// How a character stands inside a text signature.
pub open spec fn signature_char(c: char) -> Seq<char> {
    if c == '"' {
        "\\\""@
    } else if c == '\\' {
        "\\\\"@
    } else if (c as u32) < 0x20 {
        unicode_escape(c)
    } else {
        Seq::<char>::empty().push(c)
    }
}

/// How a text stands inside a text signature.
pub open spec fn signature_text(s: Seq<char>) -> Seq<char>
    decreases s.len(),
{
    if s.len() == 0 {
        Seq::empty()
    } else {
        signature_text(s.drop_last()) + signature_char(s.last())
    }
}

/// The signature of a text block: the id of the message and its phase.
pub open spec fn text_signature(id: Seq<char>, phase: Option<Seq<char>>) -> Seq<char> {
    match phase {
        Some(phase) => "{\"v\":1,\"id\":\""@ + signature_text(id) + "\",\"phase\":\""@
            + signature_text(phase) + "\"}"@,
        None => "{\"v\":1,\"id\":\""@ + signature_text(id) + "\"}"@,
    }
}

fn json_escape(s: &str) -> (r: String)
    ensures
        r@ == signature_text(s@),
{
    let mut r = String::new();
    for c in it: s.chars()
        invariant
            it.seq() == s@,
            r@ == signature_text(s@.take(it.index() as int)),
    {
        let ghost before = r@;
        if c == '"' {
            r.append("\\\"");
        } else if c == '\\' {
            r.append("\\\\");
        } else if (c as u32) < 0x20 {
            push_unicode_escape(&mut r, c);
        } else {
            r.push(c);
            proof {
                assert(r@ =~= before + Seq::<char>::empty().push(c));
            }
        }
        proof {
            let next = s@.take(it.index() as int + 1);
            assert(next.drop_last() =~= s@.take(it.index() as int));
            assert(next.last() == c);
        }
    }
    proof {
        assert(s@.take(s@.len() as int) =~= s@);
    }
    r
}

pub fn encode_text_signature_v1(id: &str, phase: Option<&str>) -> (r: String)
    ensures
        r@ == text_signature(id@, opt_str(phase)),
{
    match phase {
        Some(phase) => cat5(
            "{\"v\":1,\"id\":\"",
            json_escape(id).as_str(),
            "\",\"phase\":\"",
            json_escape(phase).as_str(),
            "\"}",
        ),
        None => cat3("{\"v\":1,\"id\":\"", json_escape(id).as_str(), "\"}"),
    }
}

/// What a text signature says: the id of the message and its phase. A signature
/// in any other form is an id.
pub open spec fn parsed_signature(
    signature: Option<Seq<char>>,
    parse: spec_fn(Seq<char>) -> Option<Json>,
) -> Option<(Seq<char>, Option<Seq<char>>)> {
    match signature {
        None => None,
        Some(signature) => match signed(signature, parse) {
            Some(found) => Some(found),
            None => Some((signature, None)),
        },
    }
}

/// A phase that is known.
pub open spec fn known_phase(phase: Option<Seq<char>>) -> Option<Seq<char>> {
    if phase == Some("commentary"@) || phase == Some("final_answer"@) {
        phase
    } else {
        None
    }
}

/// What a signature in its first version says.
pub open spec fn signed(signature: Seq<char>, parse: spec_fn(Seq<char>) -> Option<Json>) -> Option<
    (Seq<char>, Option<Seq<char>>),
> {
    if !"{"@.is_prefix_of(signature) {
        None
    } else {
        match parse(signature) {
            Some(json) => match as_object(json) {
                Some(e) => if number_at(e, "v"@) == Some(whole(1)) && str_at(e, "id"@) is Some {
                    Some((str_at(e, "id"@)->0, known_phase(str_at(e, "phase"@))))
                } else {
                    None
                },
                None => None,
            },
            None => None,
        }
    }
}

fn parse_signed<P: Fn(&str) -> Option<Value>>(signature: &str, parse: &P) -> (r: Option<
    (String, Option<String>),
>)
    requires
        is_parser(*parse),
    ensures
        opt_signed(r) == signed(signature@, parser_of(*parse)),
{
    if !starts_with(signature, "{") {
        return None;
    }
    let json = match parse_with(parse, signature) {
        Some(json) => json,
        None => {
            return None;
        },
    };
    let e = match json.as_object() {
        Some(e) => e,
        None => {
            return None;
        },
    };
    let version = match get_number(e, "v") {
        Some(version) => version.eq(Number::from_int(1)),
        None => false,
    };
    if !version {
        return None;
    }
    match get_str(e, "id") {
        Some(id) => {
            let phase = get_str(e, "phase");
            if opt_is(borrow_opt(&phase), "commentary") || opt_is(
                borrow_opt(&phase),
                "final_answer",
            ) {
                Some((id, phase))
            } else {
                Some((id, None))
            }
        },
        None => None,
    }
}

pub open spec fn opt_signed(r: Option<(String, Option<String>)>) -> Option<
    (Seq<char>, Option<Seq<char>>),
> {
    match r {
        Some((id, phase)) => Some((id@, opt_text(phase))),
        None => None,
    }
}

pub fn parse_text_signature<P: Fn(&str) -> Option<Value>>(
    signature: Option<&str>,
    parse: &P,
) -> (r: Option<(String, Option<String>)>)
    requires
        is_parser(*parse),
    ensures
        opt_signed(r) == parsed_signature(opt_str(signature), parser_of(*parse)),
{
    match signature {
        None => None,
        Some(signature) => match parse_signed(signature, parse) {
            Some(found) => Some(found),
            None => Some((signature.to_owned(), None)),
        },
    }
}

proof fn lemma_signature_text(s: Seq<char>)
    ensures
        spells_text(signature_text(s), s),
    decreases s.len(),
{
    if s.len() > 0 {
        let c = s.last();
        lemma_signature_text(s.drop_last());
        assert(spells_char(signature_char(c), c));
        lemma_spells_one(signature_char(c), c);
        lemma_spells_concat(
            signature_text(s.drop_last()),
            s.drop_last(),
            signature_char(c),
            Seq::<char>::empty().push(c),
        );
        assert(s =~= s.drop_last() + Seq::<char>::empty().push(c));
    }
}

/// The entries of a text signature.
pub open spec fn signature_entries(id: Seq<char>, phase: Option<Seq<char>>) -> Entries {
    no_entries().put("v"@, Json::Number(whole(1))).put("id"@, Json::Str(id)).put_opt(
        "phase"@,
        opt_str_json(phase),
    )
}

proof fn lemma_string_entry(key: Seq<char>, s: Seq<char>)
    requires
        signature_text(key) == key,
    ensures
        spells_entry(
            "\""@ + key + "\""@ + ":"@ + ("\""@ + signature_text(s) + "\""@),
            key,
            Json::Str(s),
        ),
{
    lemma_signature_text(key);
    lemma_spells_string(key, key);
    lemma_signature_text(s);
    lemma_spells_string(signature_text(s), s);
    lemma_spells_entry(
        "\""@ + key + "\""@,
        key,
        "\""@ + signature_text(s) + "\""@,
        Json::Str(s),
    );
}

proof fn lemma_plain_keys()
    ensures
        signature_text("v"@) == "v"@,
        signature_text("id"@) == "id"@,
        signature_text("phase"@) == "phase"@,
{
    reveal_strlit("v");
    reveal_strlit("id");
    reveal_strlit("phase");
    reveal_with_fuel(signature_text, 6);
    assert(signature_text("v"@) =~= "v"@);
    assert(signature_text("id"@) =~= "id"@);
    assert(signature_text("phase"@) =~= "phase"@);
}

spec fn string_entry(key: Seq<char>, text: Seq<char>) -> Seq<char> {
    "\""@ + key + "\""@ + ":"@ + ("\""@ + text + "\""@)
}

spec fn version_entry() -> Seq<char> {
    "\""@ + "v"@ + "\""@ + ":"@ + decimal(1)
}

proof fn lemma_signature_parts(id: Seq<char>, phase: Seq<char>)
    ensures
        "{\"v\":1,\"id\":\""@ + id + "\"}"@ == "{"@ + (version_entry() + ","@ + string_entry(
            "id"@,
            id,
        )) + "}"@,
        "{\"v\":1,\"id\":\""@ + id + "\",\"phase\":\""@ + phase + "\"}"@ == "{"@ + (
        version_entry() + ","@ + string_entry("id"@, id) + ","@ + string_entry("phase"@, phase))
            + "}"@,
{
    reveal_strlit("\"");
    reveal_strlit(":");
    reveal_strlit(",");
    reveal_strlit("{");
    reveal_strlit("}");
    reveal_strlit("v");
    reveal_strlit("id");
    reveal_strlit("phase");
    reveal_strlit("{\"v\":1,\"id\":\"");
    reveal_strlit("\",\"phase\":\"");
    reveal_strlit("\"}");
    let begin = "{\"v\":1,\"id\":\""@;
    let middle = "\",\"phase\":\""@;
    let end = "\"}"@;
    assert(begin =~= "{"@ + version_entry() + ","@ + "\""@ + "id"@ + "\""@ + ":"@ + "\""@);
    assert(middle =~= "\""@ + ","@ + "\""@ + "phase"@ + "\""@ + ":"@ + "\""@);
    assert(end =~= "\""@ + "}"@);
    assert(begin + id + end =~= "{"@ + (version_entry() + ","@ + string_entry("id"@, id)) + "}"@);
    assert(begin + id + middle + phase + end =~= "{"@ + (version_entry() + ","@ + string_entry(
        "id"@,
        id,
    ) + ","@ + string_entry("phase"@, phase)) + "}"@);
}

proof fn lemma_keys_differ(id: Seq<char>, phase: Option<Seq<char>>)
    ensures
        keys_differ(signature_entries(id, phase)),
{
    reveal_strlit("v");
    reveal_strlit("id");
    reveal_strlit("phase");
    assert("v"@.len() == 1 && "id"@.len() == 2 && "phase"@.len() == 5);
}

/// A text signature is the JSON text of an object with the version, the id and
/// the phase.
pub proof fn law_signature_is_a_record(id: Seq<char>, phase: Option<Seq<char>>)
    ensures
        spells_record(text_signature(id, phase), signature_entries(id, phase)),
{
    let first = no_entries().put("v"@, Json::Number(whole(1)));
    let name = string_entry("id"@, signature_text(id));
    lemma_plain_keys();
    lemma_keys_differ(id, phase);
    lemma_signature_text("v"@);
    lemma_spells_string("v"@, "v"@);
    assert(spells_scalar(decimal(1), Json::Number(whole(1))));
    lemma_spells_entry("\""@ + "v"@ + "\""@, "v"@, decimal(1), Json::Number(whole(1)));
    assert(spells_entries(version_entry(), first));
    lemma_string_entry("id"@, id);
    lemma_spells_more(version_entry(), first, name, "id"@, Json::Str(id));
    let both = version_entry() + ","@ + name;
    let two = first.put("id"@, Json::Str(id));
    match phase {
        None => {
            lemma_signature_parts(signature_text(id), Seq::empty());
            assert(signature_entries(id, phase) == two);
            lemma_spells_record(both, two);
        },
        Some(p) => {
            let last = string_entry("phase"@, signature_text(p));
            lemma_signature_parts(signature_text(id), signature_text(p));
            lemma_string_entry("phase"@, p);
            lemma_spells_more(both, two, last, "phase"@, Json::Str(p));
            let three = two.put("phase"@, Json::Str(p));
            assert(signature_entries(id, phase) == three);
            lemma_spells_record(both + ","@ + last, three);
        },
    }
}

/// A text signature gives back the id that it was made of, whatever it is, and
/// the phase where it is a known one, with every parser that reads JSON.
pub proof fn law_signature_reads_back(
    id: Seq<char>,
    phase: Option<Seq<char>>,
    parse: spec_fn(Seq<char>) -> Option<Json>,
)
    requires
        reads_records(parse),
    ensures
        parsed_signature(Some(text_signature(id, phase)), parse) == Some(
            (id, known_phase(phase)),
        ),
{
    let e = signature_entries(id, phase);
    let signature = text_signature(id, phase);
    law_signature_is_a_record(id, phase);
    reveal_strlit("{");
    reveal_strlit("{\"v\":1,\"id\":\"");
    reveal_strlit("v");
    reveal_strlit("id");
    reveal_strlit("phase");
    assert(signature[0] == '{');
    assert("{"@ =~= signature.take(1));
    assert("v"@.len() == 1 && "id"@.len() == 2 && "phase"@.len() == 5);
    crate::json::lemma_key_index_is(e, "v"@, 0);
    crate::json::lemma_key_index_is(e, "id"@, 1);
    crate::json::lemma_key_index_is(e, "phase"@, 2);
    assert(str_at(e, "id"@) == Some(id));
    assert(str_at(e, "phase"@) == phase);
}

/// What a reply cost in all.
pub fn calculate_usage_cost(usage: &Usage) -> (r: Cost)
    ensures
        r == usage.cost.total,
{
    usage.cost.total
}

} // verus!
