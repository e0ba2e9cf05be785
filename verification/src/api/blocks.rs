//! Pieces of JSON that several interfaces share.
use vstd::prelude::*;
use crate::json::{new_entries, no_entries, object, put_str, EntriesSpec, Json, Value};
use crate::text::{cat4, is_alnum};

verus! {

/// A part of a message that holds text.
pub open spec fn text_part(text: Seq<char>) -> Json {
    Json::Object(no_entries().put("type"@, Json::Str("text"@)).put("text"@, Json::Str(text)))
}

pub fn make_text_part(text: &str) -> (r: Value)
    ensures
        r@ == text_part(text@),
{
    let mut e = new_entries();
    put_str(&mut e, "type", "text");
    put_str(&mut e, "text", text);
    object(e)
}

/// The address of an image that is carried in the address itself.
pub open spec fn data_url(mime_type: Seq<char>, data: Seq<char>) -> Seq<char> {
    "data:"@ + mime_type + ";base64,"@ + data
}

pub fn make_data_url(mime_type: &str, data: &str) -> (r: String)
    ensures
        r@ == data_url(mime_type@, data@),
{
    cat4("data:", mime_type, ";base64,", data)
}

/// A character that may stand in an identifier on every interface, or an
/// underscore in its place.
pub open spec fn safe_char(c: char) -> char {
    if is_alnum(c) || c == '_' || c == '-' {
        c
    } else {
        '_'
    }
}

/// A text with every character made safe for an identifier.
pub open spec fn safe_id(s: Seq<char>) -> Seq<char> {
    Seq::new(s.len(), |i: int| safe_char(s[i]))
}

pub fn make_safe_id(s: &str) -> (r: String)
    ensures
        r@ == safe_id(s@),
{
    let mut r = String::new();
    for c in it: s.chars()
        invariant
            it.seq() == s@,
            r@ == safe_id(s@.take(it.index() as int)),
    {
        if crate::text::char_is_alnum(c) || c == '_' || c == '-' {
            r.push(c);
        } else {
            r.push('_');
        }
        proof {
            assert(r@ =~= safe_id(s@.take(it.index() as int + 1)));
        }
    }
    proof {
        assert(s@.take(s@.len() as int) =~= s@);
    }
    r
}

} // verus!
