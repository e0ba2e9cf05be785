//! The account that a token belongs to.
use vstd::prelude::*;
use vstd::string::*;
use vstd::utf8::*;
use crate::api::constrained_sampling::res_text;
use crate::json::{
    as_object, get_object, get_str, is_parser, object_at, parse_with, parser_of, str_at, Json,
    Value,
};
use crate::text::{from_utf8_lossy, split, split_on, texts, to_chars, utf8_lossy};

verus! {

// ---------------------------------------------------------------------------
// Base64
// ---------------------------------------------------------------------------

/// The six bits that a character stands for, in the plain alphabet or in the one
/// for addresses.
pub open spec fn sextet(c: char) -> Option<u8> {
    if 'A' <= c && c <= 'Z' {
        Some((c as u32 - 65) as u8)
    } else if 'a' <= c && c <= 'z' {
        Some((c as u32 - 71) as u8)
    } else if '0' <= c && c <= '9' {
        Some((c as u32 + 4) as u8)
    } else if c == '+' || c == '-' {
        Some(62u8)
    } else if c == '/' || c == '_' {
        Some(63u8)
    } else {
        None
    }
}

fn read_sextet(c: char) -> (r: Option<u8>)
    ensures
        r == sextet(c),
        r matches Some(v) ==> v < 64,
{
    if 'A' <= c && c <= 'Z' {
        Some((c as u32 - 65) as u8)
    } else if 'a' <= c && c <= 'z' {
        Some((c as u32 - 71) as u8)
    } else if '0' <= c && c <= '9' {
        Some((c as u32 + 4) as u8)
    } else if c == '+' || c == '-' {
        Some(62u8)
    } else if c == '/' || c == '_' {
        Some(63u8)
    } else {
        None
    }
}

/// The groups of six bits in a text without its padding, or nothing where some
/// character stands for none.
pub open spec fn sextets(s: Seq<char>) -> Option<Seq<u8>>
    decreases s.len(),
{
    if s.len() == 0 {
        Some(Seq::empty())
    } else {
        match sextets(s.drop_last()) {
            Some(before) => if s.last() == '=' {
                Some(before)
            } else {
                match sextet(s.last()) {
                    Some(v) => Some(before.push(v)),
                    None => None,
                }
            },
            None => None,
        }
    }
}

/// The bytes that groups of six bits hold; bits that fill no byte are dropped.
pub open spec fn bytes_of(v: Seq<u8>) -> Seq<u8>
    decreases v.len(),
{
    if v.len() < 2 {
        Seq::empty()
    } else {
        let first = Seq::<u8>::empty().push((v[0] * 4 + v[1] / 16) as u8);
        if v.len() == 2 {
            first
        } else {
            let second = first.push(((v[1] % 16) * 16 + v[2] / 4) as u8);
            if v.len() == 3 {
                second
            } else {
                second.push(((v[2] % 4) * 64 + v[3]) as u8) + bytes_of(v.skip(4))
            }
        }
    }
}

/// The bytes of a base64 text, or nothing where it is none.
pub open spec fn base64_bytes(s: Seq<char>) -> Option<Seq<u8>> {
    match sextets(s) {
        Some(v) => if v.len() % 4 == 1 {
            None
        } else {
            Some(bytes_of(v))
        },
        None => None,
    }
}

/// What optional bytes hold.
pub open spec fn opt_bytes(b: Option<Vec<u8>>) -> Option<Seq<u8>> {
    match b {
        Some(b) => Some(b@),
        None => None,
    }
}

proof fn lemma_sextets_fail(s: Seq<char>, i: int)
    requires
        0 <= i <= s.len(),
        sextets(s.take(i)) is None,
    ensures
        sextets(s) is None,
    decreases s.len() - i,
{
    if i == s.len() {
        assert(s.take(i) =~= s);
    } else {
        assert(s.take(i + 1).drop_last() =~= s.take(i));
        lemma_sextets_fail(s, i + 1);
    }
}

fn read_sextets(s: &str) -> (r: Option<Vec<u8>>)
    ensures
        opt_bytes(r) == sextets(s@),
        r matches Some(v) ==> forall|i: int| 0 <= i < v@.len() ==> v@[i] < 64,
{
    let cs = to_chars(s);
    let mut v: Vec<u8> = Vec::new();
    let mut i: usize = 0;
    proof {
        assert(v@ =~= Seq::<u8>::empty());
        assert(s@.take(0) =~= Seq::<char>::empty());
    }
    while i < cs.len()
        invariant
            i <= cs@.len(),
            cs@ == s@,
            sextets(s@.take(i as int)) == Some(v@),
            forall|k: int| 0 <= k < v@.len() ==> v@[k] < 64,
        decreases cs.len() - i,
    {
        let c = cs[i];
        proof {
            assert(s@.take(i + 1).drop_last() =~= s@.take(i as int));
            assert(s@.take(i + 1).last() == c);
        }
        if c != '=' {
            match read_sextet(c) {
                Some(value) => v.push(value),
                None => {
                    proof {
                        lemma_sextets_fail(s@, i + 1);
                    }
                    return None;
                },
            }
        }
        i += 1;
    }
    proof {
        assert(s@.take(s@.len() as int) =~= s@);
    }
    Some(v)
}

/// A text without its padding.
pub open spec fn unpadded(s: Seq<char>) -> Seq<char>
    decreases s.len(),
{
    if s.len() == 0 {
        Seq::empty()
    } else if s.last() == '=' {
        unpadded(s.drop_last())
    } else {
        unpadded(s.drop_last()).push(s.last())
    }
}

/// Why a text is no base64: a length that no bytes have, else a character.
pub open spec fn base64_fault(s: Seq<char>) -> Seq<char> {
    if encode_utf8(unpadded(s)).len() as usize % 4 == 1 {
        "invalid base64 length"@
    } else {
        "invalid base64 character"@
    }
}

/// The bytes of a base64 text, or why it is none.
pub open spec fn base64_result(s: Seq<char>) -> Result<Seq<u8>, Seq<char>> {
    match base64_bytes(s) {
        Some(bytes) => Ok(bytes),
        None => Err(base64_fault(s)),
    }
}

/// What a result of bytes holds.
pub open spec fn res_bytes(r: Result<Vec<u8>, String>) -> Result<Seq<u8>, Seq<char>> {
    match r {
        Ok(bytes) => Ok(bytes@),
        Err(e) => Err(e@),
    }
}

fn find_fault(s: &str) -> (r: String)
    ensures
        r@ == base64_fault(s@),
{
    let cs = to_chars(s);
    let mut rest = String::new();
    let mut i: usize = 0;
    proof {
        assert(s@.take(0) =~= Seq::<char>::empty());
    }
    while i < cs.len()
        invariant
            i <= cs@.len(),
            cs@ == s@,
            rest@ == unpadded(s@.take(i as int)),
        decreases cs.len() - i,
    {
        proof {
            assert(s@.take(i + 1).drop_last() =~= s@.take(i as int));
            assert(s@.take(i + 1).last() == cs@[i as int]);
        }
        if cs[i] != '=' {
            rest.push(cs[i]);
        }
        i += 1;
    }
    proof {
        assert(s@.take(s@.len() as int) =~= s@);
    }
    if rest.as_str().len() % 4 == 1 {
        "invalid base64 length".to_owned()
    } else {
        "invalid base64 character".to_owned()
    }
}

/// Decodes base64 text in either alphabet, with or without padding.
pub fn base64url_decode(input: &str) -> (r: Result<Vec<u8>, String>)
    ensures
        res_bytes(r) == base64_result(input@),
{
    let v = match read_sextets(input) {
        Some(v) => v,
        None => {
            return Err(find_fault(input));
        },
    };
    if v.len() % 4 == 1 {
        return Err(find_fault(input));
    }
    let mut out: Vec<u8> = Vec::new();
    let mut i: usize = 0;
    let n: usize = v.len();
    proof {
        assert(v@.skip(0) =~= v@);
        assert(Seq::<u8>::empty() + bytes_of(v@) =~= bytes_of(v@));
        assert(out@ =~= Seq::<u8>::empty());
    }
    while n - i >= 4
        invariant
            i <= n,
            n == v@.len(),
            n % 4 != 1,
            i % 4 == 0,
            forall|k: int| 0 <= k < v@.len() ==> v@[k] < 64,
            bytes_of(v@) == out@ + bytes_of(v@.skip(i as int)),
        decreases n - i,
    {
        let (a, b, c, d): (u8, u8, u8, u8) = (v[i], v[i + 1], v[i + 2], v[i + 3]);
        let ghost before = out@;
        let ghost rest = v@.skip(i as int);
        out.push(a * 4 + b / 16);
        out.push((b % 16) * 16 + c / 4);
        out.push((c % 4) * 64 + d);
        proof {
            assert(rest.skip(4) =~= v@.skip(i + 4));
            assert(out@ + bytes_of(v@.skip(i + 4)) =~= before + bytes_of(rest));
        }
        i += 4;
    }
    let ghost rest = v@.skip(i as int);
    let ghost before = out@;
    if n - i >= 2 {
        out.push(v[i] * 4 + v[i + 1] / 16);
        if n - i == 3 {
            out.push((v[i + 1] % 16) * 16 + v[i + 2] / 4);
        }
    }
    proof {
        assert(out@ =~= before + bytes_of(rest));
    }
    Ok(out)
}

// ---------------------------------------------------------------------------
// Tokens
// ---------------------------------------------------------------------------

/// The account that the payload of a token names.
pub open spec fn payload_account(payload: Option<Json>) -> Option<Seq<char>> {
    match payload {
        Some(payload) => match as_object(payload) {
            Some(e) => match object_at(e, "https://api.openai.com/auth"@) {
                Some(auth) => match str_at(auth, "chatgpt_account_id"@) {
                    Some(id) => if id.len() > 0 {
                        Some(id)
                    } else {
                        None
                    },
                    None => None,
                },
                None => None,
            },
            None => None,
        },
        None => None,
    }
}

/// The account of a token: the second of its three parts, decoded and parsed,
/// names it.
pub open spec fn account_of(token: Seq<char>, parse: spec_fn(Seq<char>) -> Option<Json>) -> Result<
    Seq<char>,
    Seq<char>,
> {
    let parts = split_on(token, '.');
    let account = if parts.len() == 3 {
        match base64_bytes(parts[1]) {
            Some(bytes) => payload_account(parse(utf8_lossy(bytes))),
            None => None,
        }
    } else {
        None
    };
    match account {
        Some(id) => Ok(id),
        None => Err("Failed to extract accountId from token"@),
    }
}

/// The account that the payload of a token names.
pub fn account_in_payload(payload: &Value) -> (r: Option<String>)
    ensures
        crate::text::opt_text(r) == payload_account(Some(payload@)),
{
    match payload.as_object() {
        Some(e) => match get_object(e, "https://api.openai.com/auth") {
            Some(auth) => match get_str(auth, "chatgpt_account_id") {
                Some(id) => if id.as_str().is_empty() {
                    None
                } else {
                    Some(id)
                },
                None => None,
            },
            None => None,
        },
        None => None,
    }
}

/// The account of a token.
pub fn extract_account_id<P: Fn(&str) -> Option<Value>>(token: &str, parse: &P) -> (r: Result<
    String,
    String,
>)
    requires
        is_parser(*parse),
    ensures
        res_text(r) == account_of(token@, parser_of(*parse)),
{
    let parts = split(token, '.');
    proof {
        assert(texts(parts@).len() == parts@.len());
    }
    if parts.len() == 3 {
        assert(texts(parts@)[1] == parts@[1]@);
        if let Ok(bytes) = base64url_decode(parts[1].as_str()) {
            let text = from_utf8_lossy(bytes.as_slice());
            if let Some(payload) = parse_with(parse, text.as_str()) {
                if let Some(id) = account_in_payload(&payload) {
                    return Ok(id);
                }
            }
        }
    }
    Err("Failed to extract accountId from token".to_owned())
}

// ---------------------------------------------------------------------------
// Laws
// ---------------------------------------------------------------------------

/// The character that stands for six bits, in the alphabet for addresses.
pub open spec fn sextet_char(v: u8) -> char {
    if v < 26 {
        ((v + 65) as u8) as char
    } else if v < 52 {
        ((v + 71) as u8) as char
    } else if v < 62 {
        ((v - 4) as u8) as char
    } else if v == 62 {
        '-'
    } else {
        '_'
    }
}

/// Bytes in groups of six bits.
pub open spec fn sextets_of(b: Seq<u8>) -> Seq<u8>
    decreases b.len(),
{
    if b.len() == 0 {
        Seq::empty()
    } else {
        let first = Seq::<u8>::empty().push(b[0] / 4);
        if b.len() == 1 {
            first.push(((b[0] % 4) * 16) as u8)
        } else {
            let second = first.push(((b[0] % 4) * 16 + b[1] / 16) as u8);
            if b.len() == 2 {
                second.push(((b[1] % 16) * 4) as u8)
            } else {
                second.push(((b[1] % 16) * 4 + b[2] / 64) as u8).push(b[2] % 64) + sextets_of(
                    b.skip(3),
                )
            }
        }
    }
}

/// Bytes as base64 text without padding.
pub open spec fn base64_text(b: Seq<u8>) -> Seq<char> {
    Seq::new(sextets_of(b).len(), |i: int| sextet_char(sextets_of(b)[i]))
}

proof fn lemma_sextets_of(b: Seq<u8>)
    ensures
        forall|i: int| 0 <= i < sextets_of(b).len() ==> (#[trigger] sextets_of(b)[i]) < 64,
        sextets_of(b).len() % 4 != 1,
        bytes_of(sextets_of(b)) == b,
    decreases b.len(),
{
    let v = sextets_of(b);
    if b.len() == 0 {
        assert(bytes_of(v) =~= b);
    } else if b.len() == 1 {
        assert(bytes_of(v) =~= b);
    } else if b.len() == 2 {
        assert(bytes_of(v) =~= b);
    } else {
        let rest = b.skip(3);
        lemma_sextets_of(rest);
        assert(v.skip(4) =~= sextets_of(rest));
        assert forall|i: int| 0 <= i < v.len() implies (#[trigger] v[i]) < 64 by {
            if i >= 4 {
                assert(v[i] == sextets_of(rest)[i - 4]);
            }
        }
        assert(bytes_of(v) =~= b) by {
            assert(bytes_of(v).skip(3) =~= bytes_of(sextets_of(rest)));
            assert(b =~= Seq::<u8>::empty().push(b[0]).push(b[1]).push(b[2]) + rest);
        }
    }
}

proof fn lemma_sextet_chars(v: Seq<u8>, n: int)
    requires
        0 <= n <= v.len(),
        forall|i: int| 0 <= i < v.len() ==> v[i] < 64,
    ensures
        sextets(Seq::new(n as nat, |i: int| sextet_char(v[i]))) == Some(v.take(n)),
    decreases n,
{
    let s = Seq::new(n as nat, |i: int| sextet_char(v[i]));
    if n == 0 {
        assert(v.take(0) =~= Seq::<u8>::empty());
    } else {
        lemma_sextet_chars(v, n - 1);
        assert(s.drop_last() =~= Seq::new((n - 1) as nat, |i: int| sextet_char(v[i])));
        let last = v[n - 1];
        assert(last < 64);
        assert(s.last() == sextet_char(last));
        assert(sextet(sextet_char(last)) == Some(last) && sextet_char(last) != '=');
        assert(v.take(n) =~= v.take(n - 1).push(last));
    }
}

/// Decoding gives back the bytes that were encoded.
pub proof fn law_base64_reads_back(b: Seq<u8>)
    ensures
        base64_bytes(base64_text(b)) == Some(b),
{
    let v = sextets_of(b);
    lemma_sextets_of(b);
    lemma_sextet_chars(v, v.len() as int);
    assert(v.take(v.len() as int) =~= v);
    assert(base64_text(b) =~= Seq::new(v.len(), |i: int| sextet_char(v[i])));
}

/// Padding says nothing.
pub proof fn law_padding_says_nothing(s: Seq<char>)
    ensures
        base64_bytes(s.push('=')) == base64_bytes(s),
{
    assert(s.push('=').drop_last() =~= s);
}

} // verus!
