//! A short hash of a text.
use vstd::prelude::*;
use vstd::string::*;

verus! {

/// The code units of a text in UTF-16.
pub open spec fn code_units(s: Seq<char>) -> Seq<u32>
    decreases s.len(),
{
    if s.len() == 0 {
        Seq::empty()
    } else {
        let c = s.last() as u32;
        let before = code_units(s.drop_last());
        if c < 0x10000 {
            before.push(c)
        } else {
            before.push((0xd800 + (c - 0x10000) / 0x400) as u32).push(
                (0xdc00 + (c - 0x10000) % 0x400) as u32,
            )
        }
    }
}

/// One code unit taken into the two halves of the hash.
pub open spec fn mixed(h: (u32, u32), unit: u32) -> (u32, u32) {
    (
        (h.0 ^ unit).wrapping_mul(2654435761),
        (h.1 ^ unit).wrapping_mul(1597334677),
    )
}

/// The two halves of the hash once all code units are taken in.
pub open spec fn mixed_all(units: Seq<u32>) -> (u32, u32)
    decreases units.len(),
{
    if units.len() == 0 {
        (0xdeadbeef, 0x41c6ce57)
    } else {
        mixed(mixed_all(units.drop_last()), units.last())
    }
}

/// The last mixing of one half with the other.
pub open spec fn folded(a: u32, b: u32) -> u32 {
    (a ^ (a >> 16)).wrapping_mul(2246822507) ^ (b ^ (b >> 13)).wrapping_mul(3266489909)
}

pub open spec fn base36_digit(d: int) -> char {
    if d < 10 {
        ((d + 48) as u8) as char
    } else {
        ((d + 87) as u8) as char
    }
}

pub open spec fn base36(n: nat) -> Seq<char>
    decreases n,
{
    if n < 36 {
        Seq::<char>::empty().push(base36_digit(n as int))
    } else {
        base36(n / 36).push(base36_digit((n % 36) as int))
    }
}

/// The hash of a text: its two halves in base 36.
pub open spec fn hash_of(s: Seq<char>) -> Seq<char> {
    let (h1, h2) = mixed_all(code_units(s));
    let a = folded(h1, h2);
    let b = folded(h2, a);
    base36(b as nat) + base36(a as nat)
}

fn base36_text(n: u32) -> (r: String)
    ensures
        r@ == base36(n as nat),
    decreases n,
{
    let mut r = if n < 36 {
        String::new()
    } else {
        base36_text(n / 36)
    };
    let d: u8 = (n % 36) as u8;
    r.push(
        if d < 10 {
            (d + 48) as char
        } else {
            (d + 87) as char
        },
    );
    r
}

fn mix(h: (u32, u32), unit: u32) -> (r: (u32, u32))
    ensures
        r == mixed(h, unit),
{
    ((h.0 ^ unit).wrapping_mul(2654435761), (h.1 ^ unit).wrapping_mul(1597334677))
}

fn fold(a: u32, b: u32) -> (r: u32)
    ensures
        r == folded(a, b),
{
    (a ^ (a >> 16)).wrapping_mul(2246822507) ^ (b ^ (b >> 13)).wrapping_mul(3266489909)
}

pub fn short_hash(s: &str) -> (r: String)
    ensures
        r@ == hash_of(s@),
{
    let mut h: (u32, u32) = (0xdeadbeef, 0x41c6ce57);
    for c in it: s.chars()
        invariant
            it.seq() == s@,
            h == mixed_all(code_units(s@.take(it.index() as int))),
    {
        broadcast use vstd::utf8::char_u32_cast;

        let ghost before = code_units(s@.take(it.index() as int));
        let ghost next = s@.take(it.index() as int + 1);
        proof {
            assert(next.drop_last() =~= s@.take(it.index() as int));
            assert(next.last() == c);
        }
        let code: u32 = c as u32;
        if code < 0x10000 {
            h = mix(h, code);
            proof {
                assert(before.push(code).drop_last() =~= before);
            }
        } else {
            let high: u32 = 0xd800 + (code - 0x10000) / 0x400;
            let low: u32 = 0xdc00 + (code - 0x10000) % 0x400;
            h = mix(mix(h, high), low);
            proof {
                assert(before.push(high).drop_last() =~= before);
                assert(mixed_all(before.push(high)) == mixed(mixed_all(before), high));
                assert(before.push(high).push(low).drop_last() =~= before.push(high));
            }
        }
    }
    proof {
        assert(s@.take(s@.len() as int) =~= s@);
    }
    let a: u32 = fold(h.0, h.1);
    let b: u32 = fold(h.1, a);
    crate::text::cat2(base36_text(b).as_str(), base36_text(a).as_str())
}

} // verus!
