//! Decimal numbers, as they stand in requests, responses and token counts.
use vstd::prelude::*;
use vstd::string::*;
use crate::text::{decimal, decimal_text, digit_char, trim_end_of, trimmed_end_of};

verus! {

/// The number of nanos in one.
pub const ONE: i128 = 1_000_000_000;

/// A decimal number, counted in billionths.
#[derive(Clone, Copy, Debug, PartialEq, Eq, Structural)]
pub struct Number {
    pub nanos: i128,
}

/// A cost. It is counted in what one billionth of a unit costs at a rate of one
/// billionth for a million units, so that a price is never rounded.
#[derive(Clone, Copy, Debug, PartialEq, Eq, Structural)]
pub struct Cost {
    pub parts: i128,
}

/// The representable count next to `n`.
pub open spec fn clamped(n: int) -> i128 {
    if n > i128::MAX {
        i128::MAX
    } else if n < i128::MIN {
        i128::MIN
    } else {
        n as i128
    }
}

pub open spec fn saturated(n: int) -> Number {
    Number { nanos: clamped(n) }
}

pub open spec fn whole(n: int) -> Number {
    saturated(n * ONE)
}

pub open spec fn sum(a: Number, b: Number) -> Number {
    saturated(a.nanos + b.nanos)
}

pub open spec fn difference(a: Number, b: Number) -> Number {
    saturated(a.nanos - b.nanos)
}

pub open spec fn greater(a: Number, b: Number) -> Number {
    if a.nanos >= b.nanos {
        a
    } else {
        b
    }
}

pub open spec fn lesser(a: Number, b: Number) -> Number {
    if a.nanos <= b.nanos {
        a
    } else {
        b
    }
}

/// A thousand times a number.
pub open spec fn thousandfold(n: Number) -> Number {
    saturated(n.nanos * 1000)
}

/// The price of a number of units at a rate for a million of them. One that is
/// too great or too small to be represented stands at the nearest that can.
pub open spec fn price(rate: Number, units: Number) -> Cost {
    Cost { parts: clamped(rate.nanos * units.nanos) }
}

pub open spec fn free() -> Cost {
    Cost { parts: 0 }
}

pub open spec fn total(a: Cost, b: Cost) -> Cost {
    Cost { parts: clamped(a.parts + b.parts) }
}

/// A number of halves of a cost, down to the part.
pub open spec fn in_halves(c: Cost, halves: nat) -> Cost {
    Cost { parts: clamped(c.parts * halves / 2) }
}

/// `a` less `b`, but never below zero.
pub open spec fn excess(a: Number, b: Number) -> Number {
    greater(difference(a, b), whole(0))
}

/// The whole part of a number, held between zero and the greatest `u64`.
pub open spec fn index_value(n: Number) -> u64 {
    if n.nanos <= 0 {
        0
    } else if n.nanos as int / ONE as int > u64::MAX {
        u64::MAX
    } else {
        (n.nanos as int / ONE as int) as u64
    }
}

/// The last `k` decimal digits of `f`.
pub open spec fn fraction_digits(f: nat, k: nat) -> Seq<char>
    decreases k,
{
    if k == 0 {
        Seq::empty()
    } else {
        fraction_digits(f / 10, (k - 1) as nat).push(digit_char((f % 10) as int))
    }
}

/// A number as decimal text: no exponent, no superfluous zeros.
pub open spec fn number_text(n: Number) -> Seq<char> {
    let size: nat = (if n.nanos < 0 {
        -n.nanos
    } else {
        n.nanos as int
    }) as nat;
    let sign = if n.nanos < 0 {
        "-"@
    } else {
        ""@
    };
    let integer = decimal(size / ONE as nat);
    let fraction = if size % ONE as nat == 0 {
        ""@
    } else {
        "."@ + trimmed_end_of(fraction_digits(size % ONE as nat, 9), '0')
    };
    sign + integer + fraction
}

impl Number {
    pub fn zero() -> (r: Number)
        ensures
            r == whole(0),
    {
        Number { nanos: 0 }
    }

    /// The number that an integer is.
    pub fn from_int(n: i64) -> (r: Number)
        ensures
            r == whole(n as int),
    {
        Number { nanos: n as i128 * ONE }
    }

    /// The number that a length is.
    pub fn from_len(n: usize) -> (r: Number)
        ensures
            r == whole(n as int),
    {
        Number { nanos: n as i128 * ONE }
    }

    /// The number that an unsigned integer is.
    pub fn from_u64(n: u64) -> (r: Number)
        ensures
            r == whole(n as int),
    {
        Number { nanos: n as i128 * ONE }
    }

    /// A thousand times the number.
    pub fn thousandfold(self) -> (r: Number)
        ensures
            r == thousandfold(self),
    {
        if self.nanos > i128::MAX / 1000 {
            Number { nanos: i128::MAX }
        } else if self.nanos < -(i128::MAX / 1000) {
            proof {
                assert(self.nanos * 1000 <= i128::MIN);
            }
            Number { nanos: i128::MIN }
        } else {
            Number { nanos: self.nanos * 1000 }
        }
    }

    /// The price of a number of units at this rate for a million of them.
    pub fn price_of(self, units: Number) -> (r: Cost)
        ensures
            r == price(self, units),
    {
        let parts: i128 = match self.nanos.checked_mul(units.nanos) {
            Some(product) => product,
            None => {
                if (self.nanos > 0) == (units.nanos > 0) {
                    proof {
                        lemma_product_sign(self.nanos as int, units.nanos as int);
                    }
                    i128::MAX
                } else {
                    proof {
                        lemma_product_sign(self.nanos as int, units.nanos as int);
                    }
                    i128::MIN
                }
            },
        };
        Cost { parts }
    }

    pub fn plus(self, other: Number) -> (r: Number)
        ensures
            r == sum(self, other),
    {
        Number { nanos: add_clamped(self.nanos, other.nanos) }
    }

    pub fn minus(self, other: Number) -> (r: Number)
        ensures
            r == difference(self, other),
    {
        match self.nanos.checked_sub(other.nanos) {
            Some(nanos) => Number { nanos },
            None => if other.nanos < 0 {
                Number { nanos: i128::MAX }
            } else {
                Number { nanos: i128::MIN }
            },
        }
    }

    pub fn max(self, other: Number) -> (r: Number)
        ensures
            r == greater(self, other),
    {
        if self.nanos >= other.nanos {
            self
        } else {
            other
        }
    }

    pub fn min(self, other: Number) -> (r: Number)
        ensures
            r == lesser(self, other),
    {
        if self.nanos <= other.nanos {
            self
        } else {
            other
        }
    }

    /// What is left of a count after another is taken away, zero at least.
    pub fn less(self, other: Number) -> (r: Number)
        ensures
            r == excess(self, other),
    {
        self.minus(other).max(Number::zero())
    }

    pub fn eq(self, other: Number) -> (r: bool)
        ensures
            r == (self == other),
    {
        self.nanos == other.nanos
    }

    /// The number as a position in a list.
    pub fn index(self) -> (r: u64)
        ensures
            r == index_value(self),
    {
        if self.nanos <= 0 {
            0
        } else {
            let q: i128 = self.nanos / ONE;
            if q > u64::MAX as i128 {
                u64::MAX
            } else {
                q as u64
            }
        }
    }

    pub fn text(self) -> (r: String)
        ensures
            r@ == number_text(self),
    {
        let size: u128 = if self.nanos < 0 {
            (-(self.nanos + 1)) as u128 + 1
        } else {
            self.nanos as u128
        };
        let mut r = if self.nanos < 0 {
            "-".to_owned()
        } else {
            "".to_owned()
        };
        r.append(decimal_text(size / 1_000_000_000).as_str());
        let f: u128 = size % 1_000_000_000;
        if f != 0 {
            let digits = fraction_text(f, 9);
            r.append(".");
            r.append(trim_end_of(digits.as_str(), '0').as_str());
        }
        proof {
            reveal_strlit("");
            reveal_strlit("-");
            reveal_strlit(".");
            assert(r@ =~= number_text(self));
        }
        r
    }
}

impl Cost {
    pub fn zero() -> (r: Cost)
        ensures
            r == free(),
    {
        Cost { parts: 0 }
    }

    pub fn plus(self, other: Cost) -> (r: Cost)
        ensures
            r == total(self, other),
    {
        Cost { parts: add_clamped(self.parts, other.parts) }
    }

    /// A few halves of the cost.
    pub fn in_halves(self, halves: u64) -> (r: Cost)
        requires
            halves <= 5,
        ensures
            r == in_halves(self, halves as nat),
    {
        proof {
            let n = self.parts as int;
            assert(n * 0 == 0 && n * 1 == n && n * 2 == n + n) by (nonlinear_arith);
            assert(n * 3 == n + n + n && n * 4 == n + n + n + n && n * 5 == n + n + n + n + n)
                by (nonlinear_arith);
            assert(n * halves == n * 0 || n * halves == n * 1 || n * halves == n * 2 || n * halves
                == n * 3 || n * halves == n * 4 || n * halves == n * 5);
        }
        let wholes = if halves >= 4 {
            self.plus(self)
        } else if halves >= 2 {
            self
        } else {
            Cost { parts: 0 }
        };
        if halves % 2 == 1 {
            wholes.plus(Cost { parts: floor_div(self.parts, 2) })
        } else {
            wholes
        }
    }
}

/// Nothing is rounded in the price of whole units, whatever halves of it are
/// charged, as long as it can be represented.
pub proof fn law_prices_of_whole_units_are_exact(rate: Number, units: int, halves: nat)
    requires
        i128::MIN <= units * ONE <= i128::MAX,
        i128::MIN <= rate.nanos * (units * ONE) <= i128::MAX,
        i128::MIN <= rate.nanos * (units * ONE) * halves / 2 <= i128::MAX,
    ensures
        price(rate, whole(units)).parts == rate.nanos * (units * ONE),
        in_halves(price(rate, whole(units)), halves).parts * 2 == price(rate, whole(units)).parts
            * halves,
{
    let half = rate.nanos * units * 500_000_000 * halves;
    assert(rate.nanos * (units * ONE) * halves == half * 2) by (nonlinear_arith)
        requires
            half == rate.nanos * units * 500_000_000 * halves,
            ONE == 1_000_000_000,
    ;
}

fn add_clamped(a: i128, b: i128) -> (r: i128)
    ensures
        r == clamped(a + b),
{
    match a.checked_add(b) {
        Some(n) => n,
        None => if b > 0 {
            i128::MAX
        } else {
            i128::MIN
        },
    }
}

proof fn lemma_product_sign(a: int, b: int)
    ensures
        a > 0 && b > 0 ==> a * b > 0,
        a <= 0 && b <= 0 ==> a * b >= 0,
        a > 0 && b <= 0 ==> a * b <= 0,
        a <= 0 && b > 0 ==> a * b <= 0,
{
    assert(a > 0 && b > 0 ==> a * b > 0) by (nonlinear_arith);
    assert(a <= 0 && b <= 0 ==> a * b >= 0) by (nonlinear_arith);
    assert(a > 0 && b <= 0 ==> a * b <= 0) by (nonlinear_arith);
    assert(a <= 0 && b > 0 ==> a * b <= 0) by (nonlinear_arith);
}

/// Division that rounds down.
fn floor_div(a: i128, b: i128) -> (r: i128)
    requires
        b > 1,
    ensures
        r == a as int / b as int,
{
    if a >= 0 {
        a / b
    } else {
        let up: i128 = -(a + 1);
        let q: i128 = up / b;
        proof {
            let (x, y) = (a as int, b as int);
            assert(x / y == -((-(x + 1)) / y) - 1) by (nonlinear_arith)
                requires
                    x < 0,
                    y > 1,
            ;
        }
        -q - 1
    }
}

fn fraction_text(f: u128, k: u8) -> (r: String)
    ensures
        r@ == fraction_digits(f as nat, k as nat),
    decreases k,
{
    if k == 0 {
        String::new()
    } else {
        let mut r = fraction_text(f / 10, k - 1);
        let d: u8 = (f % 10) as u8;
        r.push((d + 48) as char);
        r
    }
}

/// Whether `p` says what number `f` reads in every text.
pub open spec fn reads_numbers_as<F: Fn(&str) -> Option<Number>>(
    f: F,
    p: spec_fn(Seq<char>) -> Option<Number>,
) -> bool {
    forall|s: &str, n: Option<Number>| #[trigger] call_ensures(f, (s,), n) ==> n == p(s@)
}

/// Whether `f` reads numbers in texts, and in every text one only.
pub open spec fn is_number_reader<F: Fn(&str) -> Option<Number>>(f: F) -> bool {
    &&& forall|s: &str| call_requires(f, (s,))
    &&& exists|p: spec_fn(Seq<char>) -> Option<Number>| reads_numbers_as(f, p)
}

/// The number that `f` reads in each text.
pub open spec fn number_reader_of<F: Fn(&str) -> Option<Number>>(f: F) -> spec_fn(
    Seq<char>,
) -> Option<Number> {
    choose|p: spec_fn(Seq<char>) -> Option<Number>| reads_numbers_as(f, p)
}

/// Reads a number in a text.
pub fn read_number_with<F: Fn(&str) -> Option<Number>>(f: &F, s: &str) -> (r: Option<Number>)
    requires
        is_number_reader(*f),
    ensures
        r == number_reader_of(*f)(s@),
{
    let r = f(s);
    assert(call_ensures(*f, (s,), r));
    r
}

} // verus!
