//! Numbers of the language: fixed-point decimals with six fractional digits.
use vstd::prelude::*;

verus! {

/// Units per whole number: a number is stored as a count of millionths.
pub const SCALE: i64 = 1000000;

/// A number of the language, `units / SCALE`.
#[derive(Clone, Copy, Debug, PartialEq, Eq, Structural)]
pub struct Number {
    pub units: i64,
}

pub open spec fn in_range(x: int) -> bool {
    i64::MIN <= x <= i64::MAX
}

/// Integer division of `x` by a positive `d`, truncated toward zero.
pub open spec fn trunc_div(x: int, d: int) -> int {
    if x >= 0 {
        x / d
    } else {
        -((-x) / d)
    }
}

/// Quotient of `x` by a nonzero `d`, truncated toward zero.
pub open spec fn trunc_quot(x: int, d: int) -> int {
    if d > 0 {
        trunc_div(x, d)
    } else {
        -trunc_div(x, -d)
    }
}

pub open spec fn sum_units(a: int, b: int) -> int {
    a + b
}

pub open spec fn product_units(a: int, b: int) -> int {
    trunc_div(a * b, SCALE as int)
}

pub open spec fn quotient_units(a: int, b: int) -> int {
    trunc_quot(a * SCALE, b)
}

pub open spec fn checked(x: int) -> Option<Number> {
    if in_range(x) {
        Some(Number { units: x as i64 })
    } else {
        None
    }
}

pub open spec fn digit_char(d: int) -> char {
    if d == 0 { '0' }
    else if d == 1 { '1' }
    else if d == 2 { '2' }
    else if d == 3 { '3' }
    else if d == 4 { '4' }
    else if d == 5 { '5' }
    else if d == 6 { '6' }
    else if d == 7 { '7' }
    else if d == 8 { '8' }
    else { '9' }
}

/// Decimal digits of a natural number, without leading zeros.
pub open spec fn nat_digits(n: nat) -> Seq<char>
    decreases n,
{
    if n < 10 {
        seq![digit_char(n as int)]
    } else {
        nat_digits(n / 10).push(digit_char((n % 10) as int))
    }
}

/// The digits of the fraction `f / (10 * p)` after the point, with trailing
/// zeros left out (`p` is a power of ten and `f < 10 * p`).
pub open spec fn fraction_digits(f: nat, p: nat) -> Seq<char>
    decreases p,
{
    if f == 0 || p == 0 {
        Seq::empty()
    } else {
        seq![digit_char((f / p) as int)] + fraction_digits(f % p, p / 10)
    }
}

pub open spec fn abs(x: int) -> nat {
    if x < 0 { (-x) as nat } else { x as nat }
}

/// How a number is printed: the whole part, then a point and the
/// fractional digits if any are nonzero (so `2` and not `2.0`).
pub open spec fn number_text(units: int) -> Seq<char> {
    let m = abs(units);
    let sign = if units < 0 { seq!['-'] } else { Seq::empty() };
    let whole = nat_digits(m / (SCALE as nat));
    let frac = m % (SCALE as nat);
    if frac == 0 {
        sign + whole
    } else {
        sign + whole + seq!['.'] + fraction_digits(frac, 100000)
    }
}

pub open spec fn is_pow10(p: nat) -> bool
    decreases p,
{
    p == 1 || (p >= 10 && p % 10 == 0 && is_pow10(p / 10))
}

fn digit_str(d: u64) -> (r: &'static str)
    requires
        d < 10,
    ensures
        r@ == seq![digit_char(d as int)],
{
    proof {
        reveal_strlit("0");
        reveal_strlit("1");
        reveal_strlit("2");
        reveal_strlit("3");
        reveal_strlit("4");
        reveal_strlit("5");
        reveal_strlit("6");
        reveal_strlit("7");
        reveal_strlit("8");
        reveal_strlit("9");
    }
    if d == 0 { "0" }
    else if d == 1 { "1" }
    else if d == 2 { "2" }
    else if d == 3 { "3" }
    else if d == 4 { "4" }
    else if d == 5 { "5" }
    else if d == 6 { "6" }
    else if d == 7 { "7" }
    else if d == 8 { "8" }
    else { "9" }
}

pub fn nat_text(n: u64) -> (r: String)
    ensures
        r@ == nat_digits(n as nat),
    decreases n,
{
    if n < 10 {
        String::from_str(digit_str(n))
    } else {
        let mut s = nat_text(n / 10);
        s.append(digit_str(n % 10));
        s
    }
}

fn fraction_text(f: u64, p: u64) -> (r: String)
    requires
        f < 10 * p,
        is_pow10(p as nat),
    ensures
        r@ == fraction_digits(f as nat, p as nat),
    decreases p,
{
    if f == 0 || p == 0 {
        String::new()
    } else {
        assert(f / p < 10) by (nonlinear_arith)
            requires
                f < 10 * p,
                p > 0,
        ;
        let mut s = String::from_str(digit_str(f / p));
        if p == 1 {
            assert(f % p == 0);
            proof {
                assert(fraction_digits((f % p) as nat, (p / 10) as nat) == Seq::<char>::empty());
            }
            s
        } else {
            let rest = fraction_text(f % p, p / 10);
            s.append(rest.as_str());
            s
        }
    }
}

impl Number {
    /// The text that `print` shows for this number.
    pub fn to_text(&self) -> (r: String)
        ensures
            r@ == number_text(self.value()),
    {
        let m: u64 = if self.units < 0 {
            (-(self.units as i128)) as u64
        } else {
            self.units as u64
        };
        let mut s = if self.units < 0 {
            proof {
                reveal_strlit("-");
            }
            String::from_str("-")
        } else {
            String::new()
        };
        let whole = nat_text(m / (SCALE as u64));
        s.append(whole.as_str());
        let frac = m % (SCALE as u64);
        if frac != 0 {
            proof {
                reveal_strlit(".");
                reveal_with_fuel(is_pow10, 7);
                assert(is_pow10(100000));
            }
            s.append(".");
            let ft = fraction_text(frac, 100000);
            s.append(ft.as_str());
        }
        s
    }

    pub open spec fn value(self) -> int {
        self.units as int
    }

    /// The whole number `n`.
    pub fn from_int(n: i64) -> (r: Option<Number>)
        ensures
            r == checked(n * SCALE),
    {
        let a: i128 = n as i128;
        assert(-0x7fff_ffff_ffff_ffff_ffff_ffff <= a * 1000000 <= 0x7fff_ffff_ffff_ffff_ffff_ffff)
            by (nonlinear_arith)
            requires
                i64::MIN <= a <= i64::MAX,
        ;
        let p: i128 = a * (SCALE as i128);
        if p < i64::MIN as i128 || p > i64::MAX as i128 {
            None
        } else {
            Some(Number { units: p as i64 })
        }
    }

    /// The whole number `n`, for a count such as a length.
    pub fn from_count(n: usize) -> (r: Option<Number>)
        ensures
            r == checked(n * SCALE),
    {
        if n as u64 > 9_223_372_036_854 {
            proof {
                assert(n * 1000000 > i64::MAX) by (nonlinear_arith)
                    requires
                        n > 9_223_372_036_854,
                ;
            }
            None
        } else {
            Number::from_int(n as i64)
        }
    }

    pub fn is_zero(&self) -> (r: bool)
        ensures
            r == (self.units == 0),
    {
        self.units == 0
    }

    pub fn add(&self, o: &Number) -> (r: Option<Number>)
        ensures
            r == checked(sum_units(self.value(), o.value())),
    {
        let s: i128 = self.units as i128 + o.units as i128;
        if s < i64::MIN as i128 || s > i64::MAX as i128 {
            None
        } else {
            Some(Number { units: s as i64 })
        }
    }

    pub fn sub(&self, o: &Number) -> (r: Option<Number>)
        ensures
            r == checked(self.value() - o.value()),
    {
        let s: i128 = self.units as i128 - o.units as i128;
        if s < i64::MIN as i128 || s > i64::MAX as i128 {
            None
        } else {
            Some(Number { units: s as i64 })
        }
    }

    pub fn neg(&self) -> (r: Option<Number>)
        ensures
            r == checked(-self.value()),
    {
        if self.units == i64::MIN {
            None
        } else {
            Some(Number { units: -self.units })
        }
    }

    pub fn mul(&self, o: &Number) -> (r: Option<Number>)
        ensures
            r == checked(product_units(self.value(), o.value())),
    {
        let a: i128 = self.units as i128;
        let b: i128 = o.units as i128;
        assert(-0x7fff_ffff_ffff_ffff_ffff_ffff_ffff_ffff <= a * b <= 0x7fff_ffff_ffff_ffff_ffff_ffff_ffff_ffff)
            by (nonlinear_arith)
            requires
                i64::MIN <= a <= i64::MAX,
                i64::MIN <= b <= i64::MAX,
        ;
        let p: i128 = a * b;
        let q: i128 = if p >= 0 {
            p / (SCALE as i128)
        } else {
            -((-p) / (SCALE as i128))
        };
        if q < i64::MIN as i128 || q > i64::MAX as i128 {
            None
        } else {
            Some(Number { units: q as i64 })
        }
    }

    /// Division; the divisor must not be zero.
    pub fn div(&self, o: &Number) -> (r: Option<Number>)
        requires
            o.units != 0,
        ensures
            r == checked(quotient_units(self.value(), o.value())),
    {
        let a: i128 = (self.units as i128) * (SCALE as i128);
        let b: i128 = o.units as i128;
        let ma: i128 = if a >= 0 { a } else { -a };
        let mb: i128 = if b >= 0 { b } else { -b };
        let m: i128 = ma / mb;
        let q: i128 = if (a >= 0) == (b > 0) { m } else { -m };
        if q < i64::MIN as i128 || q > i64::MAX as i128 {
            None
        } else {
            Some(Number { units: q as i64 })
        }
    }

    pub fn less(&self, o: &Number) -> (r: bool)
        ensures
            r == (self.value() < o.value()),
    {
        self.units < o.units
    }
}

} // verus!
