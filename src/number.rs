use vstd::prelude::*;

verus! {

/// Greatest common divisor by Euclid's algorithm.
pub open spec fn gcd(a: nat, b: nat) -> nat
    decreases b,
{
    if b == 0 {
        a
    } else {
        gcd(b, a % b)
    }
}

pub open spec fn abs(x: int) -> nat {
    if x < 0 {
        (-x) as nat
    } else {
        x as nat
    }
}

/// With a positive second argument the gcd is positive and at most that argument.
pub proof fn lemma_gcd_bounds(a: nat, b: nat)
    requires
        b > 0,
    ensures
        0 < gcd(a, b) <= b,
    decreases b,
{
    assert(gcd(b, 0) == b);
    if a % b != 0 {
        lemma_gcd_bounds(b, a % b);
    }
}

/// The gcd divides both arguments.
pub proof fn lemma_gcd_divides(a: nat, b: nat)
    requires
        b > 0,
    ensures
        a % gcd(a, b) == 0,
        b % gcd(a, b) == 0,
    decreases b,
{
    let g = gcd(a, b);
    assert(gcd(b, 0) == b);
    lemma_gcd_bounds(a, b);
    if a % b == 0 {
        vstd::arithmetic::div_mod::lemma_mod_self_0(b as int);
    } else {
        lemma_gcd_divides(b, a % b);
        let q = a / b;
        let r = a % b;
        vstd::arithmetic::div_mod::lemma_fundamental_div_mod(a as int, b as int);
        vstd::arithmetic::div_mod::lemma_fundamental_div_mod(b as int, g as int);
        vstd::arithmetic::div_mod::lemma_fundamental_div_mod(r as int, g as int);
        let k1 = b / g;
        let k2 = r / g;
        assert(a == g * (k1 * q + k2)) by (nonlinear_arith)
            requires
                a == b * q + r,
                b == g * k1,
                r == g * k2,
        ;
        vstd::arithmetic::div_mod::lemma_mod_multiples_basic((k1 * q + k2) as int, g as int);
        assert((k1 * q + k2) * g == g * (k1 * q + k2)) by (nonlinear_arith);
    }
}

/// The number `n / d` (for `d > 0`) in lowest terms, when both parts fit:
/// the numerator strictly above `i64::MIN`, the denominator at most `i64::MAX`.
pub closed spec fn reduced(n: int, d: int) -> Option<Number> {
    let g = gcd(abs(n), d as nat);
    let m = abs(n) / g;
    let e = d / (g as int);
    let num = if n < 0 {
        -m
    } else {
        m as int
    };
    if -0x7fff_ffff_ffff_ffff <= num <= 0x7fff_ffff_ffff_ffff && e <= 0x7fff_ffff_ffff_ffff {
        Some(Number { num: num as i64, den: e as i64 })
    } else {
        None
    }
}

/// The product of two values of magnitude below `2^63`, exactly, in 128 bits.
fn wide_mul(x: i64, y: i64) -> (r: i128)
    requires
        x > i64::MIN,
        y > i64::MIN,
    ensures
        r == x * y,
        x > 0 && y > 0 ==> r > 0,
        -0x4000_0000_0000_0000_0000_0000_0000_0000 < r < 0x4000_0000_0000_0000_0000_0000_0000_0000,
{
    proof {
        let a = x as int;
        let b = y as int;
        assert(-0x4000_0000_0000_0000_0000_0000_0000_0000 < a * b
            < 0x4000_0000_0000_0000_0000_0000_0000_0000) by (nonlinear_arith)
            requires
                -0x8000_0000_0000_0000 < a < 0x8000_0000_0000_0000,
                -0x8000_0000_0000_0000 < b < 0x8000_0000_0000_0000,
        {
            assert(abs(a) < 0x8000_0000_0000_0000);
            assert(abs(b) < 0x8000_0000_0000_0000);
            assert(abs(a) * abs(b) <= abs(a) * 0x8000_0000_0000_0000);
        }
        if a > 0 && b > 0 {
            assert(a * b > 0) by (nonlinear_arith)
                requires
                    a > 0,
                    b > 0,
            ;
        }
    }
    (x as i128) * (y as i128)
}

/// A reduced number is the same rational as the quotient it was made from.
proof fn lemma_reduced_exact(n: int, d: int)
    requires
        d > 0,
    ensures
        reduced(n, d) matches Some(x) ==> x.numer() * d == n * x.denom(),
{
    if let Some(x) = reduced(n, d) {
        let g = gcd(abs(n), d as nat);
        lemma_gcd_divides(abs(n), d as nat);
        lemma_gcd_bounds(abs(n), d as nat);
        vstd::arithmetic::div_mod::lemma_fundamental_div_mod(abs(n) as int, g as int);
        vstd::arithmetic::div_mod::lemma_fundamental_div_mod(d, g as int);
        let m = abs(n) / g;
        let e = d / (g as int);
        assert(m * d == abs(n) * e) by (nonlinear_arith)
            requires
                abs(n) as int == g * m,
                d == g * e,
        ;
        if n < 0 {
            assert(-m * d == n * e) by (nonlinear_arith)
                requires
                    m * d == abs(n) * e,
                    abs(n) == -n,
            ;
        }
    }
}

/// Arithmetic is exact: a result that fits is the true sum, difference,
/// product or quotient, cross-multiplied by the denominators.
pub proof fn lemma_arithmetic_exact(a: Number, b: Number)
    requires
        a.denom() > 0,
        b.denom() > 0,
    ensures
        a.spec_add(b) matches Some(c) ==> c.numer() * (a.denom() * b.denom()) == (a.numer()
            * b.denom() + b.numer() * a.denom()) * c.denom(),
        a.spec_sub(b) matches Some(c) ==> c.numer() * (a.denom() * b.denom()) == (a.numer()
            * b.denom() - b.numer() * a.denom()) * c.denom(),
        a.spec_mul(b) matches Some(c) ==> c.numer() * (a.denom() * b.denom()) == (a.numer()
            * b.numer()) * c.denom(),
        b.numer() != 0 ==> (a.spec_div(b) matches Some(c) ==> c.numer() * (a.denom() * b.numer())
            == (a.numer() * b.denom()) * c.denom()),
{
    let (an, ad, bn, bd) = (a.numer(), a.denom(), b.numer(), b.denom());
    assert(ad * bd > 0) by (nonlinear_arith)
        requires
            ad > 0,
            bd > 0,
    ;
    lemma_reduced_exact(an * bd + bn * ad, ad * bd);
    lemma_reduced_exact(an * bd - bn * ad, ad * bd);
    lemma_reduced_exact(an * bn, ad * bd);
    if bn < 0 {
        assert(ad * (-bn) > 0) by (nonlinear_arith)
            requires
                ad > 0,
                bn < 0,
        ;
        lemma_reduced_exact(-(an * bd), ad * (-bn));
        if let Some(c) = a.spec_div(b) {
            assert(c.numer() * (ad * bn) == (an * bd) * c.denom()) by (nonlinear_arith)
                requires
                    c.numer() * (ad * (-bn)) == -(an * bd) * c.denom(),
            ;
        }
    } else if bn > 0 {
        assert(ad * bn > 0) by (nonlinear_arith)
            requires
                ad > 0,
                bn > 0,
        ;
        lemma_reduced_exact(an * bd, ad * bn);
    }
}

/// An exact rational number `num / den`, in lowest terms, standing where a
/// binary64 float would. Unlike a float it never rounds (`0.1 + 0.2` is
/// exactly `0.3`), and a result whose reduced parts leave the `i64` range is
/// no number at all: the operations return `None`, which evaluation reports
/// as "numeric result out of range", and the scanner rejects such literals.
#[derive(Clone, Copy, Debug, PartialEq, Eq, Structural)]
pub struct Number {
    num: i64,
    den: i64,
}

impl Number {
    /// A positive denominator, and a numerator whose negation fits.
    #[verifier::type_invariant]
    pub closed spec fn wf(&self) -> bool {
        self.den > 0 && self.num > i64::MIN
    }

    pub closed spec fn numer(self) -> int {
        self.num as int
    }

    pub closed spec fn denom(self) -> int {
        self.den as int
    }

    pub open spec fn spec_add(self, o: Number) -> Option<Number> {
        reduced(self.numer() * o.denom() + o.numer() * self.denom(), self.denom() * o.denom())
    }

    pub open spec fn spec_sub(self, o: Number) -> Option<Number> {
        reduced(self.numer() * o.denom() - o.numer() * self.denom(), self.denom() * o.denom())
    }

    pub open spec fn spec_mul(self, o: Number) -> Option<Number> {
        reduced(self.numer() * o.numer(), self.denom() * o.denom())
    }

    /// The quotient, for a divisor other than zero.
    pub open spec fn spec_div(self, o: Number) -> Option<Number> {
        if o.numer() < 0 {
            reduced(-(self.numer() * o.denom()), self.denom() * (-o.numer()))
        } else {
            reduced(self.numer() * o.denom(), self.denom() * o.numer())
        }
    }

    /// The negation; see [`lemma_neg`] for its parts.
    pub closed spec fn spec_neg(self) -> Number {
        Number { num: (-self.num) as i64, den: self.den }
    }

    /// Equal as rationals.
    pub open spec fn same_value(self, o: Number) -> bool {
        self.numer() * o.denom() == o.numer() * self.denom()
    }

    pub open spec fn less_than(self, o: Number) -> bool {
        self.numer() * o.denom() < o.numer() * self.denom()
    }

    pub open spec fn at_most(self, o: Number) -> bool {
        self.numer() * o.denom() <= o.numer() * self.denom()
    }
}

/// What [`reduced`] gives: `n / d` divided through by the gcd of its parts,
/// when both parts then fit, else nothing.
pub proof fn lemma_reduced(n: int, d: int)
    requires
        d > 0,
    ensures
        ({
            let g = gcd(abs(n), d as nat) as int;
            let num = if n < 0 {
                -(abs(n) / (g as nat))
            } else {
                (abs(n) / (g as nat)) as int
            };
            let den = d / g;
            &&& -0x7fff_ffff_ffff_ffff <= num <= 0x7fff_ffff_ffff_ffff && den <= 0x7fff_ffff_ffff_ffff
                ==> (reduced(n, d) matches Some(x) && x.numer() == num && x.denom() == den)
            &&& !(-0x7fff_ffff_ffff_ffff <= num <= 0x7fff_ffff_ffff_ffff
                && den <= 0x7fff_ffff_ffff_ffff) ==> reduced(n, d) is None
        }),
{
    lemma_gcd_bounds(abs(n), d as nat);
    let g = gcd(abs(n), d as nat) as int;
    assert(d / g >= 1) by (nonlinear_arith)
        requires
            0 < g <= d,
    ;
}

/// Whether `x` can be the numerator of a number.
pub open spec fn fits(x: int) -> bool {
    -0x7fff_ffff_ffff_ffff <= x <= 0x7fff_ffff_ffff_ffff
}

/// Whole numbers add, subtract and multiply as integers, whenever the
/// result fits; otherwise there is no result.
pub proof fn lemma_whole_arithmetic(a: Number, b: Number)
    requires
        a.denom() == 1,
        b.denom() == 1,
    ensures
        fits(a.numer() + b.numer()) ==> (a.spec_add(b) matches Some(c) && c.numer() == a.numer()
            + b.numer() && c.denom() == 1),
        fits(a.numer() - b.numer()) ==> (a.spec_sub(b) matches Some(c) && c.numer() == a.numer()
            - b.numer() && c.denom() == 1),
        fits(a.numer() * b.numer()) ==> (a.spec_mul(b) matches Some(c) && c.numer() == a.numer()
            * b.numer() && c.denom() == 1),
        !fits(a.numer() + b.numer()) ==> a.spec_add(b) is None,
        !fits(a.numer() - b.numer()) ==> a.spec_sub(b) is None,
        !fits(a.numer() * b.numer()) ==> a.spec_mul(b) is None,
{
    let (x, y) = (a.numer(), b.numer());
    reveal_with_fuel(gcd, 2);
    assert(gcd(abs(x + y), 1nat) == 1);
    assert(gcd(abs(x - y), 1nat) == 1);
    assert(gcd(abs(x * y), 1nat) == 1);
    assert(x * 1 + y * 1 == x + y && x * 1 - y * 1 == x - y && 1 * 1 == 1);
    assert(a.spec_add(b) == reduced(x + y, 1));
    assert(a.spec_sub(b) == reduced(x - y, 1));
    lemma_reduced(x + y, 1);
    lemma_reduced(x - y, 1);
    lemma_reduced(x * y, 1);
}

/// The negation has the opposite numerator and the same denominator.
pub proof fn lemma_neg(a: Number)
    requires
        a.numer() > i64::MIN,
    ensures
        a.spec_neg().numer() == -a.numer(),
        a.spec_neg().denom() == a.denom(),
{
}

/// Reduces `n / d` (with `d > 0`) to lowest terms.
fn reduce(n: i128, d: i128) -> (r: Option<Number>)
    requires
        d > 0,
        n > i128::MIN,
    ensures
        r == reduced(n as int, d as int),
        r matches Some(x) ==> x.wf(),
{
    let a: u128 = if n < 0 {
        (-n) as u128
    } else {
        n as u128
    };
    let mut x: u128 = a;
    let mut y: u128 = d as u128;
    while y != 0
        invariant
            gcd(x as nat, y as nat) == gcd(abs(n as int), d as nat),
        decreases y,
    {
        let t = x % y;
        x = y;
        y = t;
    }
    proof {
        lemma_gcd_bounds(abs(n as int), d as nat);
    }
    let m: u128 = a / x;
    let e: u128 = (d as u128) / x;
    if m > 0x7fff_ffff_ffff_ffff || e > 0x7fff_ffff_ffff_ffff {
        return None;
    }
    let num: i64 = if n < 0 {
        -(m as i64)
    } else {
        m as i64
    };
    proof {
        let dd = d as int;
        let xx = x as int;
        assert(dd / xx >= 1) by (nonlinear_arith)
            requires
                0 < xx <= dd,
        ;
    }
    Some(Number { num, den: e as i64 })
}

impl Number {
    /// The integer `n`.
    pub fn integer(n: i32) -> (r: Number)
        ensures
            r.numer() == n,
            r.denom() == 1,
    {
        Number { num: n as i64, den: 1 }
    }

    /// The number `num / den` in lowest terms; `None` for a zero denominator
    /// or when the reduced parts do not fit.
    pub fn ratio(num: i64, den: i64) -> (r: Option<Number>)
        ensures
            den == 0 ==> r is None,
            den > 0 ==> r == reduced(num as int, den as int),
            den < 0 ==> r == reduced(-num, -den),
    {
        if den == 0 {
            None
        } else if den > 0 {
            reduce(num as i128, den as i128)
        } else {
            reduce(-(num as i128), -(den as i128))
        }
    }

    pub fn is_zero(&self) -> (r: bool)
        ensures
            r == (self.numer() == 0),
    {
        self.num == 0
    }

    pub fn add(&self, o: &Number) -> (r: Option<Number>)
        ensures
            r == self.spec_add(*o),
    {
        proof {
            use_type_invariant(self);
            use_type_invariant(o);
        }
        let a = wide_mul(self.num, o.den);
        let b = wide_mul(o.num, self.den);
        let d = wide_mul(self.den, o.den);
        reduce(a + b, d)
    }

    pub fn sub(&self, o: &Number) -> (r: Option<Number>)
        ensures
            r == self.spec_sub(*o),
    {
        proof {
            use_type_invariant(self);
            use_type_invariant(o);
        }
        let a = wide_mul(self.num, o.den);
        let b = wide_mul(o.num, self.den);
        let d = wide_mul(self.den, o.den);
        reduce(a - b, d)
    }

    pub fn mul(&self, o: &Number) -> (r: Option<Number>)
        ensures
            r == self.spec_mul(*o),
    {
        proof {
            use_type_invariant(self);
            use_type_invariant(o);
        }
        let a = wide_mul(self.num, o.num);
        let d = wide_mul(self.den, o.den);
        reduce(a, d)
    }

    pub fn div(&self, o: &Number) -> (r: Option<Number>)
        requires
            o.numer() != 0,
        ensures
            r == self.spec_div(*o),
    {
        proof {
            use_type_invariant(self);
            use_type_invariant(o);
        }
        let a = wide_mul(self.num, o.den);
        if o.num < 0 {
            let d = wide_mul(self.den, -o.num);
            reduce(-a, d)
        } else {
            let d = wide_mul(self.den, o.num);
            reduce(a, d)
        }
    }

    pub fn neg(&self) -> (r: Number)
        ensures
            r == self.spec_neg(),
            r.numer() == -self.numer(),
            r.denom() == self.denom(),
    {
        proof {
            use_type_invariant(self);
        }
        Number { num: -self.num, den: self.den }
    }

    pub fn equals(&self, o: &Number) -> (r: bool)
        ensures
            r == self.same_value(*o),
    {
        proof {
            use_type_invariant(self);
            use_type_invariant(o);
        }
        wide_mul(self.num, o.den) == wide_mul(o.num, self.den)
    }

    pub fn lt(&self, o: &Number) -> (r: bool)
        ensures
            r == self.less_than(*o),
    {
        proof {
            use_type_invariant(self);
            use_type_invariant(o);
        }
        wide_mul(self.num, o.den) < wide_mul(o.num, self.den)
    }

    pub fn le(&self, o: &Number) -> (r: bool)
        ensures
            r == self.at_most(*o),
    {
        proof {
            use_type_invariant(self);
            use_type_invariant(o);
        }
        wide_mul(self.num, o.den) <= wide_mul(o.num, self.den)
    }
}

} // verus!

verus! {

impl Number {
    /// Never `i64::MIN`, so its negation fits.
    pub fn numerator(&self) -> (r: i64)
        ensures
            r == self.numer(),
            r > i64::MIN,
    {
        proof {
            use_type_invariant(self);
        }
        self.num
    }

    /// Always positive.
    pub fn denominator(&self) -> (r: i64)
        ensures
            r == self.denom(),
            r > 0,
    {
        proof {
            use_type_invariant(self);
        }
        self.den
    }
}

} // verus!
