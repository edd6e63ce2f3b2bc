//! Exact rational arithmetic.
//!
//! Analog values, transform coefficients and trigger thresholds are carried
//! as rationals `num / den` with `den >= 1`. Every operation is exact: a
//! result is returned only when the mathematical value fits the
//! representation after full reduction, so contracts can speak of real
//! fractions instead of rounded machine numbers.

use vstd::arithmetic::div_mod::{
    lemma_fundamental_div_mod, lemma_mod_multiples_vanish, lemma_mod_self_0, lemma_small_mod,
};
use vstd::prelude::*;

verus! {

/// Largest magnitude a stored numerator or denominator may take.
pub const RAT_LIMIT: i64 = 0x7FFF_FFFF_FFFF_FFFF;

/// Greatest common divisor by Euclid's algorithm.
pub open spec fn gcd(a: nat, b: nat) -> nat
    decreases b,
{
    if b == 0 {
        a
    } else {
        gcd(b, a % b)
    }
}

/// Magnitude of an integer.
pub open spec fn iabs(x: int) -> nat {
    if x >= 0 {
        x as nat
    } else {
        (-x) as nat
    }
}

/// Whether the fractions `n1 / d1` and `n2 / d2` denote the same rational
/// (both denominators nonzero).
pub open spec fn frac_eq(n1: int, d1: int, n2: int, d2: int) -> bool {
    n1 * d2 == n2 * d1
}

/// The greatest common divisor of the magnitudes of `n` and `d`.
pub open spec fn norm_g(n: int, d: int) -> nat {
    gcd(iabs(n), iabs(d))
}

/// Denominator of the fully reduced form of `n / d`, always positive.
pub open spec fn norm_den(n: int, d: int) -> int {
    (iabs(d) / norm_g(n, d)) as int
}

/// Numerator of the fully reduced form of `n / d`, carrying the sign.
pub open spec fn norm_num(n: int, d: int) -> int {
    let m = (iabs(n) / norm_g(n, d)) as int;
    if (n < 0) != (d < 0) {
        -m
    } else {
        m
    }
}

/// Whether the rational `n / d` has a stored form: after full reduction both
/// parts must fit the 64-bit fields.
pub open spec fn representable(n: int, d: int) -> bool {
    &&& d != 0
    &&& -(RAT_LIMIT as int) - 1 <= norm_num(n, d) <= RAT_LIMIT as int
    &&& norm_den(n, d) <= RAT_LIMIT as int
}

/// The gcd of `a` and a positive `b` is positive and divides both.
pub proof fn lemma_gcd_divides(a: nat, b: nat)
    requires
        b > 0,
    ensures
        gcd(a, b) >= 1,
        a % gcd(a, b) == 0,
        b % gcd(a, b) == 0,
    decreases b,
{
    let r = a % b;
    let g = gcd(a, b);
    assert(g == gcd(b, r));
    if r == 0 {
        assert(g == b);
        lemma_mod_self_0(b as int);
    } else {
        lemma_gcd_divides(b, r);
        assert(b % g == 0);
        assert(r % g == 0);
        lemma_fundamental_div_mod(a as int, b as int);
        assert(a == b * (a as int / b as int) + r);
        lemma_fundamental_div_mod(b as int, g as int);
        assert(b == g * (b as int / g as int));
        let q = a as int / b as int;
        let bg = b as int / g as int;
        assert(b * q == g * (bg * q)) by (nonlinear_arith)
            requires
                b == g * bg,
        ;
        lemma_mod_multiples_vanish(bg * q, r as int, g as int);
        assert((g * (bg * q) + r) % (g as int) == (r as int) % (g as int));
        assert((a as int) % (g as int) == 0);
    }
}

/// A positive divisor of a positive number is no larger than it.
proof fn lemma_divisor_le(x: nat, g: nat)
    requires
        x >= 1,
        g >= 1,
        x % g == 0,
    ensures
        g <= x,
        x / g >= 1,
        g * (x / g) == x,
{
    if g > x {
        lemma_small_mod(x, g);
    }
    lemma_fundamental_div_mod(x as int, g as int);
    if x / g == 0 {
        assert(x == g * 0 + 0);
    }
}

/// Reducing both parts of a fraction by their gcd keeps its value.
pub proof fn lemma_norm_frac_eq(n: int, d: int)
    requires
        d != 0,
    ensures
        norm_den(n, d) >= 1,
        frac_eq(norm_num(n, d), norm_den(n, d), n, d),
{
    let an = iabs(n);
    let ad = iabs(d);
    let g = norm_g(n, d);
    lemma_gcd_divides(an, ad);
    lemma_divisor_le(ad, g);
    let qn = (an / g) as int;
    let qd = (ad / g) as int;
    lemma_fundamental_div_mod(an as int, g as int);
    assert(an == g * qn);
    assert(ad == g * qd);
    // magnitude identity: (an/g) * ad == an * (ad/g)
    assert(qn * ad == an as int * qd) by (nonlinear_arith)
        requires
            an == g * qn,
            ad == g * qd,
    ;
    // reassemble the signs
    if n >= 0 && d > 0 {
        assert(norm_num(n, d) * d == n * norm_den(n, d));
    } else if n >= 0 && d < 0 {
        assert(norm_num(n, d) == -qn && norm_den(n, d) == qd);
        assert(-qn * d == n * qd) by (nonlinear_arith)
            requires
                qn * (-d) == n * qd,
        ;
    } else if n < 0 && d > 0 {
        assert(norm_num(n, d) == -qn && norm_den(n, d) == qd);
        assert(-qn * d == n * qd) by (nonlinear_arith)
            requires
                qn * d == (-n) * qd,
    ;
    } else {
        assert(norm_num(n, d) == qn && norm_den(n, d) == qd);
        assert(qn * d == n * qd) by (nonlinear_arith)
            requires
                qn * (-d) == (-n) * qd,
        ;
    }
}

/// Exact rational number: the value `num / den`, with `den >= 1`.
///
/// Public constructors only ever produce fully reduced values, so equal
/// constructions compare equal field-wise; value equality over arbitrary
/// fractions is [`Rat::eq_frac`].
#[derive(Debug, Clone, Copy, PartialEq, Eq, Structural)]
pub struct Rat {
    /// Numerator; carries the sign.
    pub num: i64,
    /// Denominator; always at least 1.
    pub den: i64,
}

/// Euclid's algorithm on machine words.
fn gcd_u128(a0: u128, b0: u128) -> (g: u128)
    requires
        b0 > 0,
    ensures
        g == gcd(a0 as nat, b0 as nat),
        g >= 1,
{
    let mut a: u128 = a0;
    let mut b: u128 = b0;
    while b != 0
        invariant
            gcd(a as nat, b as nat) == gcd(a0 as nat, b0 as nat),
            b == 0 ==> a > 0,
            b > 0 || a > 0,
        decreases b,
    {
        let r: u128 = a % b;
        assert(gcd(a as nat, b as nat) == gcd(b as nat, r as nat));
        a = b;
        b = r;
    }
    a
}

impl Rat {
    /// Well-formedness: the denominator is positive.
    pub open spec fn wf(self) -> bool {
        self.den >= 1
    }

    /// The numerator as a mathematical integer.
    pub open spec fn n(self) -> int {
        self.num as int
    }

    /// The denominator as a mathematical integer.
    pub open spec fn d(self) -> int {
        self.den as int
    }

    /// Value equality of two rationals.
    pub open spec fn eq_frac(self, other: Rat) -> bool {
        frac_eq(self.n(), self.d(), other.n(), other.d())
    }

    /// Value ordering: `self <= other`.
    pub open spec fn le_frac(self, other: Rat) -> bool {
        self.n() * other.d() <= other.n() * self.d()
    }

    /// Value ordering: `self < other`.
    pub open spec fn lt_frac(self, other: Rat) -> bool {
        self.n() * other.d() < other.n() * self.d()
    }

    /// Whether this rational is an integer `v`.
    pub open spec fn is_int(self, v: int) -> bool {
        frac_eq(self.n(), self.d(), v, 1)
    }

    /// Build the reduced rational `n / d` from wide intermediates.
    ///
    /// Returns `None` exactly when the value has no stored form.
    fn make(n: i128, d: i128) -> (r: Option<Rat>)
        requires
            d != 0,
            n > i128::MIN,
            d > i128::MIN,
        ensures
            match r {
                Some(q) => {
                    &&& q.wf()
                    &&& representable(n as int, d as int)
                    &&& q.num as int == norm_num(n as int, d as int)
                    &&& q.den as int == norm_den(n as int, d as int)
                    &&& frac_eq(q.n(), q.d(), n as int, d as int)
                },
                None => !representable(n as int, d as int),
            },
    {
        let neg: bool = (n < 0) != (d < 0);
        let an: u128 = if n >= 0 {
            n as u128
        } else {
            (-n) as u128
        };
        let ad: u128 = if d >= 0 {
            d as u128
        } else {
            (-d) as u128
        };
        proof {
            assert(an as nat == iabs(n as int));
            assert(ad as nat == iabs(d as int));
        }
        let g: u128 = gcd_u128(an, ad);
        proof {
            lemma_gcd_divides(an as nat, ad as nat);
            lemma_divisor_le(ad as nat, g as nat);
        }
        let qn: u128 = an / g;
        let qd: u128 = ad / g;
        let limit: u128 = RAT_LIMIT as u128;
        if qd > limit {
            proof {
                assert(!representable(n as int, d as int));
            }
            return None;
        }
        if neg {
            if qn > limit + 1 {
                return None;
            }
            let num: i64 = if qn == limit + 1 {
                i64::MIN
            } else {
                -(qn as i64)
            };
            proof {
                assert(num as int == norm_num(n as int, d as int));
                lemma_norm_frac_eq(n as int, d as int);
            }
            Some(Rat { num, den: qd as i64 })
        } else {
            if qn > limit {
                return None;
            }
            proof {
                assert(qn as int == norm_num(n as int, d as int));
                lemma_norm_frac_eq(n as int, d as int);
            }
            Some(Rat { num: qn as i64, den: qd as i64 })
        }
    }

    /// Build the reduced rational `num / den`.
    ///
    /// Returns `None` exactly when `den` is zero or the reduced value does
    /// not fit the 64-bit fields.
    pub fn new(num: i64, den: i64) -> (r: Option<Rat>)
        ensures
            match r {
                Some(q) => {
                    &&& q.wf()
                    &&& representable(num as int, den as int)
                    &&& q.num as int == norm_num(num as int, den as int)
                    &&& q.den as int == norm_den(num as int, den as int)
                    &&& frac_eq(q.n(), q.d(), num as int, den as int)
                },
                None => !representable(num as int, den as int),
            },
    {
        if den == 0 {
            None
        } else {
            Self::make(num as i128, den as i128)
        }
    }

    /// The integer `v` as a rational.
    pub fn from_i64(v: i64) -> (r: Rat)
        ensures
            r.wf(),
            r.num == v,
            r.den == 1,
    {
        Rat { num: v, den: 1 }
    }

    /// Zero.
    pub fn zero() -> (r: Rat)
        ensures
            r.wf(),
            r.num == 0,
            r.den == 1,
    {
        Rat { num: 0, den: 1 }
    }

    /// One.
    pub fn one() -> (r: Rat)
        ensures
            r.wf(),
            r.num == 1,
            r.den == 1,
    {
        Rat { num: 1, den: 1 }
    }

    /// Whether the value is zero.
    pub fn is_zero(&self) -> (r: bool)
        ensures
            r == (self.num == 0),
    {
        self.num == 0
    }

    /// Exact sum. `None` only when the reduced sum has no stored form.
    pub fn checked_add(self, other: Rat) -> (r: Option<Rat>)
        requires
            self.wf(),
            other.wf(),
        ensures
            ({
                let sn = self.n() * other.d() + other.n() * self.d();
                let sd = self.d() * other.d();
                match r {
                    Some(q) => q.wf() && frac_eq(q.n(), q.d(), sn, sd) && q.n() == norm_num(sn, sd)
                        && q.d() == norm_den(sn, sd),
                    None => !representable(sn, sd),
                }
            }),
    {
        let n1: i128 = self.num as i128;
        let d1: i128 = self.den as i128;
        let n2: i128 = other.num as i128;
        let d2: i128 = other.den as i128;
        proof {
            lemma_rat_cross_bounds(n1 as int, d1 as int, n2 as int, d2 as int);
        }
        let n: i128 = n1 * d2 + n2 * d1;
        let d: i128 = d1 * d2;
        Self::make(n, d)
    }

    /// Exact difference. `None` only when the reduced difference has no
    /// stored form.
    pub fn checked_sub(self, other: Rat) -> (r: Option<Rat>)
        requires
            self.wf(),
            other.wf(),
        ensures
            ({
                let sn = self.n() * other.d() - other.n() * self.d();
                let sd = self.d() * other.d();
                match r {
                    Some(q) => q.wf() && frac_eq(q.n(), q.d(), sn, sd) && q.n() == norm_num(sn, sd)
                        && q.d() == norm_den(sn, sd),
                    None => !representable(sn, sd),
                }
            }),
    {
        let n1: i128 = self.num as i128;
        let d1: i128 = self.den as i128;
        let n2: i128 = other.num as i128;
        let d2: i128 = other.den as i128;
        proof {
            lemma_rat_cross_bounds(n1 as int, d1 as int, n2 as int, d2 as int);
        }
        let n: i128 = n1 * d2 - n2 * d1;
        let d: i128 = d1 * d2;
        Self::make(n, d)
    }

    /// Exact product. `None` only when the reduced product has no stored
    /// form.
    pub fn checked_mul(self, other: Rat) -> (r: Option<Rat>)
        requires
            self.wf(),
            other.wf(),
        ensures
            ({
                let sn = self.n() * other.n();
                let sd = self.d() * other.d();
                match r {
                    Some(q) => q.wf() && frac_eq(q.n(), q.d(), sn, sd) && q.n() == norm_num(sn, sd)
                        && q.d() == norm_den(sn, sd),
                    None => !representable(sn, sd),
                }
            }),
    {
        let n1: i128 = self.num as i128;
        let d1: i128 = self.den as i128;
        let n2: i128 = other.num as i128;
        let d2: i128 = other.den as i128;
        proof {
            lemma_rat_prod_bounds(n1 as int, n2 as int);
            lemma_rat_cross_bounds(n1 as int, d1 as int, n2 as int, d2 as int);
        }
        let n: i128 = n1 * n2;
        let d: i128 = d1 * d2;
        Self::make(n, d)
    }

    /// Exact quotient. `None` when `other` is zero, or when the reduced
    /// quotient has no stored form.
    pub fn checked_div(self, other: Rat) -> (r: Option<Rat>)
        requires
            self.wf(),
            other.wf(),
        ensures
            other.num == 0 ==> r is None,
            other.num != 0 ==> ({
                let sn = self.n() * other.d();
                let sd = self.d() * other.n();
                match r {
                    Some(q) => q.wf() && frac_eq(q.n(), q.d(), sn, sd) && q.n() == norm_num(sn, sd)
                        && q.d() == norm_den(sn, sd),
                    None => !representable(sn, sd),
                }
            }),
    {
        if other.num == 0 {
            return None;
        }
        let n1: i128 = self.num as i128;
        let d1: i128 = self.den as i128;
        let n2: i128 = other.num as i128;
        let d2: i128 = other.den as i128;
        proof {
            lemma_rat_prod_bounds(n1 as int, d2 as int);
            lemma_rat_prod_bounds(d1 as int, n2 as int);
            lemma_prod_nonzero(d1 as int, n2 as int);
        }
        let n: i128 = n1 * d2;
        let d: i128 = d1 * n2;
        Self::make(n, d)
    }

    /// Exact negation. `None` only for the one value whose negation does not
    /// fit.
    pub fn checked_neg(self) -> (r: Option<Rat>)
        requires
            self.wf(),
        ensures
            match r {
                Some(q) => q.wf() && frac_eq(q.n(), q.d(), -self.n(), self.d()),
                None => !representable(-self.n(), self.d()),
            },
    {
        Self::make(-(self.num as i128), self.den as i128)
    }

    /// Value equality test.
    pub fn eq_val(&self, other: &Rat) -> (r: bool)
        requires
            self.wf(),
            other.wf(),
        ensures
            r == self.eq_frac(*other),
    {
        let n1: i128 = self.num as i128;
        let d1: i128 = self.den as i128;
        let n2: i128 = other.num as i128;
        let d2: i128 = other.den as i128;
        proof {
            lemma_rat_prod_bounds(n1 as int, d2 as int);
            lemma_rat_prod_bounds(n2 as int, d1 as int);
        }
        n1 * d2 == n2 * d1
    }

    /// Value ordering test: `self <= other`.
    pub fn le(&self, other: &Rat) -> (r: bool)
        requires
            self.wf(),
            other.wf(),
        ensures
            r == self.le_frac(*other),
    {
        let n1: i128 = self.num as i128;
        let d1: i128 = self.den as i128;
        let n2: i128 = other.num as i128;
        let d2: i128 = other.den as i128;
        proof {
            lemma_rat_prod_bounds(n1 as int, d2 as int);
            lemma_rat_prod_bounds(n2 as int, d1 as int);
        }
        n1 * d2 <= n2 * d1
    }

    /// Value ordering test: `self < other`.
    pub fn lt(&self, other: &Rat) -> (r: bool)
        requires
            self.wf(),
            other.wf(),
        ensures
            r == self.lt_frac(*other),
    {
        let n1: i128 = self.num as i128;
        let d1: i128 = self.den as i128;
        let n2: i128 = other.num as i128;
        let d2: i128 = other.den as i128;
        proof {
            lemma_rat_prod_bounds(n1 as int, d2 as int);
            lemma_rat_prod_bounds(n2 as int, d1 as int);
        }
        n1 * d2 < n2 * d1
    }

    /// The value truncated toward zero.
    pub open spec fn spec_trunc(self) -> int {
        if self.n() >= 0 {
            self.n() / self.d()
        } else {
            -((-self.n()) / self.d())
        }
    }

    /// Truncate toward zero to a 64-bit integer.
    pub fn trunc(&self) -> (r: i64)
        requires
            self.wf(),
        ensures
            r as int == self.spec_trunc(),
    {
        let den: u64 = self.den as u64;
        if self.num >= 0 {
            let q: u64 = (self.num as u64) / den;
            proof {
                vstd::arithmetic::div_mod::lemma_div_nonincreasing(self.num as int, self.den as int);
                vstd::arithmetic::div_mod::lemma_div_pos_is_pos(self.num as int, self.den as int);
            }
            q as i64
        } else {
            let an: u64 = if self.num == i64::MIN {
                0x8000_0000_0000_0000u64
            } else {
                (-self.num) as u64
            };
            let q: u64 = an / den;
            proof {
                vstd::arithmetic::div_mod::lemma_div_nonincreasing(an as int, self.den as int);
                vstd::arithmetic::div_mod::lemma_div_pos_is_pos(an as int, self.den as int);
            }
            if q == 0x8000_0000_0000_0000u64 {
                i64::MIN
            } else {
                -(q as i64)
            }
        }
    }
}

/// Product bound for rational fields widened to `i128`: a single cross
/// product cannot overflow the wide intermediate type.
pub proof fn lemma_rat_prod_pub(x: int, y: int)
    requires
        -0x8000_0000_0000_0000 <= x <= 0x7FFF_FFFF_FFFF_FFFF,
        -0x8000_0000_0000_0000 <= y <= 0x7FFF_FFFF_FFFF_FFFF,
    ensures
        -0x4000_0000_0000_0000_0000_0000_0000_0000 <= x * y
            <= 0x4000_0000_0000_0000_0000_0000_0000_0000,
{
    lemma_rat_prod_bounds(x, y);
}

/// Product bound for rational fields widened to `i128`: a single cross
/// product cannot overflow the wide intermediate type.
proof fn lemma_rat_prod_bounds(x: int, y: int)
    by (nonlinear_arith)
    requires
        -0x8000_0000_0000_0000 <= x <= 0x7FFF_FFFF_FFFF_FFFF,
        -0x8000_0000_0000_0000 <= y <= 0x7FFF_FFFF_FFFF_FFFF,
    ensures
        -0x4000_0000_0000_0000_0000_0000_0000_0000 <= x * y
            <= 0x4000_0000_0000_0000_0000_0000_0000_0000,
{
}

/// A positive number times a nonzero number is nonzero.
proof fn lemma_prod_nonzero(x: int, y: int)
    by (nonlinear_arith)
    requires
        x >= 1,
        y != 0,
    ensures
        x * y != 0,
{
}

/// Cross-product bounds for two well-formed rationals: with positive
/// denominators, sums and differences of the cross products also stay inside
/// the wide intermediate type.
proof fn lemma_rat_cross_bounds(n1: int, d1: int, n2: int, d2: int)
    by (nonlinear_arith)
    requires
        -0x8000_0000_0000_0000 <= n1 <= 0x7FFF_FFFF_FFFF_FFFF,
        -0x8000_0000_0000_0000 <= n2 <= 0x7FFF_FFFF_FFFF_FFFF,
        1 <= d1 <= 0x7FFF_FFFF_FFFF_FFFF,
        1 <= d2 <= 0x7FFF_FFFF_FFFF_FFFF,
    ensures
        -0x4000_0000_0000_0000_0000_0000_0000_0000 <= n1 * d2
            <= 0x4000_0000_0000_0000_0000_0000_0000_0000,
        -0x4000_0000_0000_0000_0000_0000_0000_0000 <= n2 * d1
            <= 0x4000_0000_0000_0000_0000_0000_0000_0000,
        -0x7FFF_FFFF_FFFF_FFFF_FFFF_FFFF_FFFF_FFFF <= n1 * d2 + n2 * d1
            <= 0x7FFF_FFFF_FFFF_FFFF_FFFF_FFFF_FFFF_FFFF,
        -0x7FFF_FFFF_FFFF_FFFF_FFFF_FFFF_FFFF_FFFF <= n1 * d2 - n2 * d1
            <= 0x7FFF_FFFF_FFFF_FFFF_FFFF_FFFF_FFFF_FFFF,
        1 <= d1 * d2 <= 0x4000_0000_0000_0000_0000_0000_0000_0000,
{
}


/// A fraction at the specification level: a pair of mathematical integers.
///
/// Contracts use `Fr` to write down the exact rational a computation must
/// produce, independent of reduction and machine bounds.
pub struct Fr {
    /// Numerator.
    pub n: int,
    /// Denominator.
    pub d: int,
}

/// The fraction a [`Rat`] denotes.
pub open spec fn fr(r: Rat) -> Fr {
    Fr { n: r.n(), d: r.d() }
}

/// Fraction equality: `a.n / a.d == b.n / b.d` (denominators nonzero).
pub open spec fn fr_eq(a: Fr, b: Fr) -> bool {
    a.n * b.d == b.n * a.d
}

/// Fraction sum.
pub open spec fn fr_add(a: Fr, b: Fr) -> Fr {
    Fr { n: a.n * b.d + b.n * a.d, d: a.d * b.d }
}

/// Fraction difference.
pub open spec fn fr_sub(a: Fr, b: Fr) -> Fr {
    Fr { n: a.n * b.d - b.n * a.d, d: a.d * b.d }
}

/// Fraction product.
pub open spec fn fr_mul(a: Fr, b: Fr) -> Fr {
    Fr { n: a.n * b.n, d: a.d * b.d }
}

/// Fraction quotient.
pub open spec fn fr_div(a: Fr, b: Fr) -> Fr {
    Fr { n: a.n * b.d, d: a.d * b.n }
}

/// Fraction equality is transitive when the middle denominator is nonzero.
pub proof fn lemma_fr_trans(a: Fr, b: Fr, c: Fr)
    by (nonlinear_arith)
    requires
        b.d != 0,
        fr_eq(a, b),
        fr_eq(b, c),
    ensures
        fr_eq(a, c),
{
}

/// Replacing the left operand of a sum by an equal fraction gives an equal
/// sum.
pub proof fn lemma_fr_add_congr(a1: Fr, a2: Fr, b: Fr)
    requires
        a1.d != 0,
        a2.d != 0,
        b.d != 0,
        fr_eq(a1, a2),
    ensures
        fr_eq(fr_add(a1, b), fr_add(a2, b)),
{
    let p = a1.n;
    let q = a1.d;
    let r = a2.n;
    let s = a2.d;
    let u = b.n;
    let w = b.d;
    assert((p * w + u * q) * (s * w) == (p * w) * (s * w) + (u * q) * (s * w)) by (nonlinear_arith);
    assert((p * w) * (s * w) == (p * s) * (w * w)) by (nonlinear_arith);
    assert((u * q) * (s * w) == (u * w) * (q * s)) by (nonlinear_arith);
    assert((r * w + u * s) * (q * w) == (r * w) * (q * w) + (u * s) * (q * w)) by (nonlinear_arith);
    assert((r * w) * (q * w) == (r * q) * (w * w)) by (nonlinear_arith);
    assert((u * s) * (q * w) == (u * w) * (s * q)) by (nonlinear_arith);
    assert((p * s) * (w * w) == (r * q) * (w * w)) by (nonlinear_arith)
        requires
            p * s == r * q,
    ;
}

/// Replacing the left operand of a difference by an equal fraction gives an
/// equal difference.
pub proof fn lemma_fr_sub_congr(a1: Fr, a2: Fr, b: Fr)
    requires
        a1.d != 0,
        a2.d != 0,
        b.d != 0,
        fr_eq(a1, a2),
    ensures
        fr_eq(fr_sub(a1, b), fr_sub(a2, b)),
{
    let p = a1.n;
    let q = a1.d;
    let r = a2.n;
    let s = a2.d;
    let u = b.n;
    let w = b.d;
    assert((p * w - u * q) * (s * w) == (p * w) * (s * w) - (u * q) * (s * w)) by (nonlinear_arith);
    assert((p * w) * (s * w) == (p * s) * (w * w)) by (nonlinear_arith);
    assert((u * q) * (s * w) == (u * w) * (q * s)) by (nonlinear_arith);
    assert((r * w - u * s) * (q * w) == (r * w) * (q * w) - (u * s) * (q * w)) by (nonlinear_arith);
    assert((r * w) * (q * w) == (r * q) * (w * w)) by (nonlinear_arith);
    assert((u * s) * (q * w) == (u * w) * (s * q)) by (nonlinear_arith);
    assert((p * s) * (w * w) == (r * q) * (w * w)) by (nonlinear_arith)
        requires
            p * s == r * q,
    ;
}

/// Replacing the dividend by an equal fraction gives an equal quotient.
pub proof fn lemma_fr_div_congr(a1: Fr, a2: Fr, b: Fr)
    requires
        a1.d != 0,
        a2.d != 0,
        b.d != 0,
        b.n != 0,
        fr_eq(a1, a2),
    ensures
        fr_eq(fr_div(a1, b), fr_div(a2, b)),
{
    assert((a1.n * b.d) * (a2.d * b.n) == (a2.n * b.d) * (a1.d * b.n)) by (nonlinear_arith)
        requires
            a1.n * a2.d == a2.n * a1.d,
    ;
}

/// Full reduction never grows the magnitude of either part.
pub proof fn lemma_norm_bounds(n: int, d: int)
    requires
        d != 0,
    ensures
        iabs(norm_num(n, d)) <= iabs(n),
        1 <= norm_den(n, d) <= iabs(d),
{
    let an = iabs(n);
    let ad = iabs(d);
    let g = norm_g(n, d);
    lemma_gcd_divides(an, ad);
    lemma_divisor_le(ad, g);
    vstd::arithmetic::div_mod::lemma_div_nonincreasing(an as int, g as int);
    vstd::arithmetic::div_mod::lemma_div_nonincreasing(ad as int, g as int);
    vstd::arithmetic::div_mod::lemma_div_pos_is_pos(an as int, g as int);
}

} // verus!
