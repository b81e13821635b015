//! Double precision numbers, by their bits.

use vstd::arithmetic::power2::{
    lemma2_to64, lemma2_to64_rest, lemma_pow2_adds, lemma_pow2_pos, lemma_pow2_strictly_increases,
    lemma_pow2_unfold, pow2,
};
use vstd::prelude::*;

verus! {

/// An IEEE 754 double precision number, held as its 64 bits: the sign, eleven
/// bits of exponent and fifty-two bits of fraction.
#[derive(Debug, Clone, Copy)]
pub struct Double {
    pub bits: u64,
}

/// The number of fractions that one exponent has.
pub open spec fn fractions() -> nat {
    0x10_0000_0000_0000
}

/// The lowest bits with the sign set.
pub open spec fn sign_bit() -> nat {
    0x8000_0000_0000_0000
}

/// The bits of positive infinity: all exponent bits set, no fraction.
pub open spec fn infinity() -> nat {
    0x7FF0_0000_0000_0000
}

/// The size that bits without a sign stand for, in units of two to the power
/// of -1074, the least size above zero. Infinity has a size above that of
/// every number.
pub open spec fn size_of_bits(magnitude: nat) -> nat {
    let exponent = magnitude / fractions();
    let fraction = magnitude % fractions();
    if exponent == 0 {
        fraction
    } else {
        (fractions() + fraction) * pow2((exponent - 1) as nat)
    }
}

/// More bits stand for a greater size.
pub proof fn lemma_size_increases(a: nat, b: nat)
    requires
        a < b,
    ensures
        size_of_bits(a) < size_of_bits(b),
{
    let (ea, fa) = (a / fractions(), a % fractions());
    let (eb, fb) = (b / fractions(), b % fractions());
    assert(ea <= eb && (ea == eb ==> fa < fb)) by (nonlinear_arith)
        requires
            a < b,
            a == ea * 0x10_0000_0000_0000 + fa,
            b == eb * 0x10_0000_0000_0000 + fb,
            0 <= fa < 0x10_0000_0000_0000,
            0 <= fb < 0x10_0000_0000_0000,
    ;
    if eb > 0 {
        let pb = pow2((eb - 1) as nat);
        lemma_pow2_pos((eb - 1) as nat);
        assert((fractions() + fb) * pb >= fractions() * pb) by (nonlinear_arith)
            requires
                fb >= 0,
                pb > 0,
        ;
        if ea == eb {
            assert((fractions() + fa) * pb < (fractions() + fb) * pb) by (nonlinear_arith)
                requires
                    fa < fb,
                    pb > 0,
            ;
        } else if ea == 0 {
            assert(fractions() * pb >= fractions()) by (nonlinear_arith)
                requires
                    pb > 0,
            ;
        } else {
            let pa = pow2((ea - 1) as nat);
            lemma_pow2_unfold(ea);
            lemma_pow2_pos((ea - 1) as nat);
            if ea < eb - 1 {
                lemma_pow2_strictly_increases(ea, (eb - 1) as nat);
            }
            assert((fractions() + fa) * pa < fractions() * pb) by (nonlinear_arith)
                requires
                    fa < fractions(),
                    2 * pa <= pb,
                    pa > 0,
            ;
        }
    }
}

impl Double {
    /// The bits but for the sign.
    pub open spec fn magnitude(self) -> nat {
        self.bits as nat % sign_bit()
    }

    /// Whether these bits are no number.
    pub open spec fn is_nan(self) -> bool {
        self.magnitude() > infinity()
    }

    /// The number, in units of two to the power of -1074. Infinity is above
    /// every number, its negative below.
    pub open spec fn number(self) -> int {
        if self.bits < sign_bit() {
            size_of_bits(self.magnitude()) as int
        } else {
            -size_of_bits(self.magnitude())
        }
    }

    /// The place in the order of all bits: the negative ones first, the greater
    /// the size the earlier, then the positive ones by size. The two zeros have
    /// one place, and what is no number stands at the ends.
    pub open spec fn rank(self) -> int {
        if self.bits < sign_bit() {
            self.bits as int
        } else {
            sign_bit() - self.bits
        }
    }

    /// This number, or the nearer of 0 and 1 where it lies outside them. What
    /// is no number stays as it is.
    pub open spec fn clamped(self) -> Double {
        let zero = Double { bits: 0 };
        let one = Double { bits: 0x3FF0_0000_0000_0000 };
        if self.is_nan() {
            self
        } else if self.number() < zero.number() {
            zero
        } else if self.number() > one.number() {
            one
        } else {
            self
        }
    }

    /// Whether this is a number at least as great as another.
    pub open spec fn at_least(self, other: Double) -> bool {
        !self.is_nan() && !other.is_nan() && self.number() >= other.number()
    }
}

/// The order goes by the number, as far as there is one.
pub proof fn lemma_rank_orders_numbers(a: Double, b: Double)
    ensures
        a.rank() <= b.rank() <==> a.number() <= b.number(),
{
    lemma_number_order(b, a);
}

/// Numbers compare as their bits do, once the two zeros are taken for one.
proof fn lemma_number_order(a: Double, b: Double)
    ensures
        a.rank() >= b.rank() <==> a.number() >= b.number(),
{
    let (ma, mb) = (a.magnitude(), b.magnitude());
    if ma < mb {
        lemma_size_increases(ma, mb);
    }
    if mb < ma {
        lemma_size_increases(mb, ma);
    }
    if 0 < ma {
        lemma_size_increases(0, ma);
    }
    if 0 < mb {
        lemma_size_increases(0, mb);
    }
    assert(a.bits >= sign_bit() ==> ma == a.bits - sign_bit());
    assert(b.bits >= sign_bit() ==> mb == b.bits - sign_bit());
}

impl Double {
    /// Whether these bits are no number.
    pub fn nan(&self) -> (r: bool)
        ensures
            r == self.is_nan(),
    {
        self.bits % 0x8000_0000_0000_0000 > 0x7FF0_0000_0000_0000
    }

    /// Whether this is a number at least as great as another: the `>=` of
    /// doubles.
    pub fn ge(&self, other: &Double) -> (r: bool)
        ensures
            r == self.at_least(*other),
    {
        proof {
            lemma_number_order(*self, *other);
        }
        if self.nan() || other.nan() {
            false
        } else if self.bits < 0x8000_0000_0000_0000 {
            if other.bits < 0x8000_0000_0000_0000 {
                self.bits >= other.bits
            } else {
                true
            }
        } else if other.bits < 0x8000_0000_0000_0000 {
            self.bits == 0x8000_0000_0000_0000 && other.bits == 0
        } else {
            self.bits <= other.bits
        }
    }

    /// This number, or the nearer of 0 and 1 where it lies outside them. What
    /// is no number stays as it is.
    pub fn clamp_to_unit(&self) -> (r: Double)
        ensures
            r == self.clamped(),
            !self.is_nan() ==> r.at_least(Double { bits: 0 }) && (Double {
                bits: 0x3FF0_0000_0000_0000,
            }).at_least(r),
    {
        let zero = Double { bits: 0 };
        let one = Double { bits: 0x3FF0_0000_0000_0000 };
        proof {
            lemma_number_order(zero, *self);
            lemma_number_order(*self, zero);
            lemma_number_order(*self, one);
            lemma_number_order(one, *self);
            lemma_number_order(one, zero);
            lemma_number_order(zero, one);
        }
        if self.nan() {
            *self
        } else if !self.ge(&zero) {
            zero
        } else if !one.ge(self) {
            one
        } else {
            *self
        }
    }

    /// Whether this comes before another in the order of all bits.
    pub fn before(&self, other: &Double) -> (r: bool)
        ensures
            r == (self.rank() < other.rank()),
    {
        if self.bits < 0x8000_0000_0000_0000 {
            other.bits < 0x8000_0000_0000_0000 && self.bits < other.bits
        } else if other.bits < 0x8000_0000_0000_0000 {
            self.bits != 0x8000_0000_0000_0000 || other.bits != 0
        } else {
            self.bits > other.bits
        }
    }
}

/// The double that is two to the power of 64.
pub open spec fn two_to_64() -> Double {
    Double { bits: 0x43F0_0000_0000_0000 }
}

/// The number of that double, in its units.
pub proof fn lemma_two_to_64()
    ensures
        two_to_64().number() == pow2(64 + 1074),
        !two_to_64().is_nan(),
{
    let magnitude: nat = 0x43F0_0000_0000_0000;
    lemma2_to64_rest();
    lemma_pow2_adds(52, 1086);
    assert(two_to_64().magnitude() == magnitude);
    assert(magnitude / fractions() == 1087 && magnitude % fractions() == 0);
    assert(size_of_bits(magnitude) == (fractions() + 0) * pow2(1086));
    assert(fractions() == pow2(52));
}

impl PartialEq for Double {
    fn eq(&self, other: &Self) -> (r: bool) {
        self.ge(other) && other.ge(self)
    }
}

impl vstd::std_specs::cmp::PartialEqSpecImpl for Double {
    open spec fn obeys_eq_spec() -> bool {
        true
    }

    open spec fn eq_spec(&self, other: &Self) -> bool {
        self.at_least(*other) && other.at_least(*self)
    }
}

/// The least number above zero is the unit, zero is zero, and the sign turns a
/// number round.
pub proof fn law_units_and_signs(bits: u64)
    requires
        bits < 0x8000_0000_0000_0000,
    ensures
        (Double { bits: 0 }).number() == 0,
        (Double { bits: 1 }).number() == 1,
        (Double { bits }).number() >= 0,
        (Double { bits: (bits + 0x8000_0000_0000_0000) as u64 }).number() == -(Double {
            bits,
        }).number(),
{
    let turned = Double { bits: (bits + 0x8000_0000_0000_0000) as u64 };
    assert(turned.magnitude() == (Double { bits }).magnitude());
}

/// Below the first exponent numbers grow by one unit with each bit pattern, and
/// from there on the next exponent doubles them.
pub proof fn law_exponents_double(bits: u64)
    requires
        bits < 0x7FF0_0000_0000_0000,
    ensures
        bits < 0x10_0000_0000_0000 ==> (Double { bits }).number() == bits,
        bits >= 0x10_0000_0000_0000 ==> (Double {
            bits: (bits + 0x10_0000_0000_0000) as u64,
        }).number() == 2 * (Double { bits }).number(),
        0x10_0000_0000_0000 <= bits < 0x20_0000_0000_0000 ==> (Double { bits }).number() == bits,
{
    let m = bits as nat;
    let e = m / fractions();
    let f = m % fractions();
    assert((Double { bits }).magnitude() == m);
    if bits < 0x10_0000_0000_0000 {
        assert(e == 0 && f == m);
    } else {
        let next = Double { bits: (bits + 0x10_0000_0000_0000) as u64 };
        assert(next.magnitude() == m + fractions());
        assert(next.magnitude() / fractions() == e + 1 && next.magnitude() % fractions() == f);
        lemma_pow2_unfold(e);
        let p = pow2((e - 1) as nat);
        assert((fractions() + f) * (2 * p) == 2 * ((fractions() + f) * p)) by (nonlinear_arith);
        if bits < 0x20_0000_0000_0000 {
            assert(e == 1 && f == m - fractions());
            lemma2_to64();
            assert((fractions() + f) * 1 == fractions() + f);
        }
    }
}

/// What is no number has all exponent bits set and a fraction, and is at least
/// as great as nothing; between numbers that are not negative the bits decide.
pub proof fn law_bits_decide(a: Double, b: Double)
    ensures
        a.is_nan() <==> (0x7FF0_0000_0000_0000 < a.bits <= 0x7FFF_FFFF_FFFF_FFFF) || a.bits
            > 0xFFF0_0000_0000_0000,
        a.is_nan() || b.is_nan() ==> !a.at_least(b),
        a.bits <= 0x7FF0_0000_0000_0000 && b.bits <= 0x7FF0_0000_0000_0000 ==> (a.at_least(b) <==> a.bits
            >= b.bits) && (a.rank() >= b.rank() <==> a.bits >= b.bits),
        0x8000_0000_0000_0000 < a.bits <= 0xFFF0_0000_0000_0000 && b.bits <= 0x7FF0_0000_0000_0000
            ==> !a.at_least(b) && b.at_least(a) && a.rank() < b.rank(),
        0x8000_0000_0000_0000 <= a.bits <= 0xFFF0_0000_0000_0000 && 0x8000_0000_0000_0000 <= b.bits
            <= 0xFFF0_0000_0000_0000 ==> (a.at_least(b) <==> a.bits <= b.bits) && (a.rank()
            >= b.rank() <==> a.bits <= b.bits),
        a.bits == 0 && b.bits == 0x8000_0000_0000_0000 ==> a.at_least(b) && b.at_least(a) && a.rank()
            == b.rank(),
{
    lemma_number_order(a, b);
    lemma_number_order(b, a);
}

/// Clamping keeps a number between 0 and 1, and takes any other to the nearer
/// of them.
pub proof fn law_clamping(d: Double)
    ensures
        d.bits <= 0x3FF0_0000_0000_0000 ==> d.clamped() == d,
        0x3FF0_0000_0000_0000 < d.bits <= 0x7FF0_0000_0000_0000 ==> d.clamped().bits
            == 0x3FF0_0000_0000_0000,
        0x8000_0000_0000_0000 < d.bits <= 0xFFF0_0000_0000_0000 ==> d.clamped().bits == 0,
        d.is_nan() || d.bits == 0x8000_0000_0000_0000 ==> d.clamped() == d,
{
    let zero = Double { bits: 0 };
    let one = Double { bits: 0x3FF0_0000_0000_0000 };
    lemma_number_order(d, zero);
    lemma_number_order(zero, d);
    lemma_number_order(d, one);
    lemma_number_order(one, d);
}

/// The order of all bits puts every pattern without a sign above every pattern
/// with one but for the two zeros, which are one, and goes up with the patterns
/// without and down with the patterns with a sign.
pub proof fn law_order_of_all_bits(a: Double, b: Double)
    ensures
        a.bits < 0x8000_0000_0000_0000 && b.bits < 0x8000_0000_0000_0000 ==> (a.rank() < b.rank()
            <==> a.bits < b.bits),
        a.bits >= 0x8000_0000_0000_0000 && b.bits >= 0x8000_0000_0000_0000 ==> (a.rank() < b.rank()
            <==> a.bits > b.bits),
        a.bits > 0x8000_0000_0000_0000 && b.bits < 0x8000_0000_0000_0000 ==> a.rank() < b.rank(),
        a.bits == 0x8000_0000_0000_0000 && b.bits == 0 ==> a.rank() == b.rank(),
{
}

} // verus!
