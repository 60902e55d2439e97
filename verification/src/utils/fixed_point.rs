//! Fixed-point arithmetic in 16.16 format: 16 integer bits and 16 fractional
//! bits held in an `i32`, so a value stands for `raw / 65536`.
//! Range: approximately ±32767.9999; precision 1/65536.

use vstd::prelude::*;

verus! {

/// `x` reduced modulo 2^32 into the `i32` range, as two's-complement
/// wrapping arithmetic does.
pub open spec fn wrap_i32(x: int) -> int {
    let r = x % 0x1_0000_0000;
    if r > i32::MAX {
        r - 0x1_0000_0000
    } else {
        r
    }
}

/// `x / d` rounded toward zero, as integer division rounds.
pub open spec fn quotient_toward_zero(x: int, d: int) -> int {
    if x == 0 {
        0
    } else if x > 0 && d > 0 {
        x / d
    } else if x < 0 && d < 0 {
        (-x) / (-d)
    } else if x < 0 {
        -((-x) / d)
    } else {
        -(x / (-d))
    }
}

/// Raw representation of the integer `n`.
pub open spec fn fixed_of_int(n: int) -> int {
    wrap_i32(n * 65536)
}

/// The integer part of the raw value `r`: the fraction dropped, rounding
/// toward zero.
pub open spec fn int_of_fixed(r: int) -> int {
    quotient_toward_zero(r, 65536)
}

/// Raw sum, wrapping on overflow.
pub open spec fn fixed_sum(a: int, b: int) -> int {
    wrap_i32(a + b)
}

/// Raw product: the exact product of the raws, shifted right by the 16
/// fractional bits, then wrapped.
pub open spec fn fixed_product(a: int, b: int) -> int {
    wrap_i32((a * b) / 65536)
}

/// Raw quotient: `a` shifted left by the 16 fractional bits, divided by `b`
/// rounding toward zero, then wrapped.
pub open spec fn fixed_quotient(a: int, b: int) -> int {
    wrap_i32(quotient_toward_zero(a * 65536, b))
}

proof fn lemma_wrap_congruent(x: int)
    ensures
        wrap_i32(x) % 0x1_0000_0000 == x % 0x1_0000_0000,
        i32::MIN <= wrap_i32(x) <= i32::MAX,
{
    let r = x % 0x1_0000_0000;
    if r > i32::MAX {
        vstd::arithmetic::div_mod::lemma_mod_sub_multiples_vanish(r, 0x1_0000_0000);
        vstd::arithmetic::div_mod::lemma_mod_twice(x, 0x1_0000_0000);
    } else {
        vstd::arithmetic::div_mod::lemma_mod_twice(x, 0x1_0000_0000);
    }
}

/// Converting an integer that fits in 16 signed bits to fixed point and back
/// gives the integer back.
pub proof fn lemma_int_round_trip(n: int)
    requires
        -32768 <= n <= 32767,
    ensures
        int_of_fixed(fixed_of_int(n)) == n,
{
    assert(fixed_of_int(n) == n * 65536);
}

/// Adding the fixed-point forms of two integers gives the fixed-point form of
/// their sum, wrapping included.
pub proof fn lemma_sum_of_ints(a: int, b: int)
    ensures
        fixed_sum(fixed_of_int(a), fixed_of_int(b)) == fixed_of_int(a + b),
{
    let m: int = 0x1_0000_0000;
    lemma_wrap_congruent(a * 65536);
    lemma_wrap_congruent(b * 65536);
    let wa = wrap_i32(a * 65536);
    let wb = wrap_i32(b * 65536);
    vstd::arithmetic::div_mod::lemma_add_mod_noop(wa, wb, m);
    vstd::arithmetic::div_mod::lemma_add_mod_noop(a * 65536, b * 65536, m);
    assert((wa + wb) % m == (a * 65536 + b * 65536) % m);
    assert(a * 65536 + b * 65536 == (a + b) * 65536);
}

/// Multiplying by fixed-point one leaves every value unchanged.
pub proof fn lemma_product_by_one(r: i32)
    ensures
        fixed_product(fixed_of_int(1), r as int) == r,
{
    assert(fixed_of_int(1) == 65536);
}

/// Dividing by fixed-point one leaves every value unchanged.
pub proof fn lemma_quotient_by_one(r: i32)
    ensures
        fixed_quotient(r as int, fixed_of_int(1)) == r,
{
    assert(fixed_of_int(1) == 65536);
    if r < 0 {
        assert((-(r * 65536)) / 65536 == -r);
    }
}

/// Fixed-point number in 16.16 format.
#[derive(Debug, Clone, Copy, PartialEq, Eq, Structural)]
pub struct Fixed(i32);

impl Fixed {
    /// The raw 32-bit representation: the value times 65536.
    pub closed spec fn raw(self) -> i32 {
        self.0
    }

    /// The fixed-point value of the integer `n`, wrapping outside ±32768.
    pub fn from_i32(n: i32) -> (f: Fixed)
        ensures
            f.raw() == fixed_of_int(n as int),
    {
        let r = n.wrapping_shl(16);
        proof {
            assert((n << 16u32) as int == wrap_i32(n * 65536)) by (bit_vector);
        }
        Fixed(r)
    }

    /// The integer part: the fraction is dropped, toward zero.
    pub fn to_i32(&self) -> (n: i32)
        ensures
            n == int_of_fixed(self.raw() as int),
    {
        let x = self.0;
        if x >= 0 {
            x / 65536
        } else {
            let q = (-(x as i64)) / 65536;
            proof {
                assert(q <= 32768);
            }
            -(q as i32)
        }
    }

    /// Sum, wrapping on overflow.
    pub fn add(&self, other: &Fixed) -> (s: Fixed)
        ensures
            s.raw() == fixed_sum(self.raw() as int, other.raw() as int),
    {
        let a = self.0;
        let b = other.0;
        let r = a.wrapping_add(b);
        proof {
            assert(a.wrapping_add(b) as int == wrap_i32(a + b)) by (bit_vector);
        }
        Fixed(r)
    }

    /// Product, computed exactly in 64 bits, rescaled and wrapped.
    pub fn mul(&self, other: &Fixed) -> (p: Fixed)
        ensures
            p.raw() == fixed_product(self.raw() as int, other.raw() as int),
    {
        let a = self.0 as i64;
        let b = other.0 as i64;
        assert(i64::MIN <= a * b <= i64::MAX) by (nonlinear_arith)
            requires
                i32::MIN <= a <= i32::MAX,
                i32::MIN <= b <= i32::MAX,
        ;
        let product = a * b;
        let shifted = product >> 16u64;
        proof {
            assert((product >> 16u64) * 65536 <= product < (product >> 16u64) * 65536 + 65536)
                by (bit_vector);
            assert(shifted == product / 65536);
            assert(shifted as i32 as int == wrap_i32(shifted as int)) by (bit_vector);
        }
        Fixed(shifted as i32)
    }

    /// Quotient, or `None` when `other` is zero.
    pub fn div(&self, other: &Fixed) -> (q: Option<Fixed>)
        ensures
            q.is_none() <==> other.raw() == 0,
            q.is_some() ==> q.unwrap().raw() == fixed_quotient(
                self.raw() as int,
                other.raw() as int,
            ),
    {
        if other.0 == 0 {
            return None;
        }
        let a = self.0;
        let dividend = (a as i64) << 16u64;
        proof {
            assert(((a as i64) << 16u64) as int == a * 65536) by (bit_vector);
        }
        let divisor = other.0 as i64;
        let ghost x = dividend as int;
        let ghost d = divisor as int;
        proof {
            assert(0 <= (if x < 0 { -x } else { x }) / (if d < 0 { -d } else { d }) <= (if x < 0 {
                -x
            } else {
                x
            })) by (nonlinear_arith)
                requires
                    d != 0,
            ;
        }
        match dividend.checked_div(divisor) {
            Some(quotient) => {
                proof {
                    assert(quotient as i32 as int == wrap_i32(quotient as int)) by (bit_vector);
                }
                Some(Fixed(quotient as i32))
            },
            None => None,
        }
    }
}

/// A 3x3 matrix of fixed-point numbers.
#[derive(Debug, Clone, Copy)]
pub struct FixedMatrix3x3 {
    pub m: [[Fixed; 3]; 3],
}

impl FixedMatrix3x3 {
    /// The identity matrix: one on the diagonal, zero elsewhere.
    pub fn identity() -> (id: Self)
        ensures
            forall|i: int, j: int|
                0 <= i < 3 && 0 <= j < 3 ==> (#[trigger] id.m[i][j]).raw() == if i == j {
                    65536int
                } else {
                    0int
                },
    {
        let one = Fixed::from_i32(1);
        let zero = Fixed::from_i32(0);
        assert(fixed_of_int(1) == 65536 && fixed_of_int(0) == 0);
        FixedMatrix3x3 { m: [[one, zero, zero], [zero, one, zero], [zero, zero, one]] }
    }
}

} // verus!
