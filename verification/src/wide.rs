//! Exact comparison of products that do not fit in 128 bits.

use vstd::prelude::*;

verus! {

/// Two to the power 64: the base in which a 128-bit number has two digits.
pub open spec fn base() -> int {
    0x1_0000_0000_0000_0000
}

/// A 256-bit natural number, `hi * 2^128 + lo`.
#[derive(Clone, Copy, Debug)]
pub struct Wide {
    pub hi: u128,
    pub lo: u128,
}

impl Wide {
    /// The number that the two halves stand for.
    pub open spec fn value(self) -> int {
        self.hi * (base() * base()) + self.lo
    }

    /// Whether this number is at least `other`.
    pub fn ge(&self, other: &Wide) -> (r: bool)
        ensures
            r == (self.value() >= other.value()),
    {
        assert(base() * base() == 0x1_0000_0000_0000_0000_0000_0000_0000_0000) by (nonlinear_arith);
        self.hi > other.hi || (self.hi == other.hi && self.lo >= other.lo)
    }
}

proof fn lemma_digit_product(x: int, y: int)
    by (nonlinear_arith)
    requires
        0 <= x < base(),
        0 <= y < base(),
    ensures
        0 <= x * y <= (base() - 1) * (base() - 1),
        (base() - 1) * (base() - 1) == 0xffff_ffff_ffff_fffe_0000_0000_0000_0001,
{
}

proof fn lemma_split_product(a1: int, a0: int, b1: int, b0: int, b: int)
    ensures
        (a1 * b + a0) * (b1 * b + b0) == (a1 * b1) * (b * b) + (a0 * b1 + a1 * b0) * b + a0 * b0,
{
    let x = a1 * b;
    let y = b1 * b;
    assert((x + a0) * (y + b0) == x * y + x * b0 + a0 * y + a0 * b0) by (nonlinear_arith);
    assert(x * y == (a1 * b1) * (b * b)) by (nonlinear_arith)
        requires
            x == a1 * b,
            y == b1 * b,
    ;
    assert(x * b0 == (a1 * b0) * b) by (nonlinear_arith)
        requires
            x == a1 * b,
    ;
    assert(a0 * y == (a0 * b1) * b) by (nonlinear_arith)
        requires
            y == b1 * b,
    ;
    assert((a0 * b1 + a1 * b0) * b == (a0 * b1) * b + (a1 * b0) * b) by (nonlinear_arith);
}

/// The full product of two 128-bit numbers.
pub fn mul_wide(a: u128, b: u128) -> (w: Wide)
    ensures
        w.value() == a * b,
{
    let a1: u128 = a / 0x1_0000_0000_0000_0000;
    let a0: u128 = a % 0x1_0000_0000_0000_0000;
    let b1: u128 = b / 0x1_0000_0000_0000_0000;
    let b0: u128 = b % 0x1_0000_0000_0000_0000;
    proof {
        lemma_digit_product(a0 as int, b0 as int);
        lemma_digit_product(a0 as int, b1 as int);
        lemma_digit_product(a1 as int, b0 as int);
        lemma_digit_product(a1 as int, b1 as int);
        lemma_split_product(a1 as int, a0 as int, b1 as int, b0 as int, base());
        assert(base() * base() == 0x1_0000_0000_0000_0000_0000_0000_0000_0000) by (nonlinear_arith);
    }
    let p00: u128 = a0 * b0;
    let p01: u128 = a0 * b1;
    let p10: u128 = a1 * b0;
    let p11: u128 = a1 * b1;
    let mid: u128 = p00 / 0x1_0000_0000_0000_0000 + p01 % 0x1_0000_0000_0000_0000 + p10
        % 0x1_0000_0000_0000_0000;
    let lo: u128 = (mid % 0x1_0000_0000_0000_0000) * 0x1_0000_0000_0000_0000 + p00
        % 0x1_0000_0000_0000_0000;
    let hi: u128 = p11 + p01 / 0x1_0000_0000_0000_0000 + p10 / 0x1_0000_0000_0000_0000 + mid
        / 0x1_0000_0000_0000_0000;
    proof {
        let bb = base();
        assert((a0 * b1 + a1 * b0) * bb == (p01 as int) * bb + (p10 as int) * bb) by (nonlinear_arith)
            requires
                p01 == a0 * b1,
                p10 == a1 * b0,
        ;
        assert((a1 * b1) * (bb * bb) == (p11 as int) * (bb * bb)) by (nonlinear_arith)
            requires
                p11 == a1 * b1,
        ;
        assert(a == a1 * bb + a0);
        assert(b == b1 * bb + b0);
    }
    Wide { hi, lo }
}

/// Whether `a * b >= c * d`, decided without overflow.
pub fn product_ge(a: u128, b: u128, c: u128, d: u128) -> (r: bool)
    ensures
        r == (a * b >= c * d),
{
    let left = mul_wide(a, b);
    let right = mul_wide(c, d);
    left.ge(&right)
}

} // verus!
