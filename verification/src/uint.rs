//! Unsigned 256-bit integers: the numbers that name positions in the substate address space.
use vstd::arithmetic::div_mod::{lemma_fundamental_div_mod, lemma_fundamental_div_mod_converse};
use vstd::prelude::*;

verus! {

/// 2^64, the base of one word.
pub open spec fn word_base() -> int {
    18446744073709551616int
}

/// 2^128.
pub open spec fn word_base2() -> int {
    340282366920938463463374607431768211456int
}

/// 2^192.
pub open spec fn word_base3() -> int {
    6277101735386680763835789423207666416102355444464034512896int
}

/// 2^256, one more than the largest value of a `U256`.
pub open spec fn u256_modulus() -> int {
    115792089237316195423570985008687907853269984665640564039457584007913129639936int
}

/// 2^256 - 1, the largest value of a `U256`.
pub open spec fn u256_max() -> nat {
    115792089237316195423570985008687907853269984665640564039457584007913129639935nat
}

/// An unsigned 256-bit integer, held as four 64-bit words, least significant first.
#[derive(Clone, Copy, Debug, PartialEq, Eq, Structural, Hash)]
pub struct U256 {
    w0: u64,
    w1: u64,
    w2: u64,
    w3: u64,
}

impl View for U256 {
    type V = nat;

    /// The number that the four words spell.
    closed spec fn view(&self) -> nat {
        (self.w0 + word_base() * self.w1 + word_base2() * self.w2 + word_base3() * self.w3) as nat
    }
}

/// Every `U256` lies in `0..=2^256 - 1`.
pub proof fn lemma_u256_bounded(x: U256)
    ensures
        x@ <= u256_max(),
{
}

/// Two `U256` values with the same number are the same value.
pub proof fn lemma_u256_view_injective(a: U256, b: U256)
    requires
        a@ == b@,
    ensures
        a == b,
{
    lemma_words_unique(a, b);
}

proof fn lemma_words_unique(a: U256, b: U256)
    requires
        a@ == b@,
    ensures
        a.w0 == b.w0,
        a.w1 == b.w1,
        a.w2 == b.w2,
        a.w3 == b.w3,
{
    assert(a.w3 == b.w3);
    assert(a.w2 == b.w2);
    assert(a.w1 == b.w1);
}

impl U256 {
    /// The number zero.
    pub fn zero() -> (r: U256)
        ensures
            r@ == 0,
    {
        U256 { w0: 0, w1: 0, w2: 0, w3: 0 }
    }

    /// The number one.
    pub fn one() -> (r: U256)
        ensures
            r@ == 1,
    {
        U256 { w0: 1, w1: 0, w2: 0, w3: 0 }
    }

    /// The largest value, 2^256 - 1.
    pub fn max_value() -> (r: U256)
        ensures
            r@ == u256_max(),
    {
        U256 { w0: u64::MAX, w1: u64::MAX, w2: u64::MAX, w3: u64::MAX }
    }

    /// The number `v`.
    pub fn from_u32(v: u32) -> (r: U256)
        ensures
            r@ == v,
    {
        U256 { w0: v as u64, w1: 0, w2: 0, w3: 0 }
    }

    /// The number `v`.
    pub fn from_u64(v: u64) -> (r: U256)
        ensures
            r@ == v,
    {
        U256 { w0: v, w1: 0, w2: 0, w3: 0 }
    }

    /// `self + other`, or `None` where the sum exceeds 2^256 - 1.
    pub fn checked_add(self, other: U256) -> (r: Option<U256>)
        ensures
            match r {
                Some(s) => s@ == self@ + other@,
                None => self@ + other@ > u256_max(),
            },
    {
        let t0: u128 = self.w0 as u128 + other.w0 as u128;
        let r0: u64 = (t0 % 0x1_0000_0000_0000_0000u128) as u64;
        let c0: u128 = t0 / 0x1_0000_0000_0000_0000u128;
        let t1: u128 = self.w1 as u128 + other.w1 as u128 + c0;
        let r1: u64 = (t1 % 0x1_0000_0000_0000_0000u128) as u64;
        let c1: u128 = t1 / 0x1_0000_0000_0000_0000u128;
        let t2: u128 = self.w2 as u128 + other.w2 as u128 + c1;
        let r2: u64 = (t2 % 0x1_0000_0000_0000_0000u128) as u64;
        let c2: u128 = t2 / 0x1_0000_0000_0000_0000u128;
        let t3: u128 = self.w3 as u128 + other.w3 as u128 + c2;
        let r3: u64 = (t3 % 0x1_0000_0000_0000_0000u128) as u64;
        let c3: u128 = t3 / 0x1_0000_0000_0000_0000u128;
        let s = U256 { w0: r0, w1: r1, w2: r2, w3: r3 };
        assert(s@ + u256_modulus() * c3 == self@ + other@);
        if c3 != 0 {
            None
        } else {
            Some(s)
        }
    }

    /// `self - other`, or `None` where `other` is the larger.
    pub fn checked_sub(self, other: U256) -> (r: Option<U256>)
        ensures
            match r {
                Some(d) => d@ == self@ - other@,
                None => self@ < other@,
            },
    {
        let t0: u128 = self.w0 as u128 + 0x1_0000_0000_0000_0000u128 - other.w0 as u128;
        let r0: u64 = (t0 % 0x1_0000_0000_0000_0000u128) as u64;
        let b0: u128 = 1 - t0 / 0x1_0000_0000_0000_0000u128;
        let t1: u128 = self.w1 as u128 + 0x1_0000_0000_0000_0000u128 - other.w1 as u128 - b0;
        let r1: u64 = (t1 % 0x1_0000_0000_0000_0000u128) as u64;
        let b1: u128 = 1 - t1 / 0x1_0000_0000_0000_0000u128;
        let t2: u128 = self.w2 as u128 + 0x1_0000_0000_0000_0000u128 - other.w2 as u128 - b1;
        let r2: u64 = (t2 % 0x1_0000_0000_0000_0000u128) as u64;
        let b2: u128 = 1 - t2 / 0x1_0000_0000_0000_0000u128;
        let t3: u128 = self.w3 as u128 + 0x1_0000_0000_0000_0000u128 - other.w3 as u128 - b2;
        let r3: u64 = (t3 % 0x1_0000_0000_0000_0000u128) as u64;
        let b3: u128 = 1 - t3 / 0x1_0000_0000_0000_0000u128;
        let d = U256 { w0: r0, w1: r1, w2: r2, w3: r3 };
        assert(self@ - other@ == d@ - u256_modulus() * b3);
        if b3 != 0 {
            None
        } else {
            Some(d)
        }
    }

    /// `self * m`, or `None` where the product exceeds 2^256 - 1.
    pub fn checked_mul_u32(self, m: u32) -> (r: Option<U256>)
        ensures
            match r {
                Some(p) => p@ == self@ * m,
                None => self@ * m > u256_max(),
            },
    {
        proof {
            lemma_word_times_u32(self.w0, m);
            lemma_word_times_u32(self.w1, m);
            lemma_word_times_u32(self.w2, m);
            lemma_word_times_u32(self.w3, m);
        }
        let t0: u128 = self.w0 as u128 * m as u128;
        let r0: u64 = (t0 % 0x1_0000_0000_0000_0000u128) as u64;
        let c0: u128 = t0 / 0x1_0000_0000_0000_0000u128;
        let t1: u128 = self.w1 as u128 * m as u128 + c0;
        let r1: u64 = (t1 % 0x1_0000_0000_0000_0000u128) as u64;
        let c1: u128 = t1 / 0x1_0000_0000_0000_0000u128;
        let t2: u128 = self.w2 as u128 * m as u128 + c1;
        let r2: u64 = (t2 % 0x1_0000_0000_0000_0000u128) as u64;
        let c2: u128 = t2 / 0x1_0000_0000_0000_0000u128;
        let t3: u128 = self.w3 as u128 * m as u128 + c2;
        let r3: u64 = (t3 % 0x1_0000_0000_0000_0000u128) as u64;
        let c3: u128 = t3 / 0x1_0000_0000_0000_0000u128;
        let p = U256 { w0: r0, w1: r1, w2: r2, w3: r3 };
        proof {
            let a = self;
            let mi = m as int;
            assert(p@ + u256_modulus() * c3 == a.w0 * mi + word_base() * (a.w1 * mi) + word_base2()
                * (a.w2 * mi) + word_base3() * (a.w3 * mi));
            lemma_scale_words(a.w0 as int, a.w1 as int, a.w2 as int, a.w3 as int, mi);
            assert(p@ < u256_modulus());
        }
        if c3 != 0 {
            None
        } else {
            Some(p)
        }
    }

    /// `(self / d, self % d)`.
    pub fn div_rem_u32(self, d: u32) -> (r: (U256, u32))
        requires
            d > 0,
        ensures
            r.0@ == self@ / (d as nat),
            r.1 == self@ % (d as nat),
    {
        let dd: u128 = d as u128;
        let cur3: u128 = self.w3 as u128;
        let q3: u128 = cur3 / dd;
        let r3: u128 = cur3 % dd;
        proof {
            lemma_div_step(0, self.w3 as int, d as int);
        }
        let cur2: u128 = r3 * 0x1_0000_0000_0000_0000u128 + self.w2 as u128;
        let q2: u128 = cur2 / dd;
        let r2: u128 = cur2 % dd;
        proof {
            lemma_div_step(r3 as int, self.w2 as int, d as int);
        }
        let cur1: u128 = r2 * 0x1_0000_0000_0000_0000u128 + self.w1 as u128;
        let q1: u128 = cur1 / dd;
        let r1: u128 = cur1 % dd;
        proof {
            lemma_div_step(r2 as int, self.w1 as int, d as int);
        }
        let cur0: u128 = r1 * 0x1_0000_0000_0000_0000u128 + self.w0 as u128;
        let q0: u128 = cur0 / dd;
        let r0: u128 = cur0 % dd;
        proof {
            lemma_div_step(r1 as int, self.w0 as int, d as int);
        }
        let q = U256 { w0: q0 as u64, w1: q1 as u64, w2: q2 as u64, w3: q3 as u64 };
        proof {
            let di = d as int;
            let (x, y) = (self@ as int, q@ as int);
            let (a0, a1, a2, a3) = (self.w0 as int, self.w1 as int, self.w2 as int, self.w3 as int);
            let (p0, p1, p2, p3) = (q0 as int, q1 as int, q2 as int, q3 as int);
            let (s0, s1, s2, s3) = (r0 as int, r1 as int, r2 as int, r3 as int);
            assert(x == y * di + s0) by (nonlinear_arith)
                requires
                    x == a0 + word_base() * a1 + word_base2() * a2 + word_base3() * a3,
                    y == p0 + word_base() * p1 + word_base2() * p2 + word_base3() * p3,
                    a3 == di * p3 + s3,
                    s3 * word_base() + a2 == di * p2 + s2,
                    s2 * word_base() + a1 == di * p1 + s1,
                    s1 * word_base() + a0 == di * p0 + s0,
            ;
            lemma_fundamental_div_mod_converse(self@ as int, di, q@ as int, r0 as int);
        }
        (q, r0 as u32)
    }

    /// Whether `self` is less than `other`.
    pub fn less_than(&self, other: &U256) -> (r: bool)
        ensures
            r == (self@ < other@),
    {
        if self.w3 != other.w3 {
            self.w3 < other.w3
        } else if self.w2 != other.w2 {
            self.w2 < other.w2
        } else if self.w1 != other.w1 {
            self.w1 < other.w1
        } else {
            self.w0 < other.w0
        }
    }

    /// Whether `self` is at most `other`.
    pub fn less_or_equal(&self, other: &U256) -> (r: bool)
        ensures
            r == (self@ <= other@),
    {
        !other.less_than(self)
    }

    /// The smaller of the two values.
    pub fn minimum(self, other: U256) -> (r: U256)
        ensures
            r@ == if self@ <= other@ {
                self@
            } else {
                other@
            },
    {
        if self.less_or_equal(&other) {
            self
        } else {
            other
        }
    }

    /// The larger of the two values.
    pub fn maximum(self, other: U256) -> (r: U256)
        ensures
            r@ == if self@ >= other@ {
                self@
            } else {
                other@
            },
    {
        if other.less_or_equal(&self) {
            self
        } else {
            other
        }
    }
}

proof fn lemma_word_times_u32(w: u64, m: u32)
    ensures
        0 <= w * m <= 0xffff_ffff_ffff_ffffint * 0xffff_ffffint,
{
    assert(0 <= w * m <= 0xffff_ffff_ffff_ffffint * 0xffff_ffffint) by (nonlinear_arith)
        requires
            w <= 0xffff_ffff_ffff_ffff,
            m <= 0xffff_ffff,
    ;
}

proof fn lemma_scale_words(a0: int, a1: int, a2: int, a3: int, m: int)
    ensures
        (a0 + word_base() * a1 + word_base2() * a2 + word_base3() * a3) * m == a0 * m + word_base()
            * (a1 * m) + word_base2() * (a2 * m) + word_base3() * (a3 * m),
{
    assert((a0 + word_base() * a1 + word_base2() * a2 + word_base3() * a3) * m == a0 * m
        + word_base() * (a1 * m) + word_base2() * (a2 * m) + word_base3() * (a3 * m))
        by (nonlinear_arith);
}

/// One step of schoolbook division by a small divisor: the partial remainder `r`, shifted by a
/// word and joined with the next word `w`, divides into a quotient word and a new remainder.
proof fn lemma_div_step(r: int, w: int, d: int)
    requires
        0 < d <= 0xffff_ffff,
        0 <= r < d,
        0 <= w < word_base(),
    ensures
        0 <= (r * word_base() + w) / d < word_base(),
        0 <= (r * word_base() + w) % d < d,
        r * word_base() + w == d * ((r * word_base() + w) / d) + (r * word_base() + w) % d,
        r * word_base() + w < 0x1_0000_0000_0000_0000_0000_0000int,
{
    let x = r * word_base() + w;
    lemma_fundamental_div_mod(x, d);
    assert(x < d * word_base()) by (nonlinear_arith)
        requires
            x == r * word_base() + w,
            r + 1 <= d,
            w < word_base(),
    ;
    assert(x < 0x1_0000_0000_0000_0000_0000_0000) by (nonlinear_arith)
        requires
            x < d * word_base(),
            d <= 0xffff_ffff,
    ;
    let q = x / d;
    let rr = x % d;
    assert(0 <= rr < d);
    assert(0 <= q < word_base()) by (nonlinear_arith)
        requires
            x == d * q + rr,
            0 <= rr < d,
            0 <= x < d * word_base(),
            d > 0,
    ;
}

} // verus!
