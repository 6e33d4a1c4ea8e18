use vstd::prelude::*;
use vstd::arithmetic::power2::{lemma2_to64, lemma_pow2_adds, lemma_pow2_unfold, pow2};

verus! {

/// `2^128`.
pub open spec fn word() -> int {
    u128::MAX + 1
}

/// `2^256`.
pub open spec fn u256_modulus() -> int {
    word() * word()
}

/// A 256-bit unsigned integer held as two 128-bit words.
#[derive(Clone, Copy, Debug, PartialEq, Eq)]
pub struct U256 {
    pub hi: u128,
    pub lo: u128,
}

/// `2^127`, the top bit of a word.
pub const HALF_WORD: u128 = 0x8000_0000_0000_0000_0000_0000_0000_0000;

/// `2^64`, one half of a word.
pub const LIMB: u128 = 0x1_0000_0000_0000_0000;

impl U256 {
    /// The number the two words stand for.
    pub open spec fn value(&self) -> int {
        self.hi * word() + self.lo
    }

    pub proof fn lemma_value_bounds(&self)
        ensures
            0 <= self.value() < u256_modulus(),
    {
        assert(0 <= self.hi * word() <= u128::MAX * word()) by (nonlinear_arith)
            requires 0 <= self.hi <= u128::MAX, word() > 0;
        assert(u128::MAX * word() + word() == u256_modulus()) by (nonlinear_arith)
            requires word() == u128::MAX + 1, u256_modulus() == word() * word();
    }

    pub fn from_u128(v: u128) -> (r: U256)
        ensures
            r.value() == v,
    {
        U256 { hi: 0, lo: v }
    }

    /// `self + other`, or `None` when the sum needs more than 256 bits.
    pub fn checked_add(&self, other: &U256) -> (r: Option<U256>)
        ensures
            self.value() + other.value() < u256_modulus() ==> r is Some && r->Some_0.value()
                == self.value() + other.value(),
            self.value() + other.value() >= u256_modulus() ==> r is None,
    {
        let (lo, carry) = if self.lo > u128::MAX - other.lo {
            (self.lo - (u128::MAX - other.lo) - 1, 1u128)
        } else {
            (self.lo + other.lo, 0u128)
        };
        proof {
            assert(self.lo + other.lo == carry * word() + lo);
            assert(self.value() + other.value() == (self.hi + other.hi + carry) * word() + lo) by (nonlinear_arith)
                requires self.lo + other.lo == carry * word() + lo, self.value() == self.hi * word() + self.lo,
                    other.value() == other.hi * word() + other.lo;
            assert((u128::MAX as int + 1) * word() == u256_modulus());
            assert(self.hi + other.hi + carry <= u128::MAX ==> (self.hi + other.hi + carry) * word() + lo < u256_modulus()) by (nonlinear_arith)
                requires lo < word(), u256_modulus() == word() * word(), word() > 0;
            assert(self.hi + other.hi + carry > u128::MAX ==> (self.hi + other.hi + carry) * word() >= u256_modulus()) by (nonlinear_arith)
                requires u256_modulus() == word() * word(), word() > 0, word() == u128::MAX + 1;
        }
        let hi = match self.hi.checked_add(other.hi) {
            Some(h) => h,
            None => return None,
        };
        match hi.checked_add(carry) {
            Some(h) => Some(U256 { hi: h, lo }),
            None => None,
        }
    }

    /// `self - other`, for `other <= self`.
    pub fn sub(&self, other: &U256) -> (r: U256)
        requires
            other.value() <= self.value(),
        ensures
            r.value() == self.value() - other.value(),
    {
        proof {
            assert(self.hi * word() + other.hi * word() == (self.hi + other.hi) * word()) by (nonlinear_arith);
            assert(self.hi < other.hi ==> self.hi * word() + self.lo < other.hi * word() + other.lo) by (nonlinear_arith)
                requires self.lo < word(), other.lo >= 0, word() > 0;
            assert(self.hi == other.hi && self.lo < other.lo ==> self.hi * word() + self.lo < other.hi * word() + other.lo);
            assert((self.hi - other.hi - 1) * word() == self.hi * word() - other.hi * word() - word()) by (nonlinear_arith);
            assert((self.hi - other.hi) * word() == self.hi * word() - other.hi * word()) by (nonlinear_arith);
        }
        if self.lo >= other.lo {
            U256 { hi: self.hi - other.hi, lo: self.lo - other.lo }
        } else {
            U256 { hi: self.hi - other.hi - 1, lo: u128::MAX - (other.lo - self.lo) + 1 }
        }
    }

    /// `2^256 - self`, for a non-zero value.
    fn complement(&self) -> (r: U256)
        requires
            self.value() > 0,
        ensures
            r.value() == u256_modulus() - self.value(),
    {
        let flipped = U256 { hi: u128::MAX - self.hi, lo: u128::MAX - self.lo };
        proof {
            assert(flipped.value() == u256_modulus() - 1 - self.value()) by (nonlinear_arith)
                requires flipped.hi == u128::MAX - self.hi, flipped.lo == u128::MAX - self.lo,
                    flipped.value() == flipped.hi * word() + flipped.lo, self.value() == self.hi * word() + self.lo,
                    word() == u128::MAX + 1, u256_modulus() == word() * word();
        }
        flipped.checked_add(&U256 { hi: 0, lo: 1 }).unwrap()
    }

    /// `self <= other`.
    pub fn le(&self, other: &U256) -> (r: bool)
        ensures
            r == (self.value() <= other.value()),
    {
        proof {
            assert(self.hi < other.hi ==> self.hi * word() + self.lo < other.hi * word() + other.lo) by (nonlinear_arith)
                requires self.lo < word(), other.lo >= 0, word() > 0;
            assert(self.hi > other.hi ==> self.hi * word() + self.lo > other.hi * word() + other.lo) by (nonlinear_arith)
                requires other.lo < word(), self.lo >= 0, word() > 0;
        }
        self.hi < other.hi || (self.hi == other.hi && self.lo <= other.lo)
    }

    /// The value as a `u128`, or `None` when it does not fit.
    pub fn to_u128(&self) -> (r: Option<u128>)
        ensures
            self.value() <= u128::MAX ==> r == Some(self.value() as u128),
            self.value() > u128::MAX ==> r is None,
    {
        proof {
            assert(self.hi > 0 ==> self.hi * word() >= word()) by (nonlinear_arith);
        }
        if self.hi == 0 {
            Some(self.lo)
        } else {
            None
        }
    }

    /// `self * 2^64`, or `None` when that needs more than 256 bits.
    pub fn checked_shift_word_left(&self) -> (r: Option<U256>)
        ensures
            self.value() * (LIMB as int) < u256_modulus() ==> r is Some && r->Some_0.value()
                == self.value() * (LIMB as int),
            self.value() * (LIMB as int) >= u256_modulus() ==> r is None,
    {
        let top = self.hi / LIMB;
        let hi_low = self.hi % LIMB;
        let lo_top = self.lo / LIMB;
        let lo_low = self.lo % LIMB;
        proof {
            let l = LIMB as int;
            assert(l * l == word());
            assert(self.hi == top * l + hi_low);
            assert(self.lo == lo_top * l + lo_low);
            assert(self.value() * l == top * u256_modulus() + (hi_low * l + lo_top) * word() + lo_low * l) by (nonlinear_arith)
                requires self.hi == top * l + hi_low, self.lo == lo_top * l + lo_low, l * l == word(),
                    self.value() == self.hi * word() + self.lo, u256_modulus() == word() * word();
            assert(hi_low * l + lo_top <= u128::MAX) by (nonlinear_arith)
                requires hi_low < l, lo_top < l, l * l == word(), word() == u128::MAX + 1;
            assert(lo_low * l <= u128::MAX) by (nonlinear_arith)
                requires lo_low < l, l * l == word(), word() == u128::MAX + 1, lo_low >= 0;
            assert((hi_low * l + lo_top) * word() + lo_low * l < u256_modulus()) by (nonlinear_arith)
                requires hi_low * l + lo_top <= u128::MAX, lo_low * l <= u128::MAX, hi_low * l + lo_top >= 0,
                    u256_modulus() == word() * word(), word() == u128::MAX + 1;
            assert(top > 0 ==> top * u256_modulus() >= u256_modulus()) by (nonlinear_arith)
                requires u256_modulus() > 0;
            assert((hi_low * l + lo_top) * word() + lo_low * l >= 0) by (nonlinear_arith)
                requires hi_low >= 0, lo_top >= 0, lo_low >= 0, l > 0, word() > 0;
        }
        if top != 0 {
            return None;
        }
        Some(U256 { hi: hi_low * LIMB + lo_top, lo: lo_low * LIMB })
    }

    /// `2 * self + bit`, split into the bit pushed out at the top and the
    /// remaining 256 bits.
    fn shift_in(&self, bit: u128) -> (r: (u128, U256))
        requires
            bit <= 1,
        ensures
            r.0 <= 1,
            r.1.lo % 2 == bit,
            2 * self.value() + bit == r.0 * u256_modulus() + r.1.value(),
    {
        let top = self.hi / HALF_WORD;
        let hi_low = self.hi % HALF_WORD;
        let carry = self.lo / HALF_WORD;
        let lo_low = self.lo % HALF_WORD;
        proof {
            let h = HALF_WORD as int;
            assert(2 * h == word());
            assert(self.hi == top * h + hi_low);
            assert(self.lo == carry * h + lo_low);
            assert(2 * self.value() + bit == top * u256_modulus() + (2 * hi_low + carry) * word() + 2 * lo_low + bit) by (nonlinear_arith)
                requires self.hi == top * h + hi_low, self.lo == carry * h + lo_low, 2 * h == word(),
                    self.value() == self.hi * word() + self.lo, u256_modulus() == word() * word();
        }
        (top, U256 { hi: 2 * hi_low + carry, lo: 2 * lo_low + bit })
    }
}

/// `a * b` for two `u128` values.
pub fn mul_u256(a: u128, b: u128) -> (r: U256)
    ensures
        r.value() == a * b,
{
    let a1 = a / LIMB;
    let a0 = a % LIMB;
    let b1 = b / LIMB;
    let b0 = b % LIMB;
    proof {
        assert(a1 * b1 <= u128::MAX && a0 * b0 <= u128::MAX && a1 * b0 <= u128::MAX && a0 * b1 <= u128::MAX) by (nonlinear_arith)
            requires a1 < LIMB, a0 < LIMB, b1 < LIMB, b0 < LIMB, a1 >= 0, a0 >= 0, b1 >= 0, b0 >= 0;
    }
    let high = a1 * b1;
    let low = a0 * b0;
    let m1 = a1 * b0;
    let m2 = a0 * b1;
    let base = U256 { hi: high, lo: low };
    let x1 = U256 { hi: m1 / LIMB, lo: (m1 % LIMB) * LIMB };
    let x2 = U256 { hi: m2 / LIMB, lo: (m2 % LIMB) * LIMB };
    proof {
        let l = LIMB as int;
        let (im1, im2) = (m1 as int, m2 as int);
        assert(l * l == word());
        assert(im1 == (im1 / l) * l + im1 % l);
        assert(im2 == (im2 / l) * l + im2 % l);
        assert(x1.value() == im1 * l) by (nonlinear_arith)
            requires x1.hi == im1 / l, x1.lo == (im1 % l) * l, im1 == (im1 / l) * l + im1 % l, l * l == word(),
                x1.value() == x1.hi * word() + x1.lo;
        assert(x2.value() == im2 * l) by (nonlinear_arith)
            requires x2.hi == im2 / l, x2.lo == (im2 % l) * l, im2 == (im2 / l) * l + im2 % l, l * l == word(),
                x2.value() == x2.hi * word() + x2.lo;
        assert(a * b == high * word() + low + m1 * l + m2 * l) by (nonlinear_arith)
            requires a == a1 * l + a0, b == b1 * l + b0, high == a1 * b1, low == a0 * b0, m1 == a1 * b0,
                m2 == a0 * b1, l * l == word();
        assert(a * b <= u128::MAX * u128::MAX) by (nonlinear_arith)
            requires a <= u128::MAX, b <= u128::MAX, a >= 0, b >= 0;
        assert(u128::MAX * u128::MAX < u256_modulus());
        assert(base.value() + x1.value() <= a * b) by (nonlinear_arith)
            requires m2 >= 0, l > 0, a * b == base.value() + x1.value() + m2 * l;
    }
    let s1 = base.checked_add(&x1).unwrap();
    s1.checked_add(&x2).unwrap()
}

proof fn lemma_pow2_256()
    ensures
        pow2(256) == u256_modulus(),
        pow2(255) * 2 == u256_modulus(),
{
    lemma2_to64();
    lemma_pow2_adds(64, 64);
    lemma_pow2_adds(128, 128);
    lemma_pow2_unfold(256);
}

/// `n / d` and `n % d`.
pub fn div_rem(n: &U256, d: &U256) -> (r: (U256, U256))
    requires
        0 < d.value(),
    ensures
        r.0.value() == n.value() / d.value(),
        r.1.value() == n.value() % d.value(),
{
    let mut q = U256 { hi: 0, lo: 0 };
    let mut rem = U256 { hi: 0, lo: 0 };
    let mut cur = *n;
    let mut i: usize = 0;
    let ghost scale: int = 1;
    proof {
        lemma2_to64();
        lemma_pow2_256();
        d.lemma_value_bounds();
        assert(u256_modulus() > 2) by (nonlinear_arith)
            requires u256_modulus() == word() * word(), word() == u128::MAX + 1;
        assert(n.value() * scale == n.value());
        assert(q.value() == 0 && rem.value() == 0);
        assert(q.value() * d.value() == 0);
    }
    while i < 256
        invariant
            0 <= i <= 256,
            0 < d.value() < u256_modulus(),
            u256_modulus() > 2,
            pow2(256) == u256_modulus(),
            pow2(255) * 2 == u256_modulus(),
            scale == pow2(i as nat),
            n.value() * scale == (q.value() * d.value() + rem.value()) * u256_modulus() + cur.value(),
            0 <= rem.value() < d.value(),
            0 <= q.value() < scale,
        decreases 256 - i,
    {
        proof {
            lemma_pow2_unfold((i + 1) as nat);
            if i < 255 {
                vstd::arithmetic::power2::lemma_pow2_strictly_increases(i as nat, 255);
            }
        }
        let (top, next_cur) = cur.shift_in(0);
        let (rem_top, shifted_rem) = rem.shift_in(top);
        let (q_top, shifted_q) = q.shift_in(0);
        proof {
            assert(q_top == 0) by (nonlinear_arith)
                requires 2 * q.value() == q_top * u256_modulus() + shifted_q.value(),
                    q.value() < scale, scale <= u256_modulus() / 2, q.value() >= 0, shifted_q.value() >= 0,
                    u256_modulus() > 2, q_top >= 0;
            shifted_rem.lemma_value_bounds();
            d.lemma_value_bounds();
            assert(shifted_q.value() == 2 * q.value()) by (nonlinear_arith)
                requires 2 * q.value() == q_top * u256_modulus() + shifted_q.value(), q_top == 0;
            assert(n.value() * (2 * scale) == (2 * (q.value() * d.value() + rem.value()) + top) * u256_modulus() + next_cur.value()) by (nonlinear_arith)
                requires n.value() * scale == (q.value() * d.value() + rem.value()) * u256_modulus() + cur.value(),
                    2 * cur.value() == top * u256_modulus() + next_cur.value();
        }
        let ghost qv = q.value();
        let ghost rv = rem.value();
        if rem_top == 1 {
            proof {
                assert(2 * rv + top == u256_modulus() + shifted_rem.value()) by (nonlinear_arith)
                    requires 2 * rv + top == rem_top * u256_modulus() + shifted_rem.value(), rem_top == 1;
            }
            rem = d.complement().checked_add(&shifted_rem).unwrap();
            q = U256 { hi: shifted_q.hi, lo: shifted_q.lo + 1 };
            proof {
                assert((2 * qv + 1) * d.value() + rem.value() == 2 * (qv * d.value() + rv) + top) by (nonlinear_arith)
                    requires rem.value() == 2 * rv + top - d.value();
            }
        } else if d.le(&shifted_rem) {
            proof {
                assert(2 * rv + top == shifted_rem.value()) by (nonlinear_arith)
                    requires 2 * rv + top == rem_top * u256_modulus() + shifted_rem.value(), rem_top == 0;
            }
            rem = shifted_rem.sub(d);
            q = U256 { hi: shifted_q.hi, lo: shifted_q.lo + 1 };
            proof {
                assert((2 * qv + 1) * d.value() + rem.value() == 2 * (qv * d.value() + rv) + top) by (nonlinear_arith)
                    requires rem.value() == 2 * rv + top - d.value();
            }
        } else {
            proof {
                assert(2 * rv + top == shifted_rem.value()) by (nonlinear_arith)
                    requires 2 * rv + top == rem_top * u256_modulus() + shifted_rem.value(), rem_top == 0;
            }
            rem = shifted_rem;
            q = shifted_q;
            proof {
                assert((2 * qv) * d.value() + rem.value() == 2 * (qv * d.value() + rv) + top) by (nonlinear_arith)
                    requires rem.value() == 2 * rv + top;
            }
        }
        cur = next_cur;
        i = i + 1;
        proof {
            scale = pow2(i as nat) as int;
        }
    }
    proof {
        cur.lemma_value_bounds();
        let nv = n.value();
        let qv = q.value();
        let rv = rem.value();
        let dv = d.value();
        assert(nv == qv * dv + rv) by (nonlinear_arith)
            requires nv * u256_modulus() == (qv * dv + rv) * u256_modulus() + cur.value(),
                0 <= cur.value() < u256_modulus(), u256_modulus() > 0;
        vstd::arithmetic::div_mod::lemma_fundamental_div_mod_converse(nv, dv, qv, rv);
    }
    (q, rem)
}

} // verus!
