use vstd::arithmetic::power2::{lemma2_to64, lemma_pow2_strictly_increases, lemma_pow2_unfold, pow2};
use vstd::prelude::*;

verus! {

/// An IEEE-754 single-precision number, held as its 32 bits.
///
/// The renderer reads instance records as raw words, so the library never
/// computes with these numbers: it only places them and encodes small integers.
#[derive(Clone, Copy, Debug, PartialEq, Eq, Hash, Structural)]
pub struct Single {
    pub bits: u32,
}

/// How many times `n` must be doubled before it fills a 24-bit significand.
pub open spec fn doublings(n: nat) -> nat
    decreases (if n < 0x80_0000 { 0x80_0000 - n } else { 0 }),
{
    if 0 < n < 0x80_0000 {
        1 + doublings(2 * n)
    } else {
        0
    }
}

impl Single {
    /// The sign bit.
    pub open spec fn sign(self) -> int {
        self.bits as int / 0x8000_0000
    }

    /// The biased exponent field.
    pub open spec fn exponent(self) -> int {
        (self.bits as int / 0x80_0000) % 0x100
    }

    /// The fraction field, without the implicit leading bit.
    pub open spec fn fraction(self) -> int {
        self.bits as int % 0x80_0000
    }

    /// The number denoted by these bits is exactly the integer `n`.
    ///
    /// Both zeros denote 0. A normal number denotes
    /// `(2^23 + fraction) * 2^(exponent - 150)`, negated when the sign bit is
    /// set. Subnormal numbers, infinities and NaNs denote no integer.
    pub open spec fn represents(self, n: int) -> bool {
        if self.exponent() == 0 && self.fraction() == 0 {
            n == 0
        } else {
            let magnitude = if self.sign() == 0 {
                n
            } else {
                -n
            };
            &&& 1 <= self.exponent() <= 254
            &&& if self.exponent() <= 150 {
                0x80_0000 + self.fraction() == magnitude * pow2((150 - self.exponent()) as nat)
            } else {
                magnitude == (0x80_0000 + self.fraction()) * pow2((self.exponent() - 150) as nat)
            }
        }
    }

    /// The encoding of a natural number below 2^24, which every such number has.
    pub open spec fn spec_from_nat(n: nat) -> Single {
        if n == 0 {
            Single { bits: 0 }
        } else {
            let k = doublings(n);
            Single { bits: ((150 - k) * 0x80_0000 + (n * pow2(k) - 0x80_0000)) as u32 }
        }
    }

    /// Positive zero.
    pub fn zero() -> (s: Single)
        ensures
            s == (Single { bits: 0 }),
            s.represents(0),
    {
        Single { bits: 0 }
    }

    /// The number one.
    pub fn one() -> (s: Single)
        ensures
            s == (Single { bits: 0x3F80_0000 }),
            s.represents(1),
    {
        proof {
            lemma2_to64();
        }
        Single { bits: 0x3F80_0000 }
    }

    /// Encodes an integer that a single-precision number holds without rounding.
    pub fn from_u32(n: u32) -> (s: Single)
        requires
            n < 0x100_0000,
        ensures
            s == Self::spec_from_nat(n as nat),
            s.represents(n as int),
    {
        if n == 0 {
            return Single { bits: 0 };
        }
        let mut significand: u32 = n;
        let mut exponent: u32 = 150;
        proof {
            lemma2_to64();
        }
        while significand < 0x80_0000
            invariant
                0 < n < 0x100_0000,
                0 < significand < 0x100_0000,
                127 <= exponent <= 150,
                pow2((150 - exponent) as nat) <= significand,
                significand == n * pow2((150 - exponent) as nat),
                doublings(n as nat) == (150 - exponent) + doublings(significand as nat),
            decreases exponent,
        {
            proof {
                let k = (150 - exponent) as nat;
                lemma_pow2_unfold(k + 1);
                if k >= 22 {
                    lemma2_to64();
                    if k > 22 {
                        lemma_pow2_strictly_increases(22, k);
                    }
                    lemma_pow2_unfold(23);
                }
                assert(2 * (n * pow2(k)) == n * (2 * pow2(k))) by (nonlinear_arith);
            }
            significand = significand * 2;
            exponent = exponent - 1;
        }
        let s = Single { bits: exponent * 0x80_0000 + (significand - 0x80_0000) };
        assert(s.exponent() == exponent);
        assert(s.fraction() == significand - 0x80_0000);
        assert(s.sign() == 0);
        s
    }

    /// The four bytes of the number, least significant first.
    pub open spec fn spec_le_bytes(self) -> Seq<u8> {
        seq![
            (self.bits as int % 0x100) as u8,
            (self.bits as int / 0x100 % 0x100) as u8,
            (self.bits as int / 0x1_0000 % 0x100) as u8,
            (self.bits as int / 0x100_0000 % 0x100) as u8,
        ]
    }

    /// Appends the number's four bytes to `out`, least significant first.
    pub fn write_le_bytes(&self, out: &mut Vec<u8>)
        ensures
            final(out)@ == old(out)@ + self.spec_le_bytes(),
    {
        let b: u32 = self.bits;
        out.push((b % 0x100) as u8);
        out.push((b / 0x100 % 0x100) as u8);
        out.push((b / 0x1_0000 % 0x100) as u8);
        out.push((b / 0x100_0000 % 0x100) as u8);
    }
}

/// An encoding denotes at most one integer.
pub proof fn lemma_represents_unique(s: Single, n: int, m: int)
    requires
        s.represents(n),
        s.represents(m),
    ensures
        n == m,
{
    if !(s.exponent() == 0 && s.fraction() == 0) {
        if s.exponent() <= 150 {
            let p = pow2((150 - s.exponent()) as nat) as int;
            vstd::arithmetic::power2::lemma_pow2_pos((150 - s.exponent()) as nat);
            let a = if s.sign() == 0 { n } else { -n };
            let b = if s.sign() == 0 { m } else { -m };
            assert(a == b) by (nonlinear_arith)
                requires
                    a * p == b * p,
                    p > 0,
            ;
        }
    }
}

/// The encoding of a natural number below 2^24 denotes that number.
pub proof fn lemma_from_nat_represents(n: nat)
    requires
        n < 0x100_0000,
    ensures
        Single::spec_from_nat(n).represents(n as int),
{
    if n > 0 {
        lemma2_to64();
        lemma_doublings(n, 0);
        let k = doublings(n);
        let s = Single::spec_from_nat(n);
        let significand = n * pow2(k);
        assert(s.bits == (150 - k) * 0x80_0000 + (significand - 0x80_0000));
        assert(s.exponent() == 150 - k);
        assert(s.fraction() == significand - 0x80_0000);
        assert(s.sign() == 0);
    }
}

/// After its doublings a positive number fills the significand exactly, and
/// fewer than 24 doublings are ever needed.
pub proof fn lemma_doublings(n: nat, done: nat)
    requires
        0 < n < 0x100_0000,
        pow2(done) <= n,
        done <= 23,
    ensures
        0x80_0000 <= n * pow2(doublings(n)) < 0x100_0000,
        done + doublings(n) <= 23,
    decreases (if n < 0x80_0000 { 0x80_0000 - n } else { 0 }),
{
    lemma2_to64();
    if n < 0x80_0000 {
        if done >= 22 {
            if done > 22 {
                lemma_pow2_strictly_increases(22, done);
            }
            lemma_pow2_unfold(23);
        }
        lemma_pow2_unfold(done + 1);
        lemma_doublings(2 * n, done + 1);
        let k = doublings(2 * n);
        lemma_pow2_unfold(k + 1);
        assert((2 * n) * pow2(k) == n * (2 * pow2(k))) by (nonlinear_arith);
    } else {
        assert(n * pow2(0) == n) by (nonlinear_arith)
            requires
                pow2(0) == 1,
        ;
    }
}

} // verus!
