//! Unsigned integers of 256 bits.

use vstd::arithmetic::power;
use vstd::arithmetic::power2;
use vstd::prelude::*;

verus! {

/// `2^128`.
pub open spec fn limb() -> nat {
    0x1_0000_0000_0000_0000_0000_0000_0000_0000nat
}

/// An unsigned integer of 256 bits.
#[derive(Clone, Copy, Debug, PartialEq, Eq, Structural, PartialOrd, Ord, Hash)]
pub struct U256 {
    /// The upper half.
    pub hi: u128,
    /// The lower half.
    pub lo: u128,
}

/// The number that a string of bytes stands for, the first byte highest.
pub open spec fn be_nat(s: Seq<u8>) -> nat
    decreases s.len(),
{
    if s.len() == 0 {
        0
    } else {
        be_nat(s.drop_last()) * 256 + s.last() as nat
    }
}

proof fn lemma_be_nat_bound(s: Seq<u8>)
    ensures
        be_nat(s) < power::pow(256, s.len()),
    decreases s.len(),
{
    if s.len() == 0 {
        power::lemma_pow0(256);
    } else {
        lemma_be_nat_bound(s.drop_last());
        let p = power::pow(256, (s.len() - 1) as nat);
        assert(power::pow(256, s.len()) == 256 * p) by {
            reveal(power::pow);
        }
    }
}

proof fn lemma_be_nat_concat(a: Seq<u8>, b: Seq<u8>)
    ensures
        be_nat(a + b) == be_nat(a) * power::pow(256, b.len()) + be_nat(b),
    decreases b.len(),
{
    if b.len() == 0 {
        power::lemma_pow0(256);
        assert(a + b =~= a);
    } else {
        let c = b.drop_last();
        lemma_be_nat_concat(a, c);
        assert((a + b).drop_last() =~= a + c);
        assert((a + b).last() == b.last());
        let p = power::pow(256, c.len());
        assert(power::pow(256, b.len()) == 256 * p) by {
            reveal(power::pow);
        }
        let x = be_nat(a);
        assert(x * (256 * p) == (x * p) * 256) by (nonlinear_arith);
    }
}

proof fn lemma_pow2_values()
    ensures
        power2::pow2(128) == limb(),
        power::pow(256, 16) == limb(),
{
    power2::lemma2_to64();
    power2::lemma_pow2_adds(64, 64);
    assert(0x1_0000_0000_0000_0000nat * 0x1_0000_0000_0000_0000nat == limb());
    lemma_pow256(16);
}

proof fn lemma_pow256(n: nat)
    ensures
        power::pow(256, n) == power2::pow2(8 * n),
    decreases n,
{
    power2::lemma2_to64();
    if n == 0 {
        power::lemma_pow0(256);
    } else {
        lemma_pow256((n - 1) as nat);
        reveal(power::pow);
        power2::lemma_pow2_adds(8, (8 * (n - 1)) as nat);
    }
}

/// `2^i`.
fn power_of_two(i: u32) -> (r: u128)
    requires
        i < 128,
    ensures
        r == power2::pow2(i as nat),
{
    let mut r: u128 = 1;
    let mut j: u32 = 0;
    proof {
        power2::lemma2_to64();
    }
    while j < i
        invariant
            j <= i < 128,
            r == power2::pow2(j as nat),
        decreases i - j,
    {
        proof {
            lemma_pow2_values();
            power2::lemma_pow2_unfold((j + 1) as nat);
            power2::lemma_pow2_unfold(128);
            if j + 1 < 128 {
                power2::lemma_pow2_strictly_increases((j + 1) as nat, 128);
            }
        }
        r = r * 2;
        j += 1;
    }
    r
}

/// The position of the highest bit that is set.
fn highest_bit(x: u128) -> (r: u32)
    requires
        x > 0,
    ensures
        r < 128,
        power2::pow2(r as nat) <= x < power2::pow2((r + 1) as nat),
{
    let mut r: u32 = 0;
    let mut y: u128 = x;
    proof {
        power2::lemma2_to64();
        lemma_pow2_values();
    }
    while y > 1
        invariant
            y >= 1,
            r < 128,
            power2::pow2(r as nat) * y <= x < power2::pow2(r as nat) * (y + 1),
            power2::pow2(128) == limb(),
        decreases y,
    {
        let z: u128 = y / 2;
        proof {
            let p = power2::pow2(r as nat);
            power2::lemma_pow2_unfold((r + 1) as nat);
            let q = power2::pow2((r + 1) as nat);
            assert(q == 2 * p);
            assert(q * z <= p * y) by (nonlinear_arith)
                requires
                    q == 2 * p,
                    2 * z <= y,
                    p >= 0,
            ;
            assert(p * (y + 1) <= q * (z + 1)) by (nonlinear_arith)
                requires
                    q == 2 * p,
                    y + 1 <= 2 * (z + 1),
                    p >= 0,
            ;
            assert(q <= q * z) by (nonlinear_arith)
                requires
                    z >= 1,
                    q >= 0,
            ;
            if r + 1 >= 128 {
                power2::lemma_pow2_unfold(128);
                assert(r == 127);
                assert(x < limb());
            }
        }
        y = z;
        r += 1;
    }
    proof {
        power2::lemma_pow2_unfold((r + 1) as nat);
        let p = power2::pow2(r as nat);
        assert(p * (y + 1) == 2 * p) by (nonlinear_arith)
            requires
                y == 1,
        ;
        assert(p * y == p) by (nonlinear_arith)
            requires
                y == 1,
        ;
    }
    r
}

fn read_limb(bytes: &[u8; 32], start: usize) -> (r: u128)
    requires
        start <= 16,
    ensures
        r == be_nat(bytes@.subrange(start as int, start + 16)),
{
    let mut r: u128 = 0;
    let mut i: usize = 0;
    let ghost half = bytes@.subrange(start as int, start + 16);
    assert(half.take(0) =~= Seq::<u8>::empty());
    while i < 16
        invariant
            i <= 16,
            start <= 16,
            half == bytes@.subrange(start as int, start + 16),
            r == be_nat(half.take(i as int)),
        decreases 16 - i,
    {
        proof {
            let next = half.take(i + 1);
            assert(next.drop_last() =~= half.take(i as int));
            assert(next.last() == bytes@[start + i]);
            lemma_be_nat_bound(next);
            lemma_pow2_values();
            power::lemma_pow_increases(256, (i + 1) as nat, 16);
        }
        r = r * 256 + bytes[start + i] as u128;
        i += 1;
    }
    assert(half.take(16) =~= half);
    r
}

impl U256 {
    /// The number.
    pub open spec fn value(self) -> nat {
        self.hi as nat * limb() + self.lo as nat
    }

    /// Bitwise exclusive or.
    pub open spec fn spec_xor(self, other: U256) -> U256 {
        U256 { hi: self.hi ^ other.hi, lo: self.lo ^ other.lo }
    }

    /// Numbers are known by their value.
    pub proof fn lemma_extensional(a: U256, b: U256)
        ensures
            a.value() == b.value() <==> a == b,
    {
        if a.value() == b.value() {
            assert(a.hi == b.hi && a.lo == b.lo);
        }
    }

    /// The number that 32 bytes stand for, the first byte highest.
    pub fn from_be_bytes(bytes: &[u8; 32]) -> (r: Self)
        ensures
            r.value() == be_nat(bytes@),
    {
        let hi = read_limb(bytes, 0);
        let lo = read_limb(bytes, 16);
        proof {
            let a = bytes@.subrange(0, 16);
            let b = bytes@.subrange(16, 32);
            assert(a + b =~= bytes@);
            lemma_be_nat_concat(a, b);
            lemma_pow2_values();
        }
        U256 { hi, lo }
    }

    /// Bitwise exclusive or.
    pub fn xor(&self, other: &U256) -> (r: U256)
        ensures
            r == self.spec_xor(*other),
    {
        U256 { hi: self.hi ^ other.hi, lo: self.lo ^ other.lo }
    }

    /// Whether this number is the smaller one.
    pub fn less_than(&self, other: &U256) -> (r: bool)
        ensures
            r == (self.value() < other.value()),
    {
        self.hi < other.hi || (self.hi == other.hi && self.lo < other.lo)
    }

    /// The integer part of the binary logarithm, if there is one.
    pub fn ilog2(&self) -> (r: Option<u32>)
        ensures
            match r {
                Some(i) => {
                    &&& i < 256
                    &&& power2::pow2(i as nat) <= self.value() < power2::pow2((i + 1) as nat)
                },
                None => self.value() == 0,
            },
    {
        if self.hi > 0 {
            let i = highest_bit(self.hi);
            proof {
                lemma_pow2_values();
                power2::lemma_pow2_adds(i as nat, 128);
                power2::lemma_pow2_adds((i + 1) as nat, 128);
                let p = power2::pow2(i as nat);
                let q = power2::pow2((i + 1) as nat);
                assert(p * limb() <= self.hi * limb());
                assert((self.hi + 1) * limb() <= q * limb());
            }
            Some(i + 128)
        } else if self.lo > 0 {
            Some(highest_bit(self.lo))
        } else {
            None
        }
    }

    /// `2^i`.
    pub fn power_of_two(i: u32) -> (r: Self)
        requires
            i < 256,
        ensures
            r.value() == power2::pow2(i as nat),
    {
        if i < 128 {
            U256 { hi: 0, lo: power_of_two(i) }
        } else {
            proof {
                lemma_pow2_values();
                power2::lemma_pow2_adds((i - 128) as nat, 128);
            }
            U256 { hi: power_of_two(i - 128), lo: 0 }
        }
    }

    /// `2^(i + 1) - 1`.
    pub fn low_bits(i: u32) -> (r: Self)
        requires
            i < 256,
        ensures
            r.value() == power2::pow2((i + 1) as nat) - 1,
    {
        proof {
            lemma_pow2_values();
            power2::lemma_pow2_unfold((i + 1) as nat);
        }
        if i < 128 {
            let p: u128 = power_of_two(i);
            proof {
                power2::lemma_pow2_pos(i as nat);
            }
            proof {
                power2::lemma_pow2_unfold(128);
                if i < 127 {
                    power2::lemma_pow2_strictly_increases(i as nat, 127);
                }
            }
            U256 { hi: 0, lo: p - 1 + p }
        } else {
            let p: u128 = power_of_two(i - 128);
            proof {
                power2::lemma_pow2_pos((i - 128) as nat);
            }
            proof {
                power2::lemma_pow2_adds((i - 128) as nat, 128);
                power2::lemma_pow2_unfold(128);
                if i < 255 {
                    power2::lemma_pow2_strictly_increases((i - 128) as nat, 127);
                }
                assert(power2::pow2(i as nat) == p * limb());
            }
            U256 { hi: p - 1 + p, lo: u128::MAX }
        }
    }

    /// The largest number.
    pub fn max_value() -> (r: Self)
        ensures
            r.value() == power2::pow2(256) - 1,
    {
        proof {
            lemma_pow2_values();
            power2::lemma_pow2_adds(128, 128);
            assert(limb() * limb() == (limb() - 1) * limb() + limb());
        }
        U256 { hi: u128::MAX, lo: u128::MAX }
    }
}

/// Thirty-two bytes, all zero but the last `quot + 1`, of which the first lies between `2^rem` and
/// `2^(rem + 1)`, stand for a number between `2^(8 * quot + rem)` and `2^(8 * quot + rem + 1)`.
pub proof fn lemma_leading_byte(bytes: Seq<u8>, quot: nat, rem: nat)
    requires
        bytes.len() == 32,
        quot < 32,
        rem < 8,
        forall|i: int| 0 <= i < 31 - quot ==> bytes[i] == 0,
        power2::pow2(rem) <= bytes[31 - quot] < power2::pow2(rem + 1),
    ensures
        power2::pow2(8 * quot + rem) <= be_nat(bytes) < power2::pow2(8 * quot + rem + 1),
{
    let head = bytes.take(31 - quot);
    let top = seq![bytes[31 - quot]];
    let tail = bytes.skip(32 - quot);
    assert((head + top) + tail =~= bytes);
    lemma_be_nat_concat(head + top, tail);
    lemma_be_nat_zeros(head);
    assert((head + top).drop_last() =~= head);
    assert(be_nat(head + top) == bytes[31 - quot] as nat);
    lemma_be_nat_bound(tail);
    lemma_pow256(quot);
    let p = power2::pow2(8 * quot);
    power2::lemma_pow2_adds(rem, 8 * quot);
    power2::lemma_pow2_adds(rem + 1, 8 * quot);
    let t = bytes[31 - quot] as nat;
    let low = power2::pow2(rem);
    let high = power2::pow2(rem + 1);
    assert(low * p <= t * p) by (nonlinear_arith)
        requires
            low <= t,
            p >= 0,
    ;
    assert(t * p + p <= high * p) by (nonlinear_arith)
        requires
            t + 1 <= high,
            p >= 0,
    ;
}

proof fn lemma_be_nat_zeros(s: Seq<u8>)
    requires
        forall|i: int| 0 <= i < s.len() ==> s[i] == 0,
    ensures
        be_nat(s) == 0,
    decreases s.len(),
{
    if s.len() > 0 {
        lemma_be_nat_zeros(s.drop_last());
    }
}

/// The first byte weighs most: a byte more at the end makes the number 256 times as large, plus
/// that byte.
pub proof fn law_first_byte_highest(s: Seq<u8>, b: u8)
    ensures
        be_nat(s.push(b)) == 256 * be_nat(s) + b,
        be_nat(Seq::<u8>::empty()) == 0,
{
    assert(s.push(b).drop_last() =~= s);
}

/// Every number that 32 bytes can stand for is one of 256 bits.
pub proof fn lemma_number_exists(s: Seq<u8>) -> (r: U256)
    requires
        s.len() == 32,
    ensures
        r.value() == be_nat(s),
{
    let upper = s.take(16);
    let lower = s.skip(16);
    assert(s =~= upper + lower);
    lemma_be_nat_concat(upper, lower);
    lemma_be_nat_bound(upper);
    lemma_be_nat_bound(lower);
    lemma_pow2_values();
    U256 { hi: be_nat(upper) as u128, lo: be_nat(lower) as u128 }
}

} // verus!
