//! The 256-bit word of the machine, as an unsigned number.
use vstd::prelude::*;
use vstd::arithmetic::div_mod::{
    lemma_add_mod_noop, lemma_fundamental_div_mod_converse, lemma_mul_mod_noop_right, lemma_small_mod,
};
use vstd::arithmetic::power2::{lemma2_to64, lemma_pow2_adds, lemma_pow2_unfold, pow2};
use crate::host::{HostOp, Operand, WordKind};
use crate::primitives::bytes::Bytes32;
use crate::storage::{pow256, Value};
use crate::zero_word;

verus! {

/// The number that the bytes `s` write, highest byte first.
pub open spec fn be_value(s: Seq<u8>) -> nat
    decreases s.len(),
{
    if s.len() == 0 {
        0
    } else {
        be_value(s.drop_last()) * 256 + s.last() as nat
    }
}

/// Two to the power of 128.
pub open spec fn limb_modulus() -> nat {
    0x1_0000_0000_0000_0000_0000_0000_0000_0000nat
}

/// Two to the power of 256.
pub open spec fn word_modulus() -> nat {
    0x1_0000_0000_0000_0000_0000_0000_0000_0000_0000_0000_0000_0000_0000_0000_0000_0000nat
}

/// The number with the high half `hi` and the low half `lo`.
pub open spec fn limbs_value(hi: u128, lo: u128) -> nat {
    hi as nat * limb_modulus() + lo as nat
}

/// 256 to the power of 16 is a limb, to the power of 32 a word.
pub proof fn lemma_pow256_values()
    ensures
        pow256(0) == 1,
        pow256(16) == limb_modulus(),
        pow256(32) == word_modulus(),
        limb_modulus() * limb_modulus() == word_modulus(),
{
    reveal_with_fuel(pow256, 17);
    assert(pow256(16) == limb_modulus());
    lemma_pow256_adds(16, 16);
}

/// Powers of 256 multiply as their exponents add.
pub proof fn lemma_pow256_adds(a: nat, b: nat)
    ensures
        pow256(a + b) == pow256(a) * pow256(b),
    decreases b,
{
    if b == 0 {
        assert(pow256(a) * 1 == pow256(a));
    } else {
        lemma_pow256_adds(a, (b - 1) as nat);
        assert(pow256(a + b) == 256 * pow256((a + b - 1) as nat));
        assert(pow256(b) == 256 * pow256((b - 1) as nat));
        assert(256 * (pow256(a) * pow256((b - 1) as nat)) == pow256(a) * (256 * pow256(
            (b - 1) as nat,
        ))) by (nonlinear_arith);
    }
}

/// Powers of 256 are positive and grow with the exponent.
pub proof fn lemma_pow256_monotonic(a: nat, b: nat)
    requires
        a <= b,
    ensures
        0 < pow256(a) <= pow256(b),
    decreases b,
{
    if a < b {
        lemma_pow256_monotonic(a, (b - 1) as nat);
    } else {
        crate::storage::lemma_pow256_positive(a);
    }
}

/// The bytes of a number are below 256 to the power of their count.
pub proof fn lemma_be_value_bound(s: Seq<u8>)
    ensures
        be_value(s) < pow256(s.len()),
    decreases s.len(),
{
    if s.len() > 0 {
        lemma_be_value_bound(s.drop_last());
    }
}

/// The number of two byte strings, one behind the other.
pub proof fn lemma_be_value_concat(a: Seq<u8>, b: Seq<u8>)
    ensures
        be_value(a + b) == be_value(a) * pow256(b.len()) + be_value(b),
    decreases b.len(),
{
    if b.len() == 0 {
        assert(a + b =~= a);
        assert(be_value(a) * 1 == be_value(a));
    } else {
        assert((a + b).drop_last() =~= a + b.drop_last());
        lemma_be_value_concat(a, b.drop_last());
        assert(pow256(b.len()) == 256 * pow256((b.len() - 1) as nat));
        assert(be_value(a) * pow256((b.len() - 1) as nat) * 256 == be_value(a) * (256 * pow256(
            (b.len() - 1) as nat,
        ))) by (nonlinear_arith);
    }
}

/// Byte strings of one length that write one number are equal.
pub proof fn lemma_be_value_injective(a: Seq<u8>, b: Seq<u8>)
    requires
        a.len() == b.len(),
        be_value(a) == be_value(b),
    ensures
        a == b,
    decreases a.len(),
{
    if a.len() > 0 {
        lemma_be_value_injective(a.drop_last(), b.drop_last());
        assert(a =~= a.drop_last().push(a.last()));
        assert(b =~= b.drop_last().push(b.last()));
    } else {
        assert(a =~= b);
    }
}

/// Reads sixteen bytes of `bytes`, from `start` on, as a number.
fn read_limb(bytes: &[u8; 32], start: usize) -> (limb: u128)
    requires
        start <= 16,
    ensures
        limb == be_value(bytes@.subrange(start as int, start + 16)),
{
    let mut limb: u128 = 0;
    let mut i: usize = 0;
    proof {
        assert(bytes@.subrange(start as int, start as int) =~= Seq::empty());
        lemma_pow256_values();
    }
    while i < 16
        invariant
            i <= 16,
            start <= 16,
            limb == be_value(bytes@.subrange(start as int, start + i)),
            limb < pow256(i as nat),
            pow256(16) == limb_modulus(),
        decreases 16 - i,
    {
        proof {
            let next = bytes@.subrange(start as int, start + i + 1);
            assert(next.drop_last() =~= bytes@.subrange(start as int, start + i));
            assert(next.last() == bytes@[start + i]);
            lemma_pow256_monotonic((i + 1) as nat, 16);
            assert(pow256((i + 1) as nat) == 256 * pow256(i as nat));
        }
        limb = limb * 256 + bytes[start + i] as u128;
        i = i + 1;
    }
    limb
}

/// Writes `limb` as sixteen bytes of `bytes`, from `start` on.
fn write_limb(bytes: &mut [u8; 32], start: usize, limb: u128)
    requires
        start <= 16,
    ensures
        be_value(final(bytes)@.subrange(start as int, start + 16)) == limb,
        forall|k: int|
            0 <= k < 32 && !(start <= k < start + 16) ==> final(bytes)@[k] == old(bytes)@[k],
{
    let mut rest: u128 = limb;
    let mut i: usize = 0;
    proof {
        lemma_pow256_values();
        assert(bytes@.subrange(start + 16, start + 16) =~= Seq::empty());
        assert(rest * 1 == rest);
    }
    while i < 16
        invariant
            i <= 16,
            start <= 16,
            limb == rest * pow256(i as nat) + be_value(
                bytes@.subrange(start + 16 - i, start + 16),
            ),
            forall|k: int| 0 <= k < 32 && !(start <= k < start + 16) ==> bytes@[k] == old(bytes)@[k],
        decreases 16 - i,
    {
        let ghost tail = bytes@.subrange(start + 16 - i, start + 16);
        let digit = (rest % 256) as u8;
        bytes[start + 15 - i] = digit;
        proof {
            let next = bytes@.subrange(start + 15 - i, start + 16);
            assert(bytes@.subrange(start + 16 - i, start + 16) =~= tail);
            assert(next =~= seq![digit] + tail);
            lemma_be_value_concat(seq![digit], tail);
            assert(seq![digit].drop_last() =~= Seq::<u8>::empty());
            assert(be_value(seq![digit].drop_last()) == 0);
            assert(be_value(seq![digit]) == digit as nat);
            assert(pow256((i + 1) as nat) == 256 * pow256(i as nat));
            let p = pow256(i as nat);
            assert((rest / 256) * (256 * p) + (rest % 256) * p == rest * p) by (nonlinear_arith)
                requires
                    rest == (rest / 256) * 256 + rest % 256,
            ;
        }
        rest = rest / 256;
        i = i + 1;
    }
    proof {
        let low = be_value(bytes@.subrange(start as int, start + 16));
        lemma_be_value_bound(bytes@.subrange(start as int, start + 16));
        let p = pow256(16);
        assert(rest == 0) by (nonlinear_arith)
            requires
                limb == rest * p + low,
                limb < p,
                0 <= low,
                0 <= rest,
        ;
    }
}

/// The 256-bit word of the machine, read as an unsigned number.
#[derive(Clone, Copy, Debug, PartialEq, Eq, PartialOrd)]
pub struct U256(Bytes32);

impl View for U256 {
    type V = nat;

    /// The number that the word holds.
    open spec fn view(&self) -> nat {
        be_value(self.bytes())
    }
}

/// The number of a word is the number of its halves.
pub proof fn lemma_halves(s: Seq<u8>)
    requires
        s.len() == 32,
    ensures
        be_value(s) == be_value(s.subrange(0, 16)) * limb_modulus() + be_value(s.subrange(16, 32)),
        be_value(s) < word_modulus(),
{
    lemma_pow256_values();
    assert(s =~= s.subrange(0, 16) + s.subrange(16, 32));
    lemma_be_value_concat(s.subrange(0, 16), s.subrange(16, 32));
    lemma_be_value_bound(s);
}

impl U256 {
    /// The bytes of the word, highest first.
    pub closed spec fn bytes(&self) -> Seq<u8> {
        self.0@
    }

    /// A word has 32 bytes, and its number is below two to the power of
    /// 256.
    pub proof fn lemma_range(&self)
        ensures
            self.bytes().len() == 32,
            self@ < word_modulus(),
    {
        lemma_halves(self.bytes());
    }

    /// Words that hold one number are equal.
    pub proof fn lemma_value_injective(&self, other: &Self)
        requires
            self@ == other@,
        ensures
            *self == *other,
    {
        lemma_be_value_injective(self.bytes(), other.bytes());
        assert(self.0.0@ =~= other.0.0@);
        assert(self.0.0 == other.0.0);
    }

    /// The halves of the word.
    fn limbs(&self) -> (halves: (u128, u128))
        ensures
            limbs_value(halves.0, halves.1) == self@,
    {
        proof {
            lemma_halves(self.bytes());
        }
        let hi = read_limb(&self.0.0, 0);
        let lo = read_limb(&self.0.0, 16);
        (hi, lo)
    }

    /// The word with the given halves.
    fn from_limbs(hi: u128, lo: u128) -> (word: Self)
        ensures
            word@ == limbs_value(hi, lo),
    {
        let mut bytes = zero_word();
        write_limb(&mut bytes, 0, hi);
        let ghost high = bytes@.subrange(0, 16);
        write_limb(&mut bytes, 16, lo);
        proof {
            assert(bytes@.subrange(0, 16) =~= high);
            lemma_halves(bytes@);
        }
        U256(Bytes32(bytes))
    }

    /// The word that holds zero.
    pub fn empty() -> (word: Self)
        ensures
            word@ == 0,
    {
        U256::from_limbs(0, 0)
    }

    /// The word with the given bytes, highest first.
    pub fn from_be_bytes(bytes: [u8; 32]) -> (word: Self)
        ensures
            word.bytes() == bytes@,
    {
        U256(Bytes32(bytes))
    }

    /// The bytes of the word.
    pub fn to_bytes32(&self) -> (bytes: Bytes32)
        ensures
            bytes@ == self.bytes(),
    {
        self.0
    }

    /// The bytes of the word, highest first.
    pub fn bytes32(&self) -> (bytes: [u8; 32])
        ensures
            bytes@ == self.bytes(),
    {
        self.0.0
    }

    /// Tells whether two words hold the same number.
    pub fn eq(self, other: Self) -> (same: bool)
        ensures
            same == (self@ == other@),
    {
        let same = self.0.eq(other.0);
        proof {
            if self@ == other@ {
                self.lemma_value_injective(&other);
            }
        }
        same
    }

    /// Tells whether the number of `self` is below that of `other`.
    pub fn lt(self, other: Self) -> (below: bool)
        ensures
            below == (self@ < other@),
    {
        let (a_hi, a_lo) = self.limbs();
        let (b_hi, b_lo) = other.limbs();
        proof {
            assert(a_hi < b_hi ==> limbs_value(a_hi, a_lo) < limbs_value(b_hi, b_lo))
                by (nonlinear_arith)
                requires
                    limbs_value(a_hi, a_lo) == a_hi * limb_modulus() + a_lo,
                    limbs_value(b_hi, b_lo) == b_hi * limb_modulus() + b_lo,
                    a_lo < limb_modulus(),
            ;
            assert(b_hi < a_hi ==> limbs_value(b_hi, b_lo) < limbs_value(a_hi, a_lo))
                by (nonlinear_arith)
                requires
                    limbs_value(a_hi, a_lo) == a_hi * limb_modulus() + a_lo,
                    limbs_value(b_hi, b_lo) == b_hi * limb_modulus() + b_lo,
                    b_lo < limb_modulus(),
            ;
        }
        a_hi < b_hi || (a_hi == b_hi && a_lo < b_lo)
    }

    /// The largest word.
    pub fn max() -> (word: Self)
        ensures
            word@ == word_modulus() - 1,
    {
        proof {
            lemma_pow256_values();
        }
        U256::from_limbs(u128::MAX, u128::MAX)
    }
}

/// Adds two numbers of two limbs each; the flag tells whether the sum left
/// the range of a word.
fn add_limbs(a: (u128, u128), b: (u128, u128)) -> (sum: (u128, u128, bool))
    ensures
        limbs_value(sum.0, sum.1) + (if sum.2 {
            word_modulus()
        } else {
            0
        }) == limbs_value(a.0, a.1) + limbs_value(b.0, b.1),
{
    proof {
        lemma_pow256_values();
    }
    let lo = a.1.wrapping_add(b.1);
    let carry_lo = lo < a.1;
    let hi_sum = a.0.wrapping_add(b.0);
    let carry_hi = hi_sum < a.0;
    let hi = if carry_lo {
        hi_sum.wrapping_add(1)
    } else {
        hi_sum
    };
    let carry_inc = carry_lo && hi == 0;
    (hi, lo, carry_hi || carry_inc)
}

/// Subtracts two numbers of two limbs each; the flag tells whether the
/// difference left the range of a word.
fn sub_limbs(a: (u128, u128), b: (u128, u128)) -> (diff: (u128, u128, bool))
    ensures
        limbs_value(diff.0, diff.1) - (if diff.2 {
            word_modulus() as int
        } else {
            0
        }) == limbs_value(a.0, a.1) - limbs_value(b.0, b.1),
{
    proof {
        lemma_pow256_values();
    }
    let lo = a.1.wrapping_sub(b.1);
    let borrow_lo = a.1 < b.1;
    let hi_diff = a.0.wrapping_sub(b.0);
    let borrow_hi = a.0 < b.0;
    let hi = if borrow_lo {
        hi_diff.wrapping_sub(1)
    } else {
        hi_diff
    };
    let borrow_dec = borrow_lo && hi_diff == 0;
    (hi, lo, borrow_hi || borrow_dec)
}

/// Tells whether `a` is below `b`.
fn lt_limbs(a: (u128, u128), b: (u128, u128)) -> (below: bool)
    ensures
        below == (limbs_value(a.0, a.1) < limbs_value(b.0, b.1)),
{
    a.0 < b.0 || (a.0 == b.0 && a.1 < b.1)
}

/// Adds two numbers below `n` and reduces the sum modulo `n`.
fn add_reduce(x: (u128, u128), y: (u128, u128), n: (u128, u128)) -> (sum: (u128, u128))
    requires
        limbs_value(x.0, x.1) < limbs_value(n.0, n.1),
        limbs_value(y.0, y.1) < limbs_value(n.0, n.1),
    ensures
        limbs_value(sum.0, sum.1) == (limbs_value(x.0, x.1) + limbs_value(y.0, y.1)) % limbs_value(
            n.0,
            n.1,
        ),
{
    let ghost total = limbs_value(x.0, x.1) + limbs_value(y.0, y.1);
    let ghost modulus = limbs_value(n.0, n.1);
    proof {
        lemma_pow256_values();
    }
    let (hi, lo, carry) = add_limbs(x, y);
    if carry || !lt_limbs((hi, lo), n) {
        let (r_hi, r_lo, _borrow) = sub_limbs((hi, lo), n);
        proof {
            lemma_fundamental_div_mod_converse(
                total as int,
                modulus as int,
                1,
                total - modulus,
            );
        }
        (r_hi, r_lo)
    } else {
        proof {
            lemma_small_mod(total, modulus);
        }
        (hi, lo)
    }
}

/// Two to the power of 128 is a limb, to the power of 256 a word.
pub proof fn lemma_pow2_values()
    ensures
        pow2(0) == 1,
        pow2(128) == limb_modulus(),
        pow2(256) == word_modulus(),
{
    lemma2_to64();
    lemma_pow2_adds(64, 64);
    assert(pow2(128) == 0x1_0000_0000_0000_0000nat * 0x1_0000_0000_0000_0000nat);
    assert(pow2(128) == limb_modulus());
    lemma_pow2_adds(128, 128);
    assert(pow2(256) == limb_modulus() * limb_modulus());
    lemma_pow256_values();
}

/// Divides `a` by `d`, bit by bit from the highest.
fn div_rem_limbs(a: (u128, u128), d: (u128, u128)) -> (result: ((u128, u128), (u128, u128)))
    requires
        limbs_value(d.0, d.1) > 0,
    ensures
        limbs_value(result.0.0, result.0.1) == limbs_value(a.0, a.1) / limbs_value(d.0, d.1),
        limbs_value(result.1.0, result.1.1) == limbs_value(a.0, a.1) % limbs_value(d.0, d.1),
{
    let ghost dividend = limbs_value(a.0, a.1);
    let ghost divisor = limbs_value(d.0, d.1);
    let mut rest = a;
    let mut q: (u128, u128) = (0, 0);
    let mut r: (u128, u128) = (0, 0);
    let ghost mut prefix: nat = 0;
    let mut k: u32 = 0;
    proof {
        lemma_pow256_values();
        lemma_pow2_values();
        assert(dividend * 1 == dividend);
        assert(0 * word_modulus() == 0);
        assert(0 * divisor == 0);
    }
    while k < 256
        invariant
            k <= 256,
            divisor == limbs_value(d.0, d.1),
            divisor > 0,
            dividend * pow2(k as nat) == prefix * word_modulus() + limbs_value(rest.0, rest.1),
            prefix == limbs_value(q.0, q.1) * divisor + limbs_value(r.0, r.1),
            limbs_value(r.0, r.1) < divisor,
            prefix < pow2(k as nat),
            limb_modulus() * limb_modulus() == word_modulus(),
            pow2(256) == word_modulus(),
        decreases 256 - k,
    {
        let ghost q_value = limbs_value(q.0, q.1);
        let ghost r_value = limbs_value(r.0, r.1);
        let ghost rest_value = limbs_value(rest.0, rest.1);
        let ghost scale = pow2(k as nat);
        proof {
            lemma_pow2_unfold((k + 1) as nat);
            if k + 1 < 256 {
                vstd::arithmetic::power2::lemma_pow2_strictly_increases((k + 1) as nat, 256);
            }
            assert(2 * scale <= word_modulus());
            assert(q_value <= prefix) by (nonlinear_arith)
                requires
                    prefix == q_value * divisor + r_value,
                    divisor > 0,
                    r_value >= 0,
                    q_value >= 0,
            ;
        }
        let (rest_hi, rest_lo, bit) = add_limbs(rest, rest);
        let (q2_hi, q2_lo, _q_carry) = add_limbs(q, q);
        let (r2_hi, r2_lo, r_carry) = add_limbs(r, r);
        let (r3_hi, r3_lo, r_carry_bit) = if bit {
            add_limbs((r2_hi, r2_lo), (0, 1))
        } else {
            (r2_hi, r2_lo, false)
        };
        let ghost bit_value: nat = if bit {
            1
        } else {
            0
        };
        let ghost doubled = 2 * r_value + bit_value;
        proof {
            assert(limbs_value(0, 1) == 1);
            assert(limbs_value(0, 0) == 0);
            assert(dividend * pow2((k + 1) as nat) == 2 * (dividend * scale)) by (nonlinear_arith)
                requires
                    pow2((k + 1) as nat) == 2 * scale,
            ;
            assert((2 * prefix + bit_value) * word_modulus() == 2 * (prefix * word_modulus())
                + bit_value * word_modulus()) by (nonlinear_arith);
        }
        proof {
            assert(2 * q_value + 1 < word_modulus());
            assert(!_q_carry);
            assert(limbs_value(q2_hi, q2_lo) == 2 * q_value);
            assert(doubled < 2 * divisor);
            assert(divisor < word_modulus());
            assert(limbs_value(r3_hi, r3_lo) + (if r_carry || r_carry_bit {
                word_modulus()
            } else {
                0
            }) == doubled);
        }
        if r_carry || r_carry_bit || !lt_limbs((r3_hi, r3_lo), d) {
            let (r4_hi, r4_lo, _borrow) = sub_limbs((r3_hi, r3_lo), d);
            let (q3_hi, q3_lo, _carry) = add_limbs((q2_hi, q2_lo), (0, 1));
            proof {
                assert((2 * q_value + 1) * divisor == 2 * (q_value * divisor) + divisor)
                    by (nonlinear_arith);
                assert(limbs_value(r4_hi, r4_lo) == doubled - divisor);
                assert(limbs_value(q3_hi, q3_lo) == 2 * q_value + 1);
            }
            q = (q3_hi, q3_lo);
            r = (r4_hi, r4_lo);
        } else {
            proof {
                assert((2 * q_value) * divisor == 2 * (q_value * divisor)) by (nonlinear_arith);
            }
            q = (q2_hi, q2_lo);
            r = (r3_hi, r3_lo);
        }
        rest = (rest_hi, rest_lo);
        proof {
            prefix = 2 * prefix + bit_value;
        }
        k = k + 1;
    }
    proof {
        let rest_value = limbs_value(rest.0, rest.1);
        let w = word_modulus();
        assert(rest_value < w);
        assert(prefix == dividend) by (nonlinear_arith)
            requires
                dividend * w == prefix * w + rest_value,
                0 <= rest_value < w,
        ;
        lemma_fundamental_div_mod_converse(
            dividend as int,
            divisor as int,
            limbs_value(q.0, q.1) as int,
            limbs_value(r.0, r.1) as int,
        );
    }
    (q, r)
}

/// Multiplies `a` by `b` modulo `n`, bit by bit of `b` from the highest.
fn mul_mod_limbs(a: (u128, u128), b: (u128, u128), n: (u128, u128)) -> (product: (u128, u128))
    requires
        limbs_value(n.0, n.1) > 0,
    ensures
        limbs_value(product.0, product.1) == (limbs_value(a.0, a.1) * limbs_value(b.0, b.1))
            % limbs_value(n.0, n.1),
{
    let ghost factor = limbs_value(a.0, a.1);
    let ghost multiplier = limbs_value(b.0, b.1);
    let ghost modulus = limbs_value(n.0, n.1);
    let (_quotient, reduced) = div_rem_limbs(a, n);
    let mut rest = b;
    let mut r: (u128, u128) = (0, 0);
    let ghost mut prefix: nat = 0;
    let mut k: u32 = 0;
    proof {
        lemma_pow256_values();
        lemma_pow2_values();
        assert(multiplier * 1 == multiplier);
        assert(0 * word_modulus() == 0);
        assert(factor * 0 == 0);
        lemma_small_mod(0, modulus);
        vstd::arithmetic::div_mod::lemma_mod_bound(factor as int, modulus as int);
    }
    while k < 256
        invariant
            k <= 256,
            modulus == limbs_value(n.0, n.1),
            modulus > 0,
            limbs_value(reduced.0, reduced.1) == factor % modulus,
            multiplier * pow2(k as nat) == prefix * word_modulus() + limbs_value(rest.0, rest.1),
            limbs_value(r.0, r.1) == (factor * prefix) % modulus,
            pow2(256) == word_modulus(),
        decreases 256 - k,
    {
        let ghost scale = pow2(k as nat);
        let ghost r_value = limbs_value(r.0, r.1);
        proof {
            lemma_pow2_unfold((k + 1) as nat);
            vstd::arithmetic::div_mod::lemma_mod_bound((factor * prefix) as int, modulus as int);
        }
        let (rest_hi, rest_lo, bit) = add_limbs(rest, rest);
        let ghost bit_value: nat = if bit {
            1
        } else {
            0
        };
        let doubled = add_reduce(r, r, n);
        proof {
            assert(multiplier * pow2((k + 1) as nat) == 2 * (multiplier * scale))
                by (nonlinear_arith)
                requires
                    pow2((k + 1) as nat) == 2 * scale,
            ;
            assert((2 * prefix + bit_value) * word_modulus() == 2 * (prefix * word_modulus())
                + bit_value * word_modulus()) by (nonlinear_arith);
            // (2 * ((f * p) % n)) % n == (2 * (f * p)) % n
            lemma_mul_mod_noop_right(2, (factor * prefix) as int, modulus as int);
            assert(r_value + r_value == 2 * r_value);
            assert(factor * (2 * prefix) == 2 * (factor * prefix)) by (nonlinear_arith);
        }
        if bit {
            let sum = add_reduce(doubled, reduced, n);
            proof {
                lemma_add_mod_noop(
                    (factor * (2 * prefix)) as int,
                    factor as int,
                    modulus as int,
                );
                assert(factor * (2 * prefix + 1) == factor * (2 * prefix) + factor)
                    by (nonlinear_arith);
            }
            r = sum;
        } else {
            r = doubled;
        }
        rest = (rest_hi, rest_lo);
        proof {
            prefix = 2 * prefix + bit_value;
        }
        k = k + 1;
    }
    proof {
        let rest_value = limbs_value(rest.0, rest.1);
        let w = word_modulus();
        assert(rest_value < w);
        assert(prefix == multiplier) by (nonlinear_arith)
            requires
                multiplier * w == prefix * w + rest_value,
                0 <= rest_value < w,
        ;
    }
    r
}

/// Adds two numbers of two limbs each; the sum wraps at two to the power
/// of 256.
fn add_wrap(x: (u128, u128), y: (u128, u128)) -> (sum: (u128, u128))
    ensures
        limbs_value(sum.0, sum.1) == (limbs_value(x.0, x.1) + limbs_value(y.0, y.1))
            % word_modulus(),
{
    let ghost total = limbs_value(x.0, x.1) + limbs_value(y.0, y.1);
    proof {
        lemma_pow256_values();
    }
    let (hi, lo, carry) = add_limbs(x, y);
    proof {
        assert(limbs_value(hi, lo) < word_modulus());
        if carry {
            lemma_fundamental_div_mod_converse(
                total as int,
                word_modulus() as int,
                1,
                limbs_value(hi, lo) as int,
            );
        } else {
            lemma_small_mod(total, word_modulus());
        }
    }
    (hi, lo)
}

/// Multiplies `a` by `b`, bit by bit of `b` from the highest; the product
/// wraps at two to the power of 256.
fn mul_wrap_limbs(a: (u128, u128), b: (u128, u128)) -> (product: (u128, u128))
    ensures
        limbs_value(product.0, product.1) == (limbs_value(a.0, a.1) * limbs_value(b.0, b.1))
            % word_modulus(),
{
    let ghost factor = limbs_value(a.0, a.1);
    let ghost multiplier = limbs_value(b.0, b.1);
    let ghost modulus = word_modulus();
    let mut rest = b;
    let mut r: (u128, u128) = (0, 0);
    let ghost mut prefix: nat = 0;
    let mut k: u32 = 0;
    proof {
        lemma_pow256_values();
        lemma_pow2_values();
        assert(multiplier * 1 == multiplier);
        assert(0 * word_modulus() == 0);
        assert(factor * 0 == 0);
        lemma_small_mod(0, modulus);
        assert(factor < modulus);
    }
    while k < 256
        invariant
            k <= 256,
            modulus == word_modulus(),
            factor == limbs_value(a.0, a.1),
            factor < modulus,
            multiplier * pow2(k as nat) == prefix * word_modulus() + limbs_value(rest.0, rest.1),
            limbs_value(r.0, r.1) == (factor * prefix) % modulus,
            pow2(256) == word_modulus(),
        decreases 256 - k,
    {
        let ghost scale = pow2(k as nat);
        let ghost r_value = limbs_value(r.0, r.1);
        proof {
            lemma_pow2_unfold((k + 1) as nat);
        }
        let (rest_hi, rest_lo, bit) = add_limbs(rest, rest);
        let ghost bit_value: nat = if bit {
            1
        } else {
            0
        };
        let doubled = add_wrap(r, r);
        proof {
            assert(multiplier * pow2((k + 1) as nat) == 2 * (multiplier * scale))
                by (nonlinear_arith)
                requires
                    pow2((k + 1) as nat) == 2 * scale,
            ;
            assert((2 * prefix + bit_value) * word_modulus() == 2 * (prefix * word_modulus())
                + bit_value * word_modulus()) by (nonlinear_arith);
            lemma_mul_mod_noop_right(2, (factor * prefix) as int, modulus as int);
            assert(r_value + r_value == 2 * r_value);
            assert(factor * (2 * prefix) == 2 * (factor * prefix)) by (nonlinear_arith);
        }
        if bit {
            let sum = add_wrap(doubled, a);
            proof {
                lemma_add_mod_noop(
                    (factor * (2 * prefix)) as int,
                    factor as int,
                    modulus as int,
                );
                lemma_small_mod(factor, modulus);
                assert(factor * (2 * prefix + 1) == factor * (2 * prefix) + factor)
                    by (nonlinear_arith);
            }
            r = sum;
        } else {
            r = doubled;
        }
        rest = (rest_hi, rest_lo);
        proof {
            prefix = 2 * prefix + bit_value;
        }
        k = k + 1;
    }
    proof {
        let rest_value = limbs_value(rest.0, rest.1);
        let w = word_modulus();
        assert(rest_value < w);
        assert(prefix == multiplier) by (nonlinear_arith)
            requires
                multiplier * w == prefix * w + rest_value,
                0 <= rest_value < w,
        ;
    }
    r
}

/// The product of two words, which wraps at two to the power of 256.
pub open spec fn wrapping_product(a: nat, b: nat) -> nat {
    (a * b) % word_modulus()
}

/// The sum of two words, which wraps at two to the power of 256.
pub open spec fn wrapping_sum(a: nat, b: nat) -> nat {
    (a + b) % word_modulus()
}

/// The difference of two words, which wraps at zero.
pub open spec fn wrapping_difference(a: nat, b: nat) -> nat {
    if a >= b {
        (a - b) as nat
    } else {
        (a + word_modulus() - b) as nat
    }
}

/// The quotient of two words; a division by zero gives zero.
pub open spec fn quotient(a: nat, b: nat) -> nat {
    if b == 0 {
        0
    } else {
        a / b
    }
}

/// The sum of two words modulo a third; a modulus of zero gives zero.
pub open spec fn sum_modulo(a: nat, b: nat, n: nat) -> nat {
    if n == 0 {
        0
    } else {
        (a + b) % n
    }
}

/// The product of two words modulo a third; a modulus of zero gives zero.
pub open spec fn product_modulo(a: nat, b: nat, n: nat) -> nat {
    if n == 0 {
        0
    } else {
        (a * b) % n
    }
}

impl U256 {
    /// Adds `other`; the sum wraps at two to the power of 256.
    pub fn add(self, other: Self) -> (sum: Self)
        ensures
            sum@ == wrapping_sum(self@, other@),
    {
        let a = self.limbs();
        let b = other.limbs();
        let (hi, lo, carry) = add_limbs(a, b);
        let sum = U256::from_limbs(hi, lo);
        proof {
            sum.lemma_range();
            if carry {
                lemma_fundamental_div_mod_converse(
                    (self@ + other@) as int,
                    word_modulus() as int,
                    1,
                    sum@ as int,
                );
            } else {
                lemma_small_mod(self@ + other@, word_modulus());
            }
        }
        sum
    }

    /// Subtracts `other`; the difference wraps at zero.
    pub fn sub(self, other: Self) -> (difference: Self)
        ensures
            difference@ == wrapping_difference(self@, other@),
    {
        let a = self.limbs();
        let b = other.limbs();
        let (hi, lo, _borrow) = sub_limbs(a, b);
        let difference = U256::from_limbs(hi, lo);
        proof {
            difference.lemma_range();
            self.lemma_range();
            other.lemma_range();
        }
        difference
    }

    /// Multiplies by `other`; the product wraps at two to the power of
    /// 256.
    pub fn wrapping_mul(self, other: Self) -> (product: Self)
        ensures
            product@ == wrapping_product(self@, other@),
    {
        let a = self.limbs();
        let b = other.limbs();
        let product = mul_wrap_limbs(a, b);
        U256::from_limbs(product.0, product.1)
    }

    /// Divides by `other`; a division by zero gives zero.
    pub fn div(self, other: Self) -> (result: Self)
        ensures
            result@ == quotient(self@, other@),
    {
        let a = self.limbs();
        let d = other.limbs();
        if d.0 == 0 && d.1 == 0 {
            assert(limbs_value(0, 0) == 0);
            return U256::empty();
        }
        proof {
            assert(limbs_value(d.0, d.1) > 0) by (nonlinear_arith)
                requires
                    limbs_value(d.0, d.1) == d.0 * limb_modulus() + d.1,
                    d.0 != 0 || d.1 != 0,
                    limb_modulus() > 0,
            ;
        }
        let (q, _r) = div_rem_limbs(a, d);
        U256::from_limbs(q.0, q.1)
    }

    /// Adds `other` modulo `modulus`; a modulus of zero gives zero.
    pub fn addmod(self, other: Self, modulus: Self) -> (sum: Self)
        ensures
            sum@ == sum_modulo(self@, other@, modulus@),
    {
        let a = self.limbs();
        let b = other.limbs();
        let n = modulus.limbs();
        if n.0 == 0 && n.1 == 0 {
            assert(limbs_value(0, 0) == 0);
            return U256::empty();
        }
        proof {
            assert(limbs_value(n.0, n.1) > 0) by (nonlinear_arith)
                requires
                    limbs_value(n.0, n.1) == n.0 * limb_modulus() + n.1,
                    n.0 != 0 || n.1 != 0,
                    limb_modulus() > 0,
            ;
            vstd::arithmetic::div_mod::lemma_mod_bound(self@ as int, modulus@ as int);
            vstd::arithmetic::div_mod::lemma_mod_bound(other@ as int, modulus@ as int);
            lemma_add_mod_noop(self@ as int, other@ as int, modulus@ as int);
        }
        let (_qa, a_reduced) = div_rem_limbs(a, n);
        let (_qb, b_reduced) = div_rem_limbs(b, n);
        let sum = add_reduce(a_reduced, b_reduced, n);
        U256::from_limbs(sum.0, sum.1)
    }

    /// Multiplies by `other` modulo `modulus`; a modulus of zero gives
    /// zero.
    pub fn mulmod(self, other: Self, modulus: Self) -> (product: Self)
        ensures
            product@ == product_modulo(self@, other@, modulus@),
    {
        let a = self.limbs();
        let b = other.limbs();
        let n = modulus.limbs();
        if n.0 == 0 && n.1 == 0 {
            assert(limbs_value(0, 0) == 0);
            return U256::empty();
        }
        proof {
            assert(limbs_value(n.0, n.1) > 0) by (nonlinear_arith)
                requires
                    limbs_value(n.0, n.1) == n.0 * limb_modulus() + n.1,
                    n.0 != 0 || n.1 != 0,
                    limb_modulus() > 0,
            ;
        }
        let product = mul_mod_limbs(a, b, n);
        U256::from_limbs(product.0, product.1)
    }
}

impl Value for U256 {
    open spec fn canonical(&self) -> Seq<u8> {
        self.bytes()
    }

    open spec fn operand(&self) -> Operand {
        Operand::Bytes32(self.word())
    }

    open spec fn kind() -> WordKind {
        WordKind::Bytes32
    }

    fn sload() -> (op: HostOp) {
        HostOp::SLoad(WordKind::Bytes32)
    }

    fn tload() -> (op: HostOp) {
        HostOp::TLoad(WordKind::Bytes32)
    }

    fn push(self) -> (op: HostOp) {
        HostOp::Push(Operand::Bytes32(self.0))
    }

    fn bytes32(&self) -> (word: [u8; 32]) {
        self.0.0
    }

    proof fn lemma_canonical(&self, other: &Self) {
        if self.canonical() == other.canonical() {
            assert(self.0.0@ =~= other.0.0@);
            assert(self.0.0 == other.0.0);
        }
    }
}

impl U256 {
    /// The word as bytes.
    pub closed spec fn word(&self) -> Bytes32 {
        self.0
    }

    /// The word as which the machine takes the number holds its bytes.
    pub proof fn lemma_word(&self)
        ensures
            self.word()@ == self.bytes(),
    {
    }
}

impl core::ops::Sub for U256 {
    type Output = Self;

    /// Subtracts `other`; the difference wraps at zero.
    fn sub(self, other: Self) -> (difference: Self)
        ensures
            difference@ == wrapping_difference(self@, other@),
    {
        let difference = U256::sub(self, other);
        proof {
            let chosen = choose|chosen: U256| chosen@ == wrapping_difference(self@, other@);
            difference.lemma_value_injective(&chosen);
        }
        difference
    }
}

impl vstd::std_specs::ops::SubSpecImpl for U256 {
    open spec fn obeys_sub_spec() -> bool {
        true
    }

    open spec fn sub_req(self, other: Self) -> bool {
        true
    }

    open spec fn sub_spec(self, other: Self) -> Self {
        choose|word: U256| word@ == wrapping_difference(self@, other@)
    }
}

impl From<u64> for U256 {
    /// The word that holds `value`.
    fn from(value: u64) -> (word: Self)
        ensures
            word@ == value as nat,
    {
        let word = U256::from_limbs(0, value as u128);
        proof {
            assert(limbs_value(0, value as u128) == value as nat);
            let chosen = choose|chosen: U256| chosen@ == value as nat;
            word.lemma_value_injective(&chosen);
        }
        word
    }
}

impl vstd::std_specs::convert::FromSpecImpl<u64> for U256 {
    open spec fn obeys_from_spec() -> bool {
        true
    }

    open spec fn from_spec(value: u64) -> Self {
        choose|word: U256| word@ == value as nat
    }
}

} // verus!
