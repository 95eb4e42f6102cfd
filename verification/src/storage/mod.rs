//! Storage access and the canonical form of the values that address it.
use vstd::prelude::*;
use vstd::arithmetic::div_mod::{lemma_breakdown, lemma_div_denominator, lemma_small_mod};
use crate::primitives::u256::{be_value, lemma_be_value_concat};
use crate::host::{HostOp, Operand, WordKind};
use crate::{canonical_word, significant_len, lemma_significant_len, to_bytes32};

pub mod dkmapping;
pub mod mapping;
pub mod value;

pub use dkmapping::{DoubleKeyMapping, DoubleKeyTransientMapping};
pub use mapping::{Mapping, TransientMapping};
pub use value::{Storage, TransientStorage};

verus! {

/// 256 to the power of `k`.
pub open spec fn pow256(k: nat) -> nat
    decreases k,
{
    if k == 0 {
        1
    } else {
        256 * pow256((k - 1) as nat)
    }
}

/// The `width` low bytes of `v`, lowest first.
pub open spec fn le_bytes(v: nat, width: nat) -> Seq<u8> {
    Seq::new(width, |k: int| ((v / pow256(k as nat)) % 256) as u8)
}

/// The canonical word of an integer of `width` bytes whose bit pattern,
/// read as an unsigned number, is `v`: that number as a 32-byte big-endian
/// word.
pub open spec fn canonical_int(v: nat, width: nat) -> Seq<u8> {
    canonical_word(le_bytes(v, width))
}

/// The bit pattern of a signed integer of `bits` bits, read as an unsigned
/// number, where `modulus` is two to the power of `bits`.
pub open spec fn bit_pattern(x: int, modulus: nat) -> nat {
    if x < 0 {
        (x + modulus) as nat
    } else {
        x as nat
    }
}

/// Powers of 256 are positive.
pub proof fn lemma_pow256_positive(k: nat)
    ensures
        pow256(k) > 0,
    decreases k,
{
    if k > 0 {
        lemma_pow256_positive((k - 1) as nat);
    }
}

/// Writes the `width` low bytes of `v`, lowest first.
fn low_bytes(v: u64, width: usize) -> (bytes: Vec<u8>)
    requires
        width <= 8,
    ensures
        bytes@ == le_bytes(v as nat, width as nat),
{
    let mut bytes: Vec<u8> = Vec::new();
    let mut rest: u64 = v;
    let mut k: usize = 0;
    proof {
        assert(pow256(0) == 1);
        assert((v as nat) / 1 == v as nat);
    }
    while k < width
        invariant
            k <= width <= 8,
            rest == (v as nat) / pow256(k as nat),
            bytes@.len() == k,
            forall|j: int| 0 <= j < k ==> bytes@[j] == (((v as nat) / pow256(j as nat)) % 256) as u8,
        decreases width - k,
    {
        proof {
            lemma_pow256_positive(k as nat);
            lemma_div_denominator(v as int, pow256(k as nat) as int, 256);
            assert(pow256((k + 1) as nat) == 256 * pow256(k as nat));
            assert(pow256(k as nat) * 256 == 256 * pow256(k as nat));
        }
        bytes.push((rest % 256) as u8);
        rest = rest / 256;
        k = k + 1;
    }
    assert(bytes@ =~= le_bytes(v as nat, width as nat));
    bytes
}

/// Writes the canonical word of an integer of `width` bytes whose bit
/// pattern is `v`.
pub(crate) fn int_bytes32(v: u64, width: usize) -> (word: [u8; 32])
    requires
        width <= 8,
    ensures
        word@ == canonical_int(v as nat, width as nat),
{
    let bytes = low_bytes(v, width);
    proof {
        lemma_significant_len(bytes@);
    }
    to_bytes32(bytes.as_slice())
}

/// The canonical word of a slot index.
pub open spec fn slot_word(slot: i32) -> Seq<u8> {
    canonical_int(bit_pattern(slot as int, 0x1_0000_0000), 4)
}

/// Writes the canonical word of a slot index.
pub fn slot_bytes32(slot: i32) -> (word: [u8; 32])
    ensures
        word@ == slot_word(slot),
{
    let pattern: u64 = if slot < 0 {
        (slot as i64 + 0x1_0000_0000) as u64
    } else {
        slot as u64
    };
    int_bytes32(pattern, 4)
}

/// The byte of `v` at the position `k`, counted from the lowest.
pub open spec fn digit(v: nat, k: nat) -> u8 {
    ((v / pow256(k)) % 256) as u8
}

/// The canonical word of an integer holds its bytes in reverse order: the
/// byte at the position `k`, counted from the lowest, stands `k` places
/// before the end of the word.
pub proof fn lemma_canonical_int_digits(v: nat, width: nat, k: int)
    requires
        width <= 32,
        0 <= k < width,
    ensures
        canonical_int(v, width)[31 - k] == digit(v, k as nat),
{
    let bytes = le_bytes(v, width);
    let n = significant_len(bytes) as int;
    lemma_significant_len(bytes);
    assert(bytes[k] == digit(v, k as nat));
    if 31 - k < 32 - n {
        assert(bytes[k] == 0);
    }
}

/// Numbers below 256 to the power of `width` with the same `width` lowest
/// bytes are equal.
pub proof fn lemma_digits_injective(v1: nat, v2: nat, width: nat)
    requires
        v1 < pow256(width),
        v2 < pow256(width),
        forall|k: nat| k < width ==> digit(v1, k) == digit(v2, k),
    ensures
        v1 == v2,
    decreases width,
{
    if width > 0 {
        let h1 = v1 / 256;
        let h2 = v2 / 256;
        let rest = (width - 1) as nat;
        assert(pow256(width) == 256 * pow256(rest));
        assert(h1 < pow256(rest) && h2 < pow256(rest)) by (nonlinear_arith)
            requires
                v1 < 256 * pow256(rest),
                v2 < 256 * pow256(rest),
                h1 == v1 / 256,
                h2 == v2 / 256,
        ;
        assert forall|k: nat| k < rest implies digit(h1, k) == digit(h2, k) by {
            lemma_pow256_positive(k);
            lemma_div_denominator(v1 as int, 256, pow256(k) as int);
            lemma_div_denominator(v2 as int, 256, pow256(k) as int);
            assert(pow256(k + 1) == 256 * pow256(k));
            assert(digit(v1, k + 1) == digit(v2, k + 1));
        }
        lemma_digits_injective(h1, h2, rest);
        assert(pow256(0) == 1);
        assert(digit(v1, 0) == digit(v2, 0));
        assert(v1 / 1 == v1 && v2 / 1 == v2);
        assert(v1 == 256 * h1 + v1 % 256);
        assert(v2 == 256 * h2 + v2 % 256);
    } else {
        assert(pow256(0) == 1);
    }
}

/// Integers of one width with the same canonical word have the same bit
/// pattern.
pub proof fn lemma_canonical_int_injective(v1: nat, v2: nat, width: nat)
    requires
        width <= 32,
        v1 < pow256(width),
        v2 < pow256(width),
        canonical_int(v1, width) == canonical_int(v2, width),
    ensures
        v1 == v2,
{
    assert forall|k: nat| k < width implies digit(v1, k) == digit(v2, k) by {
        lemma_canonical_int_digits(v1, width, k as int);
        lemma_canonical_int_digits(v2, width, k as int);
    }
    lemma_digits_injective(v1, v2, width);
}

/// A byte string that holds the low bytes of `v` in reverse order at its
/// end writes, in its last `n` bytes, `v` modulo 256 to the power of `n`.
proof fn lemma_be_value_of_digits(c: Seq<u8>, v: nat, n: nat)
    requires
        n <= c.len(),
        forall|k: nat| k < n ==> c[c.len() - 1 - k] == #[trigger] digit(v, k),
    ensures
        be_value(c.subrange(c.len() - n, c.len() as int)) == v % pow256(n),
    decreases n,
{
    let len = c.len() as int;
    if n == 0 {
        assert(c.subrange(len, len) =~= Seq::<u8>::empty());
        assert(pow256(0) == 1);
    } else {
        let m = (n - 1) as nat;
        lemma_be_value_of_digits(c, v, m);
        let tail = c.subrange(len - m, len);
        let byte = c[len - n];
        assert(c.subrange(len - n, len) =~= seq![byte] + tail);
        lemma_be_value_concat(seq![byte], tail);
        assert(seq![byte].drop_last() =~= Seq::<u8>::empty());
        assert(be_value(seq![byte].drop_last()) == 0);
        assert(be_value(seq![byte]) == byte as nat);
        assert(byte == digit(v, m));
        lemma_pow256_positive(m);
        lemma_breakdown(v as int, pow256(m) as int, 256);
        assert(pow256(n) == 256 * pow256(m));
        assert(pow256(m) * 256 == 256 * pow256(m));
        assert(byte as nat * pow256(m) == pow256(m) * ((v / pow256(m)) % 256)) by (nonlinear_arith)
            requires
                byte as nat == (v / pow256(m)) % 256,
        ;
    }
}

/// The canonical word of an integer, read as a big-endian number, is the
/// bit pattern of the integer.
pub proof fn lemma_canonical_int_value(v: nat, width: nat)
    requires
        width <= 32,
        v < pow256(width),
    ensures
        canonical_int(v, width).len() == 32,
        be_value(canonical_int(v, width)) == v,
{
    let c = canonical_int(v, width);
    let bytes = le_bytes(v, width);
    lemma_significant_len(bytes);
    assert forall|k: nat| k < 32 implies c[31 - k] == #[trigger] digit(v, k) by {
        if k < width {
            lemma_canonical_int_digits(v, width, k as int);
        } else {
            crate::primitives::u256::lemma_pow256_monotonic(width, k);
            vstd::arithmetic::div_mod::lemma_basic_div(v as int, pow256(k) as int);
        }
    }
    lemma_be_value_of_digits(c, v, 32);
    assert(c.subrange(0, 32) =~= c);
    crate::primitives::u256::lemma_pow256_monotonic(width, 32);
    lemma_small_mod(v, pow256(32));
}

/// Slots with the same canonical word are equal.
pub proof fn lemma_slot_word_injective(slot1: i32, slot2: i32)
    requires
        slot_word(slot1) == slot_word(slot2),
    ensures
        slot1 == slot2,
{
    reveal_with_fuel(pow256, 5);
    lemma_canonical_int_injective(
        bit_pattern(slot1 as int, 0x1_0000_0000),
        bit_pattern(slot2 as int, 0x1_0000_0000),
        4,
    );
}

/// The canonical word of zero holds zero bytes only.
pub proof fn lemma_canonical_zero(width: nat)
    ensures
        canonical_int(0, width) == Seq::new(32, |i: int| 0u8),
{
    let bytes = le_bytes(0, width);
    assert forall|k: int| 0 <= k < width implies bytes[k] == 0u8 by {
        lemma_pow256_positive(k as nat);
        vstd::arithmetic::div_mod::lemma_div_basics(pow256(k as nat) as int);
    }
    crate::lemma_significant_len_unique(bytes, 0);
    assert(canonical_int(0, width) =~= Seq::new(32, |i: int| 0u8));
}

/// A value that the machine can hold in a word.
pub trait Value: Sized {
    /// The canonical 32-byte word of the value, as it enters a hash.
    spec fn canonical(&self) -> Seq<u8>;

    /// The value as the machine takes it.
    spec fn operand(&self) -> Operand;

    /// The type as which the machine hands the value back.
    spec fn kind() -> WordKind;

    /// The operation that loads a value of this type from persistent
    /// storage.
    fn sload() -> (op: HostOp)
        ensures
            op == HostOp::SLoad(Self::kind()),
    ;

    /// The operation that loads a value of this type from transient
    /// storage.
    fn tload() -> (op: HostOp)
        ensures
            op == HostOp::TLoad(Self::kind()),
    ;

    /// The operation that pushes the value.
    fn push(self) -> (op: HostOp)
        ensures
            op == HostOp::Push(self.operand()),
    ;

    /// Writes the canonical word of the value.
    fn bytes32(&self) -> (word: [u8; 32])
        ensures
            word@ == self.canonical(),
    ;

    /// The canonical word has 32 bytes, and values of one type with the
    /// same canonical word are equal.
    proof fn lemma_canonical(&self, other: &Self)
        ensures
            self.canonical().len() == 32,
            self.canonical() == other.canonical() ==> *self == *other,
    ;
}

impl Value for u8 {
    open spec fn canonical(&self) -> Seq<u8> {
        canonical_int(*self as nat, 1)
    }

    open spec fn operand(&self) -> Operand {
        Operand::U8(*self)
    }

    open spec fn kind() -> WordKind {
        WordKind::U8
    }

    fn sload() -> (op: HostOp) {
        HostOp::SLoad(WordKind::U8)
    }

    fn tload() -> (op: HostOp) {
        HostOp::TLoad(WordKind::U8)
    }

    fn push(self) -> (op: HostOp) {
        HostOp::Push(Operand::U8(self))
    }

    fn bytes32(&self) -> (word: [u8; 32]) {
        int_bytes32(*self as u64, 1)
    }

    proof fn lemma_canonical(&self, other: &Self) {
        reveal_with_fuel(pow256, 2);
        if self.canonical() == other.canonical() {
            lemma_canonical_int_injective(*self as nat, *other as nat, 1);
        }
    }
}

impl Value for i8 {
    open spec fn canonical(&self) -> Seq<u8> {
        canonical_int(bit_pattern(*self as int, 0x100), 1)
    }

    open spec fn operand(&self) -> Operand {
        Operand::I8(*self)
    }

    open spec fn kind() -> WordKind {
        WordKind::I8
    }

    fn sload() -> (op: HostOp) {
        HostOp::SLoad(WordKind::I8)
    }

    fn tload() -> (op: HostOp) {
        HostOp::TLoad(WordKind::I8)
    }

    fn push(self) -> (op: HostOp) {
        HostOp::Push(Operand::I8(self))
    }

    fn bytes32(&self) -> (word: [u8; 32]) {
        let pattern: u64 = if *self < 0 {
            (*self as i64 + 0x100) as u64
        } else {
            *self as u64
        };
        int_bytes32(pattern, 1)
    }

    proof fn lemma_canonical(&self, other: &Self) {
        reveal_with_fuel(pow256, 2);
        if self.canonical() == other.canonical() {
            lemma_canonical_int_injective(
                bit_pattern(*self as int, 0x100),
                bit_pattern(*other as int, 0x100),
                1,
            );
        }
    }
}

impl Value for u16 {
    open spec fn canonical(&self) -> Seq<u8> {
        canonical_int(*self as nat, 2)
    }

    open spec fn operand(&self) -> Operand {
        Operand::U16(*self)
    }

    open spec fn kind() -> WordKind {
        WordKind::U16
    }

    fn sload() -> (op: HostOp) {
        HostOp::SLoad(WordKind::U16)
    }

    fn tload() -> (op: HostOp) {
        HostOp::TLoad(WordKind::U16)
    }

    fn push(self) -> (op: HostOp) {
        HostOp::Push(Operand::U16(self))
    }

    fn bytes32(&self) -> (word: [u8; 32]) {
        int_bytes32(*self as u64, 2)
    }

    proof fn lemma_canonical(&self, other: &Self) {
        reveal_with_fuel(pow256, 3);
        if self.canonical() == other.canonical() {
            lemma_canonical_int_injective(*self as nat, *other as nat, 2);
        }
    }
}

impl Value for i16 {
    open spec fn canonical(&self) -> Seq<u8> {
        canonical_int(bit_pattern(*self as int, 0x1_0000), 2)
    }

    open spec fn operand(&self) -> Operand {
        Operand::I16(*self)
    }

    open spec fn kind() -> WordKind {
        WordKind::I16
    }

    fn sload() -> (op: HostOp) {
        HostOp::SLoad(WordKind::I16)
    }

    fn tload() -> (op: HostOp) {
        HostOp::TLoad(WordKind::I16)
    }

    fn push(self) -> (op: HostOp) {
        HostOp::Push(Operand::I16(self))
    }

    fn bytes32(&self) -> (word: [u8; 32]) {
        let pattern: u64 = if *self < 0 {
            (*self as i64 + 0x1_0000) as u64
        } else {
            *self as u64
        };
        int_bytes32(pattern, 2)
    }

    proof fn lemma_canonical(&self, other: &Self) {
        reveal_with_fuel(pow256, 3);
        if self.canonical() == other.canonical() {
            lemma_canonical_int_injective(
                bit_pattern(*self as int, 0x1_0000),
                bit_pattern(*other as int, 0x1_0000),
                2,
            );
        }
    }
}

impl Value for u32 {
    open spec fn canonical(&self) -> Seq<u8> {
        canonical_int(*self as nat, 4)
    }

    open spec fn operand(&self) -> Operand {
        Operand::U32(*self)
    }

    open spec fn kind() -> WordKind {
        WordKind::U32
    }

    fn sload() -> (op: HostOp) {
        HostOp::SLoad(WordKind::U32)
    }

    fn tload() -> (op: HostOp) {
        HostOp::TLoad(WordKind::U32)
    }

    fn push(self) -> (op: HostOp) {
        HostOp::Push(Operand::U32(self))
    }

    fn bytes32(&self) -> (word: [u8; 32]) {
        int_bytes32(*self as u64, 4)
    }

    proof fn lemma_canonical(&self, other: &Self) {
        reveal_with_fuel(pow256, 5);
        if self.canonical() == other.canonical() {
            lemma_canonical_int_injective(*self as nat, *other as nat, 4);
        }
    }
}

impl Value for i32 {
    open spec fn canonical(&self) -> Seq<u8> {
        slot_word(*self)
    }

    open spec fn operand(&self) -> Operand {
        Operand::I32(*self)
    }

    open spec fn kind() -> WordKind {
        WordKind::I32
    }

    fn sload() -> (op: HostOp) {
        HostOp::SLoad(WordKind::I32)
    }

    fn tload() -> (op: HostOp) {
        HostOp::TLoad(WordKind::I32)
    }

    fn push(self) -> (op: HostOp) {
        HostOp::Push(Operand::I32(self))
    }

    fn bytes32(&self) -> (word: [u8; 32]) {
        slot_bytes32(*self)
    }

    proof fn lemma_canonical(&self, other: &Self) {
        reveal_with_fuel(pow256, 5);
        if self.canonical() == other.canonical() {
            lemma_canonical_int_injective(
                bit_pattern(*self as int, 0x1_0000_0000),
                bit_pattern(*other as int, 0x1_0000_0000),
                4,
            );
        }
    }
}

impl Value for u64 {
    open spec fn canonical(&self) -> Seq<u8> {
        canonical_int(*self as nat, 8)
    }

    open spec fn operand(&self) -> Operand {
        Operand::U64(*self)
    }

    open spec fn kind() -> WordKind {
        WordKind::U64
    }

    fn sload() -> (op: HostOp) {
        HostOp::SLoad(WordKind::U64)
    }

    fn tload() -> (op: HostOp) {
        HostOp::TLoad(WordKind::U64)
    }

    fn push(self) -> (op: HostOp) {
        HostOp::Push(Operand::U64(self))
    }

    fn bytes32(&self) -> (word: [u8; 32]) {
        int_bytes32(*self as u64, 8)
    }

    proof fn lemma_canonical(&self, other: &Self) {
        reveal_with_fuel(pow256, 9);
        if self.canonical() == other.canonical() {
            lemma_canonical_int_injective(*self as nat, *other as nat, 8);
        }
    }
}

impl Value for i64 {
    open spec fn canonical(&self) -> Seq<u8> {
        canonical_int(bit_pattern(*self as int, 0x1_0000_0000_0000_0000), 8)
    }

    open spec fn operand(&self) -> Operand {
        Operand::I64(*self)
    }

    open spec fn kind() -> WordKind {
        WordKind::I64
    }

    fn sload() -> (op: HostOp) {
        HostOp::SLoad(WordKind::I64)
    }

    fn tload() -> (op: HostOp) {
        HostOp::TLoad(WordKind::I64)
    }

    fn push(self) -> (op: HostOp) {
        HostOp::Push(Operand::I64(self))
    }

    fn bytes32(&self) -> (word: [u8; 32]) {
        let pattern: u64 = if *self < 0 {
            (*self as i128 + 0x1_0000_0000_0000_0000) as u64
        } else {
            *self as u64
        };
        int_bytes32(pattern, 8)
    }

    proof fn lemma_canonical(&self, other: &Self) {
        reveal_with_fuel(pow256, 9);
        if self.canonical() == other.canonical() {
            lemma_canonical_int_injective(
                bit_pattern(*self as int, 0x1_0000_0000_0000_0000),
                bit_pattern(*other as int, 0x1_0000_0000_0000_0000),
                8,
            );
        }
    }
}

} // verus!
