//! Double key mapping.
use vstd::prelude::*;
use crate::host::{HostOp, Operand};
use crate::storage::mapping::{hash_pair, hash_words, lemma_seed_injective, mapping_key};
use crate::storage::{slot_bytes32, slot_word, Value};
use crate::keccak256_digest;

verus! {

/// The storage key of the entry under `key1` and `key2` of the mapping in
/// `slot`, all as canonical words: the first key and the slot are hashed as
/// for a mapping, and what comes out is hashed with the second key behind
/// it.
pub open spec fn double_key(key1: Seq<u8>, key2: Seq<u8>, slot: Seq<u8>) -> Seq<u8> {
    hash_pair(mapping_key(key1, slot), key2)
}

/// The storage key of an entry with two keys is the hash of two buffers,
/// one in the other: the first key with the slot behind it is hashed, and
/// that hash with the second key behind it is hashed again. The inner hash
/// is the storage key of the entry under the first key of a mapping in the
/// same slot.
pub proof fn lemma_double_key_nests(key1: Seq<u8>, key2: Seq<u8>, slot: Seq<u8>)
    ensures
        double_key(key1, key2, slot) == keccak256_digest(keccak256_digest(key1 + slot) + key2),
        double_key(key1, key2, slot) == mapping_key(mapping_key(key1, slot), key2),
{
}

/// Where the hash tells apart the buffers of both rounds unless they are
/// equal, and the inner hashes are words, two entries with keys of the
/// same types have the same storage key only if they have the same keys
/// and the same slot.
pub proof fn lemma_double_key_injective<K1: Value, K2: Value>(
    first1: K1,
    second1: K2,
    slot1: i32,
    first2: K1,
    second2: K2,
    slot2: i32,
)
    requires
        mapping_key(first1.canonical(), slot_word(slot1)).len() == 32,
        mapping_key(first2.canonical(), slot_word(slot2)).len() == 32,
        keccak256_digest(first1.canonical() + slot_word(slot1)) == keccak256_digest(
            first2.canonical() + slot_word(slot2),
        ) ==> first1.canonical() + slot_word(slot1) == first2.canonical() + slot_word(slot2),
        keccak256_digest(mapping_key(first1.canonical(), slot_word(slot1)) + second1.canonical())
            == keccak256_digest(
            mapping_key(first2.canonical(), slot_word(slot2)) + second2.canonical(),
        ) ==> mapping_key(first1.canonical(), slot_word(slot1)) + second1.canonical()
            == mapping_key(first2.canonical(), slot_word(slot2)) + second2.canonical(),
        double_key(first1.canonical(), second1.canonical(), slot_word(slot1)) == double_key(
            first2.canonical(),
            second2.canonical(),
            slot_word(slot2),
        ),
    ensures
        first1 == first2,
        second1 == second2,
        slot1 == slot2,
{
    let inner1 = mapping_key(first1.canonical(), slot_word(slot1));
    let inner2 = mapping_key(first2.canonical(), slot_word(slot2));
    second1.lemma_canonical(&second2);
    second2.lemma_canonical(&second1);
    let a = inner1 + second1.canonical();
    let b = inner2 + second2.canonical();
    assert(a.subrange(0, 32) =~= inner1);
    assert(b.subrange(0, 32) =~= inner2);
    assert(a.subrange(32, 64) =~= second1.canonical());
    assert(b.subrange(32, 64) =~= second2.canonical());
    lemma_seed_injective(first1, slot1, first2, slot2);
}

/// The operations that leave the storage key of an entry on the stack.
pub open spec fn load_double_key_ops(key1: Operand, key2: Operand, index: i32) -> Seq<HostOp> {
    seq![
        HostOp::ReserveMem64,
        HostOp::Push(key1),
        HostOp::Push0,
        HostOp::MStore,
        HostOp::Push(Operand::I32(index)),
        HostOp::Push(Operand::U8(0x20)),
        HostOp::MStore,
        HostOp::Push(Operand::U8(0x40)),
        HostOp::Push0,
        HostOp::Keccak256,
        HostOp::Push0,
        HostOp::MStore,
        HostOp::Push(key2),
        HostOp::Push(Operand::U8(0x20)),
        HostOp::MStore,
        HostOp::Push(Operand::U8(0x40)),
        HostOp::Push0,
        HostOp::Keccak256,
    ]
}

/// Derives the storage key of the entry under `key1` and `key2` of the
/// mapping in `slot`.
pub fn storage_key<K1: Value, K2: Value>(key1: &K1, key2: &K2, slot: i32) -> (storage_key: [u8; 32])
    ensures
        storage_key@ == double_key(key1.canonical(), key2.canonical(), slot_word(slot)),
{
    let key1_word = key1.bytes32();
    let index_word = slot_bytes32(slot);
    let inner = hash_words(&key1_word, &index_word);
    let key2_word = key2.bytes32();
    hash_words(&inner, &key2_word)
}

/// The operations that leave the storage key of the entry under `key1` and
/// `key2` of the mapping in slot `index` on the stack.
pub fn load_double_key<K1: Value, K2: Value>(key1: K1, key2: K2, index: i32) -> (ops: Vec<HostOp>)
    ensures
        ops@ == load_double_key_ops(key1.operand(), key2.operand(), index),
{
    let mut ops: Vec<HostOp> = Vec::new();
    ops.push(HostOp::ReserveMem64);
    ops.push(key1.push());
    ops.push(HostOp::Push0);
    ops.push(HostOp::MStore);
    ops.push(HostOp::Push(Operand::I32(index)));
    ops.push(HostOp::Push(Operand::U8(0x20)));
    ops.push(HostOp::MStore);
    ops.push(HostOp::Push(Operand::U8(0x40)));
    ops.push(HostOp::Push0);
    ops.push(HostOp::Keccak256);
    ops.push(HostOp::Push0);
    ops.push(HostOp::MStore);
    ops.push(key2.push());
    ops.push(HostOp::Push(Operand::U8(0x20)));
    ops.push(HostOp::MStore);
    ops.push(HostOp::Push(Operand::U8(0x40)));
    ops.push(HostOp::Push0);
    ops.push(HostOp::Keccak256);
    assert(ops@ =~= load_double_key_ops(key1.operand(), key2.operand(), index));
    ops
}

/// A mapping with two keys in persistent storage.
pub trait DoubleKeyMapping {
    type Key1: Value;

    type Key2: Value;

    type Value: Value;

    /// The slot of the mapping.
    spec fn slot() -> i32;

    /// The slot of the mapping.
    fn storage_slot() -> (slot: i32)
        ensures
            slot == Self::slot(),
    ;

    /// The storage key of the entry under `key1` and `key2`.
    fn storage_key(key1: Self::Key1, key2: Self::Key2) -> (storage_key: [u8; 32])
        ensures
            storage_key@ == double_key(
                key1.canonical(),
                key2.canonical(),
                slot_word(Self::slot()),
            ),
    {
        self::storage_key(&key1, &key2, Self::storage_slot())
    }

    /// The operations that load the entry under `key1` and `key2`.
    fn get(key1: Self::Key1, key2: Self::Key2) -> (ops: Vec<HostOp>)
        ensures
            ops@ == load_double_key_ops(key1.operand(), key2.operand(), Self::slot()).push(
                HostOp::SLoad(Self::Value::kind()),
            ),
    {
        let mut ops = load_double_key(key1, key2, Self::storage_slot());
        ops.push(Self::Value::sload());
        ops
    }

    /// The operations that store `value` under `key1` and `key2`.
    fn set(key1: Self::Key1, key2: Self::Key2, value: Self::Value) -> (ops: Vec<HostOp>)
        ensures
            ops@ == seq![HostOp::Push(value.operand())] + load_double_key_ops(
                key1.operand(),
                key2.operand(),
                Self::slot(),
            ).push(HostOp::SStore),
    {
        let mut ops: Vec<HostOp> = Vec::new();
        ops.push(value.push());
        let mut key_ops = load_double_key(key1, key2, Self::storage_slot());
        ops.append(&mut key_ops);
        ops.push(HostOp::SStore);
        assert(ops@ =~= seq![HostOp::Push(value.operand())] + load_double_key_ops(
            key1.operand(),
            key2.operand(),
            Self::slot(),
        ).push(HostOp::SStore));
        ops
    }
}

/// A mapping with two keys in transient storage.
pub trait DoubleKeyTransientMapping {
    type Key1: Value;

    type Key2: Value;

    type Value: Value;

    /// The slot of the mapping.
    spec fn slot() -> i32;

    /// The slot of the mapping.
    fn storage_slot() -> (slot: i32)
        ensures
            slot == Self::slot(),
    ;

    /// The storage key of the entry under `key1` and `key2`.
    fn storage_key(key1: Self::Key1, key2: Self::Key2) -> (storage_key: [u8; 32])
        ensures
            storage_key@ == double_key(
                key1.canonical(),
                key2.canonical(),
                slot_word(Self::slot()),
            ),
    {
        self::storage_key(&key1, &key2, Self::storage_slot())
    }

    /// The operations that load the entry under `key1` and `key2`.
    fn get(key1: Self::Key1, key2: Self::Key2) -> (ops: Vec<HostOp>)
        ensures
            ops@ == load_double_key_ops(key1.operand(), key2.operand(), Self::slot()).push(
                HostOp::TLoad(Self::Value::kind()),
            ),
    {
        let mut ops = load_double_key(key1, key2, Self::storage_slot());
        ops.push(Self::Value::tload());
        ops
    }

    /// The operations that store `value` under `key1` and `key2`.
    fn set(key1: Self::Key1, key2: Self::Key2, value: Self::Value) -> (ops: Vec<HostOp>)
        ensures
            ops@ == seq![HostOp::Push(value.operand())] + load_double_key_ops(
                key1.operand(),
                key2.operand(),
                Self::slot(),
            ).push(HostOp::TStore),
    {
        let mut ops: Vec<HostOp> = Vec::new();
        ops.push(value.push());
        let mut key_ops = load_double_key(key1, key2, Self::storage_slot());
        ops.append(&mut key_ops);
        ops.push(HostOp::TStore);
        assert(ops@ =~= seq![HostOp::Push(value.operand())] + load_double_key_ops(
            key1.operand(),
            key2.operand(),
            Self::slot(),
        ).push(HostOp::TStore));
        ops
    }
}

} // verus!
