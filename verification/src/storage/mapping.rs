//! Storage mappings.
use vstd::prelude::*;
use crate::host::{HostOp, Operand};
use crate::storage::{lemma_canonical_zero, lemma_slot_word_injective, slot_bytes32, slot_word, Value};
use crate::{keccak256, keccak256_digest};

verus! {

/// The hash of two words, one behind the other.
pub open spec fn hash_pair(first: Seq<u8>, second: Seq<u8>) -> Seq<u8> {
    keccak256_digest(first + second)
}

/// The storage key of the entry under `key` of the mapping in `slot`, both
/// as canonical words.
pub open spec fn mapping_key(key: Seq<u8>, slot: Seq<u8>) -> Seq<u8> {
    hash_pair(key, slot)
}

/// The operations that leave the storage key of an entry on the stack:
/// the key goes to the first word of the scratch memory, the slot to the
/// second, and both are hashed as one buffer.
pub open spec fn load_key_ops(key: Operand, index: i32) -> Seq<HostOp> {
    seq![
        HostOp::ReserveMem32,
        HostOp::Push(key),
        HostOp::Push0,
        HostOp::MStore,
        HostOp::Push(Operand::I32(index)),
        HostOp::Push(Operand::U8(0x20)),
        HostOp::MStore,
        HostOp::Push(Operand::U8(0x40)),
        HostOp::Push0,
        HostOp::Keccak256,
    ]
}

/// The storage key of the entry under a key of zero of the mapping in the
/// slot zero is the hash of 64 zero bytes.
pub proof fn lemma_zero_key()
    ensures
        mapping_key(0u64.canonical(), slot_word(0)) == keccak256_digest(Seq::new(64, |i: int| 0u8)),
{
    lemma_canonical_zero(8);
    lemma_canonical_zero(4);
    assert(0u64.canonical() + slot_word(0) =~= Seq::new(64, |i: int| 0u8));
}

/// Where the hash tells the two buffers apart unless they are equal, the
/// storage keys of two entries are equal only if their keys and their
/// slots are: that the hash has no collisions is taken from the hash.
pub proof fn lemma_mapping_key_injective(key1: Seq<u8>, slot1: i32, key2: Seq<u8>, slot2: i32)
    requires
        key1.len() == 32,
        key2.len() == 32,
        keccak256_digest(key1 + slot_word(slot1)) == keccak256_digest(key2 + slot_word(slot2))
            ==> key1 + slot_word(slot1) == key2 + slot_word(slot2),
        mapping_key(key1, slot_word(slot1)) == mapping_key(key2, slot_word(slot2)),
    ensures
        key1 == key2,
        slot1 == slot2,
{
    let a = key1 + slot_word(slot1);
    let b = key2 + slot_word(slot2);
    assert(a.subrange(0, 32) =~= key1);
    assert(b.subrange(0, 32) =~= key2);
    assert(a.subrange(32, 64) =~= slot_word(slot1));
    assert(b.subrange(32, 64) =~= slot_word(slot2));
    lemma_slot_word_injective(slot1, slot2);
}

/// The buffers that are hashed for two entries with keys of one type are
/// equal only if the entries have the same key and the same slot.
pub proof fn lemma_seed_injective<K: Value>(key1: K, slot1: i32, key2: K, slot2: i32)
    requires
        key1.canonical() + slot_word(slot1) == key2.canonical() + slot_word(slot2),
    ensures
        key1 == key2,
        slot1 == slot2,
{
    key1.lemma_canonical(&key2);
    key2.lemma_canonical(&key1);
    let a = key1.canonical() + slot_word(slot1);
    let b = key2.canonical() + slot_word(slot2);
    assert(a.subrange(0, 32) =~= key1.canonical());
    assert(b.subrange(0, 32) =~= key2.canonical());
    assert(a.subrange(32, 64) =~= slot_word(slot1));
    assert(b.subrange(32, 64) =~= slot_word(slot2));
    lemma_slot_word_injective(slot1, slot2);
}

/// The same for keys of any one type: where the hash tells the two buffers
/// apart unless they are equal, two entries have the same storage key only
/// if they have the same key and the same slot.
pub proof fn lemma_storage_key_injective<K: Value>(key1: K, slot1: i32, key2: K, slot2: i32)
    requires
        keccak256_digest(key1.canonical() + slot_word(slot1)) == keccak256_digest(
            key2.canonical() + slot_word(slot2),
        ) ==> key1.canonical() + slot_word(slot1) == key2.canonical() + slot_word(slot2),
        mapping_key(key1.canonical(), slot_word(slot1)) == mapping_key(
            key2.canonical(),
            slot_word(slot2),
        ),
    ensures
        key1 == key2,
        slot1 == slot2,
{
    key1.lemma_canonical(&key2);
    key2.lemma_canonical(&key1);
    lemma_mapping_key_injective(key1.canonical(), slot1, key2.canonical(), slot2);
}

/// Hashes two words as one 64-byte buffer.
pub fn hash_words(first: &[u8; 32], second: &[u8; 32]) -> (digest: [u8; 32])
    ensures
        digest@ == hash_pair(first@, second@),
{
    let mut seed: Vec<u8> = Vec::new();
    let mut i: usize = 0;
    while i < 32
        invariant
            i <= 32,
            seed@ == first@.take(i as int),
        decreases 32 - i,
    {
        seed.push(first[i]);
        assert(seed@ =~= first@.take(i + 1));
        i = i + 1;
    }
    let mut j: usize = 0;
    while j < 32
        invariant
            j <= 32,
            seed@ == first@.take(32) + second@.take(j as int),
        decreases 32 - j,
    {
        seed.push(second[j]);
        assert(seed@ =~= first@.take(32) + second@.take(j + 1));
        j = j + 1;
    }
    assert(seed@ =~= first@ + second@);
    keccak256(seed.as_slice())
}

/// Derives the storage key of the entry under `key` of the mapping in
/// `slot`.
pub fn storage_key<K: Value>(key: &K, slot: i32) -> (storage_key: [u8; 32])
    ensures
        storage_key@ == mapping_key(key.canonical(), slot_word(slot)),
{
    let key_word = key.bytes32();
    let index_word = slot_bytes32(slot);
    hash_words(&key_word, &index_word)
}

/// The operations that leave the storage key of the entry under `key` of
/// the mapping in slot `index` on the stack.
pub fn load_key<K: Value>(key: K, index: i32) -> (ops: Vec<HostOp>)
    ensures
        ops@ == load_key_ops(key.operand(), index),
{
    let mut ops: Vec<HostOp> = Vec::new();
    ops.push(HostOp::ReserveMem32);
    ops.push(key.push());
    ops.push(HostOp::Push0);
    ops.push(HostOp::MStore);
    ops.push(HostOp::Push(Operand::I32(index)));
    ops.push(HostOp::Push(Operand::U8(0x20)));
    ops.push(HostOp::MStore);
    ops.push(HostOp::Push(Operand::U8(0x40)));
    ops.push(HostOp::Push0);
    ops.push(HostOp::Keccak256);
    assert(ops@ =~= load_key_ops(key.operand(), index));
    ops
}

/// A mapping in persistent storage.
pub trait Mapping {
    type Key: Value;

    type Value: Value;

    /// The slot of the mapping.
    spec fn slot() -> i32;

    /// The slot of the mapping.
    fn storage_slot() -> (slot: i32)
        ensures
            slot == Self::slot(),
    ;

    /// The storage key of the entry under `key`.
    fn storage_key(key: Self::Key) -> (storage_key: [u8; 32])
        ensures
            storage_key@ == mapping_key(key.canonical(), slot_word(Self::slot())),
    {
        self::storage_key(&key, Self::storage_slot())
    }

    /// The operations that load the entry under `key`.
    fn get(key: Self::Key) -> (ops: Vec<HostOp>)
        ensures
            ops@ == load_key_ops(key.operand(), Self::slot()).push(
                HostOp::SLoad(Self::Value::kind()),
            ),
    {
        let mut ops = load_key(key, Self::storage_slot());
        ops.push(Self::Value::sload());
        ops
    }

    /// The operations that store `value` under `key`.
    fn set(key: Self::Key, value: Self::Value) -> (ops: Vec<HostOp>)
        ensures
            ops@ == seq![HostOp::Push(value.operand())] + load_key_ops(
                key.operand(),
                Self::slot(),
            ).push(HostOp::SStore),
    {
        let mut ops: Vec<HostOp> = Vec::new();
        ops.push(value.push());
        let mut key_ops = load_key(key, Self::storage_slot());
        ops.append(&mut key_ops);
        ops.push(HostOp::SStore);
        assert(ops@ =~= seq![HostOp::Push(value.operand())] + load_key_ops(
            key.operand(),
            Self::slot(),
        ).push(HostOp::SStore));
        ops
    }
}

/// A mapping in transient storage.
pub trait TransientMapping {
    type Key: Value;

    type Value: Value;

    /// The slot of the mapping.
    spec fn slot() -> i32;

    /// The slot of the mapping.
    fn storage_slot() -> (slot: i32)
        ensures
            slot == Self::slot(),
    ;

    /// The storage key of the entry under `key`.
    fn storage_key(key: Self::Key) -> (storage_key: [u8; 32])
        ensures
            storage_key@ == mapping_key(key.canonical(), slot_word(Self::slot())),
    {
        self::storage_key(&key, Self::storage_slot())
    }

    /// The operations that load the entry under `key`.
    fn get(key: Self::Key) -> (ops: Vec<HostOp>)
        ensures
            ops@ == load_key_ops(key.operand(), Self::slot()).push(
                HostOp::TLoad(Self::Value::kind()),
            ),
    {
        let mut ops = load_key(key, Self::storage_slot());
        ops.push(Self::Value::tload());
        ops
    }

    /// The operations that store `value` under `key`.
    fn set(key: Self::Key, value: Self::Value) -> (ops: Vec<HostOp>)
        ensures
            ops@ == seq![HostOp::Push(value.operand())] + load_key_ops(
                key.operand(),
                Self::slot(),
            ).push(HostOp::TStore),
    {
        let mut ops: Vec<HostOp> = Vec::new();
        ops.push(value.push());
        let mut key_ops = load_key(key, Self::storage_slot());
        ops.append(&mut key_ops);
        ops.push(HostOp::TStore);
        assert(ops@ =~= seq![HostOp::Push(value.operand())] + load_key_ops(
            key.operand(),
            Self::slot(),
        ).push(HostOp::TStore));
        ops
    }
}

} // verus!
