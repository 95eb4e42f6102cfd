use zink::host::{HostOp, Operand, WordKind};
use zink::primitives::{Address, U256};
use zink::storage::dkmapping::{load_double_key, storage_key as double_storage_key};
use zink::storage::mapping::{hash_words, load_key, storage_key};
use zink::{
    keccak256, DoubleKeyMapping, DoubleKeyTransientMapping, Mapping, Storage, TransientMapping,
    TransientStorage, Value,
};

struct Counter;

impl Storage for Counter {
    type Value = u64;

    fn storage_slot() -> i32 {
        3
    }

    fn slot() -> i32 {
        3
    }
}

struct Scratch;

impl TransientStorage for Scratch {
    type Value = i32;

    fn storage_slot() -> i32 {
        1
    }

    fn slot() -> i32 {
        1
    }
}

struct Balances;

impl Mapping for Balances {
    type Key = u64;
    type Value = U256;

    fn storage_slot() -> i32 {
        0
    }

    fn slot() -> i32 {
        0
    }
}

struct Locks;

impl TransientMapping for Locks {
    type Key = u8;
    type Value = u8;

    fn storage_slot() -> i32 {
        2
    }

    fn slot() -> i32 {
        2
    }
}

struct Allowances;

impl DoubleKeyMapping for Allowances {
    type Key1 = u64;
    type Key2 = u64;
    type Value = U256;

    fn storage_slot() -> i32 {
        1
    }

    fn slot() -> i32 {
        1
    }
}

struct Approvals;

impl DoubleKeyTransientMapping for Approvals {
    type Key1 = u8;
    type Key2 = u16;
    type Value = u32;

    fn storage_slot() -> i32 {
        4
    }

    fn slot() -> i32 {
        4
    }
}

#[test]
fn mapping_key_of_zero_is_the_hash_of_64_zero_bytes() {
    assert_eq!(storage_key(&0u64, 0), keccak256(&[0u8; 64]));
    assert_eq!(Balances::storage_key(0), keccak256(&[0u8; 64]));
    assert_eq!(
        hex::encode(storage_key(&0u64, 0)),
        "ad3228b676f7d3cd4284a5443f17f1962b36e491b30a40b2405849e597ba5fb5"
    );
}

#[test]
fn mapping_key_hashes_key_then_slot() {
    let mut seed = [0u8; 64];
    seed[31] = 9;
    seed[63] = 5;
    assert_eq!(storage_key(&9u8, 5), keccak256(&seed));
}

#[test]
fn mapping_keys_of_distinct_entries_differ() {
    assert_ne!(storage_key(&1u64, 0), storage_key(&0u64, 1));
    assert_ne!(storage_key(&1u64, 0), storage_key(&2u64, 0));
    assert_ne!(storage_key(&1u32, 1), storage_key(&1u32, 256));
    assert_eq!(storage_key(&1u64, 7), storage_key(&1u64, 7));
}

#[test]
fn double_key_nests_the_single_key() {
    let inner = storage_key(&11u64, 1);
    let expected = hash_words(&inner, &22u64.bytes32());
    assert_eq!(double_storage_key(&11u64, &22u64, 1), expected);
    assert_eq!(Allowances::storage_key(11, 22), expected);

    let mut first = [0u8; 64];
    first[31] = 11;
    first[63] = 1;
    let mut second = [0u8; 64];
    second[..32].copy_from_slice(&keccak256(&first));
    second[63] = 22;
    assert_eq!(expected, keccak256(&second));
}

#[test]
fn double_key_depends_on_the_order_of_its_keys() {
    assert_ne!(
        double_storage_key(&1u64, &2u64, 0),
        double_storage_key(&2u64, &1u64, 0)
    );
}

#[test]
fn hash_words_hashes_one_buffer() {
    let first = [1u8; 32];
    let second = [2u8; 32];
    let mut buffer = [1u8; 64];
    buffer[32..].copy_from_slice(&second);
    assert_eq!(hash_words(&first, &second), keccak256(&buffer));
}

#[test]
fn value_storage_is_addressed_by_its_slot() {
    let mut key = [0u8; 32];
    key[31] = 3;
    assert_eq!(Counter::storage_key(), key);
    assert_eq!(
        Counter::get(),
        vec![HostOp::Push(Operand::I32(3)), HostOp::SLoad(WordKind::U64)]
    );
    assert_eq!(
        Counter::set(9),
        vec![
            HostOp::Push(Operand::U64(9)),
            HostOp::Push(Operand::I32(3)),
            HostOp::SStore
        ]
    );
}

#[test]
fn transient_value_storage_uses_the_transient_operations() {
    assert_eq!(
        Scratch::get(),
        vec![HostOp::Push(Operand::I32(1)), HostOp::TLoad(WordKind::I32)]
    );
    assert_eq!(
        Scratch::set(-4),
        vec![
            HostOp::Push(Operand::I32(-4)),
            HostOp::Push(Operand::I32(1)),
            HostOp::TStore
        ]
    );
}

fn key_ops(key: Operand, index: i32) -> Vec<HostOp> {
    vec![
        HostOp::ReserveMem32,
        HostOp::Push(key),
        HostOp::Push0,
        HostOp::MStore,
        HostOp::Push(Operand::I32(index)),
        HostOp::Push(Operand::U8(0x20)),
        HostOp::MStore,
        HostOp::Push(Operand::U8(0x40)),
        HostOp::Push0,
        HostOp::Keccak256,
    ]
}

#[test]
fn load_key_writes_key_and_slot_and_hashes_them() {
    assert_eq!(load_key(7u64, 2), key_ops(Operand::U64(7), 2));
}

#[test]
fn mapping_get_and_set() {
    let mut get = key_ops(Operand::U64(7), 0);
    get.push(HostOp::SLoad(WordKind::Bytes32));
    assert_eq!(Balances::get(7), get);

    let value = U256::from(5u64);
    let mut set = vec![HostOp::Push(Operand::Bytes32(value.to_bytes32()))];
    set.extend(key_ops(Operand::U64(7), 0));
    set.push(HostOp::SStore);
    assert_eq!(Balances::set(7, value), set);
}

#[test]
fn transient_mapping_get_and_set() {
    let mut get = key_ops(Operand::U8(7), 2);
    get.push(HostOp::TLoad(WordKind::U8));
    assert_eq!(Locks::get(7), get);

    let mut set = vec![HostOp::Push(Operand::U8(1))];
    set.extend(key_ops(Operand::U8(7), 2));
    set.push(HostOp::TStore);
    assert_eq!(Locks::set(7, 1), set);
    let mut seed = [0u8; 64];
    seed[31] = 7;
    seed[63] = 2;
    assert_eq!(Locks::storage_key(7), keccak256(&seed));
}

fn double_key_ops(key1: Operand, key2: Operand, index: i32) -> Vec<HostOp> {
    vec![
        HostOp::ReserveMem64,
        HostOp::Push(key1),
        HostOp::Push0,
        HostOp::MStore,
        HostOp::Push(Operand::I32(index)),
        HostOp::Push(Operand::U8(0x20)),
        HostOp::MStore,
        HostOp::Push(Operand::U8(0x40)),
        HostOp::Push0,
        HostOp::Keccak256,
        HostOp::Push0,
        HostOp::MStore,
        HostOp::Push(key2),
        HostOp::Push(Operand::U8(0x20)),
        HostOp::MStore,
        HostOp::Push(Operand::U8(0x40)),
        HostOp::Push0,
        HostOp::Keccak256,
    ]
}

#[test]
fn load_double_key_hashes_twice() {
    assert_eq!(
        load_double_key(1u64, 2u64, 3),
        double_key_ops(Operand::U64(1), Operand::U64(2), 3)
    );
}

#[test]
fn double_key_mapping_get_and_set() {
    let mut get = double_key_ops(Operand::U64(1), Operand::U64(2), 1);
    get.push(HostOp::SLoad(WordKind::Bytes32));
    assert_eq!(Allowances::get(1, 2), get);

    let mut set = vec![HostOp::Push(Operand::U32(9))];
    set.extend(double_key_ops(Operand::U8(1), Operand::U16(2), 4));
    set.push(HostOp::TStore);
    assert_eq!(Approvals::set(1, 2, 9), set);

    let mut get = double_key_ops(Operand::U8(1), Operand::U16(2), 4);
    get.push(HostOp::TLoad(WordKind::U32));
    assert_eq!(Approvals::get(1, 2), get);
    assert_eq!(
        Approvals::storage_key(1, 2),
        double_storage_key(&1u8, &2u16, 4)
    );
}

#[test]
fn values_name_their_operations() {
    assert_eq!(u8::sload(), HostOp::SLoad(WordKind::U8));
    assert_eq!(i64::tload(), HostOp::TLoad(WordKind::I64));
    assert_eq!(5i16.push(), HostOp::Push(Operand::I16(5)));
    assert_eq!(U256::sload(), HostOp::SLoad(WordKind::Bytes32));
}

#[test]
fn an_address_is_a_key() {
    let mut bytes = [0u8; 20];
    bytes[0] = 0xaa;
    bytes[19] = 0xbb;
    let address = Address::from(bytes);
    let mut word = [0u8; 32];
    word[12] = 0xaa;
    word[31] = 0xbb;
    assert_eq!(address.bytes32(), word);
    assert_eq!(Address::empty().bytes32(), [0u8; 32]);
    assert!(address.eq(Address(bytes)));
    assert!(!address.eq(Address::empty()));
    assert_eq!(address.push(), HostOp::Push(Operand::Address(address)));
    assert_eq!(Address::tload(), HostOp::TLoad(WordKind::Address));
    let mut seed = [0u8; 64];
    seed[..32].copy_from_slice(&word);
    seed[63] = 1;
    assert_eq!(storage_key(&address, 1), keccak256(&seed));
}
