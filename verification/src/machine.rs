//! What the operations that derive a storage key do to the machine.
//!
//! The model covers the stack and the scratch memory, and of the
//! operations those that push, write to memory and hash. A pushed value
//! lies on the stack as its canonical word.
use vstd::prelude::*;
use crate::host::{HostOp, Operand};
use crate::keccak256_digest;
use crate::primitives::address::address_word;
use crate::primitives::u256::be_value;
use crate::storage::dkmapping::{double_key, load_double_key_ops};
use crate::storage::mapping::{load_key_ops, mapping_key};
use crate::storage::{
    canonical_int, lemma_canonical_int_value, lemma_canonical_zero, pow256, slot_word, Value,
};

verus! {

/// The stack, top last, and the scratch memory of the machine.
pub struct Machine {
    pub stack: Seq<Seq<u8>>,
    pub memory: Seq<u8>,
}

/// The word of zero bytes.
pub open spec fn zero() -> Seq<u8> {
    Seq::new(32, |i: int| 0u8)
}

/// The word as which a pushed value lies on the stack.
pub open spec fn operand_word(operand: Operand) -> Seq<u8> {
    match operand {
        Operand::I8(value) => value.canonical(),
        Operand::U8(value) => value.canonical(),
        Operand::I16(value) => value.canonical(),
        Operand::U16(value) => value.canonical(),
        Operand::I32(value) => value.canonical(),
        Operand::U32(value) => value.canonical(),
        Operand::I64(value) => value.canonical(),
        Operand::U64(value) => value.canonical(),
        Operand::Bytes32(bytes) => bytes@,
        Operand::Address(address) => address_word(address@),
    }
}

/// A pushed value lies on the stack as a word of 32 bytes.
pub proof fn lemma_operand_word(operand: Operand)
    ensures
        operand_word(operand).len() == 32,
{
    match operand {
        Operand::I8(value) => value.lemma_canonical(&value),
        Operand::U8(value) => value.lemma_canonical(&value),
        Operand::I16(value) => value.lemma_canonical(&value),
        Operand::U16(value) => value.lemma_canonical(&value),
        Operand::I32(value) => value.lemma_canonical(&value),
        Operand::U32(value) => value.lemma_canonical(&value),
        Operand::I64(value) => value.lemma_canonical(&value),
        Operand::U64(value) => value.lemma_canonical(&value),
        Operand::Bytes32(bytes) => bytes.lemma_canonical(&bytes),
        Operand::Address(address) => address.lemma_canonical(&address),
    }
}

/// The stack without its two topmost words.
pub open spec fn popped(stack: Seq<Seq<u8>>) -> Seq<Seq<u8>> {
    stack.subrange(0, stack.len() - 2)
}

/// The machine after one operation; `None` where the model does not cover
/// the operation, where the stack holds too few words, or where the
/// operation leaves the scratch memory.
pub open spec fn step(op: HostOp, machine: Machine) -> Option<Machine> {
    let stack = machine.stack;
    let memory = machine.memory;
    match op {
        HostOp::Push(operand) => Some(Machine { stack: stack.push(operand_word(operand)), memory }),
        HostOp::Push0 => Some(Machine { stack: stack.push(zero()), memory }),
        HostOp::ReserveMem32 => Some(machine),
        HostOp::ReserveMem64 => Some(machine),
        HostOp::MStore => {
            if stack.len() < 2 {
                None
            } else {
                let offset = be_value(stack[stack.len() - 1]) as int;
                let word = stack[stack.len() - 2];
                if word.len() == 32 && offset + 32 <= memory.len() {
                    Some(
                        Machine {
                            stack: popped(stack),
                            memory: memory.subrange(0, offset) + word + memory.subrange(
                                offset + 32,
                                memory.len() as int,
                            ),
                        },
                    )
                } else {
                    None
                }
            }
        },
        HostOp::Keccak256 => {
            if stack.len() < 2 {
                None
            } else {
                let offset = be_value(stack[stack.len() - 1]) as int;
                let size = be_value(stack[stack.len() - 2]) as int;
                if offset + size <= memory.len() {
                    Some(
                        Machine {
                            stack: popped(stack).push(
                                keccak256_digest(memory.subrange(offset, offset + size)),
                            ),
                            memory,
                        },
                    )
                } else {
                    None
                }
            }
        },
        _ => None,
    }
}

/// The machine after the operations `ops`, one after the other.
pub open spec fn run(ops: Seq<HostOp>, machine: Machine) -> Option<Machine>
    decreases ops.len(),
{
    if ops.len() == 0 {
        Some(machine)
    } else {
        match step(ops[0], machine) {
            Some(next) => run(ops.drop_first(), next),
            None => None,
        }
    }
}

/// Running two lists of operations one after the other is running their
/// concatenation.
pub proof fn lemma_run_concat(first: Seq<HostOp>, second: Seq<HostOp>, machine: Machine)
    ensures
        run(first + second, machine) == match run(first, machine) {
            Some(next) => run(second, next),
            None => None,
        },
    decreases first.len(),
{
    if first.len() == 0 {
        assert(first + second =~= second);
    } else {
        assert((first + second)[0] == first[0]);
        assert((first + second).drop_first() =~= first.drop_first() + second);
        match step(first[0], machine) {
            Some(next) => lemma_run_concat(first.drop_first(), second, next),
            None => {},
        }
    }
}

/// The operations that write the word of `value` to the memory at
/// `offset`, which is 0 or 32.
pub open spec fn store_ops(value: Operand, offset: u8) -> Seq<HostOp> {
    if offset == 0 {
        seq![HostOp::Push(value), HostOp::Push0, HostOp::MStore]
    } else {
        seq![HostOp::Push(value), HostOp::Push(Operand::U8(offset)), HostOp::MStore]
    }
}

/// The operations that hash the first 64 bytes of the memory.
pub open spec fn hash_ops() -> Seq<HostOp> {
    seq![HostOp::Push(Operand::U8(0x40)), HostOp::Push0, HostOp::Keccak256]
}

/// The words of the offsets and of the size hold their numbers.
proof fn lemma_offsets()
    ensures
        be_value(zero()) == 0,
        be_value(operand_word(Operand::U8(0x20))) == 0x20,
        be_value(operand_word(Operand::U8(0x40))) == 0x40,
{
    reveal_with_fuel(pow256, 2);
    lemma_canonical_zero(1);
    lemma_canonical_int_value(0, 1);
    lemma_canonical_int_value(0x20, 1);
    lemma_canonical_int_value(0x40, 1);
}

/// Writing a word to the first or to the second half of the scratch
/// memory leaves the stack as it was and the other half untouched.
proof fn lemma_store(value: Operand, offset: u8, machine: Machine)
    requires
        offset == 0 || offset == 0x20,
        machine.memory.len() >= 64,
    ensures
        run(store_ops(value, offset), machine) == Some(
            Machine {
                stack: machine.stack,
                memory: machine.memory.subrange(0, offset as int) + operand_word(value)
                    + machine.memory.subrange(offset + 32, machine.memory.len() as int),
            },
        ),
{
    lemma_offsets();
    lemma_operand_word(value);
    let ops = store_ops(value, offset);
    let m1 = Machine { stack: machine.stack.push(operand_word(value)), memory: machine.memory };
    let top = if offset == 0 {
        zero()
    } else {
        operand_word(Operand::U8(offset))
    };
    let m2 = Machine { stack: m1.stack.push(top), memory: machine.memory };
    assert(step(ops[0], machine) == Some(m1));
    assert(step(ops[1], m1) == Some(m2));
    assert(popped(m2.stack) =~= machine.stack);
    let ops1 = ops.drop_first();
    let ops2 = ops1.drop_first();
    assert(ops1[0] == ops[1]);
    assert(ops2[0] == ops[2]);
    assert(ops2.drop_first().len() == 0);
    assert(run(ops2.drop_first(), step(ops[2], m2)->Some_0) == step(ops[2], m2));
    assert(run(ops2, m2) == step(ops[2], m2));
    assert(run(ops1, m1) == run(ops2, m2));
}

/// Hashing the first 64 bytes of the memory pushes their digest.
proof fn lemma_hash(machine: Machine)
    requires
        machine.memory.len() >= 64,
    ensures
        run(hash_ops(), machine) == Some(
            Machine {
                stack: machine.stack.push(keccak256_digest(machine.memory.subrange(0, 64))),
                memory: machine.memory,
            },
        ),
{
    lemma_offsets();
    let ops = hash_ops();
    let m1 = Machine {
        stack: machine.stack.push(operand_word(Operand::U8(0x40))),
        memory: machine.memory,
    };
    let m2 = Machine { stack: m1.stack.push(zero()), memory: machine.memory };
    assert(step(ops[0], machine) == Some(m1));
    assert(step(ops[1], m1) == Some(m2));
    assert(popped(m2.stack) =~= machine.stack);
    let ops1 = ops.drop_first();
    let ops2 = ops1.drop_first();
    assert(ops1[0] == ops[1]);
    assert(ops2[0] == ops[2]);
    assert(ops2.drop_first().len() == 0);
    assert(run(ops2.drop_first(), step(ops[2], m2)->Some_0) == step(ops[2], m2));
    assert(run(ops2, m2) == step(ops[2], m2));
    assert(run(ops1, m1) == run(ops2, m2));
}

/// The operations of `load_key` leave the storage key of the entry on the
/// stack: the machine derives the key that `storage_key` computes.
pub proof fn lemma_load_key(key: Operand, index: i32, machine: Machine)
    requires
        machine.memory.len() >= 64,
    ensures
        run(load_key_ops(key, index), machine) matches Some(after) && after.stack
            == machine.stack.push(mapping_key(operand_word(key), slot_word(index))),
{
    let slot = Operand::I32(index);
    lemma_operand_word(key);
    reveal_with_fuel(pow256, 5);
    lemma_canonical_int_value(crate::storage::bit_pattern(index as int, 0x1_0000_0000), 4);
    let ops = seq![HostOp::ReserveMem32] + store_ops(key, 0) + store_ops(slot, 0x20) + hash_ops();
    assert(ops =~= load_key_ops(key, index));
    let reserve = seq![HostOp::ReserveMem32];
    assert(reserve.drop_first().len() == 0);
    assert(run(reserve.drop_first(), machine) == Some(machine));
    assert(step(reserve[0], machine) == Some(machine));
    assert(run(reserve, machine) == Some(machine));
    lemma_store(key, 0, machine);
    let m1 = run(store_ops(key, 0), machine)->Some_0;
    lemma_store(slot, 0x20, m1);
    let m2 = run(store_ops(slot, 0x20), m1)->Some_0;
    lemma_hash(m2);
    assert(m2.memory.subrange(0, 64) =~= operand_word(key) + slot_word(index));
    lemma_run_concat(reserve, store_ops(key, 0), machine);
    lemma_run_concat(reserve + store_ops(key, 0), store_ops(slot, 0x20), machine);
    lemma_run_concat(reserve + store_ops(key, 0) + store_ops(slot, 0x20), hash_ops(), machine);
}

/// The operations that write the topmost word of the stack to the start
/// of the memory.
pub open spec fn store_top_ops() -> Seq<HostOp> {
    seq![HostOp::Push0, HostOp::MStore]
}

/// Writing the topmost word to the start of the memory takes it off the
/// stack and leaves the second half of the memory untouched.
proof fn lemma_store_top(machine: Machine)
    requires
        machine.stack.len() >= 1,
        machine.stack.last().len() == 32,
        machine.memory.len() >= 64,
    ensures
        run(store_top_ops(), machine) == Some(
            Machine {
                stack: machine.stack.drop_last(),
                memory: machine.stack.last() + machine.memory.subrange(
                    32,
                    machine.memory.len() as int,
                ),
            },
        ),
{
    lemma_offsets();
    let ops = store_top_ops();
    let m1 = Machine { stack: machine.stack.push(zero()), memory: machine.memory };
    assert(step(ops[0], machine) == Some(m1));
    assert(popped(m1.stack) =~= machine.stack.drop_last());
    assert(m1.stack[m1.stack.len() - 2] == machine.stack.last());
    assert(machine.memory.subrange(0, 0) + machine.stack.last() =~= machine.stack.last());
    let ops1 = ops.drop_first();
    assert(ops1[0] == ops[1]);
    assert(ops1.drop_first().len() == 0);
    assert(run(ops1.drop_first(), step(ops[1], m1)->Some_0) == step(ops[1], m1));
    assert(run(ops1, m1) == step(ops[1], m1));
}

/// The operations of `load_double_key` leave the storage key of the entry
/// on the stack, where the inner hash is a word: the machine derives the
/// key that `storage_key` computes for two keys.
pub proof fn lemma_load_double_key(key1: Operand, key2: Operand, index: i32, machine: Machine)
    requires
        machine.memory.len() >= 64,
        mapping_key(operand_word(key1), slot_word(index)).len() == 32,
    ensures
        run(load_double_key_ops(key1, key2, index), machine) matches Some(after) && after.stack
            == machine.stack.push(
            double_key(operand_word(key1), operand_word(key2), slot_word(index)),
        ),
{
    let slot = Operand::I32(index);
    let inner = mapping_key(operand_word(key1), slot_word(index));
    lemma_operand_word(key1);
    lemma_operand_word(key2);
    reveal_with_fuel(pow256, 5);
    lemma_canonical_int_value(crate::storage::bit_pattern(index as int, 0x1_0000_0000), 4);
    let reserve = seq![HostOp::ReserveMem64];
    let first = reserve + store_ops(key1, 0) + store_ops(slot, 0x20) + hash_ops();
    let second = store_top_ops() + store_ops(key2, 0x20) + hash_ops();
    assert(first + second =~= load_double_key_ops(key1, key2, index));

    assert(reserve.drop_first().len() == 0);
    assert(run(reserve.drop_first(), machine) == Some(machine));
    assert(step(reserve[0], machine) == Some(machine));
    assert(run(reserve, machine) == Some(machine));
    lemma_store(key1, 0, machine);
    let m1 = run(store_ops(key1, 0), machine)->Some_0;
    lemma_store(slot, 0x20, m1);
    let m2 = run(store_ops(slot, 0x20), m1)->Some_0;
    lemma_hash(m2);
    assert(m2.memory.subrange(0, 64) =~= operand_word(key1) + slot_word(index));
    let m3 = run(hash_ops(), m2)->Some_0;
    lemma_run_concat(reserve, store_ops(key1, 0), machine);
    lemma_run_concat(reserve + store_ops(key1, 0), store_ops(slot, 0x20), machine);
    lemma_run_concat(reserve + store_ops(key1, 0) + store_ops(slot, 0x20), hash_ops(), machine);
    assert(run(first, machine) == Some(m3));
    assert(m3.stack.last() == inner);
    assert(m3.stack.drop_last() =~= machine.stack);

    lemma_store_top(m3);
    let m4 = run(store_top_ops(), m3)->Some_0;
    lemma_store(key2, 0x20, m4);
    let m5 = run(store_ops(key2, 0x20), m4)->Some_0;
    lemma_hash(m5);
    assert(m5.memory.subrange(0, 64) =~= inner + operand_word(key2));
    lemma_run_concat(store_top_ops(), store_ops(key2, 0x20), m3);
    lemma_run_concat(store_top_ops() + store_ops(key2, 0x20), hash_ops(), m3);
    lemma_run_concat(first, second, machine);
}

} // verus!
