//! Single-value storage.
use vstd::prelude::*;
use crate::host::{HostOp, Operand};
use crate::storage::{slot_bytes32, slot_word, Value};

verus! {

/// The operations that read the value in the slot `slot`.
pub open spec fn get_ops(slot: i32, load: HostOp) -> Seq<HostOp> {
    seq![HostOp::Push(Operand::I32(slot)), load]
}

/// The operations that store `value` in the slot `slot`.
pub open spec fn set_ops(value: Operand, slot: i32, store: HostOp) -> Seq<HostOp> {
    seq![HostOp::Push(value), HostOp::Push(Operand::I32(slot)), store]
}

/// A value in persistent storage. Its slot addresses it directly: the key
/// is the canonical word of the slot.
pub trait Storage {
    type Value: Value;

    /// The slot of the value.
    spec fn slot() -> i32;

    /// The slot of the value.
    fn storage_slot() -> (slot: i32)
        ensures
            slot == Self::slot(),
    ;

    /// The key under which the value is stored.
    fn storage_key() -> (key: [u8; 32])
        ensures
            key@ == slot_word(Self::slot()),
    {
        slot_bytes32(Self::storage_slot())
    }

    /// The operations that load the value.
    fn get() -> (ops: Vec<HostOp>)
        ensures
            ops@ == get_ops(Self::slot(), HostOp::SLoad(Self::Value::kind())),
    {
        let mut ops: Vec<HostOp> = Vec::new();
        ops.push(HostOp::Push(Operand::I32(Self::storage_slot())));
        ops.push(Self::Value::sload());
        assert(ops@ =~= get_ops(Self::slot(), HostOp::SLoad(Self::Value::kind())));
        ops
    }

    /// The operations that store `value`.
    fn set(value: Self::Value) -> (ops: Vec<HostOp>)
        ensures
            ops@ == set_ops(value.operand(), Self::slot(), HostOp::SStore),
    {
        let mut ops: Vec<HostOp> = Vec::new();
        ops.push(value.push());
        ops.push(HostOp::Push(Operand::I32(Self::storage_slot())));
        ops.push(HostOp::SStore);
        assert(ops@ =~= set_ops(value.operand(), Self::slot(), HostOp::SStore));
        ops
    }
}

/// A value in transient storage.
pub trait TransientStorage {
    type Value: Value;

    /// The slot of the value.
    spec fn slot() -> i32;

    /// The slot of the value.
    fn storage_slot() -> (slot: i32)
        ensures
            slot == Self::slot(),
    ;

    /// The key under which the value is stored.
    fn storage_key() -> (key: [u8; 32])
        ensures
            key@ == slot_word(Self::slot()),
    {
        slot_bytes32(Self::storage_slot())
    }

    /// The operations that load the value.
    fn get() -> (ops: Vec<HostOp>)
        ensures
            ops@ == get_ops(Self::slot(), HostOp::TLoad(Self::Value::kind())),
    {
        let mut ops: Vec<HostOp> = Vec::new();
        ops.push(HostOp::Push(Operand::I32(Self::storage_slot())));
        ops.push(Self::Value::tload());
        assert(ops@ =~= get_ops(Self::slot(), HostOp::TLoad(Self::Value::kind())));
        ops
    }

    /// The operations that store `value`.
    fn set(value: Self::Value) -> (ops: Vec<HostOp>)
        ensures
            ops@ == set_ops(value.operand(), Self::slot(), HostOp::TStore),
    {
        let mut ops: Vec<HostOp> = Vec::new();
        ops.push(value.push());
        ops.push(HostOp::Push(Operand::I32(Self::storage_slot())));
        ops.push(HostOp::TStore);
        assert(ops@ =~= set_ops(value.operand(), Self::slot(), HostOp::TStore));
        ops
    }
}

} // verus!
