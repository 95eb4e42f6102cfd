//! The primitive operations of the machine, as values.
//!
//! The library never drives the machine itself: what it would have the
//! machine do is handed out as a list of operations, in the order in which
//! they are to be performed.
use vstd::prelude::*;
use crate::primitives::address::Address;
use crate::primitives::bytes::Bytes32;

verus! {

/// A primitive value on its way to the machine.
#[derive(Clone, Copy, Debug, PartialEq, Eq)]
pub enum Operand {
    I8(i8),
    U8(u8),
    I16(i16),
    U16(u16),
    I32(i32),
    U32(u32),
    I64(i64),
    U64(u64),
    Bytes32(Bytes32),
    Address(Address),
}

/// The type as which a stored word is read back.
#[derive(Clone, Copy, Debug, PartialEq, Eq)]
pub enum WordKind {
    I8,
    U8,
    I16,
    U16,
    I32,
    U32,
    I64,
    U64,
    Bytes32,
    Address,
}

/// One primitive operation.
#[derive(Clone, Copy, Debug, PartialEq, Eq)]
pub enum HostOp {
    /// Push a value.
    Push(Operand),
    /// Push zero.
    Push0,
    /// Pop an offset and a word, and write the word to memory.
    MStore,
    /// Pop an offset and a size, and push the hash of that memory.
    Keccak256,
    /// Pop a key and push the persistent word under it.
    SLoad(WordKind),
    /// Pop a key and a word, and store the word persistently.
    SStore,
    /// Pop a key and push the transient word under it.
    TLoad(WordKind),
    /// Pop a key and a word, and store the word transiently.
    TStore,
    /// Reserve 32 bytes of scratch memory.
    ReserveMem32,
    /// Reserve 64 bytes of scratch memory.
    ReserveMem64,
}

/// A log record: up to four topic words and a payload.
#[derive(Clone, Debug, PartialEq, Eq)]
pub struct LogRecord {
    pub topics: Vec<Bytes32>,
    pub data: Vec<u8>,
}

pub struct LogRecordModel {
    pub topics: Seq<Bytes32>,
    pub data: Seq<u8>,
}

impl View for LogRecord {
    type V = LogRecordModel;

    open spec fn view(&self) -> LogRecordModel {
        LogRecordModel { topics: self.topics@, data: self.data@ }
    }
}

} // verus!
