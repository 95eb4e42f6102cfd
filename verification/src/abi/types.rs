//! The fixed table from interface type names to native types.
use vstd::prelude::*;
use vstd::string::*;
use crate::text::{find_last, last_index, str_eq};

verus! {

/// The native type that stands for an interface type in a binding.
#[derive(Debug, PartialEq, Eq)]
pub enum NativeType {
    /// The machine's 256-bit word.
    Word256,
    U8,
    U16,
    U32,
    U64,
    U128,
    I8,
    I16,
    I32,
    I64,
    I128,
    Bool,
    Address,
    /// Owned text.
    Text,
    /// A raw byte buffer.
    Bytes,
    /// A homogeneous sequence.
    Sequence(Box<NativeType>),
}

/// Whether `t` names an array: it holds an opening bracket and ends in a
/// closing one.
pub open spec fn is_array(t: Seq<char>) -> bool {
    t.len() > 0 && t.last() == ']' && 0 <= last_index(t, '[') < t.len()
}

/// The name of the element type of an array: what stands before the last
/// opening bracket.
pub open spec fn element_type(t: Seq<char>) -> Seq<char> {
    t.subrange(0, last_index(t, '['))
}

/// The native type of the interface type named `t`.
///
/// An integer of 8 to 128 bits has the native integer of its width and
/// sign; the integers of 256 bits are the machine's word. An array, with
/// or without a length, is a sequence of its element type. A name that the
/// table lacks is a byte buffer.
pub open spec fn native_type(t: Seq<char>) -> NativeType
    decreases t.len(),
{
    if t == "uint256"@ || t == "int256"@ {
        NativeType::Word256
    } else if t == "uint8"@ {
        NativeType::U8
    } else if t == "uint16"@ {
        NativeType::U16
    } else if t == "uint32"@ {
        NativeType::U32
    } else if t == "uint64"@ {
        NativeType::U64
    } else if t == "uint128"@ {
        NativeType::U128
    } else if t == "int8"@ {
        NativeType::I8
    } else if t == "int16"@ {
        NativeType::I16
    } else if t == "int32"@ {
        NativeType::I32
    } else if t == "int64"@ {
        NativeType::I64
    } else if t == "int128"@ {
        NativeType::I128
    } else if t == "bool"@ {
        NativeType::Bool
    } else if t == "address"@ {
        NativeType::Address
    } else if t == "string"@ {
        NativeType::Text
    } else if t == "bytes"@ {
        NativeType::Bytes
    } else if is_array(t) {
        NativeType::Sequence(Box::new(native_type(element_type(t))))
    } else {
        NativeType::Bytes
    }
}

/// The Rust path that writes a native type.
pub open spec fn rust_type_text(ty: NativeType) -> Seq<char>
    decreases ty,
{
    match ty {
        NativeType::Word256 => "::zink::primitives::u256::U256"@,
        NativeType::U8 => "u8"@,
        NativeType::U16 => "u16"@,
        NativeType::U32 => "u32"@,
        NativeType::U64 => "u64"@,
        NativeType::U128 => "u128"@,
        NativeType::I8 => "i8"@,
        NativeType::I16 => "i16"@,
        NativeType::I32 => "i32"@,
        NativeType::I64 => "i64"@,
        NativeType::I128 => "i128"@,
        NativeType::Bool => "bool"@,
        NativeType::Address => "::zink::primitives::address::Address"@,
        NativeType::Text => "String"@,
        NativeType::Bytes => "Vec<u8>"@,
        NativeType::Sequence(inner) => "Vec<"@ + rust_type_text(*inner) + ">"@,
    }
}

/// Maps the interface type named `solidity_type` to its native type.
pub fn map_type_to_rust_and_encode(solidity_type: &str) -> (ty: NativeType)
    ensures
        ty == native_type(solidity_type@),
    decreases solidity_type@.len(),
{
    let t = solidity_type;
    if str_eq(t, "uint256") || str_eq(t, "int256") {
        NativeType::Word256
    } else if str_eq(t, "uint8") {
        NativeType::U8
    } else if str_eq(t, "uint16") {
        NativeType::U16
    } else if str_eq(t, "uint32") {
        NativeType::U32
    } else if str_eq(t, "uint64") {
        NativeType::U64
    } else if str_eq(t, "uint128") {
        NativeType::U128
    } else if str_eq(t, "int8") {
        NativeType::I8
    } else if str_eq(t, "int16") {
        NativeType::I16
    } else if str_eq(t, "int32") {
        NativeType::I32
    } else if str_eq(t, "int64") {
        NativeType::I64
    } else if str_eq(t, "int128") {
        NativeType::I128
    } else if str_eq(t, "bool") {
        NativeType::Bool
    } else if str_eq(t, "address") {
        NativeType::Address
    } else if str_eq(t, "string") {
        NativeType::Text
    } else if str_eq(t, "bytes") {
        NativeType::Bytes
    } else {
        let len = t.unicode_len();
        if len > 0 && t.get_char(len - 1) == ']' {
            match find_last(t, '[') {
                Some(k) => {
                    let inner = map_type_to_rust_and_encode(t.substring_char(0, k));
                    NativeType::Sequence(Box::new(inner))
                },
                None => NativeType::Bytes,
            }
        } else {
            NativeType::Bytes
        }
    }
}

impl Clone for NativeType {
    fn clone(&self) -> (copy: Self)
        ensures
            copy == *self,
        decreases *self,
    {
        match self {
            NativeType::Word256 => NativeType::Word256,
            NativeType::U8 => NativeType::U8,
            NativeType::U16 => NativeType::U16,
            NativeType::U32 => NativeType::U32,
            NativeType::U64 => NativeType::U64,
            NativeType::U128 => NativeType::U128,
            NativeType::I8 => NativeType::I8,
            NativeType::I16 => NativeType::I16,
            NativeType::I32 => NativeType::I32,
            NativeType::I64 => NativeType::I64,
            NativeType::I128 => NativeType::I128,
            NativeType::Bool => NativeType::Bool,
            NativeType::Address => NativeType::Address,
            NativeType::Text => NativeType::Text,
            NativeType::Bytes => NativeType::Bytes,
            NativeType::Sequence(inner) => {
                let copy: NativeType = NativeType::clone(inner);
                NativeType::Sequence(Box::new(copy))
            },
        }
    }
}

impl NativeType {
    /// Writes the Rust path of this type.
    pub fn rust_type(&self) -> (text: String)
        ensures
            text@ == rust_type_text(*self),
        decreases *self,
    {
        match self {
            NativeType::Word256 => String::from_str("::zink::primitives::u256::U256"),
            NativeType::U8 => String::from_str("u8"),
            NativeType::U16 => String::from_str("u16"),
            NativeType::U32 => String::from_str("u32"),
            NativeType::U64 => String::from_str("u64"),
            NativeType::U128 => String::from_str("u128"),
            NativeType::I8 => String::from_str("i8"),
            NativeType::I16 => String::from_str("i16"),
            NativeType::I32 => String::from_str("i32"),
            NativeType::I64 => String::from_str("i64"),
            NativeType::I128 => String::from_str("i128"),
            NativeType::Bool => String::from_str("bool"),
            NativeType::Address => String::from_str("::zink::primitives::address::Address"),
            NativeType::Text => String::from_str("String"),
            NativeType::Bytes => String::from_str("Vec<u8>"),
            NativeType::Sequence(inner) => {
                let mut text = String::from_str("Vec<");
                let inner_text = inner.rust_type();
                text.append(inner_text.as_str());
                text.append(">");
                text
            },
        }
    }
}

} // verus!
