//! Primitive types of the machine.
pub mod address;
pub mod bytes;
pub mod u256;

pub use address::Address;
pub use bytes::Bytes32;
pub use u256::U256;
