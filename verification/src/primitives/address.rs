//! Account addresses.
use vstd::prelude::*;
use crate::host::{HostOp, Operand, WordKind};
use crate::storage::Value;
use crate::zero_word;

verus! {

/// An account address of 20 bytes.
#[derive(Clone, Copy, Debug, PartialEq, Eq, PartialOrd)]
pub struct Address(pub [u8; 20]);

impl View for Address {
    type V = Seq<u8>;

    open spec fn view(&self) -> Seq<u8> {
        self.0@
    }
}

/// An address as a word: twelve zero bytes and the address behind them.
pub open spec fn address_word(address: Seq<u8>) -> Seq<u8> {
    Seq::new(12, |i: int| 0u8) + address
}

/// Addresses with the same word are equal.
pub proof fn lemma_address_word_injective(first: Address, second: Address)
    requires
        address_word(first@) == address_word(second@),
    ensures
        first == second,
{
    assert(address_word(first@).subrange(12, 32) =~= first@);
    assert(address_word(second@).subrange(12, 32) =~= second@);
    assert(first.0@ =~= second.0@);
    assert(first.0 == second.0);
}

/// Writes an address as a word.
pub fn address_bytes32(address: &[u8; 20]) -> (word: [u8; 32])
    ensures
        word@ == address_word(address@),
{
    let mut word = zero_word();
    let mut i: usize = 0;
    while i < 20
        invariant
            i <= 20,
            forall|k: int| 0 <= k < 12 ==> word@[k] == 0u8,
            forall|k: int| 0 <= k < i ==> word@[12 + k] == address@[k],
        decreases 20 - i,
    {
        word[12 + i] = address[i];
        i = i + 1;
    }
    assert(word@ =~= address_word(address@));
    word
}

impl Address {
    /// The address of zero bytes.
    pub fn empty() -> (address: Self)
        ensures
            address@ == Seq::new(20, |i: int| 0u8),
    {
        let address = Address(
            [
                0u8, 0u8, 0u8, 0u8, 0u8, 0u8, 0u8, 0u8, 0u8, 0u8,
                0u8, 0u8, 0u8, 0u8, 0u8, 0u8, 0u8, 0u8, 0u8, 0u8,
            ],
        );
        assert(address@ =~= Seq::new(20, |i: int| 0u8));
        address
    }

    /// The bytes of the address.
    pub fn as_bytes(&self) -> (bytes: &[u8; 20])
        ensures
            bytes@ == self@,
    {
        &self.0
    }

    /// Tells whether `self` and `other` hold the same bytes.
    pub fn eq(self, other: Self) -> (same: bool)
        ensures
            same == (self@ == other@),
    {
        let mut i: usize = 0;
        while i < 20
            invariant
                i <= 20,
                forall|k: int| 0 <= k < i ==> self.0@[k] == other.0@[k],
            decreases 20 - i,
        {
            if self.0[i] != other.0[i] {
                return false;
            }
            i = i + 1;
        }
        assert(self@ =~= other@);
        true
    }
}

impl From<[u8; 20]> for Address {
    fn from(bytes: [u8; 20]) -> (address: Self)
        ensures
            address@ == bytes@,
    {
        Address(bytes)
    }
}

impl vstd::std_specs::convert::FromSpecImpl<[u8; 20]> for Address {
    open spec fn obeys_from_spec() -> bool {
        true
    }

    open spec fn from_spec(bytes: [u8; 20]) -> Self {
        Address(bytes)
    }
}

impl Value for Address {
    open spec fn canonical(&self) -> Seq<u8> {
        address_word(self@)
    }

    open spec fn operand(&self) -> Operand {
        Operand::Address(*self)
    }

    open spec fn kind() -> WordKind {
        WordKind::Address
    }

    fn sload() -> (op: HostOp) {
        HostOp::SLoad(WordKind::Address)
    }

    fn tload() -> (op: HostOp) {
        HostOp::TLoad(WordKind::Address)
    }

    fn push(self) -> (op: HostOp) {
        HostOp::Push(Operand::Address(self))
    }

    fn bytes32(&self) -> (word: [u8; 32]) {
        address_bytes32(&self.0)
    }

    proof fn lemma_canonical(&self, other: &Self) {
        if self.canonical() == other.canonical() {
            lemma_address_word_injective(*self, *other);
        }
    }
}

} // verus!
