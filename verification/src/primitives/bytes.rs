//! Fixed bytes.
use vstd::prelude::*;
use crate::host::{HostOp, Operand, WordKind};
use crate::storage::Value;

verus! {

/// Thirty-two bytes.
#[derive(Clone, Copy, Debug, PartialEq, Eq, PartialOrd)]
pub struct Bytes32(pub [u8; 32]);

impl View for Bytes32 {
    type V = Seq<u8>;

    open spec fn view(&self) -> Seq<u8> {
        self.0@
    }
}

impl Bytes32 {
    /// Thirty-two zero bytes.
    pub fn empty() -> (bytes: Self)
        ensures
            bytes@ == Seq::new(32, |i: int| 0u8),
    {
        let bytes = Bytes32([0u8; 32]);
        assert(bytes@ =~= Seq::new(32, |i: int| 0u8));
        bytes
    }

    /// Tells whether `self` and `other` hold the same bytes.
    pub fn eq(self, other: Self) -> (same: bool)
        ensures
            same == (self@ == other@),
    {
        let mut i: usize = 0;
        while i < 32
            invariant
                i <= 32,
                forall|k: int| 0 <= k < i ==> self.0@[k] == other.0@[k],
            decreases 32 - i,
        {
            if self.0[i] != other.0[i] {
                return false;
            }
            i = i + 1;
        }
        assert(self@ =~= other@);
        true
    }
}

impl Value for Bytes32 {
    open spec fn canonical(&self) -> Seq<u8> {
        self@
    }

    open spec fn operand(&self) -> Operand {
        Operand::Bytes32(*self)
    }

    open spec fn kind() -> WordKind {
        WordKind::Bytes32
    }

    fn sload() -> (op: HostOp) {
        HostOp::SLoad(WordKind::Bytes32)
    }

    fn tload() -> (op: HostOp) {
        HostOp::TLoad(WordKind::Bytes32)
    }

    fn push(self) -> (op: HostOp) {
        HostOp::Push(Operand::Bytes32(self))
    }

    fn bytes32(&self) -> (word: [u8; 32]) {
        self.0
    }

    proof fn lemma_canonical(&self, other: &Self) {
        if self.canonical() == other.canonical() {
            assert(self.0@ =~= other.0@);
            assert(self.0 == other.0);
        }
    }
}

} // verus!
