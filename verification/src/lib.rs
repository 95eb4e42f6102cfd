//! Declaration-to-artifact engine for smart contracts that target an
//! Ethereum-compatible virtual machine.
use vstd::prelude::*;
use tiny_keccak::{Hasher, Keccak};

pub mod abi;
pub mod codegen;
pub mod event;
pub mod host;
pub mod machine;
pub mod num;
pub mod primitives;
pub mod storage;
pub mod text;

pub use event::Event;
pub use num::{Numeric, SafeNumeric};
pub use storage::{
    DoubleKeyMapping, DoubleKeyTransientMapping, Mapping, Storage, TransientMapping,
    TransientStorage, Value,
};

verus! {

/// The Keccak-256 digest of a byte string.
pub uninterp spec fn keccak256_digest(input: Seq<u8>) -> Seq<u8>;

/// Hashes `input` with Keccak-256.
///
/// Calls `tiny_keccak::Keccak::v256`, `Hasher::update` and `Hasher::finalize`.
/// The contract only gives the 32 bytes that come back a name: the digest is
/// a function of the input bytes alone.
#[verifier::external_body]
pub fn keccak256(input: &[u8]) -> (output: [u8; 32])
    ensures
        output@ == keccak256_digest(input@),
{
    let mut hasher = Keccak::v256();
    let mut output = [0; 32];
    hasher.update(input);
    hasher.finalize(&mut output);
    output
}

/// Number of leading bytes of `s` that remain once its trailing zero bytes
/// are dropped.
pub open spec fn significant_len(s: Seq<u8>) -> nat
    decreases s.len(),
{
    if s.len() == 0 {
        0
    } else if s.last() != 0 {
        s.len()
    } else {
        significant_len(s.drop_last())
    }
}

/// The 32-byte big-endian word of the number whose bytes, lowest first,
/// are `s`: the significant bytes of `s` in reverse order at the end of the
/// word, behind zero bytes.
pub open spec fn canonical_word(s: Seq<u8>) -> Seq<u8> {
    let n = significant_len(s) as int;
    Seq::new(32, |i: int| if i < 32 - n { 0u8 } else { s[31 - i] })
}

/// The trailing zero bytes of `s` start at its significant length, and the
/// byte before them is not zero.
pub proof fn lemma_significant_len(s: Seq<u8>)
    ensures
        significant_len(s) <= s.len(),
        significant_len(s) > 0 ==> s[significant_len(s) - 1] != 0,
        forall|j: int| significant_len(s) <= j < s.len() ==> s[j] == 0,
    decreases s.len(),
{
    if s.len() > 0 && s.last() == 0 {
        let t = s.drop_last();
        lemma_significant_len(t);
        assert forall|j: int| significant_len(s) <= j < s.len() implies s[j] == 0 by {
            if j < t.len() {
                assert(t[j] == s[j]);
            }
        }
    }
}

/// Any `n` that bounds the zero tail of `s` from below and sits behind a
/// non-zero byte is the significant length.
pub proof fn lemma_significant_len_unique(s: Seq<u8>, n: int)
    requires
        0 <= n <= s.len(),
        n > 0 ==> s[n - 1] != 0,
        forall|j: int| n <= j < s.len() ==> s[j] == 0,
    ensures
        significant_len(s) == n,
    decreases s.len(),
{
    if s.len() > 0 && s.last() == 0 {
        lemma_significant_len_unique(s.drop_last(), n);
    }
}

/// A word of zero bytes.
pub fn zero_word() -> (word: [u8; 32])
    ensures
        forall|k: int| 0 <= k < 32 ==> word@[k] == 0u8,
{
    [
        0u8, 0u8, 0u8, 0u8, 0u8, 0u8, 0u8, 0u8,
        0u8, 0u8, 0u8, 0u8, 0u8, 0u8, 0u8, 0u8,
        0u8, 0u8, 0u8, 0u8, 0u8, 0u8, 0u8, 0u8,
        0u8, 0u8, 0u8, 0u8, 0u8, 0u8, 0u8, 0u8,
    ]
}

/// Writes the number whose bytes, lowest first, are `src` as a 32-byte
/// big-endian word.
pub fn to_bytes32(src: &[u8]) -> (bytes: [u8; 32])
    requires
        significant_len(src@) <= 32,
    ensures
        bytes@ == canonical_word(src@),
{
    let mut n: usize = src.len();
    while n > 0 && src[n - 1] == 0
        invariant
            n <= src.len(),
            forall|j: int| n <= j < src.len() ==> src@[j] == 0,
        decreases n,
    {
        n = n - 1;
    }
    proof {
        lemma_significant_len_unique(src@, n as int);
    }
    let mut bytes = zero_word();
    let mut i: usize = 0;
    while i < n
        invariant
            i <= n <= 32,
            n <= src.len(),
            forall|k: int| 0 <= k < 32 - i ==> bytes@[k] == 0u8,
            forall|k: int| 32 - i <= k < 32 ==> bytes@[k] == src@[31 - k],
        decreases n - i,
    {
        bytes[31 - i] = src[i];
        i = i + 1;
    }
    assert(bytes@ =~= canonical_word(src@));
    bytes
}

} // verus!
