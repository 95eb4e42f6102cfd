//! Call data and returned data.
use vstd::prelude::*;
use crate::primitives::address::{address_bytes32, address_word, Address};
use crate::primitives::u256::{be_value, U256};
use crate::zero_word;

verus! {

/// An argument of a call.
#[derive(Clone, Debug, PartialEq, Eq)]
pub enum CallArgument {
    /// An address.
    Address(Address),
    /// A 256-bit word.
    Word(U256),
    /// An argument of any other type, as its generic encoder wrote it.
    Encoded(Vec<u8>),
}

/// Why returned data cannot be decoded.
#[derive(Clone, Copy, Debug, PartialEq, Eq)]
pub enum DecodeError {
    /// The data is not one word long.
    Length,
}

/// The encoding of an argument.
pub open spec fn encoding(arg: CallArgument) -> Seq<u8> {
    match arg {
        CallArgument::Address(address) => address_word(address@),
        CallArgument::Word(word) => word.bytes(),
        CallArgument::Encoded(bytes) => bytes@,
    }
}

/// The encodings of the arguments, one behind the other.
pub open spec fn encodings(args: Seq<CallArgument>) -> Seq<u8>
    decreases args.len(),
{
    if args.len() == 0 {
        Seq::empty()
    } else {
        encodings(args.drop_last()) + encoding(args.last())
    }
}

/// The data of a call: the selector, and behind it the encodings of the
/// arguments in declared order.
pub open spec fn call_data_of(selector: Seq<u8>, args: Seq<CallArgument>) -> Seq<u8> {
    selector + encodings(args)
}

/// The number that returned data of one word holds.
pub open spec fn decoded_word(data: Seq<u8>) -> Result<nat, DecodeError> {
    if data.len() == 32 {
        Ok(be_value(data))
    } else {
        Err(DecodeError::Length)
    }
}

/// The address that returned data of one word holds: its last 20 bytes.
pub open spec fn decoded_address(data: Seq<u8>) -> Result<Seq<u8>, DecodeError> {
    if data.len() == 32 {
        Ok(data.subrange(12, 32))
    } else {
        Err(DecodeError::Length)
    }
}

/// A word that is encoded and decoded again is the word that it was.
pub proof fn lemma_word_round_trip(word: U256)
    ensures
        decoded_word(encoding(CallArgument::Word(word))) == Ok::<nat, DecodeError>(word@),
{
    word.lemma_range();
}

/// A call with one word as its argument, answered with the bytes behind
/// the selector, gives the word back.
pub proof fn lemma_call_round_trip(selector: Seq<u8>, word: U256)
    requires
        selector.len() == 4,
    ensures
        decoded_word(
            call_data_of(selector, seq![CallArgument::Word(word)]).subrange(4, 36),
        ) == Ok::<nat, DecodeError>(word@),
{
    word.lemma_range();
    let args = seq![CallArgument::Word(word)];
    assert(args.drop_last() =~= Seq::<CallArgument>::empty());
    assert(encodings(args.drop_last()) =~= Seq::<u8>::empty());
    assert(encodings(args) =~= word.bytes());
    assert(call_data_of(selector, args).subrange(4, 36) =~= word.bytes());
}

/// An address that is encoded and decoded again is the address that it
/// was.
pub proof fn lemma_address_round_trip(address: Address)
    ensures
        decoded_address(encoding(CallArgument::Address(address))) == Ok::<Seq<u8>, DecodeError>(
            address@,
        ),
{
    assert(address_word(address@).subrange(12, 32) =~= address@);
}

/// Encodes an address as a word.
pub fn encode_address(address: &[u8; 20]) -> (word: [u8; 32])
    ensures
        word@ == address_word(address@),
{
    address_bytes32(address)
}

/// Encodes a 256-bit word.
pub fn encode_u256(word: &U256) -> (bytes: [u8; 32])
    ensures
        bytes@ == word.bytes(),
{
    word.bytes32()
}

/// Decodes returned data as a 256-bit word.
pub fn decode_u256(data: &[u8]) -> (result: Result<U256, DecodeError>)
    ensures
        match result {
            Ok(word) => decoded_word(data@) == Ok::<nat, DecodeError>(word@) && word.bytes()
                == data@,
            Err(error) => decoded_word(data@) == Err::<nat, DecodeError>(error),
        },
{
    if data.len() != 32 {
        return Err(DecodeError::Length);
    }
    let mut bytes = zero_word();
    let mut i: usize = 0;
    while i < 32
        invariant
            i <= 32,
            data@.len() == 32,
            forall|k: int| 0 <= k < i ==> bytes@[k] == data@[k],
        decreases 32 - i,
    {
        bytes[i] = data[i];
        i = i + 1;
    }
    assert(bytes@ =~= data@);
    Ok(U256::from_be_bytes(bytes))
}

/// Decodes returned data as an address.
pub fn decode_address(data: &[u8]) -> (result: Result<Address, DecodeError>)
    ensures
        match result {
            Ok(address) => decoded_address(data@) == Ok::<Seq<u8>, DecodeError>(address@),
            Err(error) => decoded_address(data@) == Err::<Seq<u8>, DecodeError>(error),
        },
{
    if data.len() != 32 {
        return Err(DecodeError::Length);
    }
    let mut address = [
        0u8, 0u8, 0u8, 0u8, 0u8, 0u8, 0u8, 0u8, 0u8, 0u8,
        0u8, 0u8, 0u8, 0u8, 0u8, 0u8, 0u8, 0u8, 0u8, 0u8,
    ];
    let mut i: usize = 0;
    while i < 20
        invariant
            i <= 20,
            data@.len() == 32,
            forall|k: int| 0 <= k < i ==> address@[k] == data@[12 + k],
        decreases 20 - i,
    {
        address[i] = data[12 + i];
        i = i + 1;
    }
    assert(address@ =~= data@.subrange(12, 32));
    Ok(Address(address))
}

/// Appends `bytes` to `data`.
fn append_bytes(data: &mut Vec<u8>, bytes: &[u8])
    ensures
        final(data)@ == old(data)@ + bytes@,
{
    let mut i: usize = 0;
    while i < bytes.len()
        invariant
            i <= bytes.len(),
            data@ == old(data)@ + bytes@.take(i as int),
        decreases bytes.len() - i,
    {
        data.push(bytes[i]);
        assert(data@ =~= old(data)@ + bytes@.take(i + 1));
        i = i + 1;
    }
    assert(bytes@.take(bytes.len() as int) =~= bytes@);
}

/// Builds the data of a call.
pub fn call_data(selector: &[u8; 4], args: &Vec<CallArgument>) -> (data: Vec<u8>)
    ensures
        data@ == call_data_of(selector@, args@),
{
    let mut data: Vec<u8> = Vec::new();
    append_bytes(&mut data, selector.as_slice());
    let mut i: usize = 0;
    proof {
        assert(args@.take(0) =~= Seq::empty());
        assert(data@ =~= selector@ + encodings(args@.take(0)));
    }
    while i < args.len()
        invariant
            i <= args.len(),
            data@ == selector@ + encodings(args@.take(i as int)),
        decreases args.len() - i,
    {
        proof {
            assert(args@.take(i + 1).drop_last() =~= args@.take(i as int));
            assert(args@.take(i + 1).last() == args@[i as int]);
        }
        let ghost before = data@;
        match &args[i] {
            CallArgument::Address(address) => {
                let word = encode_address(address.as_bytes());
                append_bytes(&mut data, word.as_slice());
            },
            CallArgument::Word(word) => {
                let bytes = encode_u256(word);
                append_bytes(&mut data, bytes.as_slice());
            },
            CallArgument::Encoded(bytes) => {
                append_bytes(&mut data, bytes.as_slice());
            },
        }
        proof {
            assert(data@ =~= selector@ + encodings(args@.take(i + 1)));
        }
        i = i + 1;
    }
    proof {
        assert(args@.take(args.len() as int) =~= args@);
    }
    data
}

} // verus!
