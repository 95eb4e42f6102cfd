use zink::storage::slot_bytes32;
use zink::{keccak256, to_bytes32, Value};

fn word_with_tail(tail: &[u8]) -> [u8; 32] {
    let mut word = [0u8; 32];
    word[32 - tail.len()..].copy_from_slice(tail);
    word
}

#[test]
fn keccak256_of_empty_input() {
    let digest = keccak256(&[]);
    assert_eq!(
        hex::encode(digest),
        "c5d2460186f7233c927e7db2dcc703c0e500b653ca82273b7bfad8045d85a470"
    );
}

#[test]
fn keccak256_of_text() {
    let digest = keccak256(b"hello");
    assert_eq!(
        hex::encode(digest),
        "1c8aff950685c2ed4bc3174f3472287b56d9517b9c948127319a09a7a36deac8"
    );
}

#[test]
fn keccak256_differs_from_its_input() {
    let input = [7u8; 32];
    assert_ne!(keccak256(&input), input);
}

#[test]
fn to_bytes32_is_big_endian() {
    let word = to_bytes32(&[0x02, 0x01, 0x00, 0x00]);
    assert_eq!(word, word_with_tail(&[0x01, 0x02]));
}

#[test]
fn to_bytes32_of_nothing_is_zero() {
    assert_eq!(to_bytes32(&[]), [0u8; 32]);
    assert_eq!(to_bytes32(&[0, 0, 0, 0, 0, 0, 0, 0]), [0u8; 32]);
}

#[test]
fn to_bytes32_takes_a_full_word() {
    let mut src = [0u8; 40];
    for (i, byte) in src.iter_mut().enumerate().take(32) {
        *byte = i as u8 + 1;
    }
    let word = to_bytes32(&src);
    for i in 0..32 {
        assert_eq!(word[31 - i], i as u8 + 1);
    }
}

#[test]
fn unsigned_values_pad_on_the_left() {
    assert_eq!(5u8.bytes32(), word_with_tail(&[5]));
    assert_eq!(0x0102u16.bytes32(), word_with_tail(&[0x01, 0x02]));
    assert_eq!(0xdead_beefu32.bytes32(), word_with_tail(&[0xde, 0xad, 0xbe, 0xef]));
    assert_eq!(
        0x0102_0304_0506_0708u64.bytes32(),
        word_with_tail(&[1, 2, 3, 4, 5, 6, 7, 8])
    );
    assert_eq!(256u32.bytes32(), word_with_tail(&[1, 0]));
}

#[test]
fn signed_values_keep_their_bit_pattern() {
    assert_eq!((-1i8).bytes32(), word_with_tail(&[0xff]));
    assert_eq!((-2i16).bytes32(), word_with_tail(&[0xff, 0xfe]));
    assert_eq!((-1i32).bytes32(), word_with_tail(&[0xff, 0xff, 0xff, 0xff]));
    assert_eq!(i64::MIN.bytes32(), word_with_tail(&[0x80, 0, 0, 0, 0, 0, 0, 0]));
    assert_eq!(7i32.bytes32(), word_with_tail(&[7]));
}

#[test]
fn distinct_slots_have_distinct_words() {
    assert_ne!(slot_bytes32(1), slot_bytes32(256));
    assert_eq!(slot_bytes32(0), [0u8; 32]);
    assert_eq!(slot_bytes32(258), word_with_tail(&[1, 2]));
}
