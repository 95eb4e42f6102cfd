use zink::host::LogRecord;
use zink::primitives::Bytes32;
use zink::Event;

struct Transfer;

impl Event for Transfer {
    fn event_name() -> &'static [u8] {
        b"Transfer"
    }

    fn name() -> &'static [u8] {
        b"Transfer"
    }
}

fn topic(byte: u8) -> Bytes32 {
    Bytes32([byte; 32])
}

#[test]
fn log0_holds_the_name_only() {
    assert_eq!(
        Transfer.log0(),
        LogRecord {
            topics: vec![],
            data: b"Transfer".to_vec()
        }
    );
}

#[test]
fn topics_keep_their_order() {
    assert_eq!(
        Transfer.log1(topic(1)),
        LogRecord {
            topics: vec![topic(1)],
            data: b"Transfer".to_vec()
        }
    );
    assert_eq!(
        Transfer.log2(topic(1), topic(2)),
        LogRecord {
            topics: vec![topic(1), topic(2)],
            data: b"Transfer".to_vec()
        }
    );
    assert_eq!(
        Transfer.log3(topic(3), topic(2), topic(1)),
        LogRecord {
            topics: vec![topic(3), topic(2), topic(1)],
            data: b"Transfer".to_vec()
        }
    );
    assert_eq!(
        Transfer.log4(topic(1), topic(2), topic(3), topic(4)),
        LogRecord {
            topics: vec![topic(1), topic(2), topic(3), topic(4)],
            data: b"Transfer".to_vec()
        }
    );
}

#[test]
fn empty_bytes_are_zero() {
    assert_eq!(Bytes32::empty(), Bytes32([0u8; 32]));
    assert!(Bytes32::empty().eq(Bytes32([0u8; 32])));
    assert!(!topic(1).eq(topic(2)));
}
