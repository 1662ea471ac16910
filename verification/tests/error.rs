use telemetry_core::error::{Error, Outcome, Reason};

#[test]
fn error_display_buffer_full() {
    assert_eq!(Error::BufferFull.message(), "ring buffer full");
}

#[test]
fn error_display_storage() {
    assert_eq!(Error::Storage.message(), "storage write/flush failed");
}

#[test]
fn error_display_codec() {
    assert_eq!(Error::Codec.message(), "record encode/decode failed");
}

#[test]
fn outcome_accepted_discriminates() {
    let v: Outcome<i32> = Outcome::Accepted(42);
    assert!(matches!(v, Outcome::Accepted(42)));
}

#[test]
fn outcome_rejected_discriminates() {
    let v: Outcome<i32> = Outcome::Rejected(Reason::Filtered);
    assert!(matches!(v, Outcome::Rejected(Reason::Filtered)));
}

#[test]
fn reason_crc_fields_round_trip() {
    let r = Reason::Crc {
        expected: 0x1234,
        actual: 0x5678,
    };
    assert!(matches!(
        r,
        Reason::Crc {
            expected: 0x1234,
            actual: 0x5678
        }
    ));
}

#[test]
fn reason_seq_gap_fields_round_trip() {
    let r = Reason::SequenceGap {
        expected: 5,
        got: 7,
    };
    assert!(matches!(
        r,
        Reason::SequenceGap {
            expected: 5,
            got: 7
        }
    ));
}

#[test]
fn error_clone_and_eq() {
    assert_eq!(Error::Codec.clone(), Error::Codec);
    assert_ne!(Error::Codec, Error::Storage);
}
