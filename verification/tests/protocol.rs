use telemetry_core::protocol::{
    PacketType, Severity, CRC16_LEN, HEADER_LEN, MIN_FRAME_LEN, PROTOCOL_VERSION,
};

#[test]
fn protocol_version_is_one() {
    assert_eq!(PROTOCOL_VERSION, 1);
}

#[test]
fn min_frame_len_is_eleven() {
    assert_eq!(MIN_FRAME_LEN, 11);
    assert_eq!(HEADER_LEN + CRC16_LEN, 11);
}

#[test]
fn packet_type_round_trips() {
    let cases: &[(u8, PacketType)] = &[
        (0x01, PacketType::Heartbeat),
        (0x02, PacketType::SensorData),
        (0x03, PacketType::Event),
        (0x04, PacketType::Diagnostic),
        (0x05, PacketType::Control),
    ];
    for &(byte, variant) in cases {
        let got = PacketType::try_from(byte).expect("known byte must convert");
        assert_eq!(got, variant);
        assert_eq!(got.to_u8(), byte);
    }
}

#[test]
fn packet_type_unknown_returns_err() {
    assert!(PacketType::try_from(0x00).is_err());
    assert!(PacketType::try_from(0x06).is_err());
    assert!(PacketType::try_from(0xFF).is_err());
}

#[test]
fn severity_round_trips() {
    let cases: &[(u8, Severity)] = &[
        (0x00, Severity::Debug),
        (0x01, Severity::Info),
        (0x02, Severity::Warning),
        (0x03, Severity::Error),
        (0x04, Severity::Fatal),
    ];
    for &(byte, variant) in cases {
        let got = Severity::try_from(byte).expect("known byte must convert");
        assert_eq!(got, variant);
        assert_eq!(got.to_u8(), byte);
    }
}

#[test]
fn severity_unknown_returns_err() {
    assert!(Severity::try_from(0x05).is_err());
    assert!(Severity::try_from(0xFF).is_err());
}

#[test]
fn severity_ordering() {
    assert!(Severity::Debug < Severity::Info);
    assert!(Severity::Info < Severity::Warning);
    assert!(Severity::Warning < Severity::Error);
    assert!(Severity::Error < Severity::Fatal);
}

#[test]
fn severity_order_matches_wire_byte() {
    let all = [Severity::Debug, Severity::Info, Severity::Warning, Severity::Error, Severity::Fatal];
    for a in all {
        for b in all {
            assert_eq!(a < b, a.to_u8() < b.to_u8());
        }
    }
}
