//! Wire protocol constants and the packet-type / severity enumerations.
//!
//! The numeric values here are the wire contract: every frame carries them.
use core::cmp::Ordering;
use vstd::prelude::*;
use vstd::std_specs::cmp::PartialOrdSpec;

verus! {

/// Wire protocol version embedded in every frame header (`version` field).
pub const PROTOCOL_VERSION: u8 = 0x01;

/// Maximum payload bytes allowed in a single wire frame.
pub const MAX_PAYLOAD: usize = 480;

/// Bytes in the frame header: version(1) + type(1) + severity(1) + sequence(4) + payload_len(2).
pub const HEADER_LEN: usize = 9;

/// Bytes occupied by the trailing CRC-16 field of every frame.
pub const CRC16_LEN: usize = 2;

/// Minimum decoded frame length (zero-length payload).
pub const MIN_FRAME_LEN: usize = HEADER_LEN + CRC16_LEN;

/// CRC-16/IBM-SDLC residue: the CRC over a whole well-formed frame, trailing
/// CRC bytes included.
pub const CRC16_RESIDUE: u16 = 0xF0B8;

/// Packet type carried in the `type` byte of every wire frame.
///
/// Any byte outside `0x01..=0x05` is not a packet type.
#[derive(Debug, Clone, Copy, PartialEq, Eq, Structural)]
#[non_exhaustive]
pub enum PacketType {
    /// Periodic keep-alive (`0x01`).
    Heartbeat,
    /// Numerical sensor reading(s) (`0x02`).
    SensorData,
    /// Discrete event notification (`0x03`).
    Event,
    /// Internal firmware diagnostics (`0x04`).
    Diagnostic,
    /// Actuation / control command response (`0x05`).
    Control,
}

/// The packet type a wire byte names, if any.
pub open spec fn packet_type_of(b: u8) -> Option<PacketType> {
    if b == 0x01 {
        Some(PacketType::Heartbeat)
    } else if b == 0x02 {
        Some(PacketType::SensorData)
    } else if b == 0x03 {
        Some(PacketType::Event)
    } else if b == 0x04 {
        Some(PacketType::Diagnostic)
    } else if b == 0x05 {
        Some(PacketType::Control)
    } else {
        None
    }
}

impl PacketType {
    /// The wire byte of this packet type.
    pub open spec fn spec_byte(self) -> u8 {
        match self {
            PacketType::Heartbeat => 0x01,
            PacketType::SensorData => 0x02,
            PacketType::Event => 0x03,
            PacketType::Diagnostic => 0x04,
            PacketType::Control => 0x05,
        }
    }

    /// The wire byte of this packet type.
    pub fn to_u8(self) -> (b: u8)
        ensures
            b == self.spec_byte(),
            packet_type_of(b) == Some(self),
    {
        match self {
            PacketType::Heartbeat => 0x01,
            PacketType::SensorData => 0x02,
            PacketType::Event => 0x03,
            PacketType::Diagnostic => 0x04,
            PacketType::Control => 0x05,
        }
    }
}

impl core::convert::TryFrom<u8> for PacketType {
    type Error = ();

    fn try_from(value: u8) -> (r: Result<Self, ()>) {
        match value {
            0x01 => Ok(PacketType::Heartbeat),
            0x02 => Ok(PacketType::SensorData),
            0x03 => Ok(PacketType::Event),
            0x04 => Ok(PacketType::Diagnostic),
            0x05 => Ok(PacketType::Control),
            _ => Err(()),
        }
    }
}

impl vstd::std_specs::convert::TryFromSpecImpl<u8> for PacketType {
    open spec fn obeys_try_from_spec() -> bool {
        true
    }

    open spec fn try_from_spec(v: u8) -> Result<Self, ()> {
        match packet_type_of(v) {
            Some(t) => Ok(t),
            None => Err(()),
        }
    }
}

/// Severity level carried in the `severity` byte of every wire frame.
///
/// Levels are ordered `Debug < Info < Warning < Error < Fatal`; any byte
/// above `0x04` is not a severity.
#[derive(Debug, Clone, Copy, PartialEq, Eq, Structural, Ord)]
#[non_exhaustive]
pub enum Severity {
    /// Verbose debug output (`0x00`).
    Debug,
    /// Informational operational message (`0x01`).
    Info,
    /// Non-fatal condition requiring attention (`0x02`).
    Warning,
    /// Recoverable error condition (`0x03`).
    Error,
    /// Unrecoverable / system-halting condition (`0x04`).
    Fatal,
}

/// The severity a wire byte names, if any.
pub open spec fn severity_of(b: u8) -> Option<Severity> {
    if b == 0x00 {
        Some(Severity::Debug)
    } else if b == 0x01 {
        Some(Severity::Info)
    } else if b == 0x02 {
        Some(Severity::Warning)
    } else if b == 0x03 {
        Some(Severity::Error)
    } else if b == 0x04 {
        Some(Severity::Fatal)
    } else {
        None
    }
}

impl Severity {
    /// The wire byte of this severity, which is also its rank in the ordering.
    pub open spec fn spec_byte(self) -> u8 {
        match self {
            Severity::Debug => 0x00,
            Severity::Info => 0x01,
            Severity::Warning => 0x02,
            Severity::Error => 0x03,
            Severity::Fatal => 0x04,
        }
    }

    /// The wire byte of this severity.
    pub fn to_u8(self) -> (b: u8)
        ensures
            b == self.spec_byte(),
            severity_of(b) == Some(self),
    {
        match self {
            Severity::Debug => 0x00,
            Severity::Info => 0x01,
            Severity::Warning => 0x02,
            Severity::Error => 0x03,
            Severity::Fatal => 0x04,
        }
    }
}

impl core::convert::TryFrom<u8> for Severity {
    type Error = ();

    fn try_from(value: u8) -> (r: Result<Self, ()>) {
        match value {
            0x00 => Ok(Severity::Debug),
            0x01 => Ok(Severity::Info),
            0x02 => Ok(Severity::Warning),
            0x03 => Ok(Severity::Error),
            0x04 => Ok(Severity::Fatal),
            _ => Err(()),
        }
    }
}

/// Severities are ordered by their wire bytes.
impl PartialOrd for Severity {
    fn partial_cmp(&self, other: &Self) -> (r: Option<Ordering>) {
        let a = self.to_u8();
        let b = other.to_u8();
        if a < b {
            Some(Ordering::Less)
        } else if a == b {
            Some(Ordering::Equal)
        } else {
            Some(Ordering::Greater)
        }
    }
}

impl vstd::std_specs::cmp::PartialOrdSpecImpl for Severity {
    open spec fn obeys_partial_cmp_spec() -> bool {
        true
    }

    open spec fn partial_cmp_spec(&self, other: &Self) -> Option<Ordering> {
        if self.spec_byte() < other.spec_byte() {
            Some(Ordering::Less)
        } else if self.spec_byte() == other.spec_byte() {
            Some(Ordering::Equal)
        } else {
            Some(Ordering::Greater)
        }
    }
}

impl vstd::std_specs::convert::TryFromSpecImpl<u8> for Severity {
    open spec fn obeys_try_from_spec() -> bool {
        true
    }

    open spec fn try_from_spec(v: u8) -> Result<Self, ()> {
        match severity_of(v) {
            Some(s) => Ok(s),
            None => Err(()),
        }
    }
}

/// Every known byte converts to a packet type and back to itself, and every
/// packet type converts to its byte and back to itself.
pub proof fn lemma_packet_type_round_trip(b: u8, t: PacketType)
    ensures
        packet_type_of(b) matches Some(u) ==> u.spec_byte() == b,
        packet_type_of(t.spec_byte()) == Some(t),
        packet_type_of(b) is Some <==> 0x01 <= b <= 0x05,
{
}

/// Every known byte converts to a severity and back to itself, and every
/// severity converts to its byte and back to itself.
pub proof fn lemma_severity_round_trip(b: u8, s: Severity)
    ensures
        severity_of(b) matches Some(u) ==> u.spec_byte() == b,
        severity_of(s.spec_byte()) == Some(s),
        severity_of(b) is Some <==> b <= 0x04,
{
}

/// Severities compare as their wire bytes do, `Debug < Info < Warning <
/// Error < Fatal`, and two severities compare equal only when they are the
/// same.
pub proof fn lemma_severity_order(a: Severity, b: Severity)
    ensures
        PartialOrdSpec::partial_cmp_spec(&a, &b) == Some(Ordering::Less) <==> a.spec_byte() < b.spec_byte(),
        PartialOrdSpec::partial_cmp_spec(&a, &b) == Some(Ordering::Equal) <==> a == b,
        PartialOrdSpec::partial_cmp_spec(&a, &b) == Some(Ordering::Greater) <==> a.spec_byte() > b.spec_byte(),
{
}

} // verus!
