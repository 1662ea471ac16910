//! What the log decoder shows: record selection, type and severity names,
//! and its running statistics.
use vstd::prelude::*;
use crate::record::{RecordView, StoredRecord};
use crate::shim_heapless::payload_as_slice;

verus! {

/// The name of a packet-type byte.
pub open spec fn spec_packet_type_name(raw: u8) -> Seq<char> {
    if raw == 0x01 {
        "Heartbeat"@
    } else if raw == 0x02 {
        "SensorData"@
    } else if raw == 0x03 {
        "Event"@
    } else if raw == 0x04 {
        "Diagnostic"@
    } else if raw == 0x05 {
        "Control"@
    } else {
        "Unknown"@
    }
}

/// The name of a severity byte.
pub open spec fn spec_severity_name(raw: u8) -> Seq<char> {
    if raw == 0x00 {
        "Debug"@
    } else if raw == 0x01 {
        "Info"@
    } else if raw == 0x02 {
        "Warning"@
    } else if raw == 0x03 {
        "Error"@
    } else if raw == 0x04 {
        "Fatal"@
    } else {
        "Unknown"@
    }
}

/// The name of a packet-type byte; `"Unknown"` for bytes that name no type.
pub fn packet_type_name(raw: u8) -> (s: &'static str)
    ensures
        s@ == spec_packet_type_name(raw),
{
    match raw {
        0x01 => "Heartbeat",
        0x02 => "SensorData",
        0x03 => "Event",
        0x04 => "Diagnostic",
        0x05 => "Control",
        _ => "Unknown",
    }
}

/// The name of a severity byte; `"Unknown"` for bytes that name no severity.
pub fn severity_name(raw: u8) -> (s: &'static str)
    ensures
        s@ == spec_severity_name(raw),
{
    match raw {
        0x00 => "Debug",
        0x01 => "Info",
        0x02 => "Warning",
        0x03 => "Error",
        0x04 => "Fatal",
        _ => "Unknown",
    }
}

/// Whether the decoder shows record `r`: its sequence number is at least
/// `since` (when given), its severity at least `min_severity`, and its type
/// in `types` (when that is not empty).
pub open spec fn shows(r: RecordView, since: Option<u32>, min_severity: u8, types: Seq<u8>) -> bool {
    &&& since matches Some(s) ==> r.sequence >= s
    &&& r.severity >= min_severity
    &&& types.len() > 0 ==> types.contains(r.packet_type)
}

/// Whether the decoder shows `r` under the given selection.
pub fn passes_filter(r: &StoredRecord, since: Option<u32>, min_severity: u8, types: &[u8]) -> (b: bool)
    ensures
        b == shows(r@, since, min_severity, types@),
{
    match r {
        StoredRecord::V1(v) => {
            if let Some(since_seq) = since {
                if v.sequence < since_seq {
                    return false;
                }
            }
            if v.severity < min_severity {
                return false;
            }
            if types.len() == 0 {
                return true;
            }
            let mut i: usize = 0;
            while i < types.len()
                invariant
                    i <= types@.len(),
                    forall|j: int| 0 <= j < i ==> types@[j] != v.packet_type,
                    r@ == v@,
                    since matches Some(s) ==> v.sequence >= s,
                    v.severity >= min_severity,
                decreases types@.len() - i,
            {
                if types[i] == v.packet_type {
                    assert(types@[i as int] == v.packet_type);
                    return true;
                }
                i += 1;
            }
            false
        },
    }
}

/// Running statistics of the decoder.
#[derive(Debug, Default)]
pub struct DecodeStats {
    /// Records read, decodable or not.
    pub total_seen: u64,
    /// Records that failed to decode.
    pub decode_errors: u64,
    /// Records shown.
    pub passed_filter: u64,
    /// Shown records by raw type byte `0x00..=0x05`.
    pub by_type: [u64; 6],
    /// Shown records by severity byte `0x00..=0x04`.
    pub by_severity: [u64; 5],
}

impl DecodeStats {
    /// Counts one record read; `ok` tells whether it decoded.
    pub fn record_seen(&mut self, ok: bool)
        requires
            old(self).total_seen < u64::MAX,
            !ok ==> old(self).decode_errors < u64::MAX,
        ensures
            final(self).total_seen == old(self).total_seen + 1,
            final(self).decode_errors == old(self).decode_errors + if ok {
                0int
            } else {
                1int
            },
            final(self).passed_filter == old(self).passed_filter,
            final(self).by_type == old(self).by_type,
            final(self).by_severity == old(self).by_severity,
    {
        self.total_seen += 1;
        if !ok {
            self.decode_errors += 1;
        }
    }

    /// Counts one record shown, by its type and severity bytes; bytes past
    /// the tables are counted only in `passed_filter`.
    pub fn record_passed(&mut self, ptype: u8, severity: u8)
        requires
            old(self).passed_filter < u64::MAX,
            ptype < 6 ==> old(self).by_type[ptype as int] < u64::MAX,
            severity < 5 ==> old(self).by_severity[severity as int] < u64::MAX,
        ensures
            final(self).passed_filter == old(self).passed_filter + 1,
            final(self).total_seen == old(self).total_seen,
            final(self).decode_errors == old(self).decode_errors,
            final(self).by_type@ == if ptype < 6 {
                old(self).by_type@.update(ptype as int, (old(self).by_type[ptype as int] + 1) as u64)
            } else {
                old(self).by_type@
            },
            final(self).by_severity@ == if severity < 5 {
                old(self).by_severity@.update(
                    severity as int,
                    (old(self).by_severity[severity as int] + 1) as u64,
                )
            } else {
                old(self).by_severity@
            },
    {
        self.passed_filter += 1;
        if (ptype as usize) < 6 {
            let i = ptype as usize;
            self.by_type[i] = self.by_type[i] + 1;
        }
        if (severity as usize) < 5 {
            let i = severity as usize;
            self.by_severity[i] = self.by_severity[i] + 1;
        }
        assert(self.by_type@ =~= if ptype < 6 {
            old(self).by_type@.update(ptype as int, (old(self).by_type[ptype as int] + 1) as u64)
        } else {
            old(self).by_type@
        });
        assert(self.by_severity@ =~= if severity < 5 {
            old(self).by_severity@.update(
                severity as int,
                (old(self).by_severity[severity as int] + 1) as u64,
            )
        } else {
            old(self).by_severity@
        });
    }
}

/// The lower-case hexadecimal digit of `n` (`n < 16`).
pub open spec fn hex_digit(n: int) -> Seq<char> {
    if n == 0 {
        "0"@
    } else
    if n == 1 {
        "1"@
    } else
    if n == 2 {
        "2"@
    } else
    if n == 3 {
        "3"@
    } else
    if n == 4 {
        "4"@
    } else
    if n == 5 {
        "5"@
    } else
    if n == 6 {
        "6"@
    } else
    if n == 7 {
        "7"@
    } else
    if n == 8 {
        "8"@
    } else
    if n == 9 {
        "9"@
    } else
    if n == 10 {
        "a"@
    } else
    if n == 11 {
        "b"@
    } else
    if n == 12 {
        "c"@
    } else
    if n == 13 {
        "d"@
    } else
    if n == 14 {
        "e"@
    } else {
        "f"@
    }
}

/// A byte as two lower-case hexadecimal digits.
pub open spec fn hex_byte(b: u8) -> Seq<char> {
    hex_digit((b / 16) as int) + hex_digit((b % 16) as int)
}

/// The bytes in hexadecimal, separated by single spaces.
pub open spec fn hex_joined(bs: Seq<u8>) -> Seq<char>
    decreases bs.len(),
{
    if bs.len() == 0 {
        seq![]
    } else if bs.len() == 1 {
        hex_byte(bs[0])
    } else {
        hex_joined(bs.drop_last()) + " "@ + hex_byte(bs.last())
    }
}

/// `n` in decimal.
pub open spec fn decimal(n: nat) -> Seq<char>
    decreases n,
{
    if n < 10 {
        hex_digit(n as int)
    } else {
        decimal(n / 10) + hex_digit((n % 10) as int)
    }
}

/// How the decoder previews a payload: `(empty)`; or its bytes in
/// hexadecimal when there are at most 8; or the first 8 in hexadecimal,
/// then ` `, the ellipsis character U+2026, ` (`, the length in decimal
/// and ` bytes)`.
pub open spec fn preview_spec(p: Seq<u8>) -> Seq<char> {
    if p.len() == 0 {
        "(empty)"@
    } else if p.len() <= 8 {
        hex_joined(p)
    } else {
        hex_joined(p.take(8)) + " \u{2026} ("@ + decimal(p.len()) + " bytes)"@
    }
}

/// The lower-case hexadecimal digit of `n`.
fn hex_digit_str(n: u8) -> (s: &'static str)
    requires
        n < 16,
    ensures
        s@ == hex_digit(n as int),
{
    match n {
        0 => "0",
        1 => "1",
        2 => "2",
        3 => "3",
        4 => "4",
        5 => "5",
        6 => "6",
        7 => "7",
        8 => "8",
        9 => "9",
        10 => "a",
        11 => "b",
        12 => "c",
        13 => "d",
        14 => "e",
        _ => "f",
    }
}

/// Appends `n` in decimal to `s`.
fn append_decimal(s: &mut String, n: u64)
    ensures
        final(s)@ == old(s)@ + decimal(n as nat),
    decreases n,
{
    if n >= 10 {
        append_decimal(s, n / 10);
    }
    let d = (n % 10) as u8;
    s.append(hex_digit_str(d));
}

/// The payload preview the decoder shows: see [`preview_spec`].
pub fn payload_preview(payload: &[u8]) -> (s: String)
    ensures
        s@ == preview_spec(payload@),
{
    let mut s = String::new();
    if payload.len() == 0 {
        s.append("(empty)");
        return s;
    }
    let shown: usize = if payload.len() < 8 {
        payload.len()
    } else {
        8
    };
    let mut i: usize = 0;
    while i < shown
        invariant
            shown <= payload@.len(),
            shown == if payload@.len() < 8 {
                payload@.len()
            } else {
                8
            },
            i <= shown,
            s@ == hex_joined(payload@.take(i as int)),
        decreases shown - i,
    {
        let ghost prev = payload@.take(i as int);
        assert(payload@.take(i + 1).drop_last() =~= prev);
        assert(payload@.take(i + 1).last() == payload@[i as int]);
        if i > 0 {
            s.append(" ");
        } else {
            assert(s@ =~= seq![]);
        }
        let b = payload[i];
        s.append(hex_digit_str(b / 16));
        s.append(hex_digit_str(b % 16));
        i += 1;
    }
    if payload.len() > 8 {
        s.append(" \u{2026} (");
        append_decimal(&mut s, payload.len() as u64);
        s.append(" bytes)");
    } else {
        assert(payload@.take(i as int) =~= payload@);
    }
    s
}

/// The bytes in hexadecimal, two digits each, with no separator.
pub open spec fn hex_concat(bs: Seq<u8>) -> Seq<char>
    decreases bs.len(),
{
    if bs.len() == 0 {
        seq![]
    } else {
        hex_concat(bs.drop_last()) + hex_byte(bs.last())
    }
}

/// A byte in two hexadecimal digits, then its name in parentheses, as the
/// decoder's table shows type and severity.
pub open spec fn labelled_byte_spec(raw: u8, name: Seq<char>) -> Seq<char> {
    hex_byte(raw) + " ("@ + name + ")"@
}

/// A byte in two hexadecimal digits, then `name` in parentheses.
pub fn labelled_byte(raw: u8, name: &str) -> (s: String)
    ensures
        s@ == labelled_byte_spec(raw, name@),
{
    let mut s = String::new();
    s.append(hex_digit_str(raw / 16));
    s.append(hex_digit_str(raw % 16));
    s.append(" (");
    s.append(name);
    s.append(")");
    s
}

/// The JSON object the decoder prints for a record: sequence number,
/// timestamp, type and severity (raw and named), payload in hexadecimal and
/// payload length, in that order.
pub open spec fn record_json_spec(r: RecordView) -> Seq<char> {
    "{\"seq\":"@ + decimal(r.sequence as nat) + ",\"ts_us\":"@ + decimal(r.timestamp_us as nat)
        + ",\"type\":"@ + decimal(r.packet_type as nat) + ",\"type_name\":\""@
        + spec_packet_type_name(r.packet_type) + "\",\"severity\":"@ + decimal(r.severity as nat)
        + ",\"severity_name\":\""@ + spec_severity_name(r.severity) + "\",\"payload_hex\":\""@
        + hex_concat(r.payload) + "\",\"payload_len\":"@ + decimal(r.payload.len()) + "}"@
}

/// The record as one JSON object: see [`record_json_spec`].
pub fn record_to_json(r: &StoredRecord) -> (s: String)
    ensures
        s@ == record_json_spec(r@),
{
    let v = match r {
        StoredRecord::V1(v) => v,
    };
    let payload = payload_as_slice(&v.payload);
    let mut s = String::new();
    s.append("{\"seq\":");
    append_decimal(&mut s, v.sequence as u64);
    s.append(",\"ts_us\":");
    append_decimal(&mut s, v.timestamp_us);
    s.append(",\"type\":");
    append_decimal(&mut s, v.packet_type as u64);
    s.append(",\"type_name\":\"");
    s.append(packet_type_name(v.packet_type));
    s.append("\",\"severity\":");
    append_decimal(&mut s, v.severity as u64);
    s.append(",\"severity_name\":\"");
    s.append(severity_name(v.severity));
    s.append("\",\"payload_hex\":\"");
    let ghost head = s@;
    let mut i: usize = 0;
    while i < payload.len()
        invariant
            i <= payload@.len(),
            s@ == head + hex_concat(payload@.take(i as int)),
        decreases payload@.len() - i,
    {
        assert(payload@.take(i + 1).drop_last() =~= payload@.take(i as int));
        let b = payload[i];
        s.append(hex_digit_str(b / 16));
        s.append(hex_digit_str(b % 16));
        assert(s@ =~= head + hex_concat(payload@.take(i + 1)));
        i += 1;
    }
    assert(payload@.take(i as int) =~= payload@);
    s.append("\",\"payload_len\":");
    append_decimal(&mut s, payload.len() as u64);
    s.append("}");
    s
}

/// What the decoder shows, in terms of the selection: a record is shown
/// exactly when its sequence number is at least `since` (if given), its
/// severity at least `min_severity`, and, when the type list is not empty,
/// its packet type equals some entry of the list, wherever that entry
/// stands.
pub proof fn lemma_selection(r: RecordView, since: Option<u32>, min_severity: u8, types: Seq<u8>)
    ensures
        shows(r, since, min_severity, types) <==> {
            &&& (since matches Some(s) ==> r.sequence >= s)
            &&& r.severity >= min_severity
            &&& (types.len() == 0 || exists|i: int| 0 <= i < types.len() && types[i] == r.packet_type)
        },
{
    if exists|i: int| 0 <= i < types.len() && types[i] == r.packet_type {
        let i = choose|i: int| 0 <= i < types.len() && types[i] == r.packet_type;
        assert(types.contains(r.packet_type));
    }
}

/// Selecting by a single type `t` (and nothing else) shows exactly the
/// records of type `t`.
pub proof fn lemma_single_type_selection(r: RecordView, t: u8)
    ensures
        shows(r, None, 0, seq![t]) <==> r.packet_type == t,
{
    lemma_selection(r, None, 0, seq![t]);
    if r.packet_type == t {
        assert(seq![t][0] == r.packet_type);
    }
}

/// Each hexadecimal digit is one character.
proof fn lemma_hex_digit_len(n: int)
    ensures
        hex_digit(n).len() == 1,
{
        reveal_strlit("0");
        reveal_strlit("1");
        reveal_strlit("2");
        reveal_strlit("3");
        reveal_strlit("4");
        reveal_strlit("5");
        reveal_strlit("6");
        reveal_strlit("7");
        reveal_strlit("8");
        reveal_strlit("9");
        reveal_strlit("a");
        reveal_strlit("b");
        reveal_strlit("c");
        reveal_strlit("d");
        reveal_strlit("e");
        reveal_strlit("f");
}

/// The unseparated hexadecimal of `bs` is two characters per byte, byte
/// `i` at characters `2i` and `2i + 1`.
proof fn lemma_hex_concat(bs: Seq<u8>)
    ensures
        hex_concat(bs).len() == 2 * bs.len(),
        forall|i: int|
            0 <= i < bs.len() ==> #[trigger] hex_concat(bs).subrange(2 * i, 2 * i + 2) == hex_byte(bs[i]),
    decreases bs.len(),
{
    if bs.len() > 0 {
        let pre = bs.drop_last();
        lemma_hex_concat(pre);
        lemma_hex_digit_len((bs.last() / 16) as int);
        lemma_hex_digit_len((bs.last() % 16) as int);
        let h = hex_concat(bs);
        assert(h == hex_concat(pre) + hex_byte(bs.last()));
        assert forall|i: int| 0 <= i < bs.len() implies #[trigger] h.subrange(2 * i, 2 * i + 2)
            == hex_byte(bs[i]) by {
            if i < pre.len() {
                assert(h.subrange(2 * i, 2 * i + 2) =~= hex_concat(pre).subrange(2 * i, 2 * i + 2));
                assert(pre[i] == bs[i]);
            } else {
                assert(h.subrange(2 * i, 2 * i + 2) =~= hex_byte(bs.last()));
            }
        }
    }
}

/// The JSON line carries the whole payload: just before its closing
/// `","payload_len":<len>}` stand `2 * len` characters, the two-digit
/// lower-case hexadecimal of every payload byte, in order.
pub proof fn lemma_json_payload_hex(r: RecordView)
    ensures
        ({
            let j = record_json_spec(r);
            let n = r.payload.len();
            let tail = "\",\"payload_len\":"@ + decimal(n) + "}"@;
            let start = j.len() - tail.len() - 2 * n;
            &&& start >= 0
            &&& j.subrange(j.len() - tail.len(), j.len() as int) == tail
            &&& forall|i: int|
                0 <= i < n ==> #[trigger] j.subrange(start + 2 * i, start + 2 * i + 2) == hex_byte(
                    r.payload[i],
                )
        }),
{
    let j = record_json_spec(r);
    let n = r.payload.len();
    let tail = "\",\"payload_len\":"@ + decimal(n) + "}"@;
    let h = hex_concat(r.payload);
    lemma_hex_concat(r.payload);
    let pre = j.subrange(0, j.len() - tail.len() - h.len());
    assert(j =~= pre + h + tail);
    let start = j.len() - tail.len() - 2 * n;
    assert(j.subrange(j.len() - tail.len(), j.len() as int) =~= tail);
    assert forall|i: int| 0 <= i < n implies #[trigger] j.subrange(start + 2 * i, start + 2 * i + 2)
        == hex_byte(r.payload[i]) by {
        assert(j.subrange(start + 2 * i, start + 2 * i + 2) =~= h.subrange(2 * i, 2 * i + 2));
    }
}

} // verus!
