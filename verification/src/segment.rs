//! Segment files: the rotation rule of the segment writer and the decoder
//! of a segment's bytes.
//!
//! A segment is a run of encoded records, each ending in `0x00`. A new
//! segment is started before a record that would push the current one past
//! its size limit, so records are never split across segments.
use vstd::prelude::*;
use crate::error::Error;
use crate::protocol::MAX_PAYLOAD;
use crate::record::{decode, decode_spec, is_record_wire, lemma_record_round_trip, RecordView, StoredRecord};

verus! {

#[verifier::external_type_specification]
#[verifier::external_body]
pub struct ExIoError(std::io::Error);

/// Error returned by the segment file writer.
#[derive(Debug)]
pub enum FileStorageError {
    /// Opening, writing or flushing a segment file failed.
    Io(std::io::Error),
}

/// Bookkeeping of the segment writer: size limit, segments opened so far
/// and bytes in the current segment. A segment is open once the first one
/// has been opened.
#[derive(Debug, Clone, Copy)]
pub struct SegmentPlan {
    max_segment_bytes: usize,
    segment_index: u32,
    current_size: usize,
}

/// The mathematical content of a [`SegmentPlan`].
pub struct SegmentPlanView {
    pub max_segment_bytes: usize,
    pub segment_index: u32,
    pub current_size: usize,
    pub open: bool,
}

impl View for SegmentPlan {
    type V = SegmentPlanView;

    closed spec fn view(&self) -> SegmentPlanView {
        SegmentPlanView {
            max_segment_bytes: self.max_segment_bytes,
            segment_index: self.segment_index,
            current_size: self.current_size,
            open: self.segment_index > 0,
        }
    }
}

/// Whether a record of `len` bytes needs a new segment first: none is open,
/// or it would push the current one past the limit.
pub open spec fn needs_rotation_spec(s: SegmentPlanView, len: nat) -> bool {
    !s.open || s.current_size + len > s.max_segment_bytes
}

impl SegmentPlan {
    /// No segment opened yet.
    pub fn new(max_segment_bytes: usize) -> (p: Self)
        ensures
            p@ == (SegmentPlanView { max_segment_bytes, segment_index: 0, current_size: 0, open: false }),
    {
        SegmentPlan { max_segment_bytes, segment_index: 0, current_size: 0 }
    }

    /// Whether a record of `len` bytes must go into a new segment.
    pub fn needs_rotation(&self, len: usize) -> (b: bool)
        ensures
            b == needs_rotation_spec(self@, len as nat),
    {
        self.segment_index == 0 || len > self.max_segment_bytes || self.current_size > self.max_segment_bytes - len
    }

    /// Records that segment number `segment_index + 1` was opened and is empty.
    pub fn rotated(&mut self)
        requires
            old(self)@.segment_index < u32::MAX,
        ensures
            final(self)@ == (SegmentPlanView {
                segment_index: (old(self)@.segment_index + 1) as u32,
                current_size: 0,
                open: true,
                ..old(self)@
            }),
    {
        self.segment_index = self.segment_index + 1;
        self.current_size = 0;
    }

    /// Records that `len` bytes were appended to the open segment.
    pub fn appended(&mut self, len: usize)
        requires
            old(self)@.current_size + len <= usize::MAX,
        ensures
            final(self)@ == (SegmentPlanView {
                current_size: (old(self)@.current_size + len) as usize,
                ..old(self)@
            }),
    {
        self.current_size = self.current_size + len;
    }

    /// Bytes written to the current segment.
    pub fn current_size(&self) -> (n: usize)
        ensures
            n == self@.current_size,
    {
        self.current_size
    }

    /// Number of segments opened so far; also the index of the current one.
    pub fn segment_count(&self) -> (n: u32)
        ensures
            n == self@.segment_index,
    {
        self.segment_index
    }
}

/// A segment is open exactly when at least one has been opened.
pub proof fn lemma_open_iff_started(p: SegmentPlan)
    ensures
        p@.open <==> p@.segment_index > 0,
{
}

/// Writing a record of `len` bytes, rotating first when needed, leaves the
/// current segment within its limit, unless that record alone exceeds it
/// and is the segment's only content.
pub proof fn lemma_record_never_split(s: SegmentPlanView, len: nat)
    requires
        s.current_size <= s.max_segment_bytes,
    ensures
        ({
            let before = if needs_rotation_spec(s, len) {
                0
            } else {
                s.current_size as nat
            };
            &&& before + len <= s.max_segment_bytes || before == 0
            &&& !needs_rotation_spec(s, len) ==> s.open
        }),
{
}

/// Splits `b` on `0x00`: the non-empty runs completed by a `0x00`, and the
/// run after the last `0x00`.
pub open spec fn split_runs(b: Seq<u8>) -> (Seq<Seq<u8>>, Seq<u8>)
    decreases b.len(),
{
    if b.len() == 0 {
        (seq![], seq![])
    } else {
        let (done, cur) = split_runs(b.drop_last());
        if b.last() == 0u8 {
            if cur.len() > 0 {
                (done.push(cur), seq![])
            } else {
                (done, seq![])
            }
        } else {
            (done, cur.push(b.last()))
        }
    }
}

/// The non-empty `0x00`-free chunks of a segment, in order; a trailing chunk
/// with no closing `0x00` is included.
pub open spec fn segment_chunks(b: Seq<u8>) -> Seq<Seq<u8>> {
    let (done, cur) = split_runs(b);
    if cur.len() > 0 {
        done.push(cur)
    } else {
        done
    }
}

/// `r` is what decoding gives when its specification is `d`.
pub open spec fn decoded_as(r: Result<StoredRecord, Error>, d: Result<RecordView, Error>) -> bool {
    match d {
        Ok(v) => r matches Ok(x) && x@ == v,
        Err(e) => r == Err::<StoredRecord, Error>(e),
    }
}

/// Decodes every record of a segment: splits on `0x00`, skips empty chunks,
/// and decodes each chunk with [`decode`]. A truncated trailing record comes
/// out as an error, in place; nothing panics.
pub fn read_segment(bytes: &[u8]) -> (r: Vec<Result<StoredRecord, Error>>)
    ensures
        r@.len() == segment_chunks(bytes@).len(),
        forall|i: int|
            0 <= i < r@.len() ==> decoded_as(#[trigger] r@[i], decode_spec(segment_chunks(bytes@)[i])),
{
    let mut out: Vec<Result<StoredRecord, Error>> = Vec::new();
    let mut start: usize = 0;
    let mut i: usize = 0;
    while i < bytes.len()
        invariant
            start <= i <= bytes@.len(),
            split_runs(bytes@.subrange(0, i as int)) == (
                split_runs(bytes@.subrange(0, i as int)).0,
                bytes@.subrange(start as int, i as int),
            ),
            out@.len() == split_runs(bytes@.subrange(0, i as int)).0.len(),
            forall|j: int|
                0 <= j < out@.len() ==> decoded_as(
                    #[trigger] out@[j],
                    decode_spec(split_runs(bytes@.subrange(0, i as int)).0[j]),
                ),
        decreases bytes@.len() - i,
    {
        let ghost prev = bytes@.subrange(0, i as int);
        let ghost next = bytes@.subrange(0, i + 1);
        assert(next.drop_last() =~= prev);
        if bytes[i] == 0x00 {
            if i > start {
                let res = decode(&bytes[start..i]);
                out.push(res);
            }
            start = i + 1;
            assert(bytes@.subrange(start as int, i + 1) =~= seq![]);
        } else {
            assert(bytes@.subrange(start as int, i + 1) =~= bytes@.subrange(start as int, i as int).push(
                bytes@[i as int],
            ));
        }
        i += 1;
    }
    assert(bytes@.subrange(0, i as int) =~= bytes@);
    if i > start {
        let res = decode(&bytes[start..i]);
        out.push(res);
    }
    out
}

/// Splitting `a + b`, where `a` leaves no open run, splits `a` and `b`
/// separately.
proof fn lemma_split_runs_append(a: Seq<u8>, b: Seq<u8>)
    requires
        split_runs(a).1.len() == 0,
    ensures
        split_runs(a + b) == (split_runs(a).0 + split_runs(b).0, split_runs(b).1),
    decreases b.len(),
{
    if b.len() == 0 {
        assert(a + b =~= a);
        assert(split_runs(a).0 + split_runs(b).0 =~= split_runs(a).0);
        assert(split_runs(a).1 =~= seq![]);
    } else {
        lemma_split_runs_append(a, b.drop_last());
        assert((a + b).drop_last() =~= a + b.drop_last());
        assert((a + b).last() == b.last());
        let (done, cur) = split_runs(b.drop_last());
        assert((split_runs(a).0 + done).push(cur) =~= split_runs(a).0 + done.push(cur));
    }
}

/// Reading two segments' bytes back to back gives the records of the first,
/// then those of the second, when the first ends with a `0x00` delimiter
/// (or is empty).
pub proof fn lemma_segment_chunks_concat(a: Seq<u8>, b: Seq<u8>)
    requires
        a.len() == 0 || a.last() == 0u8,
    ensures
        segment_chunks(a + b) == segment_chunks(a) + segment_chunks(b),
{
    if a.len() == 0 {
        assert(a + b =~= b);
        assert(split_runs(a).0 =~= seq![]);
        assert(segment_chunks(a) =~= seq![]);
        assert(segment_chunks(a) + segment_chunks(b) =~= segment_chunks(b));
    } else {
        assert(split_runs(a).1 =~= seq![]);
    }
    lemma_split_runs_append(a, b);
    let (done, cur) = split_runs(b);
    assert((split_runs(a).0 + done).push(cur) =~= split_runs(a).0 + done.push(cur));
    assert(segment_chunks(a) == split_runs(a).0);
}

/// All of `ws`, one after the other.
pub open spec fn concat_all(ws: Seq<Seq<u8>>) -> Seq<u8>
    decreases ws.len(),
{
    if ws.len() == 0 {
        seq![]
    } else {
        concat_all(ws.drop_last()) + ws.last()
    }
}

/// Appending bytes with no `0x00` extends the open run.
proof fn lemma_split_runs_append_run(p: Seq<u8>, c: Seq<u8>)
    requires
        forall|i: int| 0 <= i < c.len() ==> #[trigger] c[i] != 0u8,
    ensures
        split_runs(p + c) == (split_runs(p).0, split_runs(p).1 + c),
    decreases c.len(),
{
    if c.len() == 0 {
        assert(p + c =~= p);
        assert(split_runs(p).1 + c =~= split_runs(p).1);
    } else {
        lemma_split_runs_append_run(p, c.drop_last());
        assert((p + c).drop_last() =~= p + c.drop_last());
        assert(split_runs(p).1 + c =~= (split_runs(p).1 + c.drop_last()).push(c.last()));
    }
}

/// Splitting delimited runs back to back gives the runs, delimiters removed.
proof fn lemma_split_runs_concat(ws: Seq<Seq<u8>>)
    requires
        forall|k: int|
            0 <= k < ws.len() ==> {
                let w = #[trigger] ws[k];
                &&& w.len() >= 2
                &&& w.last() == 0u8
                &&& forall|i: int| 0 <= i < w.len() - 1 ==> #[trigger] w[i] != 0u8
            },
    ensures
        split_runs(concat_all(ws)) == (
            ws.map_values(|w: Seq<u8>| w.drop_last()),
            Seq::<u8>::empty(),
        ),
    decreases ws.len(),
{
    if ws.len() == 0 {
        assert(ws.map_values(|w: Seq<u8>| w.drop_last()) =~= seq![]);
    } else {
        let init = ws.drop_last();
        let w = ws.last();
        assert(ws[ws.len() - 1] == w);
        assert forall|k: int| 0 <= k < init.len() implies #[trigger] init[k] == ws[k] by {}
        lemma_split_runs_concat(init);
        let p = concat_all(init);
        let c = w.drop_last();
        assert forall|i: int| 0 <= i < c.len() implies #[trigger] c[i] != 0u8 by {
            assert(c[i] == w[i]);
        }
        lemma_split_runs_append_run(p, c);
        assert(w =~= c.push(0u8));
        assert(p + w =~= (p + c).push(0u8));
        assert(Seq::<u8>::empty() + c =~= c);
        assert(ws.map_values(|w: Seq<u8>| w.drop_last()) =~= init.map_values(
            |w: Seq<u8>| w.drop_last(),
        ).push(c));
        assert(concat_all(ws) == p + w);
        assert((p + w).drop_last() =~= p + c);
        assert((p + w).last() == 0u8);
        assert(split_runs(p + c) == (init.map_values(|w: Seq<u8>| w.drop_last()), c));
        assert(split_runs(p + w) == (init.map_values(|w: Seq<u8>| w.drop_last()).push(c), Seq::<u8>::empty()));
    }
}

/// Records written by [`crate::record::encode`] back to back into a segment
/// are read back by [`read_segment`] one by one, in order, each intact.
pub proof fn lemma_segment_round_trip(ws: Seq<Seq<u8>>, rs: Seq<RecordView>)
    requires
        ws.len() == rs.len(),
        forall|k: int|
            0 <= k < ws.len() ==> is_record_wire(#[trigger] ws[k], rs[k]) && rs[k].payload.len()
                <= MAX_PAYLOAD,
    ensures
        segment_chunks(concat_all(ws)).len() == rs.len(),
        forall|k: int|
            0 <= k < rs.len() ==> decode_spec(#[trigger] segment_chunks(concat_all(ws))[k]) == Ok::<
                RecordView,
                Error,
            >(rs[k]),
{
    assert forall|k: int|
        0 <= k < ws.len() implies {
            let w = #[trigger] ws[k];
            &&& w.len() >= 2
            &&& w.last() == 0u8
            &&& forall|i: int| 0 <= i < w.len() - 1 ==> #[trigger] w[i] != 0u8
        } by {
        assert(is_record_wire(ws[k], rs[k]));
    }
    lemma_split_runs_concat(ws);
    assert forall|k: int|
        0 <= k < rs.len() implies decode_spec(#[trigger] segment_chunks(concat_all(ws))[k]) == Ok::<
            RecordView,
            Error,
        >(rs[k]) by {
        assert(segment_chunks(concat_all(ws))[k] == ws[k].drop_last());
        lemma_record_round_trip(ws[k], rs[k]);
    }
}

} // verus!
