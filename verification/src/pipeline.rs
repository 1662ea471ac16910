//! The telemetry pipeline, with a split `ingest` / `drain` API.
//!
//! ```text
//!  ingest(bytes, clock) → framer → validator → filter → ring buffer + stats
//!  drain(storage)       → pop ring buffer → encode → write → flush
//! ```
use vstd::prelude::*;
use crate::error::{Error, Outcome, Reason};
use crate::filter::FilterConfig;
use crate::frame::{fields_crc, is_wire_frame, FrameView, Header};
use crate::framer::{
    feed_all,
    framer_step,
    lemma_encoded_frame_is_recovered,
    FrameOutput,
    FrameOutputView,
    Framer,
    FramerState,
    FramerView,
};
use crate::protocol::{packet_type_of, severity_of, MAX_PAYLOAD};
use crate::validator::{lemma_computed_crc_is_stored, next_sequence};
use crate::wire::{le16_bytes, le16_value};
use crate::record::{self, encoded_record, RecordV1, RecordView, StoredRecord, MAX_STORED_RECORD_BYTES};
use crate::ringbuf::{ring_push, RingBuf, RingView};
use crate::stats::{sat_inc, Stats};
use crate::traits::{Clock, Storage, StorageEvent};
use crate::validator::{check_spec, outcome_view, OutcomeView, Validator};

verus! {

/// The telemetry pipeline.
///
/// `MAX_FRAME` is the framer's buffer capacity in bytes (at least
/// [`crate::frame::MAX_COBS_FRAME_BYTES`] for max-size frames);
/// `QUEUE_DEPTH` is the number of records held between `ingest` and `drain`.
#[derive(Debug)]
pub struct Pipeline<const MAX_FRAME: usize, const QUEUE_DEPTH: usize> {
    framer: Framer<MAX_FRAME>,
    validator: Validator,
    filter: FilterConfig,
    ringbuf: RingBuf<QUEUE_DEPTH>,
    stats: Stats,
}

/// The mathematical content of a [`Pipeline`].
pub struct PipelineView {
    pub framer: FramerView,
    pub last_seq: Option<u32>,
    pub filter: FilterConfig,
    pub ring: RingView,
    pub stats: Stats,
}

impl<const MAX_FRAME: usize, const QUEUE_DEPTH: usize> View for Pipeline<MAX_FRAME, QUEUE_DEPTH> {
    type V = PipelineView;

    closed spec fn view(&self) -> PipelineView {
        PipelineView {
            framer: self.framer@,
            last_seq: self.validator@,
            filter: self.filter,
            ring: self.ringbuf@,
            stats: self.stats,
        }
    }
}

/// The record a frame that passed validation and the filter becomes.
pub open spec fn record_of(f: FrameView, timestamp_us: u64) -> RecordView {
    RecordView {
        timestamp_us,
        sequence: f.header.sequence,
        packet_type: f.header.packet_type,
        severity: f.header.severity,
        payload: f.payload,
    }
}

/// What happens to a frame the validator accepted: filtered, queued, or
/// dropped because the queue is full.
pub open spec fn enqueue_spec(p: PipelineView, f: FrameView, ts: u64, depth: nat) -> PipelineView {
    let s = p.stats;
    if p.filter.spec_allows(f.header) {
        let (ring, stored) = ring_push(p.ring, record_of(f, ts), depth);
        if stored {
            PipelineView {
                ring,
                stats: Stats {
                    ok: sat_inc(s.ok),
                    queue_high_water: if ring.high_water > s.queue_high_water {
                        ring.high_water
                    } else {
                        s.queue_high_water
                    },
                    ..s
                },
                ..p
            }
        } else {
            PipelineView { ring, stats: Stats { dropped: sat_inc(s.dropped), ..s }, ..p }
        }
    } else {
        PipelineView { stats: Stats { filtered: sat_inc(s.filtered), ..s }, ..p }
    }
}

/// The counter a rejection is recorded in.
pub open spec fn reject_spec(s: Stats, r: Reason) -> Stats {
    match r {
        Reason::Crc { .. } => Stats { crc_fail: sat_inc(s.crc_fail), ..s },
        Reason::BadLength => Stats { crc_fail: sat_inc(s.crc_fail), ..s },
        Reason::SequenceGap { .. } => Stats { seq_gap: sat_inc(s.seq_gap), ..s },
        Reason::Filtered => Stats { filtered: sat_inc(s.filtered), ..s },
    }
}

/// One input byte through the pipeline; `ts` is what the clock reads if
/// the byte completes a frame that gets queued.
pub open spec fn pipeline_step(p: PipelineView, byte: u8, ts: u64, max_frame: nat, depth: nat) -> PipelineView {
    let (fr, out) = framer_step(p.framer, byte, max_frame);
    let p1 = PipelineView { framer: fr, ..p };
    match out {
        FrameOutputView::Incomplete => p1,
        FrameOutputView::Complete(f) => {
            let (last, o) = check_spec(p.last_seq, f);
            let p2 = PipelineView { last_seq: last, ..p1 };
            match o {
                OutcomeView::Accepted(g) => enqueue_spec(p2, g, ts, depth),
                OutcomeView::Rejected(r) => PipelineView { stats: reject_spec(p2.stats, r), ..p2 },
            }
        },
        _ => PipelineView { stats: Stats { crc_fail: sat_inc(p.stats.crc_fail), ..p.stats }, ..p1 },
    }
}

/// `bytes` through the pipeline in order; byte `i` is stamped `ts[i]` if it
/// completes a queued frame.
pub open spec fn ingest_spec(
    p: PipelineView,
    bytes: Seq<u8>,
    ts: Seq<u64>,
    max_frame: nat,
    depth: nat,
) -> PipelineView
    decreases bytes.len(),
{
    if bytes.len() == 0 || ts.len() != bytes.len() {
        p
    } else {
        pipeline_step(
            ingest_spec(p, bytes.drop_last(), ts.drop_last(), max_frame, depth),
            bytes.last(),
            ts.last(),
            max_frame,
            depth,
        )
    }
}

/// Successful writes of records `rs`, in order: each record's encoding.
pub open spec fn write_events(rs: Seq<RecordView>) -> Seq<StorageEvent> {
    rs.map_values(|r: RecordView| StorageEvent::Write(encoded_record(r), true))
}

/// A drain of queue `items` stopped because the write of record `k` (from
/// 1) failed: with a modelled storage, the first `k - 1` records were
/// written successfully, the write of record `k` failed, and no flush was
/// requested.
pub open spec fn drain_stopped_at_write(
    items: Seq<RecordView>,
    k: int,
    modelled: bool,
    before: Seq<StorageEvent>,
    after: Seq<StorageEvent>,
) -> bool {
    &&& 1 <= k <= items.len()
    &&& modelled ==> after == before + write_events(items.take(k - 1)).push(
        StorageEvent::Write(encoded_record(items[k - 1]), false),
    )
}

/// A drain of queue `items` stopped because the final flush failed: every
/// record was written successfully (`k` is the queue's length), then the one
/// flush requested failed.
pub open spec fn drain_stopped_at_flush(
    items: Seq<RecordView>,
    k: int,
    modelled: bool,
    before: Seq<StorageEvent>,
    after: Seq<StorageEvent>,
) -> bool {
    &&& k == items.len()
    &&& modelled ==> after == before + write_events(items).push(StorageEvent::Flush(false))
}

impl<const MAX_FRAME: usize, const QUEUE_DEPTH: usize> Pipeline<MAX_FRAME, QUEUE_DEPTH> {
    /// The framer and ring buffer are in states their operations accept.
    pub open spec fn wf(&self) -> bool {
        &&& crate::framer::framer_wf(self@.framer, MAX_FRAME as nat)
        &&& self@.ring.items.len() <= QUEUE_DEPTH
    }

    /// A pipeline with the given filter, an empty framer and queue, a fresh
    /// validator and zeroed statistics.
    pub fn new(filter: FilterConfig) -> (p: Self)
        ensures
            p.wf(),
            p@ == (PipelineView {
                framer: FramerView { state: FramerState::Collecting, buf: seq![], resync_count: 0 },
                last_seq: None,
                filter,
                ring: RingView { items: seq![], overflow_count: 0, high_water: 0 },
                stats: Stats::zeroed(),
            }),
    {
        Pipeline {
            framer: Framer::new(),
            validator: Validator::new(),
            filter,
            ringbuf: RingBuf::new(),
            stats: Stats::default(),
        }
    }

    /// One byte through framer, validator, filter and ring buffer.
    fn step<C: Clock>(&mut self, byte: u8, clock: &C) -> (ts: Ghost<u64>)
        requires
            old(self).wf(),
        ensures
            final(self).wf(),
            final(self)@ == pipeline_step(old(self)@, byte, ts@, MAX_FRAME as nat, QUEUE_DEPTH as nat),
            C::obeys_clock_model() ==> ts@ == clock.reading(),
    {
        match self.framer.feed(byte) {
            FrameOutput::Complete(frame) => match self.validator.check(frame) {
                Outcome::Accepted(frame) => {
                    if self.filter.allow(&frame) {
                        let now = clock.now();
                        let ghost fv = frame@;
                        let record = StoredRecord::V1(
                            RecordV1 {
                                timestamp_us: now,
                                sequence: frame.header.sequence,
                                packet_type: frame.header.packet_type,
                                severity: frame.header.severity,
                                payload: frame.payload,
                            },
                        );
                        assert(record@ == record_of(fv, now));
                        if self.ringbuf.push(record).is_ok() {
                            self.stats.ok = self.stats.ok.saturating_add(1);
                            let hw = self.ringbuf.high_water();
                            if hw > self.stats.queue_high_water {
                                self.stats.queue_high_water = hw;
                            }
                        } else {
                            self.stats.dropped = self.stats.dropped.saturating_add(1);
                        }
                        Ghost(now)
                    } else {
                        self.stats.filtered = self.stats.filtered.saturating_add(1);
                        Ghost(clock.reading())
                    }
                },
                Outcome::Rejected(reason) => {
                    match reason {
                        Reason::Crc { .. } | Reason::BadLength => {
                            self.stats.crc_fail = self.stats.crc_fail.saturating_add(1);
                        },
                        // The frame that reveals a gap is itself rejected; the
                        // validator re-syncs so the next in-order frame passes.
                        Reason::SequenceGap { .. } => {
                            self.stats.seq_gap = self.stats.seq_gap.saturating_add(1);
                        },
                        Reason::Filtered => {
                            self.stats.filtered = self.stats.filtered.saturating_add(1);
                        },
                    }
                    Ghost(clock.reading())
                },
            },
            FrameOutput::Overflow | FrameOutput::CobsError | FrameOutput::ParseError => {
                self.stats.crc_fail = self.stats.crc_fail.saturating_add(1);
                Ghost(clock.reading())
            },
            FrameOutput::Incomplete => Ghost(clock.reading()),
        }
    }

    /// Feeds raw bytes through framer, validator, filter and ring buffer,
    /// updating the statistics for every outcome.
    ///
    /// The clock is read once per frame that passes validation and the
    /// filter, to stamp its record; the result is [`ingest_spec`] for some
    /// reading of the clock at each such frame. With a clock that keeps the
    /// [`Clock`] model, every record is stamped with [`Clock::reading`].
    pub fn ingest<C: Clock>(&mut self, bytes: &[u8], clock: &C)
        requires
            old(self).wf(),
        ensures
            final(self).wf(),
            exists|ts: Seq<u64>|
                ts.len() == bytes@.len() && final(self)@ == #[trigger] ingest_spec(
                    old(self)@,
                    bytes@,
                    ts,
                    MAX_FRAME as nat,
                    QUEUE_DEPTH as nat,
                ),
            C::obeys_clock_model() ==> final(self)@ == ingest_spec(
                old(self)@,
                bytes@,
                Seq::new(bytes@.len(), |j: int| clock.reading()),
                MAX_FRAME as nat,
                QUEUE_DEPTH as nat,
            ),
    {
        let ghost start = self@;
        let ghost mut ts: Seq<u64> = seq![];
        let mut i: usize = 0;
        while i < bytes.len()
            invariant
                self.wf(),
                i <= bytes@.len(),
                ts.len() == i,
                self@ == ingest_spec(
                    start,
                    bytes@.subrange(0, i as int),
                    ts,
                    MAX_FRAME as nat,
                    QUEUE_DEPTH as nat,
                ),
                C::obeys_clock_model() ==> ts =~= Seq::new(i as nat, |j: int| clock.reading()),
            decreases bytes@.len() - i,
        {
            let t = self.step(bytes[i], clock);
            proof {
                let next = bytes@.subrange(0, i + 1);
                assert(next.drop_last() =~= bytes@.subrange(0, i as int));
                assert(ts.push(t@).drop_last() =~= ts);
                ts = ts.push(t@);
            }
            i += 1;
        }
        assert(bytes@.subrange(0, i as int) =~= bytes@);
        assert(self@ == ingest_spec(old(self)@, bytes@, ts, MAX_FRAME as nat, QUEUE_DEPTH as nat));
    }

    /// Writes every queued record to `storage`, oldest first, then flushes once.
    ///
    /// Each record is popped, encoded with [`record::encode`] and handed to
    /// `storage.write`. On `Ok(n)`, `n` records were written and the queue is
    /// empty. When `write` or `flush` fails, `write_fail` goes up by one and
    /// `Err(Error::Storage)` is returned; the record whose write failed is
    /// lost, not re-queued, and the rest stay queued.
    pub fn drain<S: Storage>(&mut self, storage: &mut S) -> (r: Result<usize, Error>)
        requires
            old(self).wf(),
        ensures
            final(self).wf(),
            final(self)@.framer == old(self)@.framer,
            final(self)@.last_seq == old(self)@.last_seq,
            final(self)@.filter == old(self)@.filter,
            final(self)@.ring.overflow_count == old(self)@.ring.overflow_count,
            final(self)@.ring.high_water == old(self)@.ring.high_water,
            r is Ok || r == Err::<usize, Error>(Error::Storage),
            r matches Ok(n) ==> {
                &&& n == old(self)@.ring.items.len()
                &&& final(self)@.ring.items.len() == 0
                &&& final(self)@.stats == old(self)@.stats
                &&& S::obeys_storage_model() ==> final(storage).events() == old(storage).events()
                    + write_events(old(self)@.ring.items).push(StorageEvent::Flush(true))
            },
            r is Err ==> {
                &&& final(self)@.stats == (Stats {
                    write_fail: sat_inc(old(self)@.stats.write_fail),
                    ..old(self)@.stats
                })
                &&& exists|k: int|
                    #![trigger old(self)@.ring.items.skip(k)]
                    0 <= k <= old(self)@.ring.items.len() && final(self)@.ring.items
                        == old(self)@.ring.items.skip(k) && (drain_stopped_at_write(
                        old(self)@.ring.items,
                        k,
                        S::obeys_storage_model(),
                        old(storage).events(),
                        final(storage).events(),
                    ) || drain_stopped_at_flush(
                        old(self)@.ring.items,
                        k,
                        S::obeys_storage_model(),
                        old(storage).events(),
                        final(storage).events(),
                    ))
            },
    {
        let ghost items0 = self@.ring.items;
        let mut encode_buf: Vec<u8> = vec![0u8; MAX_STORED_RECORD_BYTES];
        let mut count: usize = 0;
        loop
            invariant
                self.wf(),
                encode_buf@.len() == MAX_STORED_RECORD_BYTES,
                count <= items0.len(),
                self@.ring.items == items0.skip(count as int),
                self@.framer == old(self)@.framer,
                self@.last_seq == old(self)@.last_seq,
                self@.filter == old(self)@.filter,
                self@.ring.overflow_count == old(self)@.ring.overflow_count,
                self@.ring.high_water == old(self)@.ring.high_water,
                self@.stats == old(self)@.stats,
                items0 == old(self)@.ring.items,
                items0.len() <= QUEUE_DEPTH,
                S::obeys_storage_model() ==> storage.events() == old(storage).events() + write_events(
                    items0.take(count as int),
                ),
            ensures
                self.wf(),
                count == items0.len(),
                self@.ring.items.len() == 0,
                self@.framer == old(self)@.framer,
                self@.last_seq == old(self)@.last_seq,
                self@.filter == old(self)@.filter,
                self@.ring.overflow_count == old(self)@.ring.overflow_count,
                self@.ring.high_water == old(self)@.ring.high_water,
                self@.stats == old(self)@.stats,
                S::obeys_storage_model() ==> storage.events() == old(storage).events() + write_events(
                    items0,
                ),
            decreases items0.len() - count,
        {
            let record = match self.ringbuf.pop() {
                Some(rec) => rec,
                None => {
                    break;
                },
            };
            assert(items0.skip(count + 1) =~= items0.skip(count as int).drop_first());
            let n = match record::encode(&record, encode_buf.as_mut_slice()) {
                Ok(n) => n,
                Err(_) => {
                    return Err(Error::Codec);
                },
            };
            let chunk = &encode_buf.as_slice()[0..n];
            assert(chunk@ == encoded_record(items0[count as int]));
            assert(items0.take(count + 1) =~= items0.take(count as int).push(items0[count as int]));
            assert(write_events(items0.take(count + 1)) =~= write_events(items0.take(count as int)).push(
                StorageEvent::Write(encoded_record(items0[count as int]), true),
            ));
            let written = storage.write(chunk);
            proof {
                if S::obeys_storage_model() {
                    assert((old(storage).events() + write_events(items0.take(count as int))).push(
                        StorageEvent::Write(chunk@, written is Ok),
                    ) =~= old(storage).events() + write_events(items0.take(count as int)).push(
                        StorageEvent::Write(chunk@, written is Ok),
                    ));
                    if written is Ok {
                        assert(storage.events() =~= old(storage).events() + write_events(
                            items0.take(count + 1),
                        ));
                    }
                }
            }
            if written.is_err() {
                assert(items0.take(count + 1 - 1) =~= items0.take(count as int));
                self.stats.write_fail = self.stats.write_fail.saturating_add(1);
                assert(self@.ring.items == items0.skip(count + 1));
                assert(drain_stopped_at_write(
                    items0,
                    count + 1,
                    S::obeys_storage_model(),
                    old(storage).events(),
                    storage.events(),
                ));
                return Err(Error::Storage);
            }
            count += 1;
        }
        assert(items0.take(count as int) =~= items0);
        let flushed = storage.flush();
        if flushed.is_err() {
            self.stats.write_fail = self.stats.write_fail.saturating_add(1);
            assert(self@.ring.items == items0.skip(items0.len() as int));
            assert(drain_stopped_at_flush(
                items0,
                items0.len() as int,
                S::obeys_storage_model(),
                old(storage).events(),
                storage.events(),
            ));
            return Err(Error::Storage);
        }
        Ok(count)
    }

    /// The current statistics.
    pub fn stats(&self) -> (s: &Stats)
        ensures
            *s == self@.stats,
    {
        &self.stats
    }

    /// Mutable access to the statistics (for example to reset them).
    pub fn stats_mut(&mut self) -> (s: &mut Stats)
        ensures
            *s == old(self)@.stats,
            final(self)@ == (PipelineView { stats: *final(s), ..old(self)@ }),
    {
        &mut self.stats
    }
}

/// Bytes the framer only buffers change nothing but the framer.
proof fn lemma_ingest_buffering(p: PipelineView, bytes: Seq<u8>, ts: Seq<u64>, cap: nat, depth: nat)
    requires
        ts.len() == bytes.len(),
        feed_all(p.framer, bytes, cap).1.len() == bytes.len(),
        forall|i: int|
            0 <= i < bytes.len() ==> #[trigger] feed_all(p.framer, bytes, cap).1[i]
                == FrameOutputView::Incomplete,
    ensures
        ingest_spec(p, bytes, ts, cap, depth) == (PipelineView {
            framer: feed_all(p.framer, bytes, cap).0,
            ..p
        }),
    decreases bytes.len(),
{
    if bytes.len() > 0 {
        let outs = feed_all(p.framer, bytes.drop_last(), cap).1;
        assert forall|i: int| 0 <= i < bytes.len() - 1 implies #[trigger] outs[i]
            == FrameOutputView::Incomplete by {
            assert(feed_all(p.framer, bytes, cap).1[i] == outs[i]);
        }
        lemma_ingest_buffering(p, bytes.drop_last(), ts.drop_last(), cap, depth);
        let g = feed_all(p.framer, bytes.drop_last(), cap).0;
        let (h, o) = framer_step(g, bytes.last(), cap);
        assert(feed_all(p.framer, bytes, cap).1[bytes.len() - 1] == o);
        assert(o == FrameOutputView::Incomplete);
        let prev = PipelineView { framer: g, ..p };
        assert(ingest_spec(p, bytes.drop_last(), ts.drop_last(), cap, depth) == prev);
        assert(pipeline_step(prev, bytes.last(), ts.last(), cap, depth) == PipelineView { framer: h, ..p });
    } else {
        assert(feed_all(p.framer, bytes, cap).0 == p.framer);
    }
}

/// A frame encoded by [`crate::frame::Frame::encode_cobs`] and ingested by a
/// pipeline whose framer is idle is accepted and queued, when its type and
/// severity are known, its sequence number is the expected one, the filter
/// lets it through and the queue has room: the record carries its sequence
/// number, type, severity and payload, `ok` goes up by one, every other
/// counter stays, and the framer is idle again.
pub proof fn lemma_valid_frame_is_queued(
    p: PipelineView,
    wire: Seq<u8>,
    h: Header,
    payload: Seq<u8>,
    ts: Seq<u64>,
    cap: nat,
    depth: nat,
)
    requires
        p.framer.state is Collecting,
        p.framer.buf.len() == 0,
        is_wire_frame(wire, h, payload),
        h.payload_len == payload.len(),
        payload.len() <= MAX_PAYLOAD,
        wire.len() - 1 <= cap,
        packet_type_of(h.packet_type) is Some,
        severity_of(h.severity) is Some,
        p.last_seq matches Some(l) ==> h.sequence == next_sequence(l),
        p.filter.spec_allows(h),
        p.ring.items.len() < depth,
        ts.len() == wire.len(),
    ensures
        ({
            let q = ingest_spec(p, wire, ts, cap, depth);
            let f = FrameView { header: h, payload, crc_bytes: le16_bytes(fields_crc(h, payload)) };
            &&& q.framer == p.framer
            &&& q.last_seq == Some(h.sequence)
            &&& q.ring.items == p.ring.items.push(record_of(f, ts.last()))
            &&& q.stats.ok == sat_inc(p.stats.ok)
            &&& q.stats.dropped == p.stats.dropped
            &&& q.stats.crc_fail == p.stats.crc_fail
            &&& q.stats.seq_gap == p.stats.seq_gap
            &&& q.stats.filtered == p.stats.filtered
            &&& q.stats.write_fail == p.stats.write_fail
        }),
{
    let f = FrameView { header: h, payload, crc_bytes: le16_bytes(fields_crc(h, payload)) };
    lemma_encoded_frame_is_recovered(p.framer, cap, wire, h, payload);
    let (g, outs) = feed_all(p.framer, wire, cap);
    let prefix = wire.drop_last();
    assert(feed_all(p.framer, prefix, cap).1 =~= outs.drop_last());
    assert forall|i: int| 0 <= i < prefix.len() implies #[trigger] feed_all(p.framer, prefix, cap).1[i]
        == FrameOutputView::Incomplete by {
        assert(outs.drop_last()[i] == outs[i]);
    }
    lemma_ingest_buffering(p, prefix, ts.drop_last(), cap, depth);
    lemma_computed_crc_is_stored(h, payload);
    assert(p.framer.buf =~= seq![]);
}

/// A pipeline state with every record's timestamp replaced by zero.
pub open spec fn without_timestamps(p: PipelineView) -> PipelineView {
    PipelineView {
        ring: RingView {
            items: p.ring.items.map_values(|r: RecordView| RecordView { timestamp_us: 0, ..r }),
            ..p.ring
        },
        ..p
    }
}

/// One step from two states that differ only in timestamps, with any two
/// clock readings, ends in states that differ only in timestamps.
proof fn lemma_step_ignores_clock(p: PipelineView, q: PipelineView, byte: u8, t1: u64, t2: u64, cap: nat, depth: nat)
    requires
        without_timestamps(p) == without_timestamps(q),
    ensures
        without_timestamps(pipeline_step(p, byte, t1, cap, depth)) == without_timestamps(
            pipeline_step(q, byte, t2, cap, depth),
        ),
{
    let ep = without_timestamps(p);
    let eq = without_timestamps(q);
    assert(ep.ring.items.len() == p.ring.items.len());
    assert(eq.ring.items.len() == q.ring.items.len());
    assert(p.framer == q.framer && p.last_seq == q.last_seq && p.filter == q.filter && p.stats == q.stats);
    assert(p.ring.overflow_count == q.ring.overflow_count && p.ring.high_water == q.ring.high_water);
    let (fr, out) = framer_step(p.framer, byte, cap);
    if let FrameOutputView::Complete(f) = out {
        let (last, o) = check_spec(p.last_seq, f);
        if let OutcomeView::Accepted(g) = o {
            let z = |r: RecordView| RecordView { timestamp_us: 0, ..r };
            let rp = record_of(g, t1);
            let rq = record_of(g, t2);
            assert(p.ring.items.push(rp).map_values(z) =~= p.ring.items.map_values(z).push(z(rp)));
            assert(q.ring.items.push(rq).map_values(z) =~= q.ring.items.map_values(z).push(z(rq)));
        }
    }
}

/// The clock only stamps records: whatever it reads, ingesting the same
/// bytes gives the same framer, validator state, queue contents (timestamps
/// aside) and counters.
pub proof fn lemma_clock_only_stamps(
    p: PipelineView,
    bytes: Seq<u8>,
    ts1: Seq<u64>,
    ts2: Seq<u64>,
    cap: nat,
    depth: nat,
)
    requires
        ts1.len() == bytes.len(),
        ts2.len() == bytes.len(),
    ensures
        without_timestamps(ingest_spec(p, bytes, ts1, cap, depth)) == without_timestamps(
            ingest_spec(p, bytes, ts2, cap, depth),
        ),
    decreases bytes.len(),
{
    if bytes.len() > 0 {
        lemma_clock_only_stamps(p, bytes.drop_last(), ts1.drop_last(), ts2.drop_last(), cap, depth);
        lemma_step_ignores_clock(
            ingest_spec(p, bytes.drop_last(), ts1.drop_last(), cap, depth),
            ingest_spec(p, bytes.drop_last(), ts2.drop_last(), cap, depth),
            bytes.last(),
            ts1.last(),
            ts2.last(),
            cap,
            depth,
        );
    }
}

/// Ingesting `a` and then `b` is ingesting `a + b`: how the input is cut
/// into `ingest` calls does not matter.
pub proof fn lemma_ingest_chunking(
    p: PipelineView,
    a: Seq<u8>,
    b: Seq<u8>,
    ta: Seq<u64>,
    tb: Seq<u64>,
    cap: nat,
    depth: nat,
)
    requires
        ta.len() == a.len(),
        tb.len() == b.len(),
    ensures
        ingest_spec(ingest_spec(p, a, ta, cap, depth), b, tb, cap, depth) == ingest_spec(
            p,
            a + b,
            ta + tb,
            cap,
            depth,
        ),
    decreases b.len(),
{
    if b.len() == 0 {
        assert(a + b =~= a);
        assert(ta + tb =~= ta);
    } else {
        lemma_ingest_chunking(p, a, b.drop_last(), ta, tb.drop_last(), cap, depth);
        assert((a + b).drop_last() =~= a + b.drop_last());
        assert((ta + tb).drop_last() =~= ta + tb.drop_last());
        assert((a + b).last() == b.last());
        assert((ta + tb).last() == tb.last());
    }
}

/// The sum of the five per-frame counters.
pub open spec fn frame_counters(s: Stats) -> int {
    s.ok + s.dropped + s.crc_fail + s.seq_gap + s.filtered
}

/// Each framed unit moves exactly one counter, by one: a byte on which the
/// framer reports nothing moves none; a byte on which it reports an outcome
/// (a frame, an overflow, a COBS or parse error) moves exactly one of `ok`,
/// `dropped`, `crc_fail`, `seq_gap` and `filtered`, the others staying put;
/// `write_fail` never moves. Stated away from saturation.
pub proof fn lemma_one_counter_per_unit(p: PipelineView, byte: u8, ts: u64, cap: nat, depth: nat)
    requires
        p.stats.ok < u64::MAX,
        p.stats.dropped < u64::MAX,
        p.stats.crc_fail < u64::MAX,
        p.stats.seq_gap < u64::MAX,
        p.stats.filtered < u64::MAX,
    ensures
        ({
            let s = p.stats;
            let t = pipeline_step(p, byte, ts, cap, depth).stats;
            let out = framer_step(p.framer, byte, cap).1;
            &&& t.write_fail == s.write_fail
            &&& t.queue_high_water >= s.queue_high_water
            &&& t.ok >= s.ok && t.dropped >= s.dropped && t.crc_fail >= s.crc_fail
            &&& t.seq_gap >= s.seq_gap && t.filtered >= s.filtered
            &&& frame_counters(t) == frame_counters(s) + if out is Incomplete {
                0int
            } else {
                1int
            }
        }),
{
    let (fr, out) = framer_step(p.framer, byte, cap);
    if let FrameOutputView::Complete(f) = out {
        let (last, o) = check_spec(p.last_seq, f);
        if let OutcomeView::Accepted(g) = o {
            let p2 = PipelineView { framer: fr, last_seq: last, ..p };
            assert(pipeline_step(p, byte, ts, cap, depth) == enqueue_spec(p2, g, ts, depth));
        }
    }
}

/// How many of `outs` report an outcome (anything but `Incomplete`).
pub open spec fn outcome_count(outs: Seq<FrameOutputView>) -> int
    decreases outs.len(),
{
    if outs.len() == 0 {
        0
    } else {
        outcome_count(outs.drop_last()) + if outs.last() is Incomplete {
            0int
        } else {
            1int
        }
    }
}

/// Over a whole `ingest` call, each framed unit moves exactly one counter:
/// the five frame counters together grow by the number of outcomes the
/// framer reports for `bytes`, none of them decreases, `write_fail` stays
/// and the queue high-water mark never decreases. Stated away from
/// saturation: each counter has room for one increment per input byte.
pub proof fn lemma_ingest_counts_each_unit_once(
    p: PipelineView,
    bytes: Seq<u8>,
    ts: Seq<u64>,
    cap: nat,
    depth: nat,
)
    requires
        ts.len() == bytes.len(),
        p.stats.ok + bytes.len() < u64::MAX,
        p.stats.dropped + bytes.len() < u64::MAX,
        p.stats.crc_fail + bytes.len() < u64::MAX,
        p.stats.seq_gap + bytes.len() < u64::MAX,
        p.stats.filtered + bytes.len() < u64::MAX,
    ensures
        ({
            let s = p.stats;
            let q = ingest_spec(p, bytes, ts, cap, depth);
            let t = q.stats;
            &&& q.framer == feed_all(p.framer, bytes, cap).0
            &&& frame_counters(t) == frame_counters(s) + outcome_count(feed_all(p.framer, bytes, cap).1)
            &&& t.write_fail == s.write_fail
            &&& t.queue_high_water >= s.queue_high_water
            &&& s.ok <= t.ok <= s.ok + bytes.len()
            &&& s.dropped <= t.dropped <= s.dropped + bytes.len()
            &&& s.crc_fail <= t.crc_fail <= s.crc_fail + bytes.len()
            &&& s.seq_gap <= t.seq_gap <= s.seq_gap + bytes.len()
            &&& s.filtered <= t.filtered <= s.filtered + bytes.len()
        }),
    decreases bytes.len(),
{
    if bytes.len() > 0 {
        let pre = bytes.drop_last();
        lemma_ingest_counts_each_unit_once(p, pre, ts.drop_last(), cap, depth);
        let q = ingest_spec(p, pre, ts.drop_last(), cap, depth);
        lemma_one_counter_per_unit(q, bytes.last(), ts.last(), cap, depth);
        let outs = feed_all(p.framer, bytes, cap).1;
        assert(outs.drop_last() == feed_all(p.framer, pre, cap).1);
        assert(outs.last() == framer_step(q.framer, bytes.last(), cap).1);
    }
}

/// Where a frame that the validator rejects is counted. When a byte
/// completes frame `f`:
/// - a CRC-16 mismatch raises `crc_fail`;
/// - with a good CRC, an unknown type or severity byte raises `filtered`;
/// - with those good, a `payload_len` that disagrees with the payload raises
///   `crc_fail`;
/// - a well-formed frame out of sequence raises `seq_gap`.
///
/// In each case exactly that counter goes up by one, every other counter
/// and the queue stay, and nothing is stamped.
#[verifier::rlimit(40)]
pub proof fn lemma_rejection_counters(
    p: PipelineView,
    byte: u8,
    ts: u64,
    cap: nat,
    depth: nat,
    f: FrameView,
)
    requires
        framer_step(p.framer, byte, cap).1 == FrameOutputView::Complete(f),
        p.stats.crc_fail < u64::MAX,
        p.stats.filtered < u64::MAX,
        p.stats.seq_gap < u64::MAX,
    ensures
        ({
            let q = pipeline_step(p, byte, ts, cap, depth);
            let s = p.stats;
            let crc_ok = fields_crc(f.header, f.payload) == le16_value(f.crc_bytes[0], f.crc_bytes[1]);
            let known = 0x01 <= f.header.packet_type <= 0x05 && f.header.severity <= 0x04;
            let length_ok = f.header.payload_len == f.payload.len();
            &&& !crc_ok ==> q.stats == (Stats { crc_fail: (s.crc_fail + 1) as u64, ..s })
            &&& crc_ok && !known ==> q.stats == (Stats { filtered: (s.filtered + 1) as u64, ..s })
            &&& crc_ok && known && !length_ok ==> q.stats == (Stats {
                crc_fail: (s.crc_fail + 1) as u64,
                ..s
            })
            &&& (crc_ok && known && length_ok) ==> (p.last_seq matches Some(l) && f.header.sequence
                != ((l + 1) % 0x1_0000_0000) as u32 ==> q.stats == (Stats {
                seq_gap: (s.seq_gap + 1) as u64,
                ..s
            }))
            &&& !(crc_ok && known && length_ok) ==> q.ring == p.ring && q.last_seq == p.last_seq
        }),
{
    let (fr, out) = framer_step(p.framer, byte, cap);
    let (last, o) = check_spec(p.last_seq, f);
    let p2 = PipelineView { framer: fr, last_seq: last, ..p };
    let crc_ok = fields_crc(f.header, f.payload) == le16_value(f.crc_bytes[0], f.crc_bytes[1]);
    let known = 0x01 <= f.header.packet_type <= 0x05 && f.header.severity <= 0x04;
    let length_ok = f.header.payload_len == f.payload.len();
    if let OutcomeView::Rejected(r) = o {
        assert(pipeline_step(p, byte, ts, cap, depth) == PipelineView {
            stats: reject_spec(p2.stats, r),
            ..p2
        });
        if !crc_ok {
            assert(r is Crc);
        } else if !known {
            assert(packet_type_of(f.header.packet_type) is None || severity_of(f.header.severity) is None);
            assert(r is Filtered);
        } else if !length_ok {
            assert(r is BadLength);
        } else {
            crate::validator::lemma_sequence_continuity(p.last_seq, f);
        }
    } else {
        if crc_ok && known && length_ok {
            crate::validator::lemma_sequence_continuity(p.last_seq, f);
        }
    }
}

} // verus!
