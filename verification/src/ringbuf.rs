//! Fixed-capacity FIFO queue of [`StoredRecord`]s.
//!
//! Counts the records refused because the queue was full and tracks the
//! peak occupancy (high-water mark).
use vstd::prelude::*;
use std::collections::VecDeque;
use crate::record::{RecordView, StoredRecord};
use crate::stats::sat_inc;

verus! {

/// FIFO queue holding at most `N` records.
///
/// When full, [`RingBuf::push`] counts an overflow and refuses the record;
/// nothing already queued is dropped.
#[derive(Debug)]
pub struct RingBuf<const N: usize> {
    queue: VecDeque<StoredRecord>,
    overflow_count: u64,
    high_water: u32,
}

/// The mathematical content of a [`RingBuf`].
pub struct RingView {
    /// Queued records, oldest first.
    pub items: Seq<RecordView>,
    /// Records refused because the queue was full (saturating).
    pub overflow_count: u64,
    /// Peak queue length since creation.
    pub high_water: u32,
}

/// Pushing `r` into a queue of capacity `cap`: the new state and whether
/// `r` was stored.
pub open spec fn ring_push(q: RingView, r: RecordView, cap: nat) -> (RingView, bool) {
    if q.items.len() >= cap {
        (RingView { overflow_count: sat_inc(q.overflow_count), ..q }, false)
    } else {
        let items = q.items.push(r);
        let len = items.len() as u32;
        (
            RingView {
                items,
                overflow_count: q.overflow_count,
                high_water: if len > q.high_water {
                    len
                } else {
                    q.high_water
                },
            },
            true,
        )
    }
}

impl<const N: usize> View for RingBuf<N> {
    type V = RingView;

    closed spec fn view(&self) -> RingView {
        RingView {
            items: self.queue@.map_values(|r: StoredRecord| r@),
            overflow_count: self.overflow_count,
            high_water: self.high_water,
        }
    }
}

impl<const N: usize> RingBuf<N> {
    /// The queue holds no more than `N` records.
    pub open spec fn wf(&self) -> bool {
        self@.items.len() <= N
    }

    /// An empty queue with zeroed counters.
    pub fn new() -> (q: Self)
        ensures
            q.wf(),
            q@ == (RingView { items: seq![], overflow_count: 0, high_water: 0 }),
    {
        let q = RingBuf { queue: VecDeque::new(), overflow_count: 0, high_water: 0 };
        assert(q@.items =~= seq![]);
        q
    }

    /// Appends `record` at the back.
    ///
    /// When the queue is full, the overflow counter goes up by one
    /// (saturating), the record is dropped and `Err(())` is returned; otherwise
    /// the high-water mark is raised to the new length if that is higher.
    #[allow(clippy::result_unit_err)]
    pub fn push(&mut self, record: StoredRecord) -> (r: Result<(), ()>)
        requires
            old(self).wf(),
        ensures
            final(self).wf(),
            (final(self)@, r is Ok) == ring_push(old(self)@, record@, N as nat),
    {
        if self.queue.len() >= N {
            self.overflow_count = self.overflow_count.saturating_add(1);
            return Err(());
        }
        let ghost rv = record@;
        self.queue.push_back(record);
        let len = self.queue.len() as u32;
        if len > self.high_water {
            self.high_water = len;
        }
        assert(self@.items =~= old(self)@.items.push(rv));
        Ok(())
    }

    /// Removes and returns the oldest record, or `None` when empty.
    pub fn pop(&mut self) -> (r: Option<StoredRecord>)
        requires
            old(self).wf(),
        ensures
            final(self).wf(),
            final(self)@.overflow_count == old(self)@.overflow_count,
            final(self)@.high_water == old(self)@.high_water,
            old(self)@.items.len() == 0 ==> r is None && final(self)@.items == old(self)@.items,
            old(self)@.items.len() > 0 ==> (r matches Some(x) && x@ == old(self)@.items[0]
                && final(self)@.items == old(self)@.items.drop_first()),
    {
        let r = self.queue.pop_front();
        assert(self@.items =~= if old(self)@.items.len() == 0 {
            old(self)@.items
        } else {
            old(self)@.items.drop_first()
        });
        r
    }

    /// Number of queued records.
    pub fn len(&self) -> (n: usize)
        ensures
            n == self@.items.len(),
    {
        self.queue.len()
    }

    /// Whether the queue holds no records.
    pub fn is_empty(&self) -> (b: bool)
        ensures
            b == (self@.items.len() == 0),
    {
        self.queue.len() == 0
    }

    /// Records refused because the queue was full.
    pub fn overflow_count(&self) -> (n: u64)
        ensures
            n == self@.overflow_count,
    {
        self.overflow_count
    }

    /// Peak queue length since creation.
    pub fn high_water(&self) -> (n: u32)
        ensures
            n == self@.high_water,
    {
        self.high_water
    }
}

impl<const N: usize> Default for RingBuf<N> {
    fn default() -> (q: Self)
        ensures
            q.wf(),
            q@ == (RingView { items: seq![], overflow_count: 0, high_water: 0 }),
    {
        Self::new()
    }
}

/// Records come out in the order they went in: pushing into a queue with
/// room, then popping from a non-empty queue, takes the oldest record off
/// the front and leaves the pushed one at the back.
pub proof fn lemma_fifo(q: RingView, r: RecordView, cap: nat)
    requires
        q.items.len() < cap,
    ensures
        ({
            let p = ring_push(q, r, cap).0;
            &&& ring_push(q, r, cap).1
            &&& p.items.last() == r
            &&& p.items.drop_last() == q.items
            &&& q.items.len() > 0 ==> p.items[0] == q.items[0] && p.items.drop_first()
                == q.items.drop_first().push(r)
        }),
{
    let p = ring_push(q, r, cap).0;
    assert(p.items.drop_last() =~= q.items);
    if q.items.len() > 0 {
        assert(p.items.drop_first() =~= q.items.drop_first().push(r));
    }
}

/// The high-water mark and the overflow count never go down, and a full
/// queue refuses the record and keeps its contents.
pub proof fn lemma_push_monotone(q: RingView, r: RecordView, cap: nat)
    ensures
        ring_push(q, r, cap).0.high_water >= q.high_water,
        ring_push(q, r, cap).0.overflow_count >= q.overflow_count,
        q.items.len() >= cap ==> !ring_push(q, r, cap).1 && ring_push(q, r, cap).0.items == q.items,
{
}

} // verus!
