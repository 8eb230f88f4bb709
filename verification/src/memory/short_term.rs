//! Short-term memory: a bounded buffer that drops its oldest entry when full.
use vstd::prelude::*;
use super::MemoryType;
use crate::clock::now_millis;

verus! {

/// One remembered item. Every short-term entry has the full relevance score 1.
#[derive(Debug)]
pub struct MemoryRecord {
    pub id: u64,
    pub content: String,
    pub kind: MemoryType,
    /// Creation time in milliseconds since the Unix epoch (UTC).
    pub timestamp: i64,
}

/// What an entry holds, without its time: id, content, kind.
pub type RecordView = (u64, Seq<char>, MemoryType);

/// The held part of an entry.
pub open spec fn record_view(r: MemoryRecord) -> RecordView {
    (r.id, r.content@, r.kind)
}

/// `items` with `x` appended, the oldest dropped first when `cap` or more are held.
pub open spec fn fifo_push(items: Seq<RecordView>, x: RecordView, cap: nat) -> Seq<RecordView> {
    if items.len() >= cap && items.len() > 0 { items.drop_first().push(x) } else { items.push(x) }
}

/// Ring buffer of recent memory entries, 200 by default.
#[derive(Debug)]
pub struct ShortTermMemory {
    buffer: Vec<MemoryRecord>,
    capacity: usize,
    next_id: u64,
}

impl ShortTermMemory {
    /// The entries, oldest first.
    pub closed spec fn items(&self) -> Seq<RecordView> {
        self.buffer@.map_values(|r: MemoryRecord| record_view(r))
    }

    /// The capacity.
    pub closed spec fn cap(&self) -> usize {
        self.capacity
    }

    /// The id of the next entry.
    pub closed spec fn next(&self) -> u64 {
        self.next_id
    }

    /// Entry ids increase from oldest to newest and stay below the next id.
    pub closed spec fn wf(&self) -> bool {
        &&& self.next_id >= 1
        &&& forall|i: int, j: int| 0 <= i < j < self.buffer@.len() ==> self.buffer@[i].id < self.buffer@[j].id
        &&& forall|i: int| 0 <= i < self.buffer@.len() ==> (#[trigger] self.buffer@[i]).id < self.next_id
    }

    /// An empty buffer of the given capacity.
    pub fn new(capacity: usize) -> (m: ShortTermMemory)
        ensures
            m.wf(),
            m.items().len() == 0,
            m.cap() == capacity,
            m.next() == 1,
    {
        let m = ShortTermMemory { buffer: Vec::new(), capacity, next_id: 1 };
        assert(m.items() =~= Seq::<RecordView>::empty());
        m
    }

    /// Adds an entry with the next id, dropping the oldest when the buffer is full.
    pub fn add(&mut self, content: String, kind: MemoryType)
        requires
            old(self).wf(),
            old(self).next() < u64::MAX,
        ensures
            final(self).wf(),
            final(self).items() == fifo_push(old(self).items(), (old(self).next(), content@, kind), old(self).cap() as nat),
            final(self).next() == old(self).next() + 1,
            final(self).cap() == old(self).cap(),
    {
        let ghost before = self.items();
        if self.buffer.len() >= self.capacity && self.buffer.len() > 0 {
            self.buffer.remove(0);
            assert(self.items() =~= before.drop_first());
        }
        let ghost mid = self.items();
        let entry = MemoryRecord { id: self.next_id, content, kind, timestamp: now_millis() };
        let ghost ev = record_view(entry);
        self.next_id = self.next_id + 1;
        self.buffer.push(entry);
        assert(self.items() =~= mid.push(ev));
    }

    /// The last `n` entries (all of them when there are fewer).
    pub fn recent(&self, n: usize) -> (s: &[MemoryRecord])
        ensures
            s@.map_values(|r: MemoryRecord| record_view(r)) == (if n >= self.items().len() {
                self.items()
            } else {
                self.items().subrange(self.items().len() - n, self.items().len() as int)
            }),
    {
        if n >= self.buffer.len() {
            let s = self.buffer.as_slice();
            assert(s@.map_values(|r: MemoryRecord| record_view(r)) =~= self.items());
            s
        } else {
            let s = vstd::slice::slice_subrange(self.buffer.as_slice(), self.buffer.len() - n, self.buffer.len());
            assert(s@.map_values(|r: MemoryRecord| record_view(r)) =~= self.items().subrange(
                self.items().len() - n,
                self.items().len() as int,
            ));
            s
        }
    }

    /// All entries, oldest first.
    pub fn entries(&self) -> (s: &[MemoryRecord])
        ensures
            s@.map_values(|r: MemoryRecord| record_view(r)) == self.items(),
    {
        let s = self.buffer.as_slice();
        assert(s@.map_values(|r: MemoryRecord| record_view(r)) =~= self.items());
        s
    }

    /// The number of entries.
    pub fn len(&self) -> (n: usize)
        ensures
            n == self.items().len(),
    {
        self.buffer.len()
    }

    /// Whether there is no entry.
    pub fn is_empty(&self) -> (b: bool)
        ensures
            b == (self.items().len() == 0),
    {
        self.buffer.len() == 0
    }

    /// Removes every entry; ids keep counting.
    pub fn clear(&mut self)
        requires
            old(self).wf(),
        ensures
            final(self).wf(),
            final(self).items().len() == 0,
            final(self).next() == old(self).next(),
            final(self).cap() == old(self).cap(),
    {
        self.buffer.clear();
        assert(self.items() =~= Seq::<RecordView>::empty());
    }
}

impl Default for ShortTermMemory {
    fn default() -> (m: ShortTermMemory)
        ensures
            m.wf(),
            m.items().len() == 0,
            m.cap() == 200,
            m.next() == 1,
    {
        ShortTermMemory::new(200)
    }
}

/// With a capacity of at least one, the buffer never holds more entries than its
/// capacity, whatever is added.
pub proof fn lemma_fifo_bounded(items: Seq<RecordView>, x: RecordView, cap: nat)
    requires
        cap >= 1,
        items.len() <= cap,
    ensures
        fifo_push(items, x, cap).len() <= cap,
        fifo_push(items, x, cap).last() == x,
{
}

} // verus!
