//! The ring-buffer cache of decompressed sprite frames.
//!
//! Entries are carved from one buffer in allocation order, each a 16-byte
//! header followed by its payload. When the next entry does not fit, the
//! oldest entry is evicted: its owner is told (so it decompresses again
//! when next drawn) and the allocation is retried.
//!
//! The allocation is split in steps: [`frame_cache_allocate`] either places
//! the entry or names the entry to evict; the caller notifies that entry's
//! owner, calls [`frame_cache_evict_head`], and asks again.
use vstd::prelude::*;

verus! {

/// Size of an entry header in front of the payload.
pub const FRAME_CACHE_HEADER: u32 = 0x10;

/// A live cache entry: where it sits in the buffer, the payload size
/// recorded in its header (`entry_size + 8`), and whom to notify when it
/// is evicted.
#[derive(Clone, Copy, PartialEq, Eq, Structural, Debug)]
pub struct CacheEntry {
    pub offset: u32,
    pub payload_size: u32,
    pub frame_idx: u32,
    pub owner: u32,
}

/// The cache: buffer size, where the next entry goes, where the oldest
/// entry sits, and the live entries, oldest first.
#[derive(Clone, Debug)]
pub struct FrameCache {
    pub capacity: u32,
    pub write_head: u32,
    pub wrap_marker: u32,
    pub entries: Vec<CacheEntry>,
}

/// Bytes a request for `entry_size` payload bytes takes in the buffer:
/// header and payload, rounded up to a multiple of four.
pub open spec fn alloc_span(entry_size: int) -> int {
    (entry_size + 0x13) / 4 * 4
}

/// Bytes an entry takes in the buffer.
pub open spec fn entry_span(e: CacheEntry) -> int {
    (e.payload_size + 0xb) / 4 * 4
}

/// First byte past an entry.
pub open spec fn entry_end(e: CacheEntry) -> int {
    e.offset + entry_span(e)
}

/// Whether entry `j` starts the buffer over at offset 0.
pub open spec fn is_wrap_point(es: Seq<CacheEntry>, j: int) -> bool {
    1 <= j < es.len() && es[j].offset == 0
}

/// Whether the live entries wrap around the end of the buffer.
pub open spec fn wrapped(es: Seq<CacheEntry>) -> bool {
    exists|j: int| is_wrap_point(es, j)
}

/// Whether entry `i + 1` follows entry `i` directly or restarts at 0.
pub open spec fn next_ok(es: Seq<CacheEntry>, i: int) -> bool {
    es[i + 1].offset == entry_end(es[i]) || es[i + 1].offset == 0
}

/// Whether two entries share no byte.
pub open spec fn disjoint(a: CacheEntry, b: CacheEntry) -> bool {
    entry_end(a) <= b.offset || entry_end(b) <= a.offset
}

impl FrameCache {
    /// The bounds every operation relies on.
    pub open spec fn wf(&self) -> bool {
        let es = self.entries@;
        &&& self.capacity < 0x8000_0000
        &&& self.write_head <= self.capacity
        &&& self.wrap_marker <= self.capacity
        &&& es.len() == 0 ==> self.write_head == 0 && self.wrap_marker == 0
        &&& es.len() > 0 ==> self.wrap_marker == es[0].offset
        &&& forall|i: int|
            0 <= i < es.len() ==> 0 < entry_span(#[trigger] es[i]) && entry_end(es[i]) <= self.capacity
                && es[i].payload_size <= self.capacity
    }

    /// The ring discipline: entries follow each other without gaps except
    /// for at most one restart at offset 0, the next entry goes right after
    /// the newest one, and once wrapped the newest entries end before the
    /// oldest begins.
    pub open spec fn ring_ok(&self) -> bool {
        let es = self.entries@;
        &&& es.len() > 0 ==> self.write_head == entry_end(es[es.len() - 1])
        &&& forall|i: int| 0 <= i < es.len() - 1 ==> #[trigger] next_ok(es, i)
        &&& forall|j1: int, j2: int|
            is_wrap_point(es, j1) && is_wrap_point(es, j2) ==> j1 == j2
        &&& wrapped(es) ==> self.write_head <= self.wrap_marker
    }

    /// A wrapped cache whose newest entry ends exactly where the oldest
    /// begins: no room is left, yet the next allocation is placed at the
    /// write head.
    pub open spec fn full_ring(&self) -> bool {
        self.entries.len() > 0 && wrapped(self.entries@) && self.write_head == self.wrap_marker
    }

    /// An empty cache over a buffer of `capacity` bytes.
    pub fn new(capacity: u32) -> (r: FrameCache)
        requires
            capacity < 0x8000_0000,
        ensures
            r.wf(),
            r.ring_ok(),
            r.capacity == capacity,
            r.write_head == 0,
            r.wrap_marker == 0,
            r.entries@ == Seq::<CacheEntry>::empty(),
    {
        FrameCache { capacity, write_head: 0, wrap_marker: 0, entries: Vec::new() }
    }
}

/// Where an entry of `pad` bytes goes, if anywhere: at the write head if it
/// fits before the oldest entry (once wrapped) or before the end of the
/// buffer; else at offset 0 if it fits before the oldest entry.
pub open spec fn placement(fc: FrameCache, pad: int) -> Option<int> {
    let write = fc.write_head as int;
    let wrap = fc.wrap_marker as int;
    if write < wrap {
        if write + pad <= wrap {
            Some(write)
        } else {
            None
        }
    } else if write + pad <= fc.capacity {
        Some(write)
    } else if pad <= wrap {
        Some(0)
    } else {
        None
    }
}

/// The outcome of one allocation step.
#[derive(Clone, Copy, PartialEq, Eq, Structural, Debug)]
pub enum CacheAlloc {
    /// The entry was placed; its payload starts at this buffer offset.
    Placed { payload_offset: u32 },
    /// No room: this oldest entry must go first. Notify its owner, evict
    /// it, and allocate again.
    Evict { owner: u32, frame_idx: u32, payload_offset: u32 },
}

/// One allocation step for `entry_size` payload bytes.
pub fn frame_cache_allocate(fc: &mut FrameCache, entry_size: u32, owner: u32, frame_idx: u32) -> (r:
    CacheAlloc)
    requires
        old(fc).wf(),
        alloc_span(entry_size as int) <= old(fc).capacity,
    ensures
        final(fc).wf(),
        match placement(*old(fc), alloc_span(entry_size as int)) {
            Some(off) => {
                &&& r == CacheAlloc::Placed { payload_offset: (off + FRAME_CACHE_HEADER) as u32 }
                &&& final(fc).entries@ == old(fc).entries@.push(
                    CacheEntry { offset: off as u32, payload_size: (entry_size + 8) as u32, frame_idx, owner },
                )
                &&& final(fc).write_head == off + alloc_span(entry_size as int)
                &&& final(fc).wrap_marker == old(fc).wrap_marker
                &&& final(fc).capacity == old(fc).capacity
            },
            None => {
                &&& old(fc).entries.len() > 0
                &&& r == CacheAlloc::Evict {
                    owner: old(fc).entries[0].owner,
                    frame_idx: old(fc).entries[0].frame_idx,
                    payload_offset: (old(fc).entries[0].offset + FRAME_CACHE_HEADER) as u32,
                }
                &&& *final(fc) == *old(fc)
            },
        },
        old(fc).ring_ok() && !old(fc).full_ring() ==> final(fc).ring_ok(),
{
    let pad: u32 = (entry_size + 0x13) / 4 * 4;
    let write = fc.write_head;
    let wrap = fc.wrap_marker;
    let placed: Option<u32> = if write < wrap {
        if write + pad <= wrap {
            Some(write)
        } else {
            None
        }
    } else if write + pad <= fc.capacity {
        Some(write)
    } else if pad <= wrap {
        Some(0)
    } else {
        None
    };
    match placed {
        Some(offset) => {
            let ghost old_fc = *fc;
            let e = CacheEntry { offset, payload_size: entry_size + 8, frame_idx, owner };
            assert(entry_span(e) == pad);
            fc.entries.push(e);
            fc.write_head = offset + pad;
            proof {
                lemma_allocate_keeps_ring(old_fc, *fc, e);
            }
            CacheAlloc::Placed { payload_offset: offset + FRAME_CACHE_HEADER }
        },
        None => {
            let head = fc.entries[0];
            CacheAlloc::Evict {
                owner: head.owner,
                frame_idx: head.frame_idx,
                payload_offset: head.offset + FRAME_CACHE_HEADER,
            }
        },
    }
}

/// Drop the oldest entry (after its owner was notified). The oldest
/// remaining entry marks the new start of the live region; an emptied
/// cache starts over at offset 0.
pub fn frame_cache_evict_head(fc: &mut FrameCache)
    requires
        old(fc).wf(),
        old(fc).entries.len() > 0,
    ensures
        final(fc).wf(),
        final(fc).capacity == old(fc).capacity,
        final(fc).entries@ == old(fc).entries@.drop_first(),
        final(fc).entries.len() == 0 ==> final(fc).write_head == 0 && final(fc).wrap_marker == 0,
        final(fc).entries.len() > 0 ==> final(fc).write_head == old(fc).write_head
            && final(fc).wrap_marker == final(fc).entries[0].offset,
        old(fc).ring_ok() ==> final(fc).ring_ok() && !final(fc).full_ring(),
{
    let ghost old_fc = *fc;
    fc.entries.remove(0);
    assert(fc.entries@ =~= old_fc.entries@.drop_first());
    if fc.entries.len() == 0 {
        fc.write_head = 0;
        fc.wrap_marker = 0;
    } else {
        fc.wrap_marker = fc.entries[0].offset;
    }
    proof {
        let es = old_fc.entries@;
        let ns = fc.entries@;
        assert forall|i: int| 0 <= i < ns.len() implies 0 < entry_span(#[trigger] ns[i])
            && entry_end(ns[i]) <= fc.capacity && ns[i].payload_size <= fc.capacity by {
            assert(ns[i] == es[i + 1]);
        }
        if old_fc.ring_ok() && ns.len() > 0 {
            assert forall|i: int| 0 <= i < ns.len() - 1 implies #[trigger] next_ok(ns, i) by {
                assert(ns[i] == es[i + 1] && ns[i + 1] == es[i + 2]);
                assert(next_ok(es, i + 1));
            }
            assert forall|j1: int, j2: int|
                is_wrap_point(ns, j1) && is_wrap_point(ns, j2) implies j1 == j2 by {
                assert(is_wrap_point(es, j1 + 1) && is_wrap_point(es, j2 + 1));
            }
            if wrapped(ns) {
                let j = choose|j: int| is_wrap_point(ns, j);
                assert(is_wrap_point(es, j + 1));
                assert(!is_wrap_point(es, 1));
                assert(next_ok(es, 0));
                assert(es[1].offset == entry_end(es[0]));
            }
        }
    }
}

proof fn lemma_allocate_keeps_ring(o: FrameCache, n: FrameCache, e: CacheEntry)
    requires
        o.wf(),
        n.capacity == o.capacity,
        n.wrap_marker == o.wrap_marker,
        n.entries@ == o.entries@.push(e),
        n.write_head == entry_end(e),
        0 < entry_span(e),
        entry_end(e) <= o.capacity,
        e.payload_size <= o.capacity,
        Some(e.offset as int) == placement(o, entry_span(e)),
    ensures
        n.wf(),
        o.ring_ok() && !o.full_ring() ==> n.ring_ok(),
{
    let es = o.entries@;
    let ns = n.entries@;
    assert forall|i: int| 0 <= i < ns.len() implies 0 < entry_span(#[trigger] ns[i]) && entry_end(ns[i])
        <= n.capacity && ns[i].payload_size <= n.capacity by {
        if i < es.len() {
            assert(ns[i] == es[i]);
        }
    }
    if es.len() == 0 {
        assert(e.offset == 0);
        assert(ns[0] == e);
    } else {
        assert(ns[0] == es[0]);
    }
    if o.ring_ok() && !o.full_ring() {
        if es.len() > 0 && !wrapped(es) {
            assert forall|w: int| 0 < w <= es.len() - 1 implies !is_wrap_point(es, w) by {
                if is_wrap_point(es, w) {
                    assert(wrapped(es));
                }
            }
            lemma_ring_prefix_monotone(o, 0, es.len() - 1);
        }
        assert forall|i: int| 0 <= i < ns.len() - 1 implies #[trigger] next_ok(ns, i) by {
            if i < es.len() - 1 {
                assert(ns[i] == es[i] && ns[i + 1] == es[i + 1]);
                assert(next_ok(es, i));
            } else {
                assert(ns[i] == es[es.len() - 1]);
                assert(ns[i + 1] == e);
            }
        }
        assert forall|j1: int, j2: int|
            is_wrap_point(ns, j1) && is_wrap_point(ns, j2) implies j1 == j2 by {
            if j1 < es.len() {
                assert(is_wrap_point(es, j1));
            }
            if j2 < es.len() {
                assert(is_wrap_point(es, j2));
            }
            if j1 == es.len() || j2 == es.len() {
                assert(e.offset == 0);
                assert(!wrapped(es));
            }
        }
        if wrapped(ns) {
            let j = choose|j: int| is_wrap_point(ns, j);
            if j < es.len() {
                assert(is_wrap_point(es, j));
            }
        }
    }
}

/// Within the ring discipline, entries between two indices with no restart
/// in between lie in increasing order: entry `j` starts at or after the end
/// of entry `i`, and the first entry of the run starts where the oldest
/// one does.
proof fn lemma_ring_prefix_monotone(fc: FrameCache, i: int, j: int)
    requires
        fc.wf(),
        fc.ring_ok(),
        0 <= i <= j < fc.entries.len(),
        forall|w: int| i < w <= j ==> !is_wrap_point(fc.entries@, w),
    ensures
        i < j ==> fc.entries[j].offset >= entry_end(fc.entries[i]),
        fc.entries[j].offset >= fc.entries[i].offset,
    decreases j - i,
{
    let es = fc.entries@;
    if i < j {
        lemma_ring_prefix_monotone(fc, i, j - 1);
        assert(!is_wrap_point(es, j));
        assert(next_ok(es, j - 1));
        assert(0 < entry_span(es[j - 1]));
    }
}

/// Live entries never share a byte, as long as the ring discipline holds.
pub proof fn lemma_entries_disjoint(fc: FrameCache, i: int, j: int)
    requires
        fc.wf(),
        fc.ring_ok(),
        0 <= i < j < fc.entries.len(),
    ensures
        disjoint(fc.entries[i], fc.entries[j]),
{
    let es = fc.entries@;
    if forall|w: int| i < w <= j ==> !is_wrap_point(es, w) {
        lemma_ring_prefix_monotone(fc, i, j);
    } else {
        let w = choose|w: int| i < w <= j && is_wrap_point(es, w);
        assert(wrapped(es));
        assert forall|v: int| 0 < v <= i implies !is_wrap_point(es, v) by {
            if is_wrap_point(es, v) {
                assert(v == w);
            }
        }
        lemma_ring_prefix_monotone(fc, 0, i);
        let last = es.len() - 1;
        assert forall|v: int| j < v <= last implies !is_wrap_point(es, v) by {
            if is_wrap_point(es, v) {
                assert(v == w);
            }
        }
        lemma_ring_prefix_monotone(fc, j, last);
    }
}

/// Allocation never fails for want of an entry to evict: on a well-formed
/// cache whose buffer holds the request, an allocation is placed unless
/// some entry is live, and a placed entry lies inside the buffer.
pub proof fn lemma_allocation_progress(fc: FrameCache, entry_size: int)
    requires
        fc.wf(),
        0 <= entry_size,
        alloc_span(entry_size) <= fc.capacity,
    ensures
        placement(fc, alloc_span(entry_size)) is None ==> fc.entries.len() > 0,
        placement(fc, alloc_span(entry_size)) matches Some(off) ==> 0 <= off && off + alloc_span(
            entry_size,
        ) <= fc.capacity,
{
}

/// A whole allocation: evict oldest entries until the request fits, then
/// place it.
///
/// Returns the payload offset of the new entry and the evicted entries,
/// oldest first; each evicted entry's owner is to be told that its frame
/// is gone. The new entry is the newest live entry.
pub fn frame_cache_allocate_evicting(fc: &mut FrameCache, entry_size: u32, owner: u32, frame_idx: u32) -> (r:
    (u32, Vec<CacheEntry>))
    requires
        old(fc).wf(),
        alloc_span(entry_size as int) <= old(fc).capacity,
    ensures
        final(fc).wf(),
        final(fc).capacity == old(fc).capacity,
        r.1.len() <= old(fc).entries.len(),
        r.1@ == old(fc).entries@.take(r.1.len() as int),
        final(fc).entries.len() == old(fc).entries.len() - r.1.len() + 1,
        final(fc).entries@.drop_last() == old(fc).entries@.skip(r.1.len() as int),
        final(fc).entries@.last() == (CacheEntry {
            offset: (r.0 - FRAME_CACHE_HEADER) as u32,
            payload_size: (entry_size + 8) as u32,
            frame_idx,
            owner,
        }),
        r.0 >= FRAME_CACHE_HEADER,
        r.0 - FRAME_CACHE_HEADER + alloc_span(entry_size as int) <= old(fc).capacity,
        old(fc).ring_ok() && !old(fc).full_ring() ==> final(fc).ring_ok(),
{
    let mut evicted: Vec<CacheEntry> = Vec::new();
    let ghost start = *fc;
    loop
        invariant
            start == *old(fc),
            fc.wf(),
            fc.capacity == start.capacity,
            alloc_span(entry_size as int) <= fc.capacity,
            evicted@ + fc.entries@ == start.entries@,
            start.ring_ok() && !start.full_ring() ==> fc.ring_ok() && !fc.full_ring(),
        decreases fc.entries.len(),
    {
        let ghost before = *fc;
        proof {
            lemma_allocation_progress(*fc, entry_size as int);
        }
        match frame_cache_allocate(fc, entry_size, owner, frame_idx) {
            CacheAlloc::Placed { payload_offset } => {
                proof {
                    assert(evicted@ =~= start.entries@.take(evicted.len() as int));
                    assert(fc.entries@.drop_last() =~= before.entries@);
                    assert(before.entries@ =~= start.entries@.skip(evicted.len() as int));
                }
                return (payload_offset, evicted);
            },
            CacheAlloc::Evict { .. } => {
                let head = fc.entries[0];
                frame_cache_evict_head(fc);
                let ghost ev0 = evicted@;
                evicted.push(head);
                proof {
                    assert(evicted@ + fc.entries@ =~= ev0 + before.entries@);
                }
            },
        }
    }
}

} // verus!
