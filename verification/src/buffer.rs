//! The event buffer: an in-memory FIFO of bounded capacity with overflow to a
//! disk spool. This module holds the buffer's decisions; writing and reading
//! the spool file is the caller's part, which the outcomes here direct.
use vstd::prelude::*;

use crate::event::Event;

verus! {

/// What became of a pushed event.
pub enum PushOutcome {
    /// The event was queued in memory.
    Stored,
    /// Memory is full, or events already wait in the spool, and the disk
    /// spool is on: the caller appends the event to the spool.
    Spool(Event),
    /// Memory is full and the disk spool is off: the oldest event (if there
    /// was one) was dropped to make room for the new one.
    DroppedOldest(Option<Event>),
}

/// The event buffer: the oldest events in memory, the newer ones in the
/// disk spool (whose lines the caller writes and reads, as directed here).
/// Taken together, memory followed by the spool is one queue in push order.
pub struct EventBuffer {
    memory: std::collections::VecDeque<Event>,
    capacity: usize,
    disk_spool_enabled: bool,
    spooled: usize,
}

/// The most events memory holds for a capacity: the capacity itself, or one
/// event when the capacity is zero and the spool is off (the newest event
/// always replaces the oldest).
pub open spec fn memory_bound(capacity: usize) -> int {
    if capacity == 0 {
        1
    } else {
        capacity as int
    }
}

/// A pushed event goes to memory only while nothing waits in the spool and
/// memory has room; otherwise it queues behind the spooled events.
pub open spec fn push_goes_to_memory(queue_len: int, spooled: int, capacity: int) -> bool {
    spooled == 0 && queue_len < capacity
}

/// A count grown by one, unless it is already at its limit.
pub open spec fn count_plus(n: usize, k: int) -> usize {
    if n + k <= usize::MAX {
        (n + k) as usize
    } else {
        usize::MAX
    }
}

/// The queue and spool list after returning one event to the front: it goes
/// back to memory while there is room, else to the spool list (or is lost
/// when the spool is off).
pub open spec fn return_one(
    state: (Seq<Event>, Seq<Event>),
    e: Event,
    capacity: usize,
    spool: bool,
) -> (Seq<Event>, Seq<Event>) {
    if state.0.len() < capacity {
        (seq![e] + state.0, state.1)
    } else if spool {
        (state.0, state.1.push(e))
    } else {
        state
    }
}

/// Returning `events` to the front of the queue, last event first: each goes
/// back to memory while there is room, otherwise to the spool list (or is
/// lost when the spool is off).
pub open spec fn return_all(
    state: (Seq<Event>, Seq<Event>),
    events: Seq<Event>,
    capacity: usize,
    spool: bool,
) -> (Seq<Event>, Seq<Event>)
    decreases events.len(),
{
    if events.len() == 0 {
        state
    } else {
        return_all(return_one(state, events.last(), capacity, spool), events.drop_last(), capacity, spool)
    }
}

/// The smaller of two integers.
pub open spec fn min_int(a: int, b: int) -> int {
    if a < b {
        a
    } else {
        b
    }
}

/// Memory, and the events to put at the front of the spool, after `events`
/// (the oldest of all, e.g. a batch whose shipment failed) are returned
/// ahead of the queue `queue`. With the spool on, the returned events and
/// the queue keep their order: memory takes the first `capacity` of them
/// and the rest go to the front of the spool. With the spool off, events
/// go back last first while memory has room; the others are lost.
pub open spec fn return_state(queue: Seq<Event>, events: Seq<Event>, capacity: usize, spool: bool) -> (
    Seq<Event>,
    Seq<Event>,
) {
    if spool {
        let all = events + queue;
        let n = min_int(capacity as int, all.len() as int);
        (all.take(n), all.skip(n))
    } else {
        (return_all((queue, Seq::empty()), events, capacity, false).0, Seq::empty())
    }
}

/// How many events a batch of `batch_len` events takes from a queue of
/// `queue_len` to reach `batch_size`.
pub open spec fn take_count(batch_len: int, batch_size: int, queue_len: int) -> int {
    if batch_len >= batch_size {
        0
    } else if batch_size - batch_len < queue_len {
        batch_size - batch_len
    } else {
        queue_len
    }
}

impl EventBuffer {
    /// The events in memory, oldest first.
    pub closed spec fn queue(&self) -> Seq<Event> {
        self.memory@
    }

    /// The memory capacity.
    pub closed spec fn capacity(&self) -> usize {
        self.capacity
    }

    /// Overflow goes to the disk spool.
    pub closed spec fn spools(&self) -> bool {
        self.disk_spool_enabled
    }

    /// The number of events waiting in the disk spool.
    pub closed spec fn spooled(&self) -> usize {
        self.spooled
    }

    /// Memory never holds more than its bound, and nothing is spooled while
    /// the spool is off.
    pub open spec fn well_formed(&self) -> bool {
        &&& self.queue().len() <= memory_bound(self.capacity())
        &&& !self.spools() ==> self.spooled() == 0
    }

    /// An empty memory; `spooled` events already wait in the spool file (left
    /// by an earlier run), which counts only while the spool is on.
    pub fn new(capacity: usize, disk_spool_enabled: bool, spooled: usize) -> (b: EventBuffer)
        ensures
            b.queue() == Seq::<Event>::empty(),
            b.capacity() == capacity,
            b.spools() == disk_spool_enabled,
            b.spooled() == if disk_spool_enabled {
                spooled
            } else {
                0
            },
            b.well_formed(),
    {
        EventBuffer {
            memory: std::collections::VecDeque::new(),
            capacity,
            disk_spool_enabled,
            spooled: if disk_spool_enabled {
                spooled
            } else {
                0
            },
        }
    }

    /// Push an event. It joins memory while nothing is spooled and memory has
    /// room; otherwise it goes to the spool behind the events there, or, with
    /// the spool off, replaces the oldest event.
    pub fn push(&mut self, event: Event) -> (outcome: PushOutcome)
        requires
            old(self).well_formed(),
        ensures
            final(self).well_formed(),
            final(self).capacity() == old(self).capacity(),
            final(self).spools() == old(self).spools(),
            push_goes_to_memory(
                old(self).queue().len() as int,
                old(self).spooled() as int,
                old(self).capacity() as int,
            ) ==> {
                &&& outcome is Stored
                &&& final(self).queue() == old(self).queue().push(event)
                &&& final(self).spooled() == old(self).spooled()
            },
            !push_goes_to_memory(
                old(self).queue().len() as int,
                old(self).spooled() as int,
                old(self).capacity() as int,
            ) && old(self).spools() ==> {
                &&& outcome == PushOutcome::Spool(event)
                &&& final(self).queue() == old(self).queue()
                &&& final(self).spooled() == count_plus(old(self).spooled(), 1)
            },
            !push_goes_to_memory(
                old(self).queue().len() as int,
                old(self).spooled() as int,
                old(self).capacity() as int,
            ) && !old(self).spools() ==> {
                &&& old(self).queue().len() > 0 ==> outcome == PushOutcome::DroppedOldest(
                    Some(old(self).queue()[0]),
                )
                &&& old(self).queue().len() == 0 ==> outcome == PushOutcome::DroppedOldest(None)
                &&& final(self).queue() == old(self).queue().drop_first().push(event)
                    || (old(self).queue().len() == 0 && final(self).queue() == seq![event])
                &&& final(self).spooled() == 0
            },
    {
        if self.spooled == 0 && self.memory.len() < self.capacity {
            self.memory.push_back(event);
            PushOutcome::Stored
        } else if self.disk_spool_enabled {
            if self.spooled < usize::MAX {
                self.spooled = self.spooled + 1;
            }
            PushOutcome::Spool(event)
        } else {
            let oldest = self.memory.pop_front();
            self.memory.push_back(event);
            proof {
                if old(self).queue().len() > 0 {
                    assert(old(self).queue().subrange(1, old(self).queue().len() as int)
                        =~= old(self).queue().drop_first());
                } else {
                    assert(self.queue() =~= seq![event]);
                }
            }
            PushOutcome::DroppedOldest(oldest)
        }
    }

    /// Drain up to `batch_size` events for shipping, oldest first: move events
    /// from the front of memory onto `batch` until it holds `batch_size`
    /// events or memory is empty. What memory cannot fill comes next from the
    /// spool (see `read_spool_lines`), whose events are all newer.
    pub fn drain_batch(&mut self, batch: &mut Vec<Event>, batch_size: usize)
        requires
            old(self).well_formed(),
        ensures
            ({
                let k = take_count(old(batch)@.len() as int, batch_size as int, old(self).queue().len() as int);
                &&& final(batch)@ == old(batch)@ + old(self).queue().subrange(0, k)
                &&& final(self).queue() == old(self).queue().subrange(k, old(self).queue().len() as int)
            }),
            final(self).well_formed(),
            final(self).capacity() == old(self).capacity(),
            final(self).spools() == old(self).spools(),
            final(self).spooled() == old(self).spooled(),
    {
        let ghost q0 = self.memory@;
        let ghost b0 = batch@;
        let ghost k = take_count(b0.len() as int, batch_size as int, q0.len() as int);
        let mut taken: usize = 0;
        while batch.len() < batch_size && self.memory.len() > 0
            invariant
                batch@ == b0 + q0.subrange(0, taken as int),
                self.memory@ == q0.subrange(taken as int, q0.len() as int),
                taken <= q0.len(),
                b0.len() + taken == batch@.len(),
                self.capacity == old(self).capacity,
                self.disk_spool_enabled == old(self).disk_spool_enabled,
                self.spooled == old(self).spooled,
                q0 == old(self).memory@,
                b0 == old(batch)@,
                k == take_count(b0.len() as int, batch_size as int, q0.len() as int),
                taken <= k,
            decreases batch_size - batch@.len(),
        {
            let event = self.memory.pop_front().unwrap();
            batch.push(event);
            assert(q0.subrange(0, taken + 1) =~= q0.subrange(0, taken as int).push(
                q0[taken as int],
            ));
            assert(self.memory@ =~= q0.subrange(taken + 1, q0.len() as int));
            taken += 1;
        }
        assert(taken == k);
    }

    /// Return events to the buffer (e.g. when shipping failed). They are the
    /// oldest of all, so they go back ahead of everything in their original
    /// order: with the spool on, memory takes the first `capacity` of them
    /// and what was in memory, and the rest are handed back, in order, to be
    /// written at the front of the spool. With the spool off, those that no
    /// longer fit in memory are lost.
    pub fn push_batch_back(&mut self, events: Vec<Event>) -> (front: Vec<Event>)
        requires
            old(self).well_formed(),
        ensures
            (final(self).queue(), front@) == return_state(
                old(self).queue(),
                events@,
                old(self).capacity(),
                old(self).spools(),
            ),
            final(self).spooled() == count_plus(old(self).spooled(), front@.len() as int),
            final(self).well_formed(),
            final(self).capacity() == old(self).capacity(),
            final(self).spools() == old(self).spools(),
    {
        let mut events = events;
        if self.disk_spool_enabled {
            let ghost all = events@ + self.memory@;
            let ghost ev0 = events@;
            let mut combined: std::collections::VecDeque<Event> = std::collections::VecDeque::new();
            while events.len() > 0
                invariant
                    events@ + combined@ == ev0,
                decreases events@.len(),
            {
                let ghost before = events@;
                let ghost c0 = combined@;
                let e = events.pop().unwrap();
                combined.push_front(e);
                assert(events@ + combined@ =~= ev0) by {
                    assert(before =~= events@.push(e));
                    assert(combined@ =~= seq![e] + c0);
                    assert(before + c0 == ev0);
                }
            }
            assert(combined@ =~= ev0) by {
                assert(events@.len() == 0);
                assert(events@ + combined@ =~= combined@);
            }
            combined.append(&mut self.memory);
            assert(combined@ =~= all);
            let n = if self.capacity < combined.len() {
                self.capacity
            } else {
                combined.len()
            };
            let mut rest = combined.split_off(n);
            self.memory = combined;
            let mut front: Vec<Event> = Vec::new();
            let ghost rest0 = rest@;
            while rest.len() > 0
                invariant
                    front@ + rest@ == rest0,
                decreases rest@.len(),
            {
                let ghost before = rest@;
                let e = rest.pop_front().unwrap();
                front.push(e);
                assert(front@ + rest@ =~= rest0) by {
                    assert(before =~= seq![e] + rest@);
                }
            }
            assert(front@ =~= rest0);
            let extra = front.len();
            if self.spooled <= usize::MAX - extra {
                self.spooled = self.spooled + extra;
            } else {
                self.spooled = usize::MAX;
            }
            front
        } else {
            let ghost all = events@;
            assert(all.subrange(0, all.len() as int) =~= all);
            let ghost spool0 = Seq::<Event>::empty();
            while events.len() > 0
                invariant
                    events@.len() <= all.len(),
                    events@ == all.subrange(0, events@.len() as int),
                    return_all(
                        (old(self).memory@, Seq::empty()),
                        all,
                        old(self).capacity,
                        false,
                    ) == return_all((self.memory@, Seq::empty()), events@, self.capacity, false),
                    self.capacity == old(self).capacity,
                    self.disk_spool_enabled == old(self).disk_spool_enabled,
                    !self.disk_spool_enabled,
                    self.spooled == 0,
                    self.memory@.len() <= memory_bound(self.capacity),
                decreases events@.len(),
            {
                let ghost before = events@;
                let event = events.pop().unwrap();
                assert(events@ =~= before.drop_last());
                assert(events@ =~= all.subrange(0, events@.len() as int));
                if self.memory.len() < self.capacity {
                    self.memory.push_front(event);
                }
            }
            Vec::new()
        }
    }

    /// The number of events held in memory.
    pub fn memory_depth(&self) -> (n: usize)
        ensures
            n == self.queue().len(),
    {
        self.memory.len()
    }
}

// ---------------------------------------------------------------------------
// Reading the spool
// ---------------------------------------------------------------------------

/// One line of the spool file, with the event it decodes to (if it does).
pub struct SpoolLine {
    pub text: String,
    pub event: Option<Event>,
}

/// The batch and the kept lines after reading `lines` from the spool: while
/// the batch is short, each line is consumed (and its event, if it decodes,
/// joins the batch); once it is full, the remaining lines are kept.
pub open spec fn read_spool(
    batch: Seq<Event>,
    kept: Seq<Seq<char>>,
    lines: Seq<SpoolLine>,
    batch_size: usize,
) -> (Seq<Event>, Seq<Seq<char>>)
    decreases lines.len(),
{
    if lines.len() == 0 {
        (batch, kept)
    } else {
        let l = lines[0];
        if batch.len() < batch_size {
            let next = match l.event {
                Some(e) => batch.push(e),
                None => batch,
            };
            read_spool(next, kept, lines.drop_first(), batch_size)
        } else {
            read_spool(batch, kept.push(l.text@), lines.drop_first(), batch_size)
        }
    }
}

/// The characters of each string in a list.
pub open spec fn line_texts(v: Seq<String>) -> Seq<Seq<char>> {
    v.map_values(|s: String| s@)
}

impl EventBuffer {
    /// Fill `batch` from the spool's lines (what a drain reads after memory)
    /// and return the lines to keep in the spool file, which are then all
    /// that is spooled.
    pub fn read_spool_lines(&mut self, batch: &mut Vec<Event>, batch_size: usize, lines: Vec<SpoolLine>) -> (kept:
        Vec<String>)
        requires
            old(self).well_formed(),
        ensures
            ({
                let r = read_spool(old(batch)@, Seq::empty(), lines@, batch_size);
                &&& final(batch)@ == r.0
                &&& line_texts(kept@) == r.1
            }),
            final(self).queue() == old(self).queue(),
            final(self).capacity() == old(self).capacity(),
            final(self).spools() == old(self).spools(),
            final(self).spooled() == if old(self).spools() {
                kept@.len() as usize
            } else {
                0
            },
            final(self).well_formed(),
    {
        let kept = take_spool_lines(batch, batch_size, lines);
        if self.disk_spool_enabled {
            self.spooled = kept.len();
        }
        kept
    }
}

fn take_spool_lines(batch: &mut Vec<Event>, batch_size: usize, lines: Vec<SpoolLine>) -> (kept:
    Vec<String>)
    ensures
        ({
            let r = read_spool(old(batch)@, Seq::empty(), lines@, batch_size);
            &&& final(batch)@ == r.0
            &&& line_texts(kept@) == r.1
        }),
{
    let mut kept: Vec<String> = Vec::new();
    let mut rest = lines;
    let ghost all = rest@;
    // Walk the lines front to back.
    let mut rev: Vec<SpoolLine> = Vec::new();
    while rest.len() > 0
        invariant
            rest@.len() <= all.len(),
            rev@ == all.subrange(rest@.len() as int, all.len() as int).reverse(),
            rest@ == all.subrange(0, rest@.len() as int),
        decreases rest@.len(),
    {
        let ghost before = rest@;
        let l = rest.pop().unwrap();
        assert(rest@ =~= before.drop_last());
        assert(rest@ =~= all.subrange(0, rest@.len() as int));
        rev.push(l);
        assert(rev@ =~= all.subrange(rest@.len() as int, all.len() as int).reverse());
    }
    assert(rev@.reverse() =~= all);
    assert(line_texts(kept@) =~= Seq::<Seq<char>>::empty());
    while rev.len() > 0
        invariant
            read_spool(old(batch)@, Seq::empty(), all, batch_size) == read_spool(
                batch@,
                line_texts(kept@),
                rev@.reverse(),
                batch_size,
            ),
        decreases rev@.len(),
    {
        let ghost before = rev@;
        let l = rev.pop().unwrap();
        assert(rev@ =~= before.drop_last());
        assert(before.reverse().drop_first() =~= rev@.reverse());
        assert(before.reverse()[0] == l);
        let ghost b_before = batch@;
        let ghost k_before = line_texts(kept@);
        let ghost lv = l;
        assert(before.reverse().len() > 0);
        if batch.len() < batch_size {
            let ghost next = match lv.event {
                Some(e) => b_before.push(e),
                None => b_before,
            };
            assert(read_spool(b_before, k_before, before.reverse(), batch_size) == read_spool(
                next,
                k_before,
                rev@.reverse(),
                batch_size,
            ));
            match l.event {
                Some(e) => batch.push(e),
                None => {},
            }
            assert(batch@ == next);
        } else {
            assert(read_spool(b_before, k_before, before.reverse(), batch_size) == read_spool(
                b_before,
                k_before.push(lv.text@),
                rev@.reverse(),
                batch_size,
            ));
            kept.push(l.text);
            assert(line_texts(kept@) =~= k_before.push(lv.text@));
        }
    }
    assert(rev@.reverse() =~= Seq::<SpoolLine>::empty());
    kept
}

// ---------------------------------------------------------------------------
// Laws
// ---------------------------------------------------------------------------

/// With the spool off, events returned to the front of memory go back in
/// their original order ahead of what is queued, as long as memory has room
/// for them all.
pub proof fn law_return_restores_order(
    queue: Seq<Event>,
    spooled: Seq<Event>,
    events: Seq<Event>,
    capacity: usize,
    spool: bool,
)
    requires
        queue.len() + events.len() <= capacity,
    ensures
        return_all((queue, spooled), events, capacity, spool) == (events + queue, spooled),
    decreases events.len(),
{
    if events.len() > 0 {
        let q2 = seq![events.last()] + queue;
        law_return_restores_order(q2, spooled, events.drop_last(), capacity, spool);
        assert(events.drop_last() + q2 =~= events + queue);
    }
}

/// Draining a batch from memory and handing it straight back (a failed
/// shipment) leaves memory as it was, and puts nothing in the spool.
pub proof fn law_drain_then_return_is_identity(queue: Seq<Event>, k: int, capacity: usize, spool: bool)
    requires
        0 <= k <= queue.len(),
        queue.len() <= capacity,
    ensures
        return_state(queue.subrange(k, queue.len() as int), queue.subrange(0, k), capacity, spool)
            == (queue, Seq::<Event>::empty()),
{
    law_return_restores_order(
        queue.subrange(k, queue.len() as int),
        Seq::empty(),
        queue.subrange(0, k),
        capacity,
        false,
    );
    let all = queue.subrange(0, k) + queue.subrange(k, queue.len() as int);
    assert(all =~= queue);
    assert(all.take(all.len() as int) =~= all);
    assert(all.skip(all.len() as int) =~= Seq::<Event>::empty());
}

/// Memory and spool after a push, with the spool on.
pub open spec fn model_push(mem: Seq<Event>, spool: Seq<Event>, e: Event, capacity: usize) -> (
    Seq<Event>,
    Seq<Event>,
) {
    if push_goes_to_memory(mem.len() as int, spool.len() as int, capacity as int) {
        (mem.push(e), spool)
    } else {
        (mem, spool.push(e))
    }
}

/// A drain of up to `n` events, memory first and then the spool: the batch,
/// and what stays in memory and in the spool.
pub open spec fn model_drain(mem: Seq<Event>, spool: Seq<Event>, n: int) -> (
    Seq<Event>,
    Seq<Event>,
    Seq<Event>,
) {
    let k = take_count(0, n, mem.len() as int);
    let m = take_count(k, n, spool.len() as int);
    (mem.take(k) + spool.take(m), mem.skip(k), spool.skip(m))
}

/// With the spool on, the buffer (memory followed by the spool) is one
/// queue in push order: a push appends the event at the back, a drain of
/// `n` events takes the oldest `n` (all of them if fewer are held) and
/// leaves the rest in order, and events returned after a failed shipment go
/// back at the front in their order.
pub proof fn law_buffer_is_fifo(
    mem: Seq<Event>,
    spool: Seq<Event>,
    e: Event,
    n: int,
    events: Seq<Event>,
    capacity: usize,
)
    requires
        n >= 0,
    ensures
        model_push(mem, spool, e, capacity).0 + model_push(mem, spool, e, capacity).1 == (mem
            + spool).push(e),
        ({
            let d = model_drain(mem, spool, n);
            let c = take_count(0, n, (mem + spool).len() as int);
            &&& d.0 == (mem + spool).take(c)
            &&& d.1 + d.2 == (mem + spool).skip(c)
        }),
        return_state(mem, events, capacity, true).0 + return_state(mem, events, capacity, true).1
            + spool == events + (mem + spool),
{
    let all = mem + spool;
    if push_goes_to_memory(mem.len() as int, spool.len() as int, capacity as int) {
        assert(spool.len() == 0);
        assert(mem.push(e) + spool =~= all.push(e));
    } else {
        assert(mem + spool.push(e) =~= all.push(e));
    }
    let k = take_count(0, n, mem.len() as int);
    let m = take_count(k, n, spool.len() as int);
    let c = take_count(0, n, all.len() as int);
    assert(c == k + m);
    assert(mem.take(k) + spool.take(m) =~= all.take(c));
    assert(mem.skip(k) + spool.skip(m) =~= all.skip(c));
    let s = events + mem;
    let t = min_int(capacity as int, s.len() as int);
    assert(s.take(t) + s.skip(t) =~= s);
    assert(s + spool =~= events + all);
}

/// With a positive capacity, memory never holds more than the capacity.
pub proof fn law_memory_bounded(b: &EventBuffer)
    requires
        b.well_formed(),
        b.capacity() > 0,
    ensures
        b.queue().len() <= b.capacity(),
{
}

} // verus!
