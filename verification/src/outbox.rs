//! The producer outbox: a bounded, monotonically-sequenced buffer of recent
//! notifications that backs offline catch-up.
//!
//! Each appended notification is assigned the next cursor, starting at 1. A
//! consumer remembers the cursor of the last notification it saw and on
//! reconnect asks for everything after it ([`Outbox::since`]). The buffer is
//! bounded, so when events after the consumer's cursor were already evicted
//! the catch-up result flags a gap.

use vstd::prelude::*;
use std::collections::VecDeque;
use crate::notification::Notification;

verus! {

/// A monotonic high-water mark; `0` means "from the beginning".
pub type Cursor = u64;

/// A notification paired with the cursor the producer assigned it.
#[derive(Debug, PartialEq, Eq)]
pub struct Sequenced {
    pub seq: Cursor,
    pub notification: Notification,
}

impl Clone for Sequenced {
    fn clone(&self) -> (r: Self)
        ensures
            r == *self,
    {
        Sequenced { seq: self.seq, notification: self.notification.clone() }
    }
}

/// The result of a [`Outbox::since`] catch-up query.
#[derive(Debug, PartialEq, Eq)]
pub struct CatchUp {
    /// Notifications with `seq > cursor`, in ascending order.
    pub events: Vec<Sequenced>,
    /// True if events after the requested cursor had already been evicted.
    pub gap: bool,
}

/// A bounded, monotonically-sequenced ring of recent notifications.
#[derive(Debug)]
pub struct Outbox {
    capacity: usize,
    next_seq: Cursor,
    buf: VecDeque<Sequenced>,
}

/// The retained events are consecutive cursors ending just below `next_seq`
/// (which is at least 1), and there are at most `capacity` of them. An
/// outbox is empty when it never assigned a cursor, or when it was restored
/// at a saved counter without events it could keep.
pub open spec fn outbox_shape(capacity: nat, next_seq: nat, events: Seq<Sequenced>) -> bool {
    &&& 1 <= capacity
    &&& events.len() <= capacity
    &&& events.len() < next_seq
    &&& forall|i: int| 0 <= i < events.len() ==> #[trigger] events[i].seq == next_seq - events.len() + i
}

/// The last `min(events.len(), capacity)` events.
pub open spec fn keep_last(events: Seq<Sequenced>, capacity: nat) -> Seq<Sequenced> {
    if events.len() <= capacity {
        events
    } else {
        events.subrange(events.len() - capacity, events.len() as int)
    }
}

/// `capacity` clamped to at least 1.
pub open spec fn clamp_capacity(capacity: nat) -> nat {
    if capacity == 0 { 1 } else { capacity }
}

/// The least counter past every cursor in `events` (a cursor of `u64::MAX`
/// counts as `u64::MAX`, the largest counter there is).
pub open spec fn past_all(events: Seq<Sequenced>) -> nat
    decreases events.len(),
{
    if events.len() == 0 {
        0
    } else {
        let prev = past_all(events.drop_last());
        let s = events.last().seq;
        let here: nat = if s < u64::MAX { (s + 1) as nat } else { u64::MAX as nat };
        if prev < here { here } else { prev }
    }
}

/// The counter an outbox restored from unusable parts continues from: past
/// the saved counter (at least 1) and past every saved cursor.
pub open spec fn restored_counter(next_seq: nat, events: Seq<Sequenced>) -> nat {
    let base: nat = if next_seq < 1 { 1 } else { next_seq };
    if base < past_all(events) { past_all(events) } else { base }
}

/// `past_all` lies past every cursor below `u64::MAX`, and fits a cursor.
proof fn lemma_past_all(events: Seq<Sequenced>)
    ensures
        past_all(events) <= u64::MAX,
        forall|i: int| 0 <= i < events.len() && events[i].seq < u64::MAX ==> #[trigger] events[i].seq < past_all(events),
    decreases events.len(),
{
    if events.len() > 0 {
        let prev = events.drop_last();
        lemma_past_all(prev);
        assert forall|i: int| 0 <= i < events.len() && events[i].seq < u64::MAX implies #[trigger] events[i].seq < past_all(events) by {
            if i < prev.len() {
                assert(events[i] == prev[i]);
            }
        }
    }
}

/// The counter `restore` continues from when the parts are unusable.
fn counter_past(next_seq: Cursor, events: &Vec<Sequenced>) -> (c: Cursor)
    ensures
        c == restored_counter(next_seq as nat, events@),
{
    let mut acc: Cursor = if next_seq < 1 { 1 } else { next_seq };
    let mut past: Cursor = 0;
    let mut i: usize = 0;
    while i < events.len()
        invariant
            i <= events@.len(),
            acc == (if next_seq < 1 { 1 } else { next_seq }),
            past == past_all(events@.take(i as int)),
        decreases events.len() - i,
    {
        proof {
            assert(events@.take(i + 1).drop_last() =~= events@.take(i as int));
            lemma_past_all(events@.take(i as int));
        }
        let s = events[i].seq;
        let here = if s < u64::MAX { s + 1 } else { u64::MAX };
        if past < here {
            past = here;
        }
        i = i + 1;
    }
    assert(events@.take(events@.len() as int) =~= events@);
    if acc < past { past } else { acc }
}

impl Outbox {
    #[verifier::type_invariant]
    spec fn wf(self) -> bool {
        outbox_shape(self.capacity as nat, self.next_seq as nat, self.buf@)
    }

    /// Maximum number of retained events.
    pub closed spec fn cap(&self) -> nat {
        self.capacity as nat
    }

    /// The cursor the next append will be assigned.
    pub closed spec fn next(&self) -> nat {
        self.next_seq as nat
    }

    /// The retained events, oldest first.
    pub closed spec fn events(&self) -> Seq<Sequenced> {
        self.buf@
    }

    /// This outbox has the shape every outbox has.
    pub open spec fn well_formed(&self) -> bool {
        outbox_shape(self.cap(), self.next(), self.events())
    }

    /// Every outbox is well formed.
    pub fn check_well_formed(&self)
        ensures
            self.well_formed(),
    {
        proof {
            use_type_invariant(self);
        }
    }

    /// Create an outbox retaining at most `capacity` (clamped to at least 1)
    /// of the most recent notifications.
    pub fn new(capacity: usize) -> (o: Self)
        ensures
            o.cap() == clamp_capacity(capacity as nat),
            o.next() == 1,
            o.events() == Seq::<Sequenced>::empty(),
            o.well_formed(),
    {
        let capacity = if capacity == 0 { 1 } else { capacity };
        Outbox { capacity, next_seq: 1, buf: VecDeque::new() }
    }

    /// Rebuild an outbox from its parts (e.g. a saved snapshot); `None` when
    /// the parts do not have the shape every outbox has: a capacity of at
    /// least 1 that holds the events, and cursors consecutive and ending just
    /// below `next_seq` (none at all when `next_seq` is 1). Parts taken from
    /// an outbox always have that shape; other parts are refused, since
    /// catch-up over them would skip or repeat cursors ([`Outbox::restore`]
    /// keeps their counter).
    pub fn from_parts(capacity: usize, next_seq: Cursor, events: Vec<Sequenced>) -> (r: Option<Self>)
        ensures
            r is Some <==> outbox_shape(capacity as nat, next_seq as nat, events@),
            r matches Some(o) ==> o.cap() == capacity && o.next() == next_seq && o.events() == events@
                && o.well_formed(),
    {
        if capacity == 0 || events.len() > capacity || events.len() as u64 >= next_seq {
            return None;
        }
        let n = events.len();
        let mut i: usize = 0;
        while i < n
            invariant
                n == events@.len(),
                n < next_seq,
                i <= n,
                forall|j: int| 0 <= j < i ==> #[trigger] events@[j].seq == next_seq - n + j,
            decreases n - i,
        {
            if events[i].seq != next_seq - n as u64 + i as u64 {
                return None;
            }
            i = i + 1;
        }
        let mut buf: VecDeque<Sequenced> = VecDeque::new();
        let ghost ev = events@;
        let mut j: usize = 0;
        while j < n
            invariant
                n == ev.len(),
                ev == events@,
                j <= n,
                buf@.len() == j,
                forall|k: int| 0 <= k < j ==> #[trigger] buf@[k] == ev[k],
            decreases n - j,
        {
            buf.push_back(events[j].clone());
            j = j + 1;
        }
        assert(buf@ =~= ev);
        Some(Outbox { capacity, next_seq, buf })
    }

    /// Restore an outbox from saved parts (e.g. a snapshot) under the
    /// configured `capacity` (clamped to at least 1), which replaces the saved
    /// one. Parts with the shape of an outbox are kept whole: the saved
    /// counter and the newest `capacity` events. Other parts (cursors not
    /// consecutive or not ending just below the counter) cannot be served
    /// without skipping or repeating cursors, so their events are dropped; the
    /// counter still continues past the saved one and past every saved
    /// cursor, so cursors stay monotonic across the restart and a consumer
    /// behind it is told of the gap.
    pub fn restore(capacity: usize, next_seq: Cursor, events: Vec<Sequenced>) -> (o: Self)
        ensures
            o.cap() == clamp_capacity(capacity as nat),
            outbox_shape(clamp_capacity(events@.len()), next_seq as nat, events@) ==> {
                &&& o.next() == next_seq
                &&& o.events() == keep_last(events@, clamp_capacity(capacity as nat))
            },
            !outbox_shape(clamp_capacity(events@.len()), next_seq as nat, events@) ==> {
                &&& o.next() == restored_counter(next_seq as nat, events@)
                &&& o.events() == Seq::<Sequenced>::empty()
            },
            o.next() >= next_seq,
            forall|i: int| 0 <= i < events@.len() && events@[i].seq < u64::MAX ==> #[trigger] events@[i].seq < o.next(),
            o.well_formed(),
    {
        let counter = counter_past(next_seq, &events);
        proof {
            lemma_past_all(events@);
        }
        let keep = if events.len() == 0 { 1 } else { events.len() };
        match Outbox::from_parts(keep, next_seq, events) {
            Some(mut o) => {
                o.set_capacity(capacity);
                o
            },
            None => {
                let cap = if capacity == 0 { 1 } else { capacity };
                let o = Outbox { capacity: cap, next_seq: counter, buf: VecDeque::new() };
                assert(o.buf@ =~= Seq::<Sequenced>::empty());
                o
            },
        }
    }

    /// The outbox's parts: capacity, next cursor and retained events.
    pub fn to_parts(&self) -> (r: (usize, Cursor, Vec<Sequenced>))
        ensures
            r.0 == self.cap(),
            r.1 == self.next(),
            r.2@ == self.events(),
    {
        let mut v: Vec<Sequenced> = Vec::new();
        let mut i: usize = 0;
        while i < self.buf.len()
            invariant
                i <= self.buf@.len(),
                v@.len() == i,
                forall|j: int| 0 <= j < i ==> #[trigger] v@[j] == self.buf@[j],
            decreases self.buf.len() - i,
        {
            v.push(self.buf[i].clone());
            i = i + 1;
        }
        assert(v@ =~= self.buf@);
        (self.capacity, self.next_seq, v)
    }

    /// Append a notification, assign it the next cursor, and return that
    /// cursor. Evicts the oldest entry if the buffer is over capacity.
    pub fn append(&mut self, notification: Notification) -> (seq: Cursor)
        requires
            old(self).next() < u64::MAX,
        ensures
            seq == old(self).next(),
            final(self).next() == old(self).next() + 1,
            final(self).cap() == old(self).cap(),
            final(self).events() == keep_last(
                old(self).events().push(Sequenced { seq, notification }),
                old(self).cap(),
            ),
            final(self).well_formed(),
    {
        proof {
            use_type_invariant(&*self);
        }
        let seq = self.next_seq;
        let ghost old_buf = self.buf@;
        let ghost item = Sequenced { seq, notification };
        let mut taken = Outbox::new(1);
        std::mem::swap(self, &mut taken);
        let Outbox { capacity, next_seq: _, mut buf } = taken;
        buf.push_back(Sequenced { seq, notification });
        if buf.len() > capacity {
            let _ = buf.pop_front();
        }
        assert(buf@ =~= keep_last(old_buf.push(item), capacity as nat));
        assert forall|i: int| 0 <= i < buf@.len() implies #[trigger] buf@[i].seq == (seq + 1) - buf@.len() + i by {
            if old_buf.len() + 1 > capacity {
                assert(buf@[i] == old_buf.push(item)[i + 1]);
            } else {
                assert(buf@[i] == old_buf.push(item)[i]);
            }
        }
        *self = Outbox { capacity, next_seq: seq + 1, buf };
        seq
    }

    /// Re-apply a retention `capacity` (clamped to at least 1), trimming the
    /// oldest entries if needed. Does not touch the sequence counter.
    pub fn set_capacity(&mut self, capacity: usize)
        ensures
            final(self).cap() == clamp_capacity(capacity as nat),
            final(self).next() == old(self).next(),
            final(self).events() == keep_last(old(self).events(), clamp_capacity(capacity as nat)),
            final(self).well_formed(),
    {
        proof {
            use_type_invariant(&*self);
        }
        let cap = if capacity == 0 { 1 } else { capacity };
        let ghost old_buf = self.buf@;
        let mut taken = Outbox::new(1);
        std::mem::swap(self, &mut taken);
        let Outbox { capacity: _, next_seq, mut buf } = taken;
        while buf.len() > cap
            invariant
                cap >= 1,
                old_buf.len() >= buf@.len(),
                buf@.len() == old_buf.len() || buf@.len() >= cap,
                buf@ == old_buf.subrange(old_buf.len() - buf@.len(), old_buf.len() as int),
            decreases buf.len(),
        {
            let _ = buf.pop_front();
        }
        assert(buf@ =~= keep_last(old_buf, cap as nat));
        assert forall|i: int| 0 <= i < buf@.len() implies #[trigger] buf@[i].seq == next_seq - buf@.len() + i by {
            assert(buf@[i] == old_buf[old_buf.len() - buf@.len() + i]);
        }
        *self = Outbox { capacity: cap, next_seq, buf };
    }

    /// The highest cursor assigned so far, or `0` if nothing has been appended.
    pub fn latest(&self) -> (c: Cursor)
        ensures
            c == self.next() - 1,
    {
        proof {
            use_type_invariant(self);
        }
        self.next_seq - 1
    }

    /// The oldest cursor still retained, or `None` if the buffer is empty.
    pub fn oldest_retained(&self) -> (c: Option<Cursor>)
        ensures
            c == (if self.events().len() == 0 { None::<Cursor> } else { Some(self.events()[0].seq) }),
    {
        if self.buf.len() == 0 {
            None
        } else {
            Some(self.buf[0].seq)
        }
    }

    /// Number of retained events.
    pub fn len(&self) -> (n: usize)
        ensures
            n == self.events().len(),
    {
        self.buf.len()
    }

    /// Maximum number of retained events.
    pub fn capacity(&self) -> (n: usize)
        ensures
            n == self.cap(),
    {
        self.capacity
    }

    /// Everything after `cursor`, plus a flag indicating whether any events
    /// after it had already been evicted (a gap): the oldest cursor the
    /// outbox could still hold, the first retained one or, when it holds
    /// none, the next to be assigned, lies past `cursor + 1`.
    pub fn since(&self, cursor: Cursor) -> (c: CatchUp)
        ensures
            c.events@ == self.events().filter(|e: Sequenced| e.seq > cursor),
            c.gap == (self.next() - self.events().len() > cursor + 1),
            self.events().len() > 0 ==> (c.gap == (self.events()[0].seq > cursor + 1)),
    {
        proof {
            use_type_invariant(self);
        }
        let n = self.buf.len();
        let mut events: Vec<Sequenced> = Vec::new();
        let mut i: usize = 0;
        let ghost all = self.buf@;
        let ghost pred = |e: Sequenced| e.seq > cursor;
        assert(all.take(0).filter(pred) =~= Seq::<Sequenced>::empty()) by {
            reveal(Seq::filter);
        }
        while i < n
            invariant
                n == all.len(),
                all == self.buf@,
                pred == (|e: Sequenced| e.seq > cursor),
                i <= n,
                events@ == all.take(i as int).filter(pred),
            decreases n - i,
        {
            proof {
                reveal(Seq::filter);
                assert(all.take(i + 1).drop_last() =~= all.take(i as int));
                assert(all.take(i + 1).last() == all[i as int]);
                assert(all.take(i + 1).filter(pred) == if pred(all[i as int]) {
                    all.take(i as int).filter(pred).push(all[i as int])
                } else {
                    all.take(i as int).filter(pred)
                });
            }
            if self.buf[i].seq > cursor {
                let e = self.buf[i].clone();
                assert(e == all[i as int]);
                assert(pred(all[i as int]));
                events.push(e);
            } else {
                assert(!pred(all[i as int]));
            }
            assert(events@ == all.take(i + 1).filter(pred));
            i = i + 1;
        }
        assert(all.take(n as int) =~= all);
        let gap = (self.next_seq - n as u64) - 1 > cursor;
        CatchUp { events, gap }
    }
}

} // verus!
