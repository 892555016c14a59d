//! The delay timer: a queue of identifiers ordered by the time at which each
//! is due, read against a clock that never runs backwards.

use vstd::prelude::*;

verus! {

/// An identifier and the clock reading, in nanoseconds, at which it is due.
#[derive(Clone, Copy, Debug, PartialEq, Eq, Structural)]
pub struct TimerEntry {
    pub id: u128,
    pub fire_at: u128,
}

/// The later of two clock readings.
pub open spec fn later(a: u64, b: u64) -> u64 {
    if a >= b {
        a
    } else {
        b
    }
}

/// No entry is due before an entry that stands ahead of it.
pub open spec fn ascending(q: Seq<TimerEntry>) -> bool {
    forall|i: int, j: int| 0 <= i <= j < q.len() ==> q[i].fire_at <= q[j].fire_at
}

/// The number of entries of `q` that are due at clock reading `t`.
pub open spec fn ripe_count(q: Seq<TimerEntry>, t: int) -> nat
    decreases q.len(),
{
    if q.len() == 0 {
        0
    } else {
        ripe_count(q.drop_last(), t) + if q.last().fire_at <= t {
            1nat
        } else {
            0nat
        }
    }
}

/// In an ordered queue the entries that are due stand ahead of all others.
pub proof fn lemma_ripe_split(q: Seq<TimerEntry>, t: int)
    requires
        ascending(q),
    ensures
        ripe_count(q, t) <= q.len(),
        forall|i: int| 0 <= i < ripe_count(q, t) ==> (#[trigger] q[i]).fire_at <= t,
        forall|i: int| ripe_count(q, t) <= i < q.len() ==> (#[trigger] q[i]).fire_at > t,
    decreases q.len(),
{
    if q.len() > 0 {
        let head = q.drop_last();
        lemma_ripe_split(head, t);
        let k = ripe_count(head, t);
        if q.last().fire_at <= t {
            if k < head.len() {
                assert(head[k as int].fire_at > t);
                assert(q[k as int].fire_at <= q[q.len() - 1].fire_at);
            }
            assert forall|i: int| 0 <= i < ripe_count(q, t) implies (#[trigger] q[i]).fire_at
                <= t by {
                assert(q[i].fire_at <= q[q.len() - 1].fire_at);
            }
        } else {
            assert forall|i: int| ripe_count(q, t) <= i < q.len() implies (#[trigger] q[i]).fire_at
                > t by {
                if i < head.len() {
                    assert(head[i] == q[i]);
                }
            }
            assert forall|i: int| 0 <= i < ripe_count(q, t) implies (#[trigger] q[i]).fire_at
                <= t by {
                assert(head[i] == q[i]);
            }
        }
    }
}

/// The place at which the entries that are due end is the number of them.
pub proof fn lemma_ripe_unique(q: Seq<TimerEntry>, t: int, k: int)
    requires
        ascending(q),
        0 <= k <= q.len(),
        forall|i: int| 0 <= i < k ==> (#[trigger] q[i]).fire_at <= t,
        k < q.len() ==> q[k].fire_at > t,
    ensures
        ripe_count(q, t) == k,
{
    lemma_ripe_split(q, t);
    let r = ripe_count(q, t) as int;
    if r < k {
        assert(q[r].fire_at > t);
    } else if r > k {
        assert(q[k].fire_at <= t);
    }
}

/// An entry put where the entries due no later than it end keeps the order.
pub proof fn lemma_insert_keeps_order(q: Seq<TimerEntry>, k: int, e: TimerEntry)
    requires
        ascending(q),
        0 <= k <= q.len(),
        forall|i: int| 0 <= i < k ==> (#[trigger] q[i]).fire_at <= e.fire_at,
        forall|i: int| k <= i < q.len() ==> (#[trigger] q[i]).fire_at >= e.fire_at,
    ensures
        ascending(q.insert(k, e)),
{
    let r = q.insert(k, e);
    q.insert_ensures(k, e);
    assert forall|i: int, j: int| 0 <= i <= j < r.len() implies r[i].fire_at <= r[j].fire_at by {
        if i < k {
            assert(r[i] == q[i]);
        } else if i > k {
            assert(r[i] == q[i - 1]);
        }
        if j < k {
            assert(r[j] == q[j]);
        } else if j > k {
            assert(r[j] == q[j - 1]);
        }
    }
}

spec fn rev(s: Seq<TimerEntry>) -> Seq<TimerEntry> {
    Seq::new(s.len(), |i: int| s[s.len() - 1 - i])
}

/// A queue of identifiers, each due at a clock reading.
///
/// The clock is handed in with each call, in nanoseconds. A reading that lies
/// before one seen earlier counts as the earlier one.
pub struct Timer {
    // Latest due time first, so that the entry due next is the last one.
    entries: Vec<TimerEntry>,
    clock: u64,
    floor: u128,
}

impl Timer {
    /// The entries in the order in which they are released.
    pub closed spec fn queue(&self) -> Seq<TimerEntry> {
        rev(self.entries@)
    }

    /// The latest clock reading seen.
    pub closed spec fn now(&self) -> u64 {
        self.clock
    }

    /// The due time of the entry released last; zero before the first release.
    pub closed spec fn last_released(&self) -> u128 {
        self.floor
    }

    /// The queue is ordered, and nothing in it is due before what was released.
    pub open spec fn wf(&self) -> bool {
        &&& ascending(self.queue())
        &&& forall|i: int|
            0 <= i < self.queue().len() ==> (#[trigger] self.queue()[i]).fire_at
                >= self.last_released()
        &&& self.last_released() <= self.now()
    }

    /// An empty timer whose clock reads zero.
    pub fn new() -> (timer: Timer)
        ensures
            timer.wf(),
            timer.queue() == Seq::<TimerEntry>::empty(),
            timer.now() == 0,
            timer.last_released() == 0,
    {
        let timer = Timer { entries: Vec::new(), clock: 0, floor: 0 };
        assert(timer.queue() =~= Seq::<TimerEntry>::empty());
        timer
    }

    /// The number of entries.
    pub fn len(&self) -> (n: usize)
        ensures
            n == self.queue().len(),
    {
        self.entries.len()
    }

    /// The latest clock reading seen.
    pub fn clock(&self) -> (t: u64)
        ensures
            t == self.now(),
    {
        self.clock
    }

    /// Takes a clock reading and answers with the reading that now counts.
    pub fn observe(&mut self, now: u64) -> (t: u64)
        requires
            old(self).wf(),
        ensures
            final(self).wf(),
            t == later(old(self).now(), now),
            final(self).now() == t,
            final(self).queue() == old(self).queue(),
            final(self).last_released() == old(self).last_released(),
    {
        if now > self.clock {
            self.clock = now;
        }
        self.clock
    }

    /// Arms an entry for `id`, due `delay` nanoseconds after the clock
    /// reading, and answers with its due time. The entry is placed behind
    /// every entry that is due no later.
    pub fn insert(&mut self, id: u128, now: u64, delay: u64) -> (fire_at: u128)
        requires
            old(self).wf(),
        ensures
            final(self).wf(),
            final(self).now() == later(old(self).now(), now),
            final(self).last_released() == old(self).last_released(),
            fire_at == final(self).now() + delay,
            final(self).queue() == old(self).queue().insert(
                ripe_count(old(self).queue(), fire_at as int) as int,
                TimerEntry { id, fire_at },
            ),
    {
        let t: u64 = self.observe(now);
        let fire_at: u128 = t as u128 + delay as u128;
        let entry = TimerEntry { id, fire_at };
        let n: usize = self.entries.len();
        let mut i: usize = n;
        while i > 0 && self.entries[i - 1].fire_at <= fire_at
            invariant
                i <= n,
                n == self.entries@.len(),
                forall|k: int| i <= k < n ==> (#[trigger] self.entries@[k]).fire_at <= fire_at,
            decreases i,
        {
            i -= 1;
        }
        let ghost before = self.entries@;
        let ghost q = self.queue();
        let ghost k = n - i;
        self.entries.insert(i, entry);
        proof {
            before.insert_ensures(i as int, entry);
            q.insert_ensures(k, entry);
            assert forall|x: int| 0 <= x < k implies (#[trigger] q[x]).fire_at <= fire_at by {
                assert(q[x] == before[n - 1 - x]);
            }
            assert(k < q.len() ==> q[k] == before[i - 1]);
            lemma_ripe_unique(q, fire_at as int, k);
            assert forall|x: int| k <= x < q.len() implies (#[trigger] q[x]).fire_at
                >= fire_at by {
                assert(q[k].fire_at <= q[x].fire_at);
            }
            lemma_insert_keeps_order(q, k, entry);
            assert(self.queue() =~= q.insert(k, entry)) by {
                assert forall|x: int| 0 <= x < n + 1 implies self.queue()[x] == q.insert(
                    k,
                    entry,
                )[x] by {
                    if x < k {
                        assert(self.entries@[n - x] == before[n - x - 1]);
                    } else if x > k {
                        assert(self.entries@[n - x] == before[n - x]);
                    }
                }
            }
            assert forall|x: int| 0 <= x < self.queue().len() implies (
            #[trigger] self.queue()[x]).fire_at >= self.last_released() by {
                if x < k {
                    assert(self.queue()[x] == q[x]);
                } else if x > k {
                    assert(self.queue()[x] == q[x - 1]);
                }
            }
        }
        fire_at
    }

    /// Releases the entry that is due next, if one is due at the clock
    /// reading. Entries leave in the order of their due times.
    pub fn next(&mut self, now: u64) -> (released: Option<TimerEntry>)
        requires
            old(self).wf(),
        ensures
            final(self).wf(),
            final(self).now() == later(old(self).now(), now),
            match released {
                Some(entry) => {
                    &&& old(self).queue().len() > 0
                    &&& entry == old(self).queue()[0]
                    &&& entry.fire_at <= final(self).now()
                    &&& entry.fire_at >= old(self).last_released()
                    &&& final(self).queue() == old(self).queue().skip(1)
                    &&& final(self).last_released() == entry.fire_at
                },
                None => {
                    &&& old(self).queue().len() > 0 ==> old(self).queue()[0].fire_at
                        > final(self).now()
                    &&& final(self).queue() == old(self).queue()
                    &&& final(self).last_released() == old(self).last_released()
                },
            },
    {
        let t: u64 = self.observe(now);
        let n: usize = self.entries.len();
        let ghost q = self.queue();
        if n > 0 && self.entries[n - 1].fire_at <= t as u128 {
            let entry = self.entries[n - 1];
            self.entries.pop();
            self.floor = entry.fire_at;
            proof {
                assert(q[0] == entry);
                assert(self.queue() =~= q.skip(1));
                assert forall|x: int| 0 <= x < self.queue().len() implies (
                #[trigger] self.queue()[x]).fire_at >= self.last_released() by {
                    assert(self.queue()[x] == q[x + 1]);
                    assert(q[0].fire_at <= q[x + 1].fire_at);
                }
                assert(ascending(self.queue())) by {
                    assert forall|x: int, y: int|
                        0 <= x <= y < self.queue().len() implies self.queue()[x].fire_at
                        <= self.queue()[y].fire_at by {
                        assert(self.queue()[x] == q[x + 1]);
                        assert(self.queue()[y] == q[y + 1]);
                    }
                }
            }
            Some(entry)
        } else {
            proof {
                if n > 0 {
                    assert(q[0] == self.entries@[n - 1]);
                }
            }
            None
        }
    }
}

} // verus!
