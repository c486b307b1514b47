//! The per-resource scheduler: one timer per resource, armed to the
//! earlier of the refresh deadline and the nearest rotation deadline, with
//! at most one in-flight reconciliation per resource (a tick for a
//! resource already in flight is coalesced, not queued twice), and
//! exponential backoff capped at the refresh interval.

use vstd::prelude::*;

verus! {

/// One armed timer.
#[derive(Debug, Clone)]
pub struct TimerEntry {
    /// Resource identity.
    pub id: String,
    /// When the next reconciliation is due, in seconds.
    pub deadline: u64,
    /// Whether a reconciliation for this resource is running.
    pub in_flight: bool,
}

/// First timer for `id`.
pub open spec fn timer_lookup(s: Seq<TimerEntry>, id: Seq<char>) -> Option<TimerEntry>
    decreases s.len(),
{
    if s.len() == 0 {
        None
    } else if s[0].id@ == id {
        Some(s[0])
    } else {
        timer_lookup(s.skip(1), id)
    }
}

/// At most one timer per resource.
pub open spec fn sched_wf(s: Seq<TimerEntry>) -> bool {
    forall|i: int, j: int|
        #![trigger s[i].id, s[j].id]
        0 <= i < j < s.len() ==> s[i].id@ != s[j].id@
}

/// A timer lookup misses exactly when no entry has the id.
proof fn lemma_timer_lookup_none_iff(s: Seq<TimerEntry>, id: Seq<char>)
    ensures
        timer_lookup(s, id) is None <==> forall|i: int|
            0 <= i < s.len() ==> (#[trigger] s[i]).id@ != id,
    decreases s.len(),
{
    if s.len() > 0 {
        lemma_timer_lookup_none_iff(s.skip(1), id);
        assert(forall|i: int| 0 <= i < s.skip(1).len() ==> #[trigger] s.skip(1)[i] == s[i + 1]);
        if s[0].id@ != id && (forall|i: int|
            0 <= i < s.skip(1).len() ==> (#[trigger] s.skip(1)[i]).id@ != id) {
            assert(forall|i: int| 0 < i < s.len() ==> (#[trigger] s[i]).id@ == s.skip(1)[i - 1].id@);
        }
    }
}

/// Replacing the timer at `i` by one of the same id moves only that id's
/// lookup.
proof fn lemma_timer_lookup_update(s: Seq<TimerEntry>, i: int, c: TimerEntry, id: Seq<char>)
    requires
        0 <= i < s.len(),
        sched_wf(s),
        s[i].id@ == c.id@,
    ensures
        timer_lookup(s.update(i, c), id) == if id == c.id@ {
            Some(c)
        } else {
            timer_lookup(s, id)
        },
    decreases s.len(),
{
    if i == 0 {
        assert(s.update(0, c)[0] == c);
        assert(s.update(0, c).skip(1) =~= s.skip(1));
    } else {
        assert(s.update(i, c)[0] == s[0]);
        assert(s.update(i, c).skip(1) =~= s.skip(1).update(i - 1, c));
        assert(sched_wf(s.skip(1))) by {
            assert(forall|a: int| 0 <= a < s.skip(1).len() ==> #[trigger] s.skip(1)[a] == s[a + 1]);
        }
        assert(s.skip(1)[i - 1] == s[i]);
        lemma_timer_lookup_update(s.skip(1), i - 1, c, id);
        if s[0].id@ == id && id == c.id@ {
            assert(s[0].id@ == s[i].id@);
            assert(false);
        }
    }
}

/// Appending a timer of an id not yet present moves only that id's
/// lookup.
proof fn lemma_timer_lookup_push(s: Seq<TimerEntry>, c: TimerEntry, id: Seq<char>)
    requires
        timer_lookup(s, c.id@) is None,
    ensures
        timer_lookup(s.push(c), id) == if id == c.id@ {
            Some(c)
        } else {
            timer_lookup(s, id)
        },
    decreases s.len(),
{
    if s.len() == 0 {
        assert(s.push(c).len() == 1);
        assert(s.push(c)[0] == c);
        assert(s.push(c).skip(1) =~= Seq::<TimerEntry>::empty());
    } else {
        assert(s[0].id@ != c.id@);
        assert(s.push(c)[0] == s[0]);
        assert(s.push(c).skip(1) =~= s.skip(1).push(c));
        lemma_timer_lookup_push(s.skip(1), c, id);
    }
}

/// Dropping the timer at `i` clears its id's lookup and moves no other.
proof fn lemma_timer_lookup_remove(s: Seq<TimerEntry>, i: int, id: Seq<char>)
    requires
        0 <= i < s.len(),
        sched_wf(s),
    ensures
        timer_lookup(s.remove(i), id) == if id == s[i].id@ {
            None::<TimerEntry>
        } else {
            timer_lookup(s, id)
        },
    decreases s.len(),
{
    if i == 0 {
        assert(s.remove(0) =~= s.skip(1));
        if id == s[0].id@ {
            lemma_timer_lookup_none_iff(s.skip(1), id);
            assert(forall|a: int| 0 <= a < s.skip(1).len() ==> #[trigger] s.skip(1)[a] == s[a + 1]);
        }
    } else {
        assert(s.remove(i)[0] == s[0]);
        assert(s.remove(i).skip(1) =~= s.skip(1).remove(i - 1));
        assert(sched_wf(s.skip(1))) by {
            assert(forall|a: int| 0 <= a < s.skip(1).len() ==> #[trigger] s.skip(1)[a] == s[a + 1]);
        }
        assert(s.skip(1)[i - 1] == s[i]);
        lemma_timer_lookup_remove(s.skip(1), i - 1, id);
        if s[0].id@ == id && id == s[i].id@ {
            assert(false);
        }
    }
}

/// Find the first timer for `id`.
fn find_timer(timers: &Vec<TimerEntry>, id: &String) -> (r: Option<usize>)
    ensures
        match r {
            Some(i) => i < timers.len() && timers@[i as int].id@ == id@ && timer_lookup(
                timers@,
                id@,
            ) == Some(timers@[i as int]),
            None => timer_lookup(timers@, id@) is None,
        },
{
    let mut i: usize = 0;
    proof {
        assert(timers@.skip(0) =~= timers@);
    }
    while i < timers.len()
        invariant
            i <= timers.len(),
            timer_lookup(timers@, id@) == timer_lookup(timers@.skip(i as int), id@),
        decreases timers.len() - i,
    {
        proof {
            assert(timers@.skip(i as int)[0] == timers@[i as int]);
            assert(timers@.skip(i as int).skip(1) =~= timers@.skip(i as int + 1));
        }
        if timers[i].id == *id {
            return Some(i);
        }
        i = i + 1;
    }
    proof {
        assert(timers@.skip(i as int) =~= Seq::<TimerEntry>::empty());
    }
    None
}

/// The timer table, owned by the scheduler alone; other components reach
/// it only through these methods.
#[derive(Debug)]
pub struct Scheduler {
    /// One timer per known resource.
    pub timers: Vec<TimerEntry>,
}

impl Scheduler {
    /// An empty table.
    pub fn new() -> (r: Scheduler)
        ensures
            r.timers@.len() == 0,
            sched_wf(r.timers@),
    {
        Scheduler { timers: Vec::new() }
    }

    /// Arm (or re-arm) the timer for `id` to `deadline`, keeping its
    /// in-flight mark. A spec update that changes intervals re-arms here
    /// immediately rather than waiting for the stale tick.
    pub fn arm(&mut self, id: &String, deadline: u64)
        requires
            sched_wf(old(self).timers@),
        ensures
            sched_wf(final(self).timers@),
            ({
                let cur = timer_lookup(final(self).timers@, id@);
                &&& cur is Some
                &&& cur->0.id@ == id@
                &&& cur->0.deadline == deadline
                &&& cur->0.in_flight == match timer_lookup(old(self).timers@, id@) {
                    Some(p) => p.in_flight,
                    None => false,
                }
            }),
            forall|t: Seq<char>|
                t != id@ ==> #[trigger] timer_lookup(final(self).timers@, t) == timer_lookup(
                    old(self).timers@,
                    t,
                ),
    {
        match find_timer(&self.timers, id) {
            Some(i) => {
                let c = TimerEntry { id: id.clone(), deadline, in_flight: self.timers[i].in_flight };
                let ghost prev = self.timers@;
                self.timers.set(i, c);
                proof {
                    assert(self.timers@ == prev.update(i as int, c));
                    lemma_timer_lookup_update(prev, i as int, c, id@);
                    assert forall|t: Seq<char>|
                        t != id@ implies #[trigger] timer_lookup(self.timers@, t) == timer_lookup(
                        prev,
                        t,
                    ) by {
                        lemma_timer_lookup_update(prev, i as int, c, t);
                    }
                }
            },
            None => {
                let c = TimerEntry { id: id.clone(), deadline, in_flight: false };
                let ghost prev = self.timers@;
                proof {
                    lemma_timer_lookup_none_iff(prev, id@);
                }
                self.timers.push(c);
                proof {
                    assert(self.timers@ == prev.push(c));
                    lemma_timer_lookup_push(prev, c, id@);
                    assert forall|t: Seq<char>|
                        t != id@ implies #[trigger] timer_lookup(self.timers@, t) == timer_lookup(
                        prev,
                        t,
                    ) by {
                        lemma_timer_lookup_push(prev, c, t);
                    }
                }
            },
        }
    }

    /// Handle a tick for `id` at time `now`. Fires (and marks the
    /// resource in flight) only when its timer exists, is due, and no
    /// reconciliation is already in flight: a second tick while one runs
    /// is coalesced.
    pub fn on_tick(&mut self, id: &String, now: u64) -> (fire: bool)
        requires
            sched_wf(old(self).timers@),
        ensures
            sched_wf(final(self).timers@),
            fire == match timer_lookup(old(self).timers@, id@) {
                Some(p) => !p.in_flight && p.deadline <= now,
                None => false,
            },
            !fire ==> final(self).timers@ == old(self).timers@,
            fire ==> ({
                let cur = timer_lookup(final(self).timers@, id@);
                &&& cur is Some
                &&& cur->0.in_flight
                &&& cur->0.deadline == timer_lookup(old(self).timers@, id@)->0.deadline
            }),
            forall|t: Seq<char>|
                t != id@ ==> #[trigger] timer_lookup(final(self).timers@, t) == timer_lookup(
                    old(self).timers@,
                    t,
                ),
    {
        match find_timer(&self.timers, id) {
            None => false,
            Some(i) => {
                if self.timers[i].in_flight || self.timers[i].deadline > now {
                    return false;
                }
                let c = TimerEntry {
                    id: id.clone(),
                    deadline: self.timers[i].deadline,
                    in_flight: true,
                };
                let ghost prev = self.timers@;
                self.timers.set(i, c);
                proof {
                    assert(self.timers@ == prev.update(i as int, c));
                    lemma_timer_lookup_update(prev, i as int, c, id@);
                    assert forall|t: Seq<char>|
                        t != id@ implies #[trigger] timer_lookup(self.timers@, t) == timer_lookup(
                        prev,
                        t,
                    ) by {
                        lemma_timer_lookup_update(prev, i as int, c, t);
                    }
                }
                true
            },
        }
    }

    /// Finish the in-flight reconciliation for `id` and re-arm its timer
    /// to `next_deadline`. A resource deleted meanwhile (no timer) is not
    /// resurrected.
    pub fn complete(&mut self, id: &String, next_deadline: u64)
        requires
            sched_wf(old(self).timers@),
        ensures
            sched_wf(final(self).timers@),
            timer_lookup(old(self).timers@, id@) is None ==> final(self).timers@ == old(
                self,
            ).timers@,
            timer_lookup(old(self).timers@, id@) is Some ==> ({
                let cur = timer_lookup(final(self).timers@, id@);
                &&& cur is Some
                &&& cur->0.deadline == next_deadline
                &&& !cur->0.in_flight
            }),
            forall|t: Seq<char>|
                t != id@ ==> #[trigger] timer_lookup(final(self).timers@, t) == timer_lookup(
                    old(self).timers@,
                    t,
                ),
    {
        match find_timer(&self.timers, id) {
            None => {},
            Some(i) => {
                let c = TimerEntry { id: id.clone(), deadline: next_deadline, in_flight: false };
                let ghost prev = self.timers@;
                self.timers.set(i, c);
                proof {
                    assert(self.timers@ == prev.update(i as int, c));
                    lemma_timer_lookup_update(prev, i as int, c, id@);
                    assert forall|t: Seq<char>|
                        t != id@ implies #[trigger] timer_lookup(self.timers@, t) == timer_lookup(
                        prev,
                        t,
                    ) by {
                        lemma_timer_lookup_update(prev, i as int, c, t);
                    }
                }
            },
        }
    }

    /// Cancel and drop the timer for a deleted resource.
    pub fn cancel(&mut self, id: &String)
        requires
            sched_wf(old(self).timers@),
        ensures
            sched_wf(final(self).timers@),
            timer_lookup(final(self).timers@, id@) is None,
            forall|t: Seq<char>|
                t != id@ ==> #[trigger] timer_lookup(final(self).timers@, t) == timer_lookup(
                    old(self).timers@,
                    t,
                ),
    {
        match find_timer(&self.timers, id) {
            None => {},
            Some(i) => {
                let ghost prev = self.timers@;
                self.timers.remove(i);
                proof {
                    assert(self.timers@ == prev.remove(i as int));
                    assert(sched_wf(self.timers@)) by {
                        assert(forall|a: int|
                            0 <= a < self.timers@.len() ==> #[trigger] self.timers@[a] == if a < i {
                                prev[a]
                            } else {
                                prev[a + 1]
                            });
                    }
                    lemma_timer_lookup_remove(prev, i as int, id@);
                    assert forall|t: Seq<char>|
                        t != id@ implies #[trigger] timer_lookup(self.timers@, t) == timer_lookup(
                        prev,
                        t,
                    ) by {
                        lemma_timer_lookup_remove(prev, i as int, t);
                    }
                }
            },
        }
    }
}

/// The earlier of the refresh deadline and every rotation deadline.
pub fn earliest_deadline(refresh_at: u64, rotate_deadlines: &Vec<u64>) -> (r: u64)
    ensures
        r <= refresh_at,
        forall|i: int| 0 <= i < rotate_deadlines@.len() ==> r <= #[trigger] rotate_deadlines@[i],
        r == refresh_at || exists|i: int|
            0 <= i < rotate_deadlines@.len() && r == #[trigger] rotate_deadlines@[i],
{
    let mut r = refresh_at;
    let mut i: usize = 0;
    while i < rotate_deadlines.len()
        invariant
            i <= rotate_deadlines.len(),
            r <= refresh_at,
            forall|j: int| 0 <= j < i ==> r <= #[trigger] rotate_deadlines@[j],
            r == refresh_at || exists|j: int|
                0 <= j < i && r == #[trigger] rotate_deadlines@[j],
        decreases rotate_deadlines.len() - i,
    {
        if rotate_deadlines[i] < r {
            r = rotate_deadlines[i];
        }
        i = i + 1;
    }
    r
}

/// Two to the power `n`.
pub open spec fn pow2(n: nat) -> nat
    decreases n,
{
    if n == 0 {
        1
    } else {
        2 * pow2((n - 1) as nat)
    }
}

/// Doubling is monotone.
proof fn lemma_pow2_le(a: nat, b: nat)
    requires
        a <= b,
    ensures
        pow2(a) <= pow2(b),
    decreases b,
{
    if a < b {
        lemma_pow2_le(a, (b - 1) as nat);
        assert(pow2((b - 1) as nat) >= 1) by {
            lemma_pow2_pos((b - 1) as nat);
        }
    }
}

/// Powers of two are positive.
proof fn lemma_pow2_pos(n: nat)
    ensures
        pow2(n) >= 1,
    decreases n,
{
    if n > 0 {
        lemma_pow2_pos((n - 1) as nat);
    }
}

/// The delay before retry `attempt`: five seconds doubled per attempt
/// (the exponent saturating at twenty), capped at the refresh interval.
pub open spec fn backoff_spec(attempt: u64, refresh_secs: u64) -> int {
    let e: nat = if attempt > 20 {
        20
    } else {
        attempt as nat
    };
    let d = 5 * pow2(e);
    if d > refresh_secs {
        refresh_secs as int
    } else {
        d as int
    }
}

/// Exponential backoff capped at the refresh interval.
pub fn backoff_delay(attempt: u64, refresh_secs: u64) -> (r: u64)
    ensures
        r == backoff_spec(attempt, refresh_secs),
        r <= refresh_secs,
{
    let e: u64 = if attempt > 20 {
        20
    } else {
        attempt
    };
    let mut d: u64 = 5;
    let mut k: u64 = 0;
    proof {
        assert(pow2(20) == 1048576) by {
            reveal_with_fuel(pow2, 21);
        }
    }
    while k < e
        invariant
            e <= 20,
            k <= e,
            d == 5 * pow2(k as nat),
            pow2(20) == 1048576,
        decreases e - k,
    {
        proof {
            lemma_pow2_le((k + 1) as nat, 20);
        }
        d = d * 2;
        k = k + 1;
    }
    if d > refresh_secs {
        refresh_secs
    } else {
        d
    }
}

} // verus!
