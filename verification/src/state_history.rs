//! The recent history of the game state, for conditions over a time window:
//! a bounded buffer of time-stamped snapshots, oldest first.
//!
//! Times are counts of some unit since a fixed origin (the caller's clock),
//! the same unit as the buffer's maximal age; a snapshot's values are the type
//! parameter `V`, read by the caller.
use vstd::prelude::*;

use std::collections::VecDeque;

verus! {

/// The game state at one moment.
pub struct StateSnapshot<V> {
    pub timestamp: u64,
    pub values: V,
}

/// How long before `now` the moment `then` was (zero if `then` is later).
pub open spec fn age(now: u64, then: u64) -> int {
    if now >= then {
        now - then
    } else {
        0
    }
}

/// The snapshots without the oldest ones that are more than `max_age` old at
/// `now`, up to the first that is not.
pub open spec fn without_old<V>(s: Seq<StateSnapshot<V>>, now: u64, max_age: u64) -> Seq<StateSnapshot<V>>
    decreases s.len(),
{
    if s.len() > 0 && age(now, s[0].timestamp) > max_age {
        without_old(s.drop_first(), now, max_age)
    } else {
        s
    }
}

/// The snapshots after `x` is added at `now`: old ones dropped from the front,
/// `x` added last, then the oldest dropped if there are more than `max_size`.
pub open spec fn pushed<V>(
    s: Seq<StateSnapshot<V>>,
    x: StateSnapshot<V>,
    now: u64,
    max_size: usize,
    max_age: u64,
) -> Seq<StateSnapshot<V>> {
    let t = without_old(s, now, max_age).push(x);
    if t.len() > max_size {
        t.drop_first()
    } else {
        t
    }
}

/// The latest snapshot, counting from the newest, that is at least `target`
/// old at `now`: its position, among the first `n`.
pub open spec fn at_least_upto<V>(s: Seq<StateSnapshot<V>>, now: u64, target: u64, n: int) -> Option<int>
    decreases n,
{
    if n <= 0 {
        None
    } else if age(now, s[n - 1].timestamp) >= target {
        Some(n - 1)
    } else {
        at_least_upto(s, now, target, n - 1)
    }
}

/// The positions, among the first `n` snapshots, of those taken at or after
/// `cutoff`.
pub open spec fn since_upto<V>(s: Seq<StateSnapshot<V>>, cutoff: u64, n: int) -> Seq<int>
    decreases n,
{
    if n <= 0 {
        Seq::empty()
    } else if s[n - 1].timestamp >= cutoff {
        since_upto(s, cutoff, n - 1).push(n - 1)
    } else {
        since_upto(s, cutoff, n - 1)
    }
}

/// A bounded history of snapshots, oldest first.
pub struct StateHistory<V> {
    buffer: VecDeque<StateSnapshot<V>>,
    max_size: usize,
    max_age: u64,
}

impl<V> StateHistory<V> {
    /// The snapshots, oldest first.
    pub closed spec fn snapshots(&self) -> Seq<StateSnapshot<V>> {
        self.buffer@
    }

    /// How many snapshots are kept at most.
    pub closed spec fn size_limit(&self) -> usize {
        self.max_size
    }

    /// How old a snapshot may be when a new one comes.
    pub closed spec fn age_limit(&self) -> u64 {
        self.max_age
    }

    /// No more snapshots than the limit.
    pub open spec fn wf(&self) -> bool {
        self.snapshots().len() <= self.size_limit()
    }

    /// An empty history keeping at most `max_size` snapshots, none older than
    /// `max_age`.
    pub fn new(max_size: usize, max_age: u64) -> (r: Self)
        ensures
            r.wf(),
            r.snapshots() == Seq::<StateSnapshot<V>>::empty(),
            r.size_limit() == max_size,
            r.age_limit() == max_age,
    {
        StateHistory { buffer: VecDeque::new(), max_size, max_age }
    }

    /// Adds a snapshot at time `now`: snapshots more than the age limit old are
    /// dropped from the front first, and the oldest goes when the buffer is over
    /// its size limit.
    pub fn push(&mut self, now: u64, snapshot: StateSnapshot<V>)
        requires
            old(self).wf(),
        ensures
            final(self).wf(),
            final(self).size_limit() == old(self).size_limit(),
            final(self).age_limit() == old(self).age_limit(),
            final(self).snapshots() == pushed(
                old(self).snapshots(),
                snapshot,
                now,
                old(self).size_limit(),
                old(self).age_limit(),
            ),
    {
        let ghost target = without_old(self.buffer@, now, self.max_age);
        while self.buffer.len() > 0
            invariant
                without_old(self.buffer@, now, self.max_age) == target,
                self.buffer@.len() <= old(self).buffer@.len(),
                old(self).buffer@.len() <= self.max_size,
                self.max_size == old(self).max_size,
                self.max_age == old(self).max_age,
            ensures
                self.buffer@ == target,
                self.buffer@.len() <= old(self).buffer@.len(),
                old(self).buffer@.len() <= self.max_size,
                self.max_size == old(self).max_size,
                self.max_age == old(self).max_age,
            decreases self.buffer@.len(),
        {
            let then = self.buffer[0].timestamp;
            let old_enough = if now >= then { now - then > self.max_age } else { false };
            if old_enough {
                let ghost b0 = self.buffer@;
                self.buffer.pop_front();
                assert(self.buffer@ =~= b0.drop_first());
            } else {
                break;
            }
        }
        self.buffer.push_back(snapshot);
        assert(self.buffer@ =~= target.push(snapshot));
        if self.buffer.len() > self.max_size {
            let ghost b1 = self.buffer@;
            self.buffer.pop_front();
            assert(self.buffer@ =~= b1.drop_first());
        }
    }

    /// How many snapshots are held.
    pub fn len(&self) -> (r: usize)
        ensures
            r == self.snapshots().len(),
    {
        self.buffer.len()
    }

    /// The snapshot at position `i`, oldest first.
    pub fn snapshot(&self, i: usize) -> (r: &StateSnapshot<V>)
        requires
            i < self.snapshots().len(),
        ensures
            *r == self.snapshots()[i as int],
    {
        &self.buffer[i]
    }

    /// The newest snapshot.
    pub fn latest(&self) -> (r: Option<&StateSnapshot<V>>)
        ensures
            self.snapshots().len() == 0 ==> r is None,
            self.snapshots().len() > 0 ==> r == Some(&self.snapshots().last()),
    {
        let n = self.buffer.len();
        if n == 0 {
            None
        } else {
            Some(&self.buffer[n - 1])
        }
    }

    /// The newest snapshot that is at least `target_age` old at `now`: the one a
    /// window of that length reaches back to.
    pub fn get_seconds_ago(&self, now: u64, target_age: u64) -> (r: Option<&StateSnapshot<V>>)
        ensures
            match at_least_upto(self.snapshots(), now, target_age, self.snapshots().len() as int) {
                Some(i) => r == Some(&self.snapshots()[i]),
                None => r is None,
            },
    {
        let mut k = self.buffer.len();
        while k > 0
            invariant
                k <= self.buffer@.len(),
                at_least_upto(self.buffer@, now, target_age, self.buffer@.len() as int)
                    == at_least_upto(self.buffer@, now, target_age, k as int),
            decreases k,
        {
            let then = self.buffer[k - 1].timestamp;
            let a = if now >= then { now - then } else { 0 };
            if a >= target_age {
                return Some(&self.buffer[k - 1]);
            }
            k = k - 1;
        }
        None
    }

    /// The positions of the snapshots taken at or after `cutoff`, oldest first:
    /// those a window average, minimum or maximum is taken over.
    pub fn window(&self, cutoff: u64) -> (r: Vec<usize>)
        ensures
            r@.map_values(|i: usize| i as int) == since_upto(
                self.snapshots(),
                cutoff,
                self.snapshots().len() as int,
            ),
    {
        let mut r: Vec<usize> = Vec::new();
        let n = self.buffer.len();
        for i in 0..n
            invariant
                n == self.buffer@.len(),
                r@.map_values(|i: usize| i as int) == since_upto(self.buffer@, cutoff, i as int),
        {
            if self.buffer[i].timestamp >= cutoff {
                let ghost before = r@;
                r.push(i);
                assert(r@.map_values(|i: usize| i as int) =~= before.map_values(|i: usize| i as int).push(
                    i as int,
                ));
            }
        }
        r
    }

    /// Forgets every snapshot.
    pub fn clear(&mut self)
        ensures
            final(self).wf(),
            final(self).snapshots() == Seq::<StateSnapshot<V>>::empty(),
            final(self).size_limit() == old(self).size_limit(),
            final(self).age_limit() == old(self).age_limit(),
    {
        self.buffer.clear();
    }
}

/// After a push the newest snapshot is the one pushed, when the buffer may hold
/// any, and the buffer stays within its size limit.
pub proof fn law_push_keeps_newest<V>(
    s: Seq<StateSnapshot<V>>,
    x: StateSnapshot<V>,
    now: u64,
    max_size: usize,
    max_age: u64,
)
    requires
        max_size > 0,
        s.len() <= max_size,
    ensures
        pushed(s, x, now, max_size, max_age).len() > 0,
        pushed(s, x, now, max_size, max_age).last() == x,
        pushed(s, x, now, max_size, max_age).len() <= max_size,
{
    lemma_without_old(s, now, max_age);
    let w = without_old(s, now, max_age);
    let t = w.push(x);
    if t.len() > max_size {
        assert(t.drop_first().last() == x);
    }
}

proof fn lemma_without_old<V>(s: Seq<StateSnapshot<V>>, now: u64, max_age: u64)
    ensures
        without_old(s, now, max_age).len() <= s.len(),
        without_old(s, now, max_age) == s.subrange(
            s.len() - without_old(s, now, max_age).len(),
            s.len() as int,
        ),
        without_old(s, now, max_age).len() > 0 ==> age(now, without_old(s, now, max_age)[0].timestamp)
            <= max_age,
    decreases s.len(),
{
    if s.len() > 0 && age(now, s[0].timestamp) > max_age {
        lemma_without_old(s.drop_first(), now, max_age);
        let w = without_old(s.drop_first(), now, max_age);
        assert(s.drop_first().subrange(s.len() - 1 - w.len(), s.len() - 1) =~= s.subrange(
            s.len() - w.len(),
            s.len() as int,
        ));
    } else {
        assert(s.subrange(0, s.len() as int) =~= s);
    }
}

} // verus!
