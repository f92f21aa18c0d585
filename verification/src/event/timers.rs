//! Timers: wake-ups that widgets ask for

use crate::data::WidgetId;
use crate::event::manager::{due_count, timers_sorted, ManagerState, Timer};
use vstd::prelude::*;

verus! {

/// The instant at which a repeating timer that was due at `now` fires
/// next: the first of its instants after `now`. Ticks that were missed are
/// not made up for.
pub open spec fn next_fire(t: Timer, now: u64) -> int
    recommends
        t.every > 0,
        t.at <= now,
{
    t.at + t.every * ((now - t.at) / (t.every as int) + 1)
}

/// What becomes of the timers when the first of them fires at `now`: it
/// is taken out, and put back at its next instant if it repeats and that
/// instant can be represented.
pub open spec fn after_fire(timers: Seq<Timer>, now: u64) -> Seq<Timer>
    recommends
        timers.len() > 0,
{
    let t = timers[0];
    let rest = timers.remove(0);
    if t.every > 0 && next_fire(t, now) <= u64::MAX {
        let again = Timer { at: next_fire(t, now) as u64, ..t };
        rest.insert(due_count(rest, again.at) as int, again)
    } else {
        rest
    }
}

/// In sorted timers, those that fire at `at` or before it come first.
pub proof fn lemma_due_count(timers: Seq<Timer>, at: u64)
    requires
        timers_sorted(timers),
    ensures
        due_count(timers, at) <= timers.len(),
        forall|i: int| 0 <= i < due_count(timers, at) ==> (#[trigger] timers[i]).at <= at,
        forall|i: int| due_count(timers, at) <= i < timers.len() ==> (#[trigger] timers[i]).at > at,
    decreases timers.len(),
{
    if timers.len() > 0 {
        let init = timers.drop_last();
        assert forall|i: int, j: int| 0 <= i <= j < init.len() implies init[i].at <= init[j].at by {
            assert(init[i] == timers[i]);
            assert(init[j] == timers[j]);
        }
        lemma_due_count(init, at);
        assert forall|i: int| 0 <= i < due_count(timers, at) implies (#[trigger] timers[i]).at
            <= at by {
            if i < init.len() {
                assert(timers[i] == init[i]);
                if i >= due_count(init, at) {
                    assert(timers[i].at <= timers.last().at);
                }
            }
        }
        assert forall|i: int| due_count(timers, at) <= i < timers.len() implies (
        #[trigger] timers[i]).at > at by {
            if i < init.len() {
                assert(timers[i] == init[i]);
                if timers.last().at <= at {
                    assert(timers[i].at <= timers.last().at);
                    assert(init[init.len() - 1] == timers[init.len() - 1]);
                }
            }
        }
    }
}

/// A timer put in after those that fire no later leaves the timers sorted.
pub proof fn lemma_insert_sorted(timers: Seq<Timer>, t: Timer)
    requires
        timers_sorted(timers),
    ensures
        due_count(timers, t.at) <= timers.len(),
        timers_sorted(timers.insert(due_count(timers, t.at) as int, t)),
{
    lemma_due_count(timers, t.at);
    let pos = due_count(timers, t.at) as int;
    let out = timers.insert(pos, t);
    assert forall|i: int, j: int| 0 <= i <= j < out.len() implies out[i].at <= out[j].at by {
        let a = if i < pos { timers[i] } else if i == pos { t } else { timers[i - 1] };
        let b = if j < pos { timers[j] } else if j == pos { t } else { timers[j - 1] };
        assert(out[i] == a);
        assert(out[j] == b);
    }
}

/// Taking out a timer leaves the timers sorted.
pub proof fn lemma_remove_sorted(timers: Seq<Timer>, i: int)
    requires
        timers_sorted(timers),
        0 <= i < timers.len(),
    ensures
        timers_sorted(timers.remove(i)),
{
    let out = timers.remove(i);
    assert forall|a: int, b: int| 0 <= a <= b < out.len() implies out[a].at <= out[b].at by {
        let a0 = if a < i { a } else { a + 1 };
        let b0 = if b < i { b } else { b + 1 };
        assert(out[a] == timers[a0]);
        assert(out[b] == timers[b0]);
    }
}

/// The next instant of a repeating timer lies after `now`, and not more
/// than one interval after it.
pub proof fn lemma_next_fire(t: Timer, now: u64)
    requires
        t.every > 0,
        t.at <= now,
    ensures
        now < next_fire(t, now) <= now + t.every,
{
    let d = now - t.at;
    let e = t.every as int;
    vstd::arithmetic::div_mod::lemma_fundamental_div_mod(d, e);
    vstd::arithmetic::div_mod::lemma_mod_bound(d, e);
    assert(e * (d / e + 1) == e * (d / e) + e) by (nonlinear_arith);
}

/// When the first timer fires at an instant at which it is due, fewer
/// timers are due afterwards.
pub proof fn lemma_after_fire(timers: Seq<Timer>, now: u64)
    requires
        timers_sorted(timers),
        timers.len() > 0,
        timers[0].at <= now,
    ensures
        timers_sorted(after_fire(timers, now)),
        due_count(after_fire(timers, now), now) < due_count(timers, now),
{
    let t = timers[0];
    let rest = timers.remove(0);
    lemma_remove_sorted(timers, 0);
    lemma_due_count(timers, now);
    lemma_due_count(rest, now);
    let k = due_count(timers, now) as int;
    if k == 0 {
        assert(timers[0].at > now);
    }
    if due_count(rest, now) >= k {
        assert(rest[k - 1].at <= now);
        assert(rest[k - 1] == timers[k]);
        assert(timers[k].at > now);
    }
    if t.every > 0 && next_fire(t, now) <= u64::MAX {
        lemma_next_fire(t, now);
        let again = Timer { at: next_fire(t, now) as u64, ..t };
        lemma_insert_sorted(rest, again);
        lemma_due_count(rest, again.at);
        let pos = due_count(rest, again.at) as int;
        let out = rest.insert(pos, again);
        lemma_due_count(out, now);
        let m = due_count(out, now) as int;
        if m >= k {
            assert(out[k - 1].at <= now);
            if k - 1 < pos {
                assert(out[k - 1] == rest[k - 1]);
                assert(rest[k - 1] == timers[k]);
            } else if k - 1 == pos {
                assert(out[k - 1] == again);
            } else {
                assert(out[k - 1] == rest[k - 2]);
                assert(out[pos] == again);
                assert(out[pos].at <= out[k - 1].at);
            }
        }
    }
}

impl ManagerState {
    /// Ask for a wake-up of the widget `id` at the instant `at`, and from
    /// then on every `every`, unless `every` is zero
    ///
    /// The timer is put in after all timers that fire no later.
    pub fn update_on_timer(&mut self, at: u64, id: WidgetId, every: u64)
        requires
            old(self).wf(),
        ensures
            final(self).wf(),
            final(self).timers@ == old(self).timers@.insert(
                due_count(old(self).timers@, at) as int,
                Timer { at, id, every },
            ),
            final(self).grabs@ == old(self).grabs@,
            final(self).action == old(self).action,
            final(self).same_but_grabs_and_timers(old(self)),
    {
        let pos = self.due_until(at);
        proof {
            lemma_insert_sorted(self.timers@, Timer { at, id, every });
        }
        self.timers.insert(pos, Timer { at, id, every });
    }

    /// Everything but grabs, timers and the pending action is as in `other`.
    pub open spec fn same_but_grabs_and_timers(&self, other: &ManagerState) -> bool {
        &&& self.sizes == other.sizes
        &&& self.hover == other.hover
        &&& self.hover_icon == other.hover_icon
        &&& self.nav_focus == other.nav_focus
        &&& self.nav_fallback == other.nav_fallback
        &&& self.char_focus == other.char_focus
        &&& self.pointer == other.pointer
        &&& self.handles@ == other.handles@
    }

    /// Number of timers that fire at `at` or before it
    pub fn due_until(&self, at: u64) -> (n: usize)
        requires
            timers_sorted(self.timers@),
        ensures
            n == due_count(self.timers@, at),
            n <= self.timers@.len(),
    {
        proof {
            lemma_due_count(self.timers@, at);
        }
        let mut i: usize = 0;
        while i < self.timers.len() && self.timers[i].at <= at
            invariant
                i <= self.timers@.len(),
                i <= due_count(self.timers@, at) <= self.timers@.len(),
                forall|k: int|
                    due_count(self.timers@, at) <= k < self.timers@.len() ==> (
                    #[trigger] self.timers@[k]).at > at,
            decreases self.timers@.len() - i,
        {
            proof {
                if i as int >= due_count(self.timers@, at) as int {
                    assert(self.timers@[i as int].at > at);
                }
            }
            i += 1;
        }
        proof {
            lemma_due_count(self.timers@, at);
            if (i as int) < due_count(self.timers@, at) as int {
                assert(self.timers@[i as int].at <= at);
            }
        }
        i
    }

    /// The instant of the next wake-up, if any timer is pending
    ///
    /// The event loop sleeps until then, unless input arrives earlier.
    pub fn next_resume(&self) -> (r: Option<u64>)
        ensures
            self.timers@.len() == 0 ==> r.is_none(),
            self.timers@.len() > 0 ==> r == Some(self.timers@[0].at),
            timers_sorted(self.timers@) ==> forall|i: int|
                0 <= i < self.timers@.len() ==> r.unwrap() <= (#[trigger] self.timers@[i]).at,
    {
        if self.timers.len() > 0 {
            Some(self.timers[0].at)
        } else {
            None
        }
    }

    /// Fire the first timer if it is due at `now`
    ///
    /// Returns the widget to wake, or `None` if no timer is due. A timer
    /// that fires once is dropped. A repeating timer is put back at the
    /// first of its instants after `now`, so that ticks that were missed
    /// are skipped; it is dropped if that instant cannot be represented.
    pub fn pop_due_timer(&mut self, now: u64) -> (r: Option<WidgetId>)
        requires
            old(self).wf(),
        ensures
            final(self).wf(),
            match r {
                Some(id) => {
                    &&& old(self).timers@.len() > 0
                    &&& old(self).timers@[0].at <= now
                    &&& id == old(self).timers@[0].id
                    &&& final(self).timers@ == after_fire(old(self).timers@, now)
                    &&& due_count(final(self).timers@, now) < due_count(old(self).timers@, now)
                },
                None => {
                    &&& final(self).timers@ == old(self).timers@
                    &&& (old(self).timers@.len() == 0 || old(self).timers@[0].at > now)
                    &&& due_count(old(self).timers@, now) == 0
                },
            },
            final(self).grabs@ == old(self).grabs@,
            final(self).action == old(self).action,
            final(self).same_but_grabs_and_timers(old(self)),
    {
        proof {
            lemma_due_count(self.timers@, now);
        }
        if self.timers.len() == 0 || self.timers[0].at > now {
            return None;
        }
        proof {
            lemma_after_fire(self.timers@, now);
            lemma_remove_sorted(self.timers@, 0);
        }
        let t = self.timers.remove(0);
        if t.every > 0 {
            proof {
                lemma_next_fire(t, now);
            }
            let quot = (now - t.at) / t.every;
            let next = match quot.checked_add(1) {
                Some(steps) => match steps.checked_mul(t.every) {
                    Some(span) => t.at.checked_add(span),
                    None => None,
                },
                None => None,
            };
            proof {
                let e = t.every as int;
                let steps = quot as int + 1;
                assert(e * ((now - t.at) / e + 1) == steps * e) by (nonlinear_arith)
                    requires
                        steps == (now - t.at) / e + 1,
                ;
                assert(steps * e >= steps) by (nonlinear_arith)
                    requires
                        e >= 1,
                        steps >= 0,
                ;
            }
            if let Some(at) = next {
                let again = Timer { at, id: t.id, every: t.every };
                let pos = self.due_until(at);
                self.timers.insert(pos, again);
            }
        }
        Some(t.id)
    }
}

} // verus!
