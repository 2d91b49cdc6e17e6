//! When to reconcile which `Echo`.
//!
//! Triggers for one resource that come close together are answered by one
//! reconciliation: the first trigger opens a window, and the resource is
//! due when the window closes. A resource that is being reconciled is not
//! handed out a second time before that reconciliation is over.
//!
//! Times are milliseconds on a clock of the caller's choice that never
//! runs backwards.

use crate::keyed::{KeyView, KeyedList, TriggerKey};
use crate::reconcile::Requeue;
use vstd::prelude::*;

verus! {

/// Length of the window in which triggers are gathered, in milliseconds.
pub const DEBOUNCE_MILLIS: u64 = 500;

/// Number of reconciliations that run side by side at most.
pub const RECONCILE_WORKERS: usize = 16;

/// The time `delay` after `now`, or the end of time where that is beyond it.
pub open spec fn deadline_after(now: u64, delay: u64) -> u64 {
    if now + delay > u64::MAX {
        u64::MAX
    } else {
        (now + delay) as u64
    }
}

/// The resources that wait for their reconciliation and those that are
/// being reconciled.
#[derive(Debug)]
pub struct Scheduler {
    window: u64,
    pending: KeyedList<u64>,
    running: KeyedList<u64>,
}

/// A `Scheduler` as plain values.
pub struct SchedulerView {
    /// Length of the window in milliseconds.
    pub window: u64,
    /// The time at which each waiting resource is due.
    pub pending: Map<KeyView, u64>,
    /// The resources that are being reconciled.
    pub running: Set<KeyView>,
}

impl View for Scheduler {
    type V = SchedulerView;

    closed spec fn view(&self) -> SchedulerView {
        SchedulerView {
            window: self.window,
            pending: self.pending@,
            running: self.running@.dom(),
        }
    }
}

impl SchedulerView {
    /// A scheduler that knows of no resource.
    pub open spec fn idle(window: u64) -> SchedulerView {
        SchedulerView { window, pending: Map::empty(), running: Set::empty() }
    }

    /// The scheduler after `key` was marked as due at `at`. A resource that
    /// waits already is due at the earlier of the two times.
    pub open spec fn scheduled(self, key: KeyView, at: u64) -> SchedulerView {
        SchedulerView {
            pending: self.pending.insert(
                key,
                if self.pending.contains_key(key) && self.pending[key] <= at {
                    self.pending[key]
                } else {
                    at
                },
            ),
            ..self
        }
    }

    /// The scheduler after a trigger for `key` at time `now`.
    pub open spec fn triggered(self, key: KeyView, now: u64) -> SchedulerView {
        self.scheduled(key, deadline_after(now, self.window))
    }

    /// `key` waits, its time has come, and it is not being reconciled.
    pub open spec fn is_due(self, key: KeyView, now: u64) -> bool {
        self.pending.contains_key(key) && self.pending[key] <= now && !self.running.contains(key)
    }

    /// The resources that are due at `now`.
    pub open spec fn due(self, now: u64) -> Set<KeyView> {
        Set::new(|key: KeyView| self.is_due(key, now))
    }

    /// The scheduler after the resources due at `now` were handed out: they
    /// wait no longer, and they are being reconciled.
    pub open spec fn after_take(self, now: u64) -> SchedulerView {
        SchedulerView {
            pending: self.pending.remove_keys(self.due(now)),
            running: self.running.union(self.due(now)),
            ..self
        }
    }

    /// The scheduler after the reconciliation of `key` is over.
    pub open spec fn finished(self, key: KeyView) -> SchedulerView {
        SchedulerView { running: self.running.remove(key), ..self }
    }

    /// The scheduler after the reconciliation of `key` has ended at `now`
    /// and has asked to be run again as `requeue` says.
    pub open spec fn requeued(self, key: KeyView, now: u64, requeue: Requeue) -> SchedulerView {
        match requeue {
            Requeue::After(seconds) => self.finished(key).scheduled(
                key,
                deadline_after(now, millis(seconds)),
            ),
            Requeue::AwaitChange => self.finished(key),
        }
    }

    /// `key` waits and is not being reconciled.
    pub open spec fn is_waiting(self, key: KeyView) -> bool {
        self.pending.contains_key(key) && !self.running.contains(key)
    }
}

/// `seconds` in milliseconds, or the end of time where that is beyond it.
pub open spec fn millis(seconds: u64) -> u64 {
    if seconds * 1000 > u64::MAX {
        u64::MAX
    } else {
        (seconds * 1000) as u64
    }
}

/// The time `delay` after `now`, or the end of time where that is beyond it.
pub fn time_after(now: u64, delay: u64) -> (at: u64)
    ensures
        at == deadline_after(now, delay),
{
    if delay > u64::MAX - now {
        u64::MAX
    } else {
        now + delay
    }
}

/// `seconds` in milliseconds, or the end of time where that is beyond it.
pub fn to_millis(seconds: u64) -> (ms: u64)
    ensures
        ms == millis(seconds),
{
    if seconds > u64::MAX / 1000 {
        u64::MAX
    } else {
        seconds * 1000
    }
}

impl Scheduler {
    /// A scheduler that gathers triggers for `window` milliseconds.
    pub fn new(window: u64) -> (scheduler: Scheduler)
        ensures
            scheduler@ == SchedulerView::idle(window),
    {
        Scheduler { window, pending: KeyedList::new(), running: KeyedList::new() }
    }

    /// Marks `key` as due at `at`, or earlier if it waits already.
    pub fn schedule(&mut self, key: TriggerKey, at: u64)
        ensures
            final(self)@ == old(self)@.scheduled(key@, at),
    {
        let earlier = match self.pending.get(&key) {
            Some(known) if *known <= at => *known,
            _ => at,
        };
        self.pending.insert(key, earlier);
    }

    /// Takes a trigger for `key` at time `now`.
    pub fn trigger(&mut self, key: TriggerKey, now: u64)
        ensures
            final(self)@ == old(self)@.triggered(key@, now),
    {
        let at = time_after(now, self.window);
        self.schedule(key, at);
    }

    /// Hands out the resources that are due at `now`, each once; they count
    /// as being reconciled until `finish` or `requeue` is called for them.
    pub fn take_due(&mut self, now: u64) -> (due: Vec<TriggerKey>)
        ensures
            final(self)@ == old(self)@.after_take(now),
            due.deep_view().no_duplicates(),
            due.deep_view().to_set() == old(self)@.due(now),
    {
        let ghost before = self@;
        let ghost keys = self.pending.keys();
        let mut due: Vec<TriggerKey> = Vec::new();
        let count = self.pending.len();
        let mut i: usize = 0;
        while i < count
            invariant
                i <= count == keys.len(),
                self@ == before,
                keys == self.pending.keys(),
                keys.no_duplicates(),
                forall|key: KeyView| before.pending.contains_key(key) <==> keys.contains(key),
                due.deep_view().no_duplicates(),
                forall|at: int|
                    0 <= at < due.len() ==> exists|j: int|
                        0 <= j < i && keys[j] == #[trigger] due.deep_view()[at],
                forall|at: int|
                    0 <= at < due.len() ==> before.is_due(#[trigger] due.deep_view()[at], now),
                forall|j: int|
                    0 <= j < i && before.is_due(#[trigger] keys[j], now)
                        ==> due.deep_view().contains(keys[j]),
            decreases count - i,
        {
            let (key, at) = self.pending.entry(i);
            let ghost so_far = due.deep_view();
            if *at <= now && self.running.get(key).is_none() {
                due.push(key.clone());
                proof {
                    let longer = due.deep_view();
                    assert(longer =~= so_far.push(keys[i as int]));
                    assert forall|j: int|
                        0 <= j < i + 1 && before.is_due(
                            #[trigger] keys[j],
                            now,
                        ) implies longer.contains(keys[j]) by {
                        if j < i {
                            let at = choose|at: int|
                                0 <= at < so_far.len() && so_far[at] == keys[j];
                            assert(longer[at] == keys[j]);
                        } else {
                            assert(longer[so_far.len() as int] == keys[j]);
                        }
                    }
                }
            }
            i += 1;
        }
        let ghost handed = due.deep_view();
        proof {
            assert(handed.to_set() =~= before.due(now)) by {
                assert forall|key: KeyView| handed.to_set().contains(key) == before.due(
                    now,
                ).contains(key) by {
                    if before.is_due(key, now) {
                        assert(keys.contains(key));
                        let j = choose|j: int| 0 <= j < keys.len() && keys[j] == key;
                    }
                    if handed.contains(key) {
                        let at = choose|at: int| 0 <= at < handed.len() && handed[at] == key;
                    }
                }
            }
        }
        let mut k: usize = 0;
        while k < due.len()
            invariant
                k <= due.len(),
                handed == due.deep_view(),
                self.window == before.window,
                self.pending@ == before.pending.remove_keys(handed.take(k as int).to_set()),
                self.running@.dom() == before.running.union(handed.take(k as int).to_set()),
            decreases due.len() - k,
        {
            let ghost done = handed.take(k as int).to_set();
            let ghost more = handed.take(k + 1).to_set();
            self.pending.remove(&due[k]);
            self.running.insert(due[k].clone(), now);
            proof {
                let shorter = handed.take(k as int);
                let longer = handed.take(k + 1);
                assert(more =~= done.insert(handed[k as int])) by {
                    assert forall|key: KeyView| more.contains(key) == done.insert(
                        handed[k as int],
                    ).contains(key) by {
                        if longer.contains(key) {
                            let at = choose|at: int| 0 <= at < longer.len() && longer[at] == key;
                        }
                        if shorter.contains(key) {
                            let at = choose|at: int|
                                0 <= at < shorter.len() && shorter[at] == key;
                        }
                        if key == handed[k as int] {
                            assert(longer[k as int] == key);
                        }
                    }
                }
            }
            k += 1;
        }
        assert(handed.take(k as int) =~= handed);
        due
    }

    /// Takes note that the reconciliation of `key` is over.
    pub fn finish(&mut self, key: &TriggerKey)
        ensures
            final(self)@ == old(self)@.finished(key@),
    {
        self.running.remove(key);
    }

    /// Takes note that the reconciliation of `key` has ended at `now`, and
    /// marks the resource as due again as `requeue` says.
    pub fn requeue(&mut self, key: TriggerKey, now: u64, requeue: Requeue)
        ensures
            final(self)@ == old(self)@.requeued(key@, now, requeue),
    {
        self.finish(&key);
        match requeue {
            Requeue::After(seconds) => {
                let at = time_after(now, to_millis(seconds));
                self.schedule(key, at);
            },
            Requeue::AwaitChange => {},
        }
    }

    /// The time at which the next resource is due: the earliest among the
    /// resources that wait and are not being reconciled.
    pub fn next_deadline(&self) -> (next: Option<u64>)
        ensures
            match next {
                Some(at) => {
                    &&& exists|key: KeyView| self@.is_waiting(key) && self@.pending[key] == at
                    &&& forall|key: KeyView|
                        self@.is_waiting(key) ==> at <= #[trigger] self@.pending[key]
                },
                None => forall|key: KeyView| !#[trigger] self@.is_waiting(key),
            },
    {
        let ghost keys = self.pending.keys();
        let mut next: Option<u64> = None;
        let count = self.pending.len();
        let mut i: usize = 0;
        while i < count
            invariant
                i <= count == keys.len(),
                keys == self.pending.keys(),
                forall|key: KeyView| self@.pending.contains_key(key) <==> keys.contains(key),
                match next {
                    Some(at) => {
                        &&& exists|j: int|
                            0 <= j < i && self@.is_waiting(keys[j]) && self@.pending[keys[j]]
                                == at
                        &&& forall|j: int|
                            0 <= j < i && self@.is_waiting(#[trigger] keys[j]) ==> at
                                <= self@.pending[keys[j]]
                    },
                    None => forall|j: int| 0 <= j < i ==> !self@.is_waiting(#[trigger] keys[j]),
                },
            decreases count - i,
        {
            let (key, at) = self.pending.entry(i);
            if self.running.get(key).is_none() {
                match next {
                    Some(best) if best <= *at => {},
                    _ => {
                        next = Some(*at);
                    },
                }
            }
            i += 1;
        }
        proof {
            match next {
                Some(at) => {
                    let j = choose|j: int|
                        0 <= j < i && self@.is_waiting(keys[j]) && self@.pending[keys[j]] == at;
                    assert forall|key: KeyView| self@.is_waiting(key) implies at
                        <= #[trigger] self@.pending[key] by {
                        assert(keys.contains(key));
                        let j = choose|j: int| 0 <= j < keys.len() && keys[j] == key;
                    }
                },
                None => {
                    assert forall|key: KeyView| !#[trigger] self@.is_waiting(key) by {
                        if self@.is_waiting(key) {
                            assert(keys.contains(key));
                            let j = choose|j: int| 0 <= j < keys.len() && keys[j] == key;
                        }
                    }
                },
            }
        }
        next
    }
}

/// The scheduler and the number of reconciliations of `key` after triggers
/// for it at `times`. Before each trigger the resources that are due at
/// its time are handed out, and the reconciliation of `key`, if one began,
/// runs to its end.
pub open spec fn served(scheduler: SchedulerView, key: KeyView, times: Seq<u64>) -> (
    SchedulerView,
    nat,
)
    decreases times.len(),
{
    if times.len() == 0 {
        (scheduler, 0nat)
    } else {
        let (before, calls) = served(scheduler, key, times.drop_last());
        let now = times.last();
        let began = before.is_due(key, now);
        let handed = before.after_take(now);
        let settled = if began {
            handed.finished(key)
        } else {
            handed
        };
        (
            settled.triggered(key, now),
            if began {
                calls + 1
            } else {
                calls
            },
        )
    }
}

/// The number of reconciliations of `key` that triggers at `times` lead to,
/// the one that begins when the last window has closed included.
pub open spec fn reconciliations(scheduler: SchedulerView, key: KeyView, times: Seq<u64>) -> nat {
    let (end, calls) = served(scheduler, key, times);
    if end.is_due(key, u64::MAX) {
        calls + 1
    } else {
        calls
    }
}

proof fn lemma_burst_gathered(scheduler: SchedulerView, key: KeyView, times: Seq<u64>)
    requires
        !scheduler.pending.contains_key(key),
        !scheduler.running.contains(key),
        times.len() >= 1,
        forall|i: int|
            0 <= i < times.len() ==> times[0] <= #[trigger] times[i] < deadline_after(
                times[0],
                scheduler.window,
            ),
    ensures
        ({
            let (end, calls) = served(scheduler, key, times);
            &&& calls == 0
            &&& end.window == scheduler.window
            &&& end.pending.contains_key(key)
            &&& end.pending[key] == deadline_after(times[0], scheduler.window)
            &&& !end.running.contains(key)
        }),
    decreases times.len(),
{
    let front = times.drop_last();
    if front.len() > 0 {
        lemma_burst_gathered(scheduler, key, front);
    }
    let (before, calls) = served(scheduler, key, front);
}

/// Debounce, first half: triggers for one resource that all come within
/// the window that the first of them opens lead to exactly one
/// reconciliation, however many they are, and that one does not begin
/// before the window has closed. The resource is neither waiting nor being
/// reconciled when the first trigger comes.
pub proof fn lemma_burst_reconciled_once(scheduler: SchedulerView, key: KeyView, times: Seq<u64>)
    requires
        !scheduler.pending.contains_key(key),
        !scheduler.running.contains(key),
        times.len() >= 1,
        forall|i: int|
            0 <= i < times.len() ==> times[0] <= #[trigger] times[i] < deadline_after(
                times[0],
                scheduler.window,
            ),
    ensures
        reconciliations(scheduler, key, times) == 1,
        forall|now: u64|
            now < deadline_after(times[0], scheduler.window) ==> !served(
                scheduler,
                key,
                times,
            ).0.is_due(key, now),
{
    lemma_burst_gathered(scheduler, key, times);
}

proof fn lemma_spaced_served(scheduler: SchedulerView, key: KeyView, times: Seq<u64>)
    requires
        !scheduler.pending.contains_key(key),
        !scheduler.running.contains(key),
        times.len() >= 1,
        forall|i: int|
            0 <= i < times.len() - 1 ==> deadline_after(#[trigger] times[i], scheduler.window)
                <= times[i + 1],
    ensures
        ({
            let (end, calls) = served(scheduler, key, times);
            &&& calls == times.len() - 1
            &&& end.window == scheduler.window
            &&& end.pending.contains_key(key)
            &&& end.pending[key] == deadline_after(times.last(), scheduler.window)
            &&& !end.running.contains(key)
        }),
    decreases times.len(),
{
    let front = times.drop_last();
    if front.len() > 0 {
        lemma_spaced_served(scheduler, key, front);
    } else {
        let (before, calls) = served(scheduler, key, front);
    }
}

/// Debounce, second half: triggers for one resource of which each comes
/// when the window of the one before has closed lead to as many
/// reconciliations as there are triggers.
pub proof fn lemma_spaced_reconciled_each(scheduler: SchedulerView, key: KeyView, times: Seq<u64>)
    requires
        !scheduler.pending.contains_key(key),
        !scheduler.running.contains(key),
        forall|i: int|
            0 <= i < times.len() - 1 ==> deadline_after(#[trigger] times[i], scheduler.window)
                <= times[i + 1],
    ensures
        reconciliations(scheduler, key, times) == times.len(),
{
    if times.len() >= 1 {
        lemma_spaced_served(scheduler, key, times);
    }
}

/// A resource is handed out at most once at a time: what `take_due` hands
/// out is not being reconciled before, is being reconciled after, and is
/// not due again before its reconciliation is over.
pub proof fn lemma_one_at_a_time(scheduler: SchedulerView, key: KeyView, now: u64, later: u64)
    requires
        scheduler.is_due(key, now),
    ensures
        !scheduler.running.contains(key),
        scheduler.after_take(now).running.contains(key),
        !scheduler.after_take(now).is_due(key, later),
        !scheduler.after_take(now).triggered(key, later).is_due(key, u64::MAX),
{
}

/// No trigger is lost: a resource that was triggered waits until it is
/// handed out. Its time comes when its window closes at the latest;
/// triggers for it and for others, and reconciliations of others that
/// begin or end, do not take it off the list or push its time back.
pub proof fn lemma_trigger_kept(
    scheduler: SchedulerView,
    key: KeyView,
    now: u64,
    other: KeyView,
    later: u64,
)
    requires
        other != key,
    ensures
        ({
            let waiting = scheduler.triggered(key, now);
            let at = waiting.pending[key];
            &&& waiting.pending.contains_key(key)
            &&& at <= deadline_after(now, scheduler.window)
            &&& waiting.triggered(key, later).pending.contains_key(key)
            &&& waiting.triggered(key, later).pending[key] <= at
            &&& waiting.triggered(other, later).pending.contains_key(key)
            &&& waiting.triggered(other, later).pending[key] == at
            &&& waiting.finished(other).pending.contains_key(key)
            &&& waiting.finished(other).pending[key] == at
            &&& !waiting.is_due(key, later) ==> waiting.after_take(later).pending.contains_key(key)
                && waiting.after_take(later).pending[key] == at
        }),
{
}

/// No resource is left behind: a resource whose reconciliation has ended
/// with the wish to run again, as every failed one does, waits for its
/// next reconciliation and is due when the delay has passed. A trigger
/// that came in the meantime is not lost either.
pub proof fn lemma_runs_again(
    scheduler: SchedulerView,
    key: KeyView,
    now: u64,
    seconds: u64,
    later: u64,
)
    requires
        later >= deadline_after(now, millis(seconds)),
    ensures
        scheduler.requeued(key, now, Requeue::After(seconds)).is_due(key, later),
        scheduler.pending.contains_key(key) ==> scheduler.requeued(
            key,
            now,
            Requeue::AwaitChange,
        ).is_due(key, u64::MAX),
{
}

} // verus!
