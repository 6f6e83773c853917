//! The deduplicating scheduler for keyed background jobs.
//!
//! A caller in the main loop asks, once per update per job site, whether that
//! site's job should run now. The scheduler keeps one state per [`JobKey`]
//! and guarantees that at most one run of a job is ever in flight, that a
//! request arriving mid-flight under [`Run::OnChange`] is deferred rather
//! than lost, and that a failed run's error is delivered exactly once, to the
//! next request for the same key.

use vstd::prelude::*;

verus! {

/// When a job site wants its job run.
#[derive(Clone, Copy, Debug)]
pub enum Run {
    /// Launch whenever no run is in flight; a request that arrives mid-flight
    /// is dropped, not queued.
    AsOftenAsPossible,
    /// Like [`Run::AsOftenAsPossible`], but also at most one launch per
    /// period. The period is measured in the same time unit as the `now`
    /// argument of [`Scheduler::async_system`] (the host typically passes
    /// milliseconds of a monotone clock).
    MaxRate(u64),
    /// Change-triggered scheduling.
    ///
    /// If `triggered` is true, the job is scheduled to run as soon as
    /// possible. If a run is currently in flight, exactly one follow-up run
    /// is recorded and launched by a later request after the current run
    /// completes (no double-scheduling). If `triggered` later becomes false,
    /// the recorded follow-up run remains scheduled.
    OnChange { triggered: bool },
}

/// Identifies one deduplication slot. `site` is stable for one call site
/// across calls (for instance a hash of the enclosing system's name);
/// `discriminator` tells apart distinct jobs declared at the same call site,
/// so that two jobs registered in one function are not conflated.
#[derive(Clone, Copy, PartialEq, Eq, Structural)]
pub struct JobKey {
    pub site: u64,
    pub discriminator: u64,
}

/// The per-key record the scheduler keeps. A key that has never been seen
/// behaves as [`JobState::init`]: nothing in flight, nothing pending, no
/// start recorded, no error stored.
pub struct JobState<E> {
    /// A run was launched and its completion has not been reported yet.
    pub in_flight: bool,
    /// A follow-up run was requested while one was in flight; consumed
    /// exactly when that deferred run launches.
    pub pending: bool,
    /// When the last rate-limited launch happened, in the caller's time unit.
    pub last_start: Option<u64>,
    /// The error of the last completed run, held until the next request for
    /// this key picks it up.
    pub last_error: Option<E>,
}

impl<E> JobState<E> {
    /// The state of a key on first observation.
    pub open spec fn init() -> Self {
        JobState { in_flight: false, pending: false, last_start: None, last_error: None }
    }

    /// A fresh record, equal to [`JobState::init`].
    pub fn new() -> (s: Self)
        ensures
            s == Self::init(),
    {
        JobState { in_flight: false, pending: false, last_start: None, last_error: None }
    }
}

/// What one scheduling request decided.
pub enum ScheduleOutcome<E> {
    /// The caller must launch the job now, and report the run's end through
    /// [`Scheduler::complete`].
    Launch,
    /// Nothing to do this update.
    Skip,
    /// The previous run of this key failed; its error is delivered here, once,
    /// and no policy is evaluated on this request. Whether and when to retry
    /// is the caller's decision.
    JobFailed(E),
}

/// Whether enough time has passed since the last recorded start for a
/// [`Run::MaxRate`] launch: always, if no start is recorded; otherwise only
/// when at least `period` time units lie between it and `now`.
pub open spec fn rate_ready(last_start: Option<u64>, now: u64, period: u64) -> bool {
    match last_start {
        None => true,
        Some(start) => start <= now && now - start >= period,
    }
}

/// The scheduler's state machine: what one request does to the state of its
/// key, and what the caller is told.
///
/// A stored error preempts everything: it is cleared and returned, and the
/// policy is not evaluated. Otherwise the policy decides; a launch is only
/// ever decided from a state with nothing in flight, and marks the new state
/// in flight.
pub open spec fn sched_step<E>(st: JobState<E>, run: Run, now: u64) -> (JobState<E>, ScheduleOutcome<
    E,
>) {
    match st.last_error {
        Some(e) => (
            JobState {
                in_flight: st.in_flight,
                pending: st.pending,
                last_start: st.last_start,
                last_error: None,
            },
            ScheduleOutcome::JobFailed(e),
        ),
        None => match run {
            Run::AsOftenAsPossible => {
                if st.in_flight {
                    (st, ScheduleOutcome::Skip)
                } else {
                    (
                        JobState {
                            in_flight: true,
                            pending: st.pending,
                            last_start: st.last_start,
                            last_error: None,
                        },
                        ScheduleOutcome::Launch,
                    )
                }
            },
            Run::MaxRate(period) => {
                if st.in_flight {
                    (st, ScheduleOutcome::Skip)
                } else if !rate_ready(st.last_start, now, period) {
                    (st, ScheduleOutcome::Skip)
                } else {
                    (
                        JobState {
                            in_flight: true,
                            pending: st.pending,
                            last_start: Some(now),
                            last_error: None,
                        },
                        ScheduleOutcome::Launch,
                    )
                }
            },
            Run::OnChange { triggered } => {
                let pending = st.pending || triggered;
                if st.in_flight {
                    (
                        JobState {
                            in_flight: true,
                            pending: pending,
                            last_start: st.last_start,
                            last_error: None,
                        },
                        ScheduleOutcome::Skip,
                    )
                } else if !pending {
                    (st, ScheduleOutcome::Skip)
                } else {
                    (
                        JobState {
                            in_flight: true,
                            pending: false,
                            last_start: st.last_start,
                            last_error: None,
                        },
                        ScheduleOutcome::Launch,
                    )
                }
            },
        },
    }
}

/// What the completion report of a run does to the state of its key: the run
/// is no longer in flight, and if it failed, its error is stored for the next
/// request to pick up. A recorded follow-up request stays recorded; the
/// completion itself never relaunches.
pub open spec fn complete_step<E>(st: JobState<E>, error: Option<E>) -> JobState<E> {
    JobState {
        in_flight: false,
        pending: st.pending,
        last_start: st.last_start,
        last_error: match error {
            Some(e) => Some(e),
            None => st.last_error,
        },
    }
}

/// A launch is only ever decided from a state with nothing in flight, and
/// leaves the key in flight: launched runs of one key can never overlap.
pub proof fn lemma_launch_from_idle<E>(st: JobState<E>, run: Run, now: u64)
    ensures
        sched_step(st, run, now).1 is Launch ==> !st.in_flight,
        sched_step(st, run, now).1 is Launch ==> sched_step(st, run, now).0.in_flight,
{
}

/// While a run of a key is in flight, no request for that key launches a
/// second one, whatever its policy, and the key stays in flight: only a
/// completion report ends that.
pub proof fn lemma_no_launch_while_in_flight<E>(st: JobState<E>, run: Run, now: u64)
    requires
        st.in_flight,
    ensures
        !(sched_step(st, run, now).1 is Launch),
        sched_step(st, run, now).0.in_flight,
{
}

/// How many of a sequence of requests, stepped in order with no completion
/// report in between, are told to launch.
pub open spec fn launches_in<E>(st: JobState<E>, reqs: Seq<(Run, u64)>) -> nat
    decreases reqs.len(),
{
    if reqs.len() == 0 {
        0
    } else {
        let (st1, outcome) = sched_step(st, reqs[0].0, reqs[0].1);
        launches_in(st1, reqs.drop_first()) + if outcome is Launch {
            1nat
        } else {
            0nat
        }
    }
}

/// Any sequence of requests for a key whose job is in flight — as often as
/// possible, rate-limited or change-triggered, in any mix — launches nothing
/// at all until a completion report arrives: at no time are two runs of one
/// key in flight together.
pub proof fn lemma_no_concurrent_runs<E>(st: JobState<E>, reqs: Seq<(Run, u64)>)
    requires
        st.in_flight,
    ensures
        launches_in(st, reqs) == 0,
        reqs.len() > 0 ==> launches_in(st, reqs) == launches_in(
            sched_step(st, reqs[0].0, reqs[0].1).0,
            reqs.drop_first(),
        ),
    decreases reqs.len(),
{
    if reqs.len() > 0 {
        lemma_no_launch_while_in_flight(st, reqs[0].0, reqs[0].1);
        lemma_no_concurrent_runs(sched_step(st, reqs[0].0, reqs[0].1).0, reqs.drop_first());
    }
}

/// From an idle key with no stored error, a burst of as-often-as-possible
/// requests with no completion report in between launches exactly once: the
/// first request launches, and every further one is dropped while that run
/// is in flight.
pub proof fn lemma_as_often_burst_launches_once<E>(st: JobState<E>, reqs: Seq<(Run, u64)>)
    requires
        !st.in_flight,
        st.last_error is None,
        reqs.len() > 0,
        forall|i: int| 0 <= i < reqs.len() ==> reqs[i].0 is AsOftenAsPossible,
    ensures
        launches_in(st, reqs) == 1,
{
    assert(reqs[0].0 is AsOftenAsPossible);
    let (st1, outcome) = sched_step(st, reqs[0].0, reqs[0].1);
    assert(outcome is Launch);
    lemma_no_concurrent_runs(st1, reqs.drop_first());
}

/// Rate limiting: once a [`Run::MaxRate`] request launches at `t0`, a second
/// request for the key less than one period later launches nothing — whether
/// the first run is still in flight or already completed without error — and
/// a request one full period later, after a clean completion, launches again.
pub proof fn lemma_max_rate_spacing<E>(st: JobState<E>, period: u64, t0: u64, t1: u64)
    requires
        sched_step(st, Run::MaxRate(period), t0).1 is Launch,
    ensures
        ({
            let st1 = sched_step(st, Run::MaxRate(period), t0).0;
            &&& st1.last_start == Some(t0)
            &&& t1 < t0 + period ==> !(sched_step(st1, Run::MaxRate(period), t1).1 is Launch)
            &&& t1 < t0 + period ==> !(sched_step(
                complete_step(st1, None),
                Run::MaxRate(period),
                t1,
            ).1 is Launch)
            &&& t1 >= t0 + period ==> sched_step(
                complete_step(st1, None),
                Run::MaxRate(period),
                t1,
            ).1 is Launch
        }),
{
}

/// Change-triggered deduplication: a trigger that arrives while the key's
/// job is in flight is not lost and not duplicated. It launches nothing at
/// once; after the in-flight run completes, the next request launches exactly
/// one follow-up run, even with the trigger gone; and once that follow-up
/// completes, a further untriggered request launches nothing.
pub proof fn lemma_on_change_exactly_one_followup<E>(
    st: JobState<E>,
    t1: u64,
    t2: u64,
    t3: u64,
)
    requires
        st.in_flight,
        !st.pending,
        st.last_error is None,
    ensures
        ({
            let (s1, o1) = sched_step(st, Run::OnChange { triggered: true }, t1);
            let s2 = complete_step(s1, None);
            let (s3, o2) = sched_step(s2, Run::OnChange { triggered: false }, t2);
            let s4 = complete_step(s3, None);
            let (s5, o3) = sched_step(s4, Run::OnChange { triggered: false }, t3);
            &&& !(o1 is Launch)
            &&& s1.pending
            &&& o2 is Launch
            &&& !s3.pending
            &&& !(o3 is Launch)
        }),
{
}

/// Error delivery is one-shot and pull-based: after a run of a key completes
/// with an error, the very next request for that key is handed exactly that
/// error and clears it, and the request after that is not handed an error.
pub proof fn lemma_error_delivered_once<E>(
    st: JobState<E>,
    e: E,
    run1: Run,
    t1: u64,
    run2: Run,
    t2: u64,
)
    ensures
        ({
            let s1 = complete_step(st, Some(e));
            let (s2, o1) = sched_step(s1, run1, t1);
            let (s3, o2) = sched_step(s2, run2, t2);
            &&& o1 == ScheduleOutcome::JobFailed(e)
            &&& s2.last_error is None
            &&& !(o2 is JobFailed)
        }),
{
}

/// One key's record in the scheduler's table.
struct Slot<E> {
    key: JobKey,
    state: JobState<E>,
}

/// `i` is a position of `k` in the table.
spec fn keyed_at<E>(s: Seq<Slot<E>>, k: JobKey, i: int) -> bool {
    0 <= i < s.len() && s[i].key == k
}

spec fn has_key<E>(s: Seq<Slot<E>>, k: JobKey) -> bool {
    exists|i: int| keyed_at(s, k, i)
}

/// The state the table holds for `k`; a key never seen behaves as
/// [`JobState::init`].
spec fn state_in<E>(s: Seq<Slot<E>>, k: JobKey) -> JobState<E> {
    if has_key(s, k) {
        s[choose|i: int| keyed_at(s, k, i)].state
    } else {
        JobState::init()
    }
}

spec fn unique_keys<E>(s: Seq<Slot<E>>) -> bool {
    forall|i: int, j: int| 0 <= i < j < s.len() ==> s[i].key != s[j].key
}

proof fn lemma_state_at<E>(s: Seq<Slot<E>>, i: int)
    requires
        unique_keys(s),
        0 <= i < s.len(),
    ensures
        has_key(s, s[i].key),
        state_in(s, s[i].key) == s[i].state,
{
    let k = s[i].key;
    assert(keyed_at(s, k, i));
    let j = choose|j: int| keyed_at(s, k, j);
    if i < j {
        assert(s[i].key != s[j].key);
    } else if j < i {
        assert(s[j].key != s[i].key);
    }
}

proof fn lemma_absent<E>(s: Seq<Slot<E>>, k: JobKey)
    requires
        forall|i: int| 0 <= i < s.len() ==> s[i].key != k,
    ensures
        !has_key(s, k),
        state_in(s, k) == JobState::<E>::init(),
{
    if has_key(s, k) {
        let i = choose|i: int| keyed_at(s, k, i);
        assert(s[i].key != k);
    }
}

/// Replacing the record at a position, key unchanged, changes that key's
/// state and nothing else.
proof fn lemma_update<E>(s: Seq<Slot<E>>, i: int, slot: Slot<E>)
    requires
        unique_keys(s),
        0 <= i < s.len(),
        slot.key == s[i].key,
    ensures
        unique_keys(s.update(i, slot)),
        state_in(s.update(i, slot), slot.key) == slot.state,
        forall|k: JobKey|
            k != slot.key ==> state_in(s.update(i, slot), k) == state_in(s, k),
{
    let s2 = s.update(i, slot);
    assert forall|a: int, b: int| 0 <= a < b < s2.len() implies s2[a].key != s2[b].key by {
        assert(s[a].key != s[b].key);
    }
    lemma_state_at(s2, i);
    assert forall|k: JobKey| k != slot.key implies state_in(s2, k) == state_in(s, k) by {
        if has_key(s2, k) {
            let j = choose|j: int| keyed_at(s2, k, j);
            assert(j != i);
            assert(keyed_at(s, k, j));
            lemma_state_at(s, j);
            lemma_state_at(s2, j);
        } else {
            if has_key(s, k) {
                let j = choose|j: int| keyed_at(s, k, j);
                assert(j != i);
                assert(keyed_at(s2, k, j));
                assert(false);
            }
        }
    }
}

/// Appending a record under a key the table does not hold changes that key's
/// state and nothing else.
proof fn lemma_push<E>(s: Seq<Slot<E>>, slot: Slot<E>)
    requires
        unique_keys(s),
        !has_key(s, slot.key),
    ensures
        unique_keys(s.push(slot)),
        state_in(s.push(slot), slot.key) == slot.state,
        forall|k: JobKey| k != slot.key ==> state_in(s.push(slot), k) == state_in(s, k),
{
    let s2 = s.push(slot);
    assert forall|a: int, b: int| 0 <= a < b < s2.len() implies s2[a].key != s2[b].key by {
        if b < s.len() {
            assert(s[a].key != s[b].key);
        } else {
            assert(s2[b] == slot);
            if s[a].key == slot.key {
                assert(keyed_at(s, slot.key, a));
            }
        }
    }
    lemma_state_at(s2, s.len() as int);
    assert forall|k: JobKey| k != slot.key implies state_in(s2, k) == state_in(s, k) by {
        if has_key(s2, k) {
            let j = choose|j: int| keyed_at(s2, k, j);
            assert(j != s.len());
            assert(keyed_at(s, k, j));
            lemma_state_at(s, j);
            lemma_state_at(s2, j);
        } else {
            if has_key(s, k) {
                let j = choose|j: int| keyed_at(s, k, j);
                assert(keyed_at(s2, k, j));
                assert(false);
            }
        }
    }
}

/// The deduplication table: one [`JobState`] per [`JobKey`], every key held
/// at most once. `E` is the error type the caller's jobs report.
pub struct Scheduler<E> {
    states: Vec<Slot<E>>,
}

impl<E> Scheduler<E> {
    /// No key appears twice in the table.
    pub closed spec fn wf(self) -> bool {
        unique_keys(self.states@)
    }

    /// The state this scheduler holds for `key`; a key never seen behaves as
    /// [`JobState::init`].
    pub closed spec fn state_of(self, key: JobKey) -> JobState<E> {
        state_in(self.states@, key)
    }

    /// An empty scheduler: every key is idle with no history.
    pub fn new() -> (s: Self)
        ensures
            s.wf(),
            forall|k: JobKey| s.state_of(k) == JobState::<E>::init(),
    {
        let s = Scheduler { states: Vec::new() };
        proof {
            assert forall|k: JobKey| s.state_of(k) == JobState::<E>::init() by {
                lemma_absent(s.states@, k);
            }
        }
        s
    }

    /// The position of `key` in the table, if it has one.
    fn find(&self, key: JobKey) -> (r: Option<usize>)
        ensures
            match r {
                Some(i) => keyed_at(self.states@, key, i as int),
                None => forall|i: int| 0 <= i < self.states@.len() ==> self.states@[i].key != key,
            },
    {
        let n = self.states.len();
        let mut i: usize = 0;
        while i < n
            invariant
                n == self.states@.len(),
                i <= n,
                forall|j: int| 0 <= j < i ==> self.states@[j].key != key,
            decreases n - i,
        {
            if self.states[i].key == key {
                return Some(i);
            }
            i += 1;
        }
        None
    }

    /// One scheduling request for `key`'s job site, made once per update from
    /// the main loop. `now` is the caller's monotone clock, in the unit of
    /// [`Run::MaxRate`] periods. The request steps `key`'s state by
    /// [`sched_step`] and touches no other key; the outcome tells the caller
    /// whether to launch the job now, and delivers a stored error instead of
    /// evaluating the policy if the previous run failed.
    pub fn async_system(&mut self, key: JobKey, run: Run, now: u64) -> (outcome: ScheduleOutcome<
        E,
    >)
        requires
            old(self).wf(),
        ensures
            final(self).wf(),
            final(self).state_of(key) == sched_step(old(self).state_of(key), run, now).0,
            outcome == sched_step(old(self).state_of(key), run, now).1,
            forall|k: JobKey| k != key ==> final(self).state_of(k) == old(self).state_of(k),
    {
        let ghost s0 = self.states@;
        let found = self.find(key);
        let st: JobState<E> = match found {
            Some(i) => {
                let slot = self.states.remove(i);
                slot.state
            },
            None => JobState::new(),
        };
        proof {
            match found {
                Some(i) => lemma_state_at(s0, i as int),
                None => lemma_absent(s0, key),
            }
        }
        let ghost st0 = st;
        let JobState { in_flight, pending, last_start, last_error } = st;
        let (new_state, outcome): (JobState<E>, ScheduleOutcome<E>) = match last_error {
            Some(e) => (
                JobState { in_flight, pending, last_start, last_error: None },
                ScheduleOutcome::JobFailed(e),
            ),
            None => match run {
                Run::AsOftenAsPossible => {
                    if in_flight {
                        (
                            JobState { in_flight, pending, last_start, last_error: None },
                            ScheduleOutcome::Skip,
                        )
                    } else {
                        (
                            JobState { in_flight: true, pending, last_start, last_error: None },
                            ScheduleOutcome::Launch,
                        )
                    }
                },
                Run::MaxRate(period) => {
                    let ready = match last_start {
                        None => true,
                        Some(start) => start <= now && now - start >= period,
                    };
                    if in_flight || !ready {
                        (
                            JobState { in_flight, pending, last_start, last_error: None },
                            ScheduleOutcome::Skip,
                        )
                    } else {
                        (
                            JobState {
                                in_flight: true,
                                pending,
                                last_start: Some(now),
                                last_error: None,
                            },
                            ScheduleOutcome::Launch,
                        )
                    }
                },
                Run::OnChange { triggered } => {
                    let new_pending = pending || triggered;
                    if in_flight {
                        (
                            JobState {
                                in_flight: true,
                                pending: new_pending,
                                last_start,
                                last_error: None,
                            },
                            ScheduleOutcome::Skip,
                        )
                    } else if !new_pending {
                        (
                            JobState { in_flight: false, pending, last_start, last_error: None },
                            ScheduleOutcome::Skip,
                        )
                    } else {
                        (
                            JobState {
                                in_flight: true,
                                pending: false,
                                last_start,
                                last_error: None,
                            },
                            ScheduleOutcome::Launch,
                        )
                    }
                },
            },
        };
        proof {
            assert(new_state == sched_step(st0, run, now).0);
            assert(outcome == sched_step(st0, run, now).1);
        }
        let slot = Slot { key, state: new_state };
        let ghost gslot = slot;
        match found {
            Some(i) => {
                self.states.insert(i, slot);
                proof {
                    assert(self.states@ =~= s0.update(i as int, gslot));
                    lemma_update(s0, i as int, gslot);
                }
            },
            None => {
                self.states.push(slot);
                proof {
                    lemma_push(s0, gslot);
                }
            },
        }
        outcome
    }

    /// Whether a run of `key`'s job is currently in flight: launched and not
    /// yet reported complete.
    pub fn is_in_flight(&self, key: JobKey) -> (b: bool)
        requires
            self.wf(),
        ensures
            b == self.state_of(key).in_flight,
    {
        match self.find(key) {
            Some(i) => {
                proof {
                    lemma_state_at(self.states@, i as int);
                }
                self.states[i].state.in_flight
            },
            None => {
                proof {
                    lemma_absent(self.states@, key);
                }
                false
            },
        }
    }

    /// The completion report for a run of `key`'s job that
    /// [`Self::async_system`] told the caller to launch: the run ended, with
    /// `error` telling whether it failed. The host delivers it on the main
    /// thread, through the same mailbox as any other main-thread callback.
    /// It steps `key`'s state by [`complete_step`] and touches no other key:
    /// nothing is relaunched here, even when a follow-up is pending.
    pub fn complete(&mut self, key: JobKey, error: Option<E>)
        requires
            old(self).wf(),
        ensures
            final(self).wf(),
            final(self).state_of(key) == complete_step(old(self).state_of(key), error),
            forall|k: JobKey| k != key ==> final(self).state_of(k) == old(self).state_of(k),
    {
        let ghost s0 = self.states@;
        let found = self.find(key);
        let st: JobState<E> = match found {
            Some(i) => {
                let slot = self.states.remove(i);
                slot.state
            },
            None => JobState::new(),
        };
        proof {
            match found {
                Some(i) => lemma_state_at(s0, i as int),
                None => lemma_absent(s0, key),
            }
        }
        let ghost st0 = st;
        let JobState { in_flight: _, pending, last_start, last_error } = st;
        let new_state = JobState {
            in_flight: false,
            pending,
            last_start,
            last_error: match error {
                Some(e) => Some(e),
                None => last_error,
            },
        };
        proof {
            assert(new_state == complete_step(st0, error));
        }
        let slot = Slot { key, state: new_state };
        let ghost gslot = slot;
        match found {
            Some(i) => {
                self.states.insert(i, slot);
                proof {
                    assert(self.states@ =~= s0.update(i as int, gslot));
                    lemma_update(s0, i as int, gslot);
                }
            },
            None => {
                self.states.push(slot);
                proof {
                    lemma_push(s0, gslot);
                }
            },
        }
    }
}

} // verus!
