//! Per-phase FIFO mailboxes for work that must run on the main thread.
//!
//! Background tasks enqueue callbacks; the main loop drains one phase's queue
//! at its named point in the update cycle and executes what it took, in
//! submission order. The element type is generic: the host instantiates it
//! with its boxed callback type and keeps the container behind its own lock
//! for cross-thread use.

use crate::BridgeClosed;
use vstd::prelude::*;

verus! {

/// A named point in the main loop's update cycle at which queued callbacks
/// are drained and executed. Each phase owns an independent FIFO queue.
#[derive(Clone, Copy, Debug, PartialEq, Eq, Structural)]
pub enum Phase {
    PreStartup,
    Startup,
    PostStartup,
    First,
    PreUpdate,
    Update,
    PostUpdate,
    Last,
}

/// How many phases there are.
pub const PHASE_COUNT: usize = 8;

/// Each phase's fixed position among the queues.
pub open spec fn phase_index(p: Phase) -> int {
    match p {
        Phase::PreStartup => 0,
        Phase::Startup => 1,
        Phase::PostStartup => 2,
        Phase::First => 3,
        Phase::PreUpdate => 4,
        Phase::Update => 5,
        Phase::PostUpdate => 6,
        Phase::Last => 7,
    }
}

fn phase_slot(p: Phase) -> (i: usize)
    ensures
        i == phase_index(p),
{
    match p {
        Phase::PreStartup => 0,
        Phase::Startup => 1,
        Phase::PostStartup => 2,
        Phase::First => 3,
        Phase::PreUpdate => 4,
        Phase::Update => 5,
        Phase::PostUpdate => 6,
        Phase::Last => 7,
    }
}

/// One FIFO queue of pending items per [`Phase`], plus the torn-down flag a
/// shutting-down process sets so that late submitters are turned away instead
/// of queueing work nobody will run.
pub struct TaskChannels<T> {
    queues: Vec<Vec<T>>,
    closed: bool,
}

impl<T> TaskChannels<T> {
    /// There is exactly one queue per phase.
    pub closed spec fn wf(self) -> bool {
        self.queues@.len() == PHASE_COUNT
    }

    /// The pending items of one phase, oldest first.
    pub closed spec fn queue(self, p: Phase) -> Seq<T> {
        self.queues@[phase_index(p)]@
    }

    /// Whether the mailbox has been torn down.
    pub closed spec fn is_closed(self) -> bool {
        self.closed
    }

    /// A live mailbox with every queue empty.
    pub fn new() -> (m: Self)
        ensures
            m.wf(),
            !m.is_closed(),
            forall|p: Phase| m.queue(p).len() == 0,
    {
        let mut queues: Vec<Vec<T>> = Vec::new();
        let mut i: usize = 0;
        while i < PHASE_COUNT
            invariant
                i <= PHASE_COUNT,
                queues@.len() == i,
                forall|j: int| 0 <= j < i ==> queues@[j]@.len() == 0,
            decreases PHASE_COUNT - i,
        {
            queues.push(Vec::new());
            i += 1;
        }
        TaskChannels { queues, closed: false }
    }

    /// Hands an item to `phase`'s queue. Never blocks; the queue grows
    /// without bound by design. Fails, leaving everything unchanged, exactly
    /// when the mailbox has been torn down.
    pub fn submit(&mut self, phase: Phase, item: T) -> (r: Result<(), BridgeClosed>)
        requires
            old(self).wf(),
        ensures
            final(self).wf(),
            final(self).is_closed() == old(self).is_closed(),
            old(self).is_closed() ==> r is Err && forall|p: Phase|
                final(self).queue(p) == old(self).queue(p),
            !old(self).is_closed() ==> {
                &&& r is Ok
                &&& final(self).queue(phase) == old(self).queue(phase).push(item)
                &&& forall|p: Phase| p != phase ==> final(self).queue(p) == old(self).queue(p)
            },
    {
        if self.closed {
            return Err(BridgeClosed);
        }
        let i = phase_slot(phase);
        self.queues[i].push(item);
        proof {
            assert forall|p: Phase| p != phase implies final(self).queue(p) == old(self).queue(
                p,
            ) by {
                assert(phase_index(p) != phase_index(phase));
            }
        }
        Ok(())
    }

    /// Takes the oldest pending item of `phase`, if any.
    pub fn try_recv(&mut self, phase: Phase) -> (r: Option<T>)
        requires
            old(self).wf(),
        ensures
            final(self).wf(),
            final(self).is_closed() == old(self).is_closed(),
            old(self).queue(phase).len() == 0 ==> r is None && forall|p: Phase|
                final(self).queue(p) == old(self).queue(p),
            old(self).queue(phase).len() > 0 ==> {
                &&& r == Some(old(self).queue(phase)[0])
                &&& final(self).queue(phase) == old(self).queue(phase).drop_first()
                &&& forall|p: Phase| p != phase ==> final(self).queue(p) == old(self).queue(p)
            },
    {
        let i = phase_slot(phase);
        if self.queues[i].len() == 0 {
            return None;
        }
        let item = self.queues[i].remove(0);
        proof {
            assert(final(self).queue(phase) =~= old(self).queue(phase).drop_first());
            assert forall|p: Phase| p != phase implies final(self).queue(p) == old(self).queue(
                p,
            ) by {
                assert(phase_index(p) != phase_index(phase));
            }
        }
        Some(item)
    }

    /// Takes everything `phase` holds right now, oldest first, leaving the
    /// queue empty. The main loop drains this snapshot once per update:
    /// items submitted while the batch executes wait for the next drain,
    /// which bounds each phase's per-update work.
    pub fn drain(&mut self, phase: Phase) -> (batch: Vec<T>)
        requires
            old(self).wf(),
        ensures
            final(self).wf(),
            final(self).is_closed() == old(self).is_closed(),
            batch@ == old(self).queue(phase),
            final(self).queue(phase).len() == 0,
            forall|p: Phase| p != phase ==> final(self).queue(p) == old(self).queue(p),
    {
        let i = phase_slot(phase);
        let batch = self.queues.remove(i);
        let fresh: Vec<T> = Vec::new();
        let ghost gfresh = fresh;
        self.queues.insert(i, fresh);
        proof {
            assert(self.queues@ =~= old(self).queues@.update(phase_index(phase), gfresh));
            assert forall|p: Phase| p != phase implies final(self).queue(p) == old(self).queue(
                p,
            ) by {
                assert(phase_index(p) != phase_index(phase));
            }
        }
        batch
    }

    /// How many items `phase` holds; an observability signal for hosts that
    /// want to watch queue growth.
    pub fn depth(&self, phase: Phase) -> (n: usize)
        requires
            self.wf(),
        ensures
            n == self.queue(phase).len(),
    {
        let i = phase_slot(phase);
        self.queues[i].len()
    }

    /// Tears the mailbox down: every later submission is turned away. What
    /// is already queued stays readable, so a final drain can still run it.
    pub fn close(&mut self)
        requires
            old(self).wf(),
        ensures
            final(self).wf(),
            final(self).is_closed(),
            forall|p: Phase| final(self).queue(p) == old(self).queue(p),
    {
        self.closed = true;
    }
}

/// FIFO order: three callbacks submitted to one phase in the order first,
/// second, third stand in that queue in exactly that order, behind whatever
/// was already there — and since a drain hands the queue back unchanged and
/// the main loop executes the batch front to back, they run in submission
/// order.
pub proof fn lemma_mailbox_fifo<T>(q: Seq<T>, first: T, second: T, third: T)
    ensures
        ({
            let q3 = q.push(first).push(second).push(third);
            &&& q3.len() == q.len() + 3
            &&& q3[q.len() as int] == first
            &&& q3[q.len() as int + 1] == second
            &&& q3[q.len() as int + 2] == third
        }),
{
}

} // verus!
