//! The input sources watched for activity: a dense arena of slots, indexed
//! by the small integers given at registration. A source that fails is made
//! inert in place, so no index ever changes meaning.
use vstd::prelude::*;

verus! {

/// What to do with a readiness report.
#[derive(Debug, Clone, Copy, PartialEq, Eq, Structural)]
pub enum ReadyAction {
    /// Unknown or inert source: nothing to do.
    Ignore,
    /// Read the source until it is exhausted.
    Drain,
    /// The source hung up or failed: remove it from the readiness set.
    Deregister,
}

/// The result of one non-blocking read from a source.
#[derive(Debug, Clone, Copy, PartialEq, Eq, Structural)]
pub enum ReadOutcome {
    /// Some bytes were read.
    Data,
    /// End of data.
    End,
    /// Nothing more to read for now.
    WouldBlock,
    /// The read failed.
    Failed,
}

/// What to do after one read of a drain.
#[derive(Debug, Clone, Copy, PartialEq, Eq, Structural)]
pub enum DrainStep {
    /// Read again.
    Continue,
    /// The source is drained.
    Finished,
    /// The source failed: remove it from the readiness set.
    Deregister,
}

/// One thing that happens to the sources: a readiness report (index, and
/// whether it signals a hangup or an error), or the outcome of a read.
pub enum SourceEvent {
    Ready(u64, bool),
    Read(usize, ReadOutcome),
}

/// Which slots are live.
pub struct Sources {
    pub active: Vec<bool>,
}

pub open spec fn ready_action(active: Seq<bool>, idx: u64, broken: bool) -> ReadyAction {
    if idx >= active.len() || !active[idx as int] {
        ReadyAction::Ignore
    } else if broken {
        ReadyAction::Deregister
    } else {
        ReadyAction::Drain
    }
}

pub open spec fn drain_step(outcome: ReadOutcome) -> DrainStep {
    match outcome {
        ReadOutcome::Data => DrainStep::Continue,
        ReadOutcome::End => DrainStep::Finished,
        ReadOutcome::WouldBlock => DrainStep::Finished,
        ReadOutcome::Failed => DrainStep::Deregister,
    }
}

/// The live slots after one event: a broken readiness report or a failed
/// read makes its source inert; nothing else changes.
pub open spec fn after_event(active: Seq<bool>, ev: SourceEvent) -> Seq<bool> {
    match ev {
        SourceEvent::Ready(idx, broken) => if ready_action(active, idx, broken)
            == ReadyAction::Deregister {
            active.update(idx as int, false)
        } else {
            active
        },
        SourceEvent::Read(idx, outcome) => if idx < active.len() && outcome == ReadOutcome::Failed {
            active.update(idx as int, false)
        } else {
            active
        },
    }
}

/// The live slots after a sequence of events.
pub open spec fn after_events(active: Seq<bool>, evs: Seq<SourceEvent>) -> Seq<bool>
    decreases evs.len(),
{
    if evs.len() == 0 {
        active
    } else {
        after_events(after_event(active, evs[0]), evs.skip(1))
    }
}

impl Sources {
    /// `n` live sources, indexed `0..n`.
    pub fn new(n: usize) -> (r: Sources)
        ensures
            r.active@.len() == n,
            forall|i: int| 0 <= i < n ==> #[trigger] r.active@[i],
    {
        let mut active: Vec<bool> = Vec::new();
        let mut i: usize = 0;
        while i < n
            invariant
                i <= n,
                active@.len() == i,
                forall|j: int| 0 <= j < i ==> #[trigger] active@[j],
            decreases n - i,
        {
            active.push(true);
            i = i + 1;
        }
        Sources { active }
    }

    /// Whether source `idx` is live.
    pub fn is_active(&self, idx: usize) -> (r: bool)
        ensures
            r == (idx < self.active@.len() && self.active@[idx as int]),
    {
        idx < self.active.len() && self.active[idx]
    }

    /// Handles a readiness report for source `idx`; `broken` when it signals
    /// a hangup or an error, which makes the source inert.
    pub fn on_ready(&mut self, idx: u64, broken: bool) -> (r: ReadyAction)
        ensures
            r == ready_action(old(self).active@, idx, broken),
            final(self).active@ == after_event(old(self).active@, SourceEvent::Ready(idx, broken)),
    {
        if idx >= self.active.len() as u64 || !self.active[idx as usize] {
            return ReadyAction::Ignore;
        }
        if broken {
            self.active.set(idx as usize, false);
            ReadyAction::Deregister
        } else {
            ReadyAction::Drain
        }
    }

    /// Handles the outcome of one read from source `idx` during a drain; a
    /// failed read makes the source inert.
    pub fn on_read(&mut self, idx: usize, outcome: ReadOutcome) -> (r: DrainStep)
        ensures
            r == drain_step(outcome),
            final(self).active@ == after_event(old(self).active@, SourceEvent::Read(idx, outcome)),
    {
        match outcome {
            ReadOutcome::Data => DrainStep::Continue,
            ReadOutcome::End => DrainStep::Finished,
            ReadOutcome::WouldBlock => DrainStep::Finished,
            ReadOutcome::Failed => {
                if idx < self.active.len() {
                    self.active.set(idx, false);
                }
                DrainStep::Deregister
            },
        }
    }
}

/// A source that has hung up or failed stays inert through any later events,
/// and so is never drained again; every other source is left as the events
/// about it alone make it.
pub proof fn lemma_inert_source_stays_out(
    active: Seq<bool>,
    evs: Seq<SourceEvent>,
    i: u64,
    broken: bool,
)
    requires
        i < active.len(),
        !active[i as int],
    ensures
        after_events(active, evs).len() == active.len(),
        !after_events(active, evs)[i as int],
        ready_action(after_events(active, evs), i, broken) == ReadyAction::Ignore,
    decreases evs.len(),
{
    if evs.len() > 0 {
        lemma_inert_source_stays_out(after_event(active, evs[0]), evs.skip(1), i, broken);
    }
}

/// An event about one source leaves every other source as it was.
pub proof fn lemma_event_is_local(active: Seq<bool>, ev: SourceEvent, j: int)
    requires
        0 <= j < active.len(),
        match ev {
            SourceEvent::Ready(idx, _) => idx != j,
            SourceEvent::Read(idx, _) => idx != j,
        },
    ensures
        after_event(active, ev).len() == active.len(),
        after_event(active, ev)[j] == active[j],
{
}

} // verus!
