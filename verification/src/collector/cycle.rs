//! The polling cycle of a collector: what it does next, given how the last
//! thing it did has ended. Whoever runs a collector performs each step and
//! reports back; the cycle itself never ends.

use vstd::prelude::*;

verus! {

/// One step of a collector.
#[derive(Debug, Clone, Copy, PartialEq, Eq, Structural)]
pub enum Step {
    /// Ask the source for the ticker at this place in the list.
    Fetch(usize),
    /// Hand the observation of that ticker to the queue, waiting while the
    /// queue is full.
    Enqueue(usize),
    /// Pause after the request for that ticker.
    PauseRequest(usize),
    /// Pause after a pass over all tickers.
    PauseBatch,
}

/// The step that a cycle over `tickers` tickers starts with, and goes back
/// to after each pass.
pub open spec fn first_step(tickers: usize) -> Step {
    if tickers > 0 {
        Step::Fetch(0)
    } else {
        Step::PauseBatch
    }
}

/// The step that follows `step`. Only a fetch can fail to any effect: its
/// ticker is then skipped for this pass. An observation that the queue did
/// not take is lost, and the cycle goes on.
pub open spec fn next_step(tickers: usize, step: Step, succeeded: bool) -> Step {
    match step {
        Step::Fetch(at) => if succeeded {
            Step::Enqueue(at)
        } else {
            Step::PauseRequest(at)
        },
        Step::Enqueue(at) => Step::PauseRequest(at),
        Step::PauseRequest(at) => if at + 1 < tickers {
            Step::Fetch((at + 1) as usize)
        } else {
            Step::PauseBatch
        },
        Step::PauseBatch => first_step(tickers),
    }
}

/// The step speaks of a ticker of the list, if of any.
pub open spec fn step_in_range(tickers: usize, step: Step) -> bool {
    match step {
        Step::Fetch(at) => at < tickers,
        Step::Enqueue(at) => at < tickers,
        Step::PauseRequest(at) => at < tickers,
        Step::PauseBatch => true,
    }
}

/// The step in which a cycle stands after a run of steps that ended as
/// `outcomes` says.
pub open spec fn step_after(tickers: usize, start: Step, outcomes: Seq<bool>) -> Step
    decreases outcomes.len(),
{
    if outcomes.len() == 0 {
        start
    } else {
        next_step(tickers, step_after(tickers, start, outcomes.drop_last()), outcomes.last())
    }
}

/// The polling cycle of one collector.
#[derive(Debug)]
pub struct PollCycle {
    tickers: usize,
    step: Step,
}

impl PollCycle {
    /// The step of a cycle always speaks of a ticker of its list.
    #[verifier::type_invariant]
    pub closed spec fn well_formed(self) -> bool {
        step_in_range(self.tickers, self.step)
    }

    /// The number of tickers of the list.
    pub closed spec fn tickers(self) -> usize {
        self.tickers
    }

    /// The step that is to be performed now.
    pub closed spec fn step(self) -> Step {
        self.step
    }

    /// A cycle over a list of `tickers` tickers, at its first step.
    pub fn new(tickers: usize) -> (r: Self)
        ensures
            r.tickers() == tickers,
            r.step() == first_step(tickers),
    {
        if tickers > 0 {
            PollCycle { tickers, step: Step::Fetch(0) }
        } else {
            PollCycle { tickers, step: Step::PauseBatch }
        }
    }

    /// The step that is to be performed now.
    pub fn current(&self) -> (r: Step)
        ensures
            r == self.step(),
            step_in_range(self.tickers(), r),
    {
        proof {
            use_type_invariant(self);
        }
        self.step
    }

    /// Takes note of how the current step has ended, and returns the step
    /// that follows.
    pub fn advance(&mut self, succeeded: bool) -> (r: Step)
        ensures
            final(self).tickers() == old(self).tickers(),
            final(self).step() == next_step(old(self).tickers(), old(self).step(), succeeded),
            r == final(self).step(),
            step_in_range(final(self).tickers(), r),
    {
        proof {
            use_type_invariant(&*self);
        }
        let next = match self.step {
            Step::Fetch(at) => if succeeded {
                Step::Enqueue(at)
            } else {
                Step::PauseRequest(at)
            },
            Step::Enqueue(at) => Step::PauseRequest(at),
            Step::PauseRequest(at) => if at + 1 < self.tickers {
                Step::Fetch(at + 1)
            } else {
                Step::PauseBatch
            },
            Step::PauseBatch => if self.tickers > 0 {
                Step::Fetch(0)
            } else {
                Step::PauseBatch
            },
        };
        self.step = next;
        next
    }
}

/// The cycle never leaves its list: whatever the outcomes, every step speaks
/// of a ticker of the list.
pub proof fn lemma_cycle_stays_in_range(tickers: usize, start: Step, outcomes: Seq<bool>)
    requires
        step_in_range(tickers, start),
    ensures
        step_in_range(tickers, step_after(tickers, start, outcomes)),
    decreases outcomes.len(),
{
    if outcomes.len() > 0 {
        lemma_cycle_stays_in_range(tickers, start, outcomes.drop_last());
    }
}

/// The order of a pass. An observation is enqueued only right after its
/// ticker was fetched with success; every request, failed or not, is
/// followed by the pause after it, at the latest two steps on; after that
/// pause comes the next ticker of the list, or the pause after the pass,
/// which leads back to the first ticker.
pub proof fn lemma_cycle_order(tickers: usize, step: Step, succeeded: bool, enqueued: bool)
    requires
        step_in_range(tickers, step),
    ensures
        next_step(tickers, step, succeeded) is Enqueue ==> succeeded && step == Step::Fetch(
            next_step(tickers, step, succeeded)->Enqueue_0,
        ),
        step matches Step::Fetch(at) ==> {
            let then = next_step(tickers, step, succeeded);
            if succeeded {
                then == Step::Enqueue(at) && next_step(tickers, then, enqueued)
                    == Step::PauseRequest(at)
            } else {
                then == Step::PauseRequest(at)
            }
        },
        step matches Step::PauseRequest(at) ==> next_step(tickers, step, succeeded) == if at + 1
            < tickers {
            Step::Fetch((at + 1) as usize)
        } else {
            Step::PauseBatch
        },
        step is PauseBatch && tickers > 0 ==> next_step(tickers, step, succeeded) == Step::Fetch(0),
{
}

} // verus!
