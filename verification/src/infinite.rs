//! The cycle of a periodic animator: change the view, wake the render loop,
//! sleep, and look at the stop signal before the next round.

use vstd::prelude::*;

verus! {

/// Where a periodic animator stands in its cycle.
#[derive(Clone, Copy, Debug, PartialEq, Eq, Structural)]
pub enum Stage {
    /// At the top of a cycle: the stop signal is looked at next.
    Checking,
    /// The view is being changed, or has been: the wake comes next.
    Mutating,
    /// The render loop has been woken: the sleep comes next.
    Waking,
    /// The stop signal has been seen: the loop is over.
    Stopped,
}

/// What the background loop of a periodic animator does next.
#[derive(Clone, Copy, Debug, PartialEq, Eq, Structural)]
pub enum Action {
    /// Run the mutator on the view, under its lock, to the end.
    Mutate,
    /// Ask the render loop for a redraw, once.
    Wake,
    /// Sleep for so many milliseconds.
    Sleep(u64),
    /// Leave the loop.
    Exit,
}

/// One step of the cycle: the stage that follows, and what is done on the
/// way. The stop signal counts at the top of a cycle only.
pub open spec fn spec_step(stage: Stage, interval: u64, stop: bool) -> (Stage, Action) {
    match stage {
        Stage::Checking => if stop {
            (Stage::Stopped, Action::Exit)
        } else {
            (Stage::Mutating, Action::Mutate)
        },
        Stage::Mutating => (Stage::Waking, Action::Wake),
        Stage::Waking => (Stage::Checking, Action::Sleep(interval)),
        Stage::Stopped => (Stage::Stopped, Action::Exit),
    }
}

/// The stage after a run of steps, one for each reading of the stop signal.
pub open spec fn spec_stage_after(stage: Stage, interval: u64, stops: Seq<bool>) -> Stage
    decreases stops.len(),
{
    if stops.len() == 0 {
        stage
    } else {
        spec_step(spec_stage_after(stage, interval, stops.drop_last()), interval, stops.last()).0
    }
}

/// What is done in a run of steps, one for each reading of the stop signal.
pub open spec fn spec_actions(stage: Stage, interval: u64, stops: Seq<bool>) -> Seq<Action>
    decreases stops.len(),
{
    if stops.len() == 0 {
        Seq::empty()
    } else {
        spec_actions(stage, interval, stops.drop_last()).push(
            spec_step(
                spec_stage_after(stage, interval, stops.drop_last()),
                interval,
                stops.last(),
            ).1,
        )
    }
}

/// The cycle of one periodic animator.
pub struct AnimatorCycle {
    stage: Stage,
    interval: usize,
}

impl AnimatorCycle {
    /// Where the animator stands.
    pub closed spec fn spec_stage(&self) -> Stage {
        self.stage
    }

    /// The sleep between two cycles, in milliseconds.
    pub closed spec fn spec_interval(&self) -> usize {
        self.interval
    }

    /// An animator at the top of its first cycle that sleeps `interval`
    /// milliseconds after each one.
    pub fn new(interval: usize) -> (cycle: Self)
        ensures
            cycle.spec_stage() == Stage::Checking,
            cycle.spec_interval() == interval,
    {
        Self { stage: Stage::Checking, interval }
    }

    /// Where the animator stands.
    pub fn stage(&self) -> (stage: Stage)
        ensures
            stage == self.spec_stage(),
    {
        self.stage
    }

    /// Moves on by one step and says what the background loop does next.
    /// `stop_requested` is the stop signal as the loop reads it now.
    pub fn next(&mut self, stop_requested: bool) -> (action: Action)
        ensures
            (final(self).spec_stage(), action) == spec_step(
                old(self).spec_stage(),
                old(self).spec_interval() as u64,
                stop_requested,
            ),
            final(self).spec_interval() == old(self).spec_interval(),
    {
        match self.stage {
            Stage::Checking => {
                if stop_requested {
                    self.stage = Stage::Stopped;
                    Action::Exit
                } else {
                    self.stage = Stage::Mutating;
                    Action::Mutate
                }
            },
            Stage::Mutating => {
                self.stage = Stage::Waking;
                Action::Wake
            },
            Stage::Waking => {
                self.stage = Stage::Checking;
                Action::Sleep(self.interval as u64)
            },
            Stage::Stopped => Action::Exit,
        }
    }
}

/// A cycle that starts with the stop signal down runs to its end whatever
/// the signal does meanwhile: the mutator, then the wake, then the sleep,
/// and the animator is back at the top.
pub proof fn lemma_cycle_runs_to_end(interval: u64, stops: Seq<bool>)
    requires
        stops.len() == 3,
        !stops[0],
    ensures
        spec_actions(Stage::Checking, interval, stops) == seq![
            Action::Mutate,
            Action::Wake,
            Action::Sleep(interval),
        ],
        spec_stage_after(Stage::Checking, interval, stops) == Stage::Checking,
{
    let s1 = stops.drop_last();
    let s2 = s1.drop_last();
    let s3 = s2.drop_last();
    assert(s2.last() == stops[0]);
    assert(spec_stage_after(Stage::Checking, interval, s3) == Stage::Checking);
    assert(spec_stage_after(Stage::Checking, interval, s2) == Stage::Mutating);
    assert(spec_stage_after(Stage::Checking, interval, s1) == Stage::Waking);
    assert(spec_actions(Stage::Checking, interval, s3) == Seq::<Action>::empty());
    assert(spec_actions(Stage::Checking, interval, s2) == seq![Action::Mutate]);
    assert(spec_actions(Stage::Checking, interval, s1) == seq![Action::Mutate, Action::Wake]);
}

/// Once the stop signal is raised the mutator is not started again: whatever
/// the stage, no step of a run in which every reading of the signal finds
/// it raised is a `Mutate`.
pub proof fn lemma_no_mutation_after_stop(stage: Stage, interval: u64, stops: Seq<bool>)
    requires
        forall|j: int| 0 <= j < stops.len() ==> stops[j],
    ensures
        forall|k: int| 0 <= k < stops.len() ==> spec_actions(stage, interval, stops)[k]
            != Action::Mutate,
        spec_actions(stage, interval, stops).len() == stops.len(),
    decreases stops.len(),
{
    if stops.len() > 0 {
        lemma_no_mutation_after_stop(stage, interval, stops.drop_last());
    }
}

/// With the stop signal raised the loop is over within three steps: the
/// wake and the sleep that a cycle under way still owes, and the look at the
/// signal.
pub proof fn lemma_stop_ends_loop(stage: Stage, interval: u64, stops: Seq<bool>)
    requires
        stops.len() >= 3,
        forall|j: int| 0 <= j < stops.len() ==> stops[j],
    ensures
        spec_stage_after(stage, interval, stops) == Stage::Stopped,
    decreases stops.len(),
{
    let s1 = stops.drop_last();
    let s2 = s1.drop_last();
    let s3 = s2.drop_last();
    if stops.len() > 3 {
        lemma_stop_ends_loop(stage, interval, s1);
        assert(stops.last());
    } else {
        assert(s2.last() == stops[0] && s1.last() == stops[1] && stops.last() == stops[2]);
        let first = spec_step(stage, interval, true).0;
        let second = spec_step(first, interval, true).0;
        assert(spec_stage_after(stage, interval, s3) == stage);
        assert(spec_stage_after(stage, interval, s2) == first);
        assert(spec_stage_after(stage, interval, s1) == second);
    }
}

/// A loop that is over stays over, whatever the stop signal reads: every
/// further step is an `Exit`.
pub proof fn lemma_stopped_is_final(interval: u64, stops: Seq<bool>)
    ensures
        spec_stage_after(Stage::Stopped, interval, stops) == Stage::Stopped,
        spec_actions(Stage::Stopped, interval, stops).len() == stops.len(),
        forall|k: int| 0 <= k < stops.len() ==> spec_actions(Stage::Stopped, interval, stops)[k]
            == Action::Exit,
    decreases stops.len(),
{
    if stops.len() > 0 {
        lemma_stopped_is_final(interval, stops.drop_last());
    }
}

} // verus!
