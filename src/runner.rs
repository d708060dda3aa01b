use vstd::prelude::*;

use crate::duration::Duration;

verus! {

/// What the driver of a simulation does next.
#[derive(Clone, Copy, Debug, PartialEq, Eq, Structural)]
pub enum RunAction {
    /// Advance the simulation until this time.
    StepUntil(Duration),
    /// Save resumable state; the simulation stands at this time.
    Checkpoint(Duration),
    /// The horizon is reached: read the analytics.
    Finish,
}

/// How long to run, and how often to save resumable state.
#[derive(Clone, Copy, Debug, PartialEq, Eq, Structural)]
pub struct RunPlan {
    pub horizon: Duration,
    pub checkpoint_every: Option<Duration>,
}

/// Where a run stands.
#[derive(Clone, Copy, Debug, PartialEq, Eq, Structural)]
pub struct RunState {
    pub now: Duration,
    /// Whether the checkpoint due at `now` has been saved.
    pub checkpoint_done: bool,
}

impl RunPlan {
    pub open spec fn wf(self) -> bool {
        &&& self.horizon.ticks >= 0
        &&& match self.checkpoint_every {
            Some(c) => c.ticks > 0,
            None => true,
        }
    }
}

impl RunState {
    pub open spec fn wf(self, plan: RunPlan) -> bool {
        0 <= self.now.ticks <= plan.horizon.ticks
    }

    /// The state at the start of a run.
    pub fn start() -> (r: RunState)
        ensures
            r.now.ticks == 0,
            !r.checkpoint_done,
    {
        RunState { now: Duration { ticks: 0 }, checkpoint_done: false }
    }

    /// The state of a run resumed from the checkpoint saved at `at`.
    pub fn resumed_from(at: Duration) -> (r: RunState)
        ensures
            r == resumed_spec(at),
    {
        RunState { now: at, checkpoint_done: true }
    }
}

pub open spec fn resumed_spec(at: Duration) -> RunState {
    RunState { now: at, checkpoint_done: true }
}

/// The next time at which the run pauses: the next checkpoint time after `now`, or the
/// horizon if that comes first.
pub open spec fn next_stop(plan: RunPlan, now: int) -> int {
    match plan.checkpoint_every {
        Some(c) => {
            let next = now + c.ticks - now % (c.ticks as int);
            if next < plan.horizon.ticks {
                next
            } else {
                plan.horizon.ticks as int
            }
        },
        None => plan.horizon.ticks as int,
    }
}

pub open spec fn checkpoint_due(plan: RunPlan, s: RunState) -> bool {
    match plan.checkpoint_every {
        Some(c) => s.now.ticks > 0 && s.now.ticks % c.ticks == 0 && !s.checkpoint_done,
        None => false,
    }
}

pub open spec fn next_action_spec(plan: RunPlan, s: RunState) -> RunAction {
    if s.now.ticks >= plan.horizon.ticks {
        RunAction::Finish
    } else if checkpoint_due(plan, s) {
        RunAction::Checkpoint(s.now)
    } else {
        RunAction::StepUntil(Duration { ticks: next_stop(plan, s.now.ticks as int) as i64 })
    }
}

pub open spec fn advance_spec(s: RunState, a: RunAction) -> RunState {
    match a {
        RunAction::StepUntil(t) => RunState { now: t, checkpoint_done: false },
        RunAction::Checkpoint(_) => RunState { now: s.now, checkpoint_done: true },
        RunAction::Finish => s,
    }
}

/// The first `n` actions of a run from state `s`.
pub open spec fn schedule(plan: RunPlan, s: RunState, n: nat) -> Seq<RunAction>
    decreases n,
{
    if n == 0 {
        Seq::empty()
    } else {
        let a = next_action_spec(plan, s);
        seq![a] + schedule(plan, advance_spec(s, a), (n - 1) as nat)
    }
}

/// What to do next.
pub fn next_action(plan: &RunPlan, s: &RunState) -> (r: RunAction)
    requires
        plan.wf(),
        s.wf(*plan),
    ensures
        r == next_action_spec(*plan, *s),
{
    if s.now.ticks >= plan.horizon.ticks {
        return RunAction::Finish;
    }
    match plan.checkpoint_every {
        Some(c) => {
            if s.now.ticks > 0 && s.now.ticks % c.ticks == 0 && !s.checkpoint_done {
                return RunAction::Checkpoint(s.now);
            }
            let next: i128 = (s.now.ticks as i128) + (c.ticks as i128) - ((s.now.ticks % c.ticks) as i128);
            if next < (plan.horizon.ticks as i128) {
                RunAction::StepUntil(Duration { ticks: next as i64 })
            } else {
                RunAction::StepUntil(plan.horizon)
            }
        },
        None => RunAction::StepUntil(plan.horizon),
    }
}

/// The state once `a` has been carried out.
pub fn advance(plan: &RunPlan, s: &RunState, a: RunAction) -> (r: RunState)
    requires
        plan.wf(),
        s.wf(*plan),
        a == next_action_spec(*plan, *s),
    ensures
        r == advance_spec(*s, a),
        r.wf(*plan),
        a is StepUntil ==> r.now.ticks > s.now.ticks,
{
    match a {
        RunAction::StepUntil(t) => {
            proof {
                match plan.checkpoint_every {
                    Some(c) => {
                        let now = s.now.ticks as int;
                        let ct = c.ticks as int;
                        assert(now % ct < ct) by (nonlinear_arith)
                            requires
                                ct > 0,
                                now >= 0,
                        {
                            vstd::arithmetic::div_mod::lemma_mod_bound(now, ct);
                        }
                    },
                    None => {},
                }
            }
            RunState { now: t, checkpoint_done: false }
        },
        RunAction::Checkpoint(_) => RunState { now: s.now, checkpoint_done: true },
        RunAction::Finish => *s,
    }
}

/// The state after the first `n` actions of a run from `s`.
pub open spec fn state_after(plan: RunPlan, s: RunState, n: nat) -> RunState
    decreases n,
{
    if n == 0 {
        s
    } else {
        state_after(plan, advance_spec(s, next_action_spec(plan, s)), (n - 1) as nat)
    }
}

proof fn lemma_schedule_split(plan: RunPlan, s: RunState, a: nat, b: nat)
    ensures
        schedule(plan, s, a + b) == schedule(plan, s, a) + schedule(plan, state_after(plan, s, a), b),
    decreases a,
{
    if a == 0 {
        assert(schedule(plan, s, 0) + schedule(plan, s, b) =~= schedule(plan, s, b));
    } else {
        let x = next_action_spec(plan, s);
        let s2 = advance_spec(s, x);
        lemma_schedule_split(plan, s2, (a - 1) as nat, b);
        assert(((a - 1) as nat + b) as nat == (a + b - 1) as nat);
        assert(schedule(plan, s, a + b) == seq![x] + schedule(plan, s2, (a + b - 1) as nat));
        assert(schedule(plan, s, a) == seq![x] + schedule(plan, s2, (a - 1) as nat));
        assert(schedule(plan, s, a + b) =~= schedule(plan, s, a) + schedule(
            plan,
            state_after(plan, s, a),
            b,
        ));
    }
}

proof fn lemma_last_action(plan: RunPlan, s: RunState, k: nat)
    ensures
        schedule(plan, s, k + 1).len() == k + 1,
        schedule(plan, s, k + 1)[k as int] == next_action_spec(plan, state_after(plan, s, k)),
        state_after(plan, s, k + 1) == advance_spec(
            state_after(plan, s, k),
            next_action_spec(plan, state_after(plan, s, k)),
        ),
    decreases k,
{
    let s2 = advance_spec(s, next_action_spec(plan, s));
    assert(schedule(plan, s, k + 1) == seq![next_action_spec(plan, s)] + schedule(plan, s2, k));
    assert(state_after(plan, s, k + 1) == state_after(plan, s2, k));
    if k == 0 {
        assert(schedule(plan, s2, 0) == Seq::<RunAction>::empty());
        assert(state_after(plan, s2, 0) == s2);
    } else {
        lemma_last_action(plan, s2, (k - 1) as nat);
        assert(((k - 1) as nat + 1) as nat == k);
        assert(state_after(plan, s, k) == state_after(plan, s2, (k - 1) as nat));
    }
}

/// A run interrupted after a checkpoint and resumed from it does what the uninterrupted
/// run does: if the action at position `k` of a run is the checkpoint at `t`, the first
/// `k + 1 + n` actions are the first `k + 1` followed by the first `n` actions of a run
/// resumed from `t`.
pub proof fn interrupted_run_matches(plan: RunPlan, s: RunState, k: nat, n: nat)
    requires
        schedule(plan, s, k + 1)[k as int] is Checkpoint,
    ensures
        schedule(plan, s, k + 1 + n) == schedule(plan, s, k + 1) + schedule(
            plan,
            resumed_spec(schedule(plan, s, k + 1)[k as int]->Checkpoint_0),
            n,
        ),
{
    lemma_last_action(plan, s, k);
    lemma_schedule_split(plan, s, k + 1, n);
}

} // verus!
