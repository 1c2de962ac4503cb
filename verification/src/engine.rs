//! The state-change engine. A lifecycle transition is initiated by a
//! foreign call that returns a code; busy initiations are retried up to
//! three times, sleeping 100 ms between attempts; a clean initiation awaits
//! a completion callback. The caller performs the foreign call and the
//! sleeps; this module interprets the codes the foreign layer produced.
//!
//! `rcs[i]` is the negated return value of the i-th initiation attempt (a
//! positive errno on failure, zero on a clean start), and `cb_status` the
//! status the completion callback delivered for the attempt that started.

use vstd::prelude::*;
use crate::error::EBUSY;

verus! {

/// A lifecycle transition driven through the engine.
#[derive(Clone, Copy, Debug, PartialEq, Eq, Structural)]
pub enum StateChangeOp {
    Start,
    Stop,
    Pause,
    Resume,
}

impl StateChangeOp {
    /// The operation's name, as it appears in errors.
    pub open spec fn spec_name(self) -> Seq<char> {
        match self {
            StateChangeOp::Start => "start"@,
            StateChangeOp::Stop => "stop"@,
            StateChangeOp::Pause => "pause"@,
            StateChangeOp::Resume => "resume"@,
        }
    }

    pub fn name(&self) -> (r: &'static str)
        ensures
            r@ == self.spec_name(),
    {
        match self {
            StateChangeOp::Start => "start",
            StateChangeOp::Stop => "stop",
            StateChangeOp::Pause => "pause",
            StateChangeOp::Resume => "resume",
        }
    }
}

/// How a transition run ended.
#[derive(Clone, Copy, Debug, PartialEq, Eq, Structural)]
pub enum StateChangeOutcome {
    /// The transition started and the completion callback reported success.
    Completed,
    /// Every attempt found the subsystem busy.
    Busy,
    /// An attempt failed outright with this errno.
    InitiationFailed(i32),
    /// The transition started but the completion callback reported this
    /// nonzero status.
    OpFailed(i32),
}

/// The attempt at which the retry loop settles, counting from `i`: the
/// first attempt not answered busy, or the fourth attempt.
pub open spec fn settle_idx_from(rcs: Seq<i32>, i: int) -> int
    recommends
        0 <= i <= 3,
        rcs.len() >= 4,
    decreases 3 - i,
{
    if i >= 3 || rcs[i] != EBUSY {
        i
    } else {
        settle_idx_from(rcs, i + 1)
    }
}

/// The attempt at which the retry loop settles.
pub open spec fn settle_idx(rcs: Seq<i32>) -> int {
    settle_idx_from(rcs, 0)
}

/// The settling attempt lies between the starting attempt and the fourth.
pub proof fn lemma_settle_idx_bounds(rcs: Seq<i32>, i: int)
    requires
        0 <= i <= 3,
    ensures
        i <= settle_idx_from(rcs, i) <= 3,
    decreases 3 - i,
{
    if !(i >= 3 || rcs[i] != EBUSY) {
        lemma_settle_idx_bounds(rcs, i + 1);
    }
}

/// What interpreting the initiation codes and the callback status yields.
pub open spec fn spec_outcome(rcs: Seq<i32>, cb_status: i32) -> StateChangeOutcome {
    let rc = rcs[settle_idx(rcs)];
    if rc == 0 {
        if cb_status == 0 {
            StateChangeOutcome::Completed
        } else {
            StateChangeOutcome::OpFailed(cb_status)
        }
    } else if rc == EBUSY {
        StateChangeOutcome::Busy
    } else {
        StateChangeOutcome::InitiationFailed(rc)
    }
}

/// The record of one engine run.
pub struct ChangeStateReport {
    /// How the run ended.
    pub outcome: StateChangeOutcome,
    /// How many times the foreign transition function was invoked.
    pub invocations: usize,
    /// How many 100 ms sleeps separated the invocations.
    pub sleeps: usize,
}

/// Interprets the codes of one transition run. At most four invocations are
/// consumed and at most three sleeps taken — at most 300 ms — and a run
/// fails busy only after all four attempts.
pub fn run_state_change(rcs: &Vec<i32>, cb_status: i32) -> (r: ChangeStateReport)
    requires
        rcs@.len() >= 4,
    ensures
        r.outcome == spec_outcome(rcs@, cb_status),
        r.invocations == settle_idx(rcs@) + 1,
        r.sleeps == settle_idx(rcs@),
        r.invocations <= 4,
        r.sleeps <= 3,
        r.outcome is Busy ==> r.invocations == 4 && r.sleeps == 3,
{
    let mut n: usize = 0;
    let mut rc = rcs[0];
    while rc == EBUSY && n < 3
        invariant
            n <= 3,
            rcs@.len() >= 4,
            rc == rcs@[n as int],
            settle_idx(rcs@) == settle_idx_from(rcs@, n as int),
        decreases 3 - n,
    {
        n += 1;
        rc = rcs[n];
    }
    proof {
        assert(settle_idx_from(rcs@, n as int) == n as int);
        assert(settle_idx(rcs@) == n as int);
    }
    let outcome = if rc == 0 {
        if cb_status == 0 {
            StateChangeOutcome::Completed
        } else {
            StateChangeOutcome::OpFailed(cb_status)
        }
    } else if rc == EBUSY {
        StateChangeOutcome::Busy
    } else {
        StateChangeOutcome::InitiationFailed(rc)
    };
    ChangeStateReport { outcome, invocations: n + 1, sleeps: n }
}

/// Under the engine, a busy transition path makes at most four invocations
/// and takes at most three 100 ms sleeps — 300 ms in all — before it fails
/// busy, and a run that does fail busy used all four attempts and all
/// three sleeps.
pub proof fn lemma_engine_retry_bound(rcs: Seq<i32>, cb_status: i32)
    requires
        rcs.len() >= 4,
    ensures
        0 <= settle_idx(rcs) <= 3,
        spec_outcome(rcs, cb_status) is Busy ==> settle_idx(rcs) == 3 && (forall|j: int|
            0 <= j <= 3 ==> rcs[j] == EBUSY),
{
    lemma_settle_idx_bounds(rcs, 0);
    if spec_outcome(rcs, cb_status) is Busy {
        lemma_busy_all_attempts(rcs, 0);
    }
}

/// A run that settles busy saw busy on every attempt.
proof fn lemma_busy_all_attempts(rcs: Seq<i32>, i: int)
    requires
        0 <= i <= 3,
        rcs.len() >= 4,
        rcs[settle_idx_from(rcs, i)] == EBUSY,
    ensures
        settle_idx_from(rcs, i) == 3,
        forall|j: int| i <= j <= 3 ==> rcs[j] == EBUSY,
    decreases 3 - i,
{
    if !(i >= 3 || rcs[i] != EBUSY) {
        lemma_busy_all_attempts(rcs, i + 1);
    }
}

} // verus!
