//! The supervisor's restart policy: how a supervised subsystem's exit is
//! answered. The supervisor task itself (spawning, waiting, sleeping) runs
//! around these decisions.
use vstd::prelude::*;

verus! {

/// How many times a subsystem may fail before the supervisor gives up on it.
pub const MAX_RESTARTS: u32 = 5;

/// How long the supervisor waits before restarting a failed subsystem.
pub const RESTART_BACKOFF_MS: u64 = 500;

/// How a supervised subsystem's run ended.
#[derive(Debug, Clone, Copy, PartialEq, Eq, Structural)]
pub enum RunOutcome {
    /// It returned `Ok`: a clean exit.
    Clean,
    /// It returned an error.
    Failed,
    /// Its task panicked.
    Panicked,
}

/// What the supervisor does next.
#[derive(Debug, Clone, Copy, PartialEq, Eq, Structural)]
pub enum Directive {
    /// Stop supervising this subsystem.
    Stop,
    /// Wait `RESTART_BACKOFF_MS`, then start a fresh instance.
    Restart,
}

/// The restart counter of one supervised subsystem.
pub struct RestartPolicy {
    restarts: u32,
}

/// The restart count and directive after an exit with `outcome`, when
/// `restarts` restarts were counted before and shutdown was (or was not)
/// requested.
pub open spec fn after_exit_spec(restarts: u32, outcome: RunOutcome, shutdown_requested: bool) -> (u32, Directive) {
    if outcome == RunOutcome::Clean || shutdown_requested || restarts > MAX_RESTARTS {
        (restarts, Directive::Stop)
    } else if restarts + 1 > MAX_RESTARTS {
        ((restarts + 1) as u32, Directive::Stop)
    } else {
        ((restarts + 1) as u32, Directive::Restart)
    }
}

/// The number of restarts the supervisor grants over a run of exits, each
/// paired with whether shutdown was requested then; supervision ends at the
/// first `Stop`.
pub open spec fn restarts_granted(restarts: u32, exits: Seq<(RunOutcome, bool)>) -> nat
    decreases exits.len(),
{
    if exits.len() == 0 {
        0
    } else {
        let (r, d) = after_exit_spec(restarts, exits[0].0, exits[0].1);
        if d == Directive::Restart {
            1 + restarts_granted(r, exits.drop_first())
        } else {
            0
        }
    }
}

impl RestartPolicy {
    /// A fresh policy: no restarts counted.
    pub fn new() -> (p: Self)
        ensures
            p.restarts() == 0,
    {
        RestartPolicy { restarts: 0 }
    }

    /// The number of restarts counted so far.
    pub closed spec fn restarts(&self) -> u32 {
        self.restarts
    }

    /// The number of restarts counted so far.
    pub fn restart_count(&self) -> (n: u32)
        ensures
            n == self.restarts(),
    {
        self.restarts
    }

    /// May a (fresh) instance be started? Not once shutdown is requested.
    pub fn may_start(shutdown_requested: bool) -> (r: bool)
        ensures
            r == !shutdown_requested,
    {
        !shutdown_requested
    }

    /// The answer to a subsystem's exit: a clean exit is never restarted,
    /// nor is anything once shutdown is requested; a failure or panic is
    /// restarted after the backoff until the `MAX_RESTARTS`-th restart has
    /// been used, after which the supervisor gives up.
    pub fn after_exit(&mut self, outcome: RunOutcome, shutdown_requested: bool) -> (d: Directive)
        ensures
            (final(self).restarts(), d) == after_exit_spec(old(self).restarts(), outcome, shutdown_requested),
    {
        if outcome == RunOutcome::Clean || shutdown_requested || self.restarts > MAX_RESTARTS {
            return Directive::Stop;
        }
        self.restarts = self.restarts + 1;
        if self.restarts > MAX_RESTARTS {
            Directive::Stop
        } else {
            Directive::Restart
        }
    }
}

/// Restarts are bounded: over any run of exits, starting from a fresh
/// policy, the supervisor restarts a subsystem at most `MAX_RESTARTS`
/// times.
pub proof fn law_restarts_are_bounded(exits: Seq<(RunOutcome, bool)>)
    ensures
        restarts_granted(0, exits) <= MAX_RESTARTS,
{
    lemma_restarts_granted_bound(0, exits);
}

proof fn lemma_restarts_granted_bound(restarts: u32, exits: Seq<(RunOutcome, bool)>)
    requires
        restarts <= MAX_RESTARTS,
    ensures
        restarts_granted(restarts, exits) <= MAX_RESTARTS - restarts,
    decreases exits.len(),
{
    if exits.len() > 0 {
        let (r, d) = after_exit_spec(restarts, exits[0].0, exits[0].1);
        if d == Directive::Restart {
            lemma_restarts_granted_bound(r, exits.drop_first());
        }
    }
}

/// A run that keeps failing is restarted exactly `MAX_RESTARTS` times, then
/// given up on; a clean exit or a shutdown request stops supervision at
/// once.
pub proof fn law_failures_exhaust_restarts(exits: Seq<(RunOutcome, bool)>)
    requires
        exits.len() > MAX_RESTARTS,
        forall|i: int| 0 <= i < exits.len() ==> #[trigger] exits[i] == (RunOutcome::Failed, false),
    ensures
        restarts_granted(0, exits) == MAX_RESTARTS,
        restarts_granted(0, seq![(RunOutcome::Clean, false)] + exits) == 0,
        restarts_granted(0, seq![(RunOutcome::Failed, true)] + exits) == 0,
{
    let s1 = exits.drop_first();
    let s2 = s1.drop_first();
    let s3 = s2.drop_first();
    let s4 = s3.drop_first();
    let s5 = s4.drop_first();
    assert(s1[0] == exits[1]);
    assert(s2[0] == exits[2]);
    assert(s3[0] == exits[3]);
    assert(s4[0] == exits[4]);
    assert(s5[0] == exits[5]);
    assert(restarts_granted(5, s5) == 0);
    assert(restarts_granted(4, s4) == 1);
    assert(restarts_granted(3, s3) == 2);
    assert(restarts_granted(2, s2) == 3);
    assert(restarts_granted(1, s1) == 4);
    assert(restarts_granted(0, exits) == 5);
    assert((seq![(RunOutcome::Clean, false)] + exits)[0] == (RunOutcome::Clean, false));
    assert((seq![(RunOutcome::Failed, true)] + exits)[0] == (RunOutcome::Failed, true));
}

/// Once shutdown is requested, supervision ends: whatever the exit and the
/// restart count, the answer is `Stop` and nothing is counted, so no fresh
/// instance follows; and no run of exits under a standing shutdown request
/// is granted a restart.
pub proof fn law_shutdown_ends_supervision(restarts: u32, outcome: RunOutcome, exits: Seq<(RunOutcome, bool)>)
    requires
        forall|i: int| 0 <= i < exits.len() ==> (#[trigger] exits[i]).1,
    ensures
        after_exit_spec(restarts, outcome, true) == (restarts, Directive::Stop),
        restarts_granted(restarts, exits) == 0,
{
    if exits.len() > 0 {
        assert(exits[0].1);
    }
}

} // verus!
