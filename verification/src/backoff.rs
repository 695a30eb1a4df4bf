//! The exponential reconnect backoff shared by every retrying task: the wait starts at
//! `initial`, doubles after each failed attempt and is capped at `max`; a failure that
//! follows useful work drops the wait back to `initial`; a failure with reconnecting disabled
//! ends the loop with that failure. The decisions are a state machine here; the caller runs
//! the attempts and sleeps out the waits.
use vstd::prelude::*;
use vstd::arithmetic::power2::pow2;

verus! {

/// The reconnect backoff policy, in milliseconds: starts at `initial`, doubles after each
/// failed attempt, capped at `max`.
#[derive(Debug, Clone, Copy, PartialEq, Eq, Structural)]
pub struct BackoffPolicy {
    pub initial: u64,
    pub max: u64,
}

impl Default for BackoffPolicy {
    /// One second, doubling up to thirty seconds.
    fn default() -> (r: Self)
        ensures
            r.initial == 1000,
            r.max == 30000,
    {
        BackoffPolicy { initial: 1000, max: 30000 }
    }
}

/// Outcome of one attempt, as the caller reports it.
#[derive(Debug)]
pub enum AttemptOutcome<E> {
    /// The task ended on its own terms: stop retrying, successfully.
    Done,
    /// The attempt failed. `reconnect` is this attempt's freshly read config flag; `reset`
    /// says whether the backoff drops back to `initial` before the wait that follows this
    /// failure (something useful happened before it failed).
    Failed { error: E, reconnect: bool, reset: bool },
}

/// What the retry loop does next.
#[derive(Debug)]
pub enum BackoffAction<E> {
    /// Stop, with this result.
    Finish(Result<(), E>),
    /// Sleep out this many milliseconds (unless aborted), then attempt again.
    Wait(u64),
}

/// The state of a retry loop: the wait the next failure uses.
#[derive(Debug, Clone, Copy, PartialEq, Eq, Structural)]
pub struct Backoff {
    pub policy: BackoffPolicy,
    pub current: u64,
}

/// `min(2 * b, max)`.
pub open spec fn spec_doubled(b: int, max: int) -> int {
    if 2 * b <= max {
        2 * b
    } else {
        max
    }
}

/// The wait after `n` failures in a row, none of which reset the backoff.
pub open spec fn nth_wait(p: BackoffPolicy, n: nat) -> int
    decreases n,
{
    if n == 0 {
        p.initial as int
    } else {
        spec_doubled(nth_wait(p, (n - 1) as nat), p.max as int)
    }
}

impl Backoff {
    /// A fresh loop: the first wait is `initial`.
    pub fn new(policy: BackoffPolicy) -> (r: Self)
        ensures
            r.policy == policy,
            r.current == policy.initial,
    {
        Backoff { policy, current: policy.initial }
    }

    /// The decision after an attempt: a finished task stops with `Ok`, a failure with
    /// reconnecting disabled stops with that failure (and never waits); any other failure
    /// waits `current`, or `initial` when it resets the backoff.
    pub fn on_attempt<E>(&mut self, outcome: AttemptOutcome<E>) -> (r: BackoffAction<E>)
        ensures
            final(self).policy == old(self).policy,
            match outcome {
                AttemptOutcome::Done => r == BackoffAction::<E>::Finish(Ok(()))
                    && final(self).current == old(self).current,
                AttemptOutcome::Failed { error, reconnect, reset } => if !reconnect {
                    r == BackoffAction::<E>::Finish(Err(error)) && final(self).current == old(
                        self,
                    ).current
                } else {
                    let w = if reset {
                        old(self).policy.initial
                    } else {
                        old(self).current
                    };
                    r == BackoffAction::<E>::Wait(w) && final(self).current == w
                },
            },
    {
        match outcome {
            AttemptOutcome::Done => BackoffAction::Finish(Ok(())),
            AttemptOutcome::Failed { error, reconnect, reset } => {
                if !reconnect {
                    return BackoffAction::Finish(Err(error));
                }
                if reset {
                    self.current = self.policy.initial;
                }
                BackoffAction::Wait(self.current)
            },
        }
    }

    /// The decision after a wait: an aborted wait stops with `Ok`; otherwise the next wait is
    /// the current one doubled, capped at `max`.
    pub fn after_wait<E>(&mut self, aborted: bool) -> (r: Option<BackoffAction<E>>)
        ensures
            final(self).policy == old(self).policy,
            aborted ==> r == Some(BackoffAction::<E>::Finish(Ok(())))
                && final(self).current == old(self).current,
            !aborted ==> r is None && final(self).current == spec_doubled(
                old(self).current as int,
                old(self).policy.max as int,
            ),
    {
        if aborted {
            return Some(BackoffAction::Finish(Ok(())));
        }
        let max = self.policy.max;
        self.current = if self.current > max / 2 {
            max
        } else {
            self.current * 2
        };
        None
    }
}

/// Without resets, the wait after `n` failures in a row is `initial * 2^n`, capped at `max`
/// (for a policy whose `initial` is at most its `max`).
pub proof fn lemma_nth_wait_closed_form(p: BackoffPolicy, n: nat)
    requires
        p.initial <= p.max,
    ensures
        nth_wait(p, n) == if p.initial * pow2(n) <= p.max {
            p.initial * pow2(n)
        } else {
            p.max as int
        },
    decreases n,
{
    if n > 0 {
        lemma_nth_wait_closed_form(p, (n - 1) as nat);
        vstd::arithmetic::power2::lemma_pow2_unfold(n);
        let a = p.initial * pow2((n - 1) as nat);
        assert(p.initial * pow2(n) == 2 * a) by (nonlinear_arith)
            requires
                pow2(n) == 2 * pow2((n - 1) as nat),
                a == p.initial * pow2((n - 1) as nat),
        ;
    } else {
        vstd::arithmetic::power::lemma_pow0(2);
        vstd::arithmetic::power2::lemma_pow2(0);
    }
}

/// No wait ever exceeds the larger of `initial` and `max`, and after the first failure none
/// exceeds `max`.
pub proof fn lemma_nth_wait_bounded(p: BackoffPolicy, n: nat)
    ensures
        nth_wait(p, n) <= if p.initial > p.max {
            p.initial as int
        } else {
            p.max as int
        },
        n > 0 ==> nth_wait(p, n) <= p.max,
        nth_wait(p, n) >= 0,
    decreases n,
{
    if n > 0 {
        lemma_nth_wait_bounded(p, (n - 1) as nat);
    }
}

// ---------------------------------------------------------------------------------------------
// A whole retry run.
// ---------------------------------------------------------------------------------------------

/// A retry run from a loop whose next failure waits `current`, given the outcomes of its
/// attempts and the answers of its waits (`true`: aborted), in order: how it ends (`None` when
/// the inputs run out first) and the waits it asks for. These are the steps of `on_attempt` and
/// `after_wait`: a finished attempt ends it with `Ok`, a failure with reconnecting disabled ends
/// it with that failure and no wait, any other failure waits `current` (or `initial` when it
/// resets), and an aborted wait ends it with `Ok`; otherwise the next wait is the doubled one.
pub open spec fn run_from<E>(
    p: BackoffPolicy,
    current: int,
    outcomes: Seq<AttemptOutcome<E>>,
    aborts: Seq<bool>,
) -> (Option<Result<(), E>>, Seq<int>)
    decreases outcomes.len(),
{
    if outcomes.len() == 0 {
        (None, Seq::empty())
    } else {
        match outcomes[0] {
            AttemptOutcome::Done => (Some(Ok(())), Seq::empty()),
            AttemptOutcome::Failed { error, reconnect, reset } => if !reconnect {
                (Some(Err(error)), Seq::empty())
            } else {
                let w = if reset {
                    p.initial as int
                } else {
                    current
                };
                if aborts.len() == 0 {
                    (None, seq![w])
                } else if aborts[0] {
                    (Some(Ok(())), seq![w])
                } else {
                    let (end, ws) = run_from(
                        p,
                        spec_doubled(w, p.max as int),
                        outcomes.skip(1),
                        aborts.skip(1),
                    );
                    (end, seq![w] + ws)
                }
            },
        }
    }
}

/// A whole retry run under policy `p` (see `run_from`).
pub open spec fn spec_run<E>(p: BackoffPolicy, outcomes: Seq<AttemptOutcome<E>>, aborts: Seq<
    bool,
>) -> (Option<Result<(), E>>, Seq<int>) {
    run_from(p, p.initial as int, outcomes, aborts)
}

/// Attempt `i` failed with reconnecting on.
pub open spec fn reconnecting<E>(o: AttemptOutcome<E>) -> bool {
    o matches AttemptOutcome::Failed { reconnect, .. } && reconnect
}

/// Attempt `i` failed and resets the backoff.
pub open spec fn resets<E>(o: AttemptOutcome<E>) -> bool {
    o matches AttemptOutcome::Failed { reset, .. } && reset
}

proof fn lemma_run_ends_from<E>(
    p: BackoffPolicy,
    current: int,
    outcomes: Seq<AttemptOutcome<E>>,
    aborts: Seq<bool>,
    k: int,
)
    requires
        0 <= k < outcomes.len(),
        k < aborts.len(),
        forall|i: int| 0 <= i < k ==> reconnecting(#[trigger] outcomes[i]) && !aborts[i],
    ensures
        ({
            let (end, ws) = run_from(p, current, outcomes, aborts);
            &&& outcomes[k] is Done ==> end == Some(Ok::<(), E>(())) && ws.len() == k
            &&& (outcomes[k] matches AttemptOutcome::Failed { error, reconnect, .. } && !reconnect)
                ==> end == Some(Err::<(), E>(outcomes[k]->error)) && ws.len() == k
            &&& (reconnecting(outcomes[k]) && aborts[k]) ==> end == Some(Ok::<(), E>(()))
                && ws.len() == k + 1
        }),
    decreases k,
{
    if k > 0 {
        assert(reconnecting(outcomes[0]) && !aborts[0]);
        let w = if resets(outcomes[0]) {
            p.initial as int
        } else {
            current
        };
        let os = outcomes.skip(1);
        let ab = aborts.skip(1);
        assert forall|i: int| 0 <= i < k - 1 implies reconnecting(#[trigger] os[i]) && !ab[i] by {
            assert(os[i] == outcomes[i + 1]);
            assert(ab[i] == aborts[i + 1]);
            assert(reconnecting(outcomes[i + 1]) && !aborts[i + 1]);
        }
        lemma_run_ends_from(p, spec_doubled(w, p.max as int), os, ab, k - 1);
        assert(os[k - 1] == outcomes[k]);
        assert(ab[k - 1] == aborts[k]);
    }
}

/// A run ends at the first attempt that finishes (`Ok`, after as many waits as failures before
/// it), the first failure with reconnecting disabled (that failure, with no wait for it), or the
/// first aborted wait (`Ok`, that wait included).
pub proof fn lemma_run_ends_at_first_stop<E>(
    p: BackoffPolicy,
    outcomes: Seq<AttemptOutcome<E>>,
    aborts: Seq<bool>,
    k: int,
)
    requires
        0 <= k < outcomes.len(),
        k < aborts.len(),
        forall|i: int| 0 <= i < k ==> reconnecting(#[trigger] outcomes[i]) && !aborts[i],
    ensures
        ({
            let (end, ws) = spec_run(p, outcomes, aborts);
            &&& outcomes[k] is Done ==> end == Some(Ok::<(), E>(())) && ws.len() == k
            &&& (outcomes[k] matches AttemptOutcome::Failed { error, reconnect, .. } && !reconnect)
                ==> end == Some(Err::<(), E>(outcomes[k]->error)) && ws.len() == k
            &&& (reconnecting(outcomes[k]) && aborts[k]) ==> end == Some(Ok::<(), E>(()))
                && ws.len() == k + 1
        }),
{
    lemma_run_ends_from(p, p.initial as int, outcomes, aborts, k);
}

proof fn lemma_run_waits_from<E>(
    p: BackoffPolicy,
    current: int,
    outcomes: Seq<AttemptOutcome<E>>,
    aborts: Seq<bool>,
    i: int,
)
    requires
        0 <= i < run_from(p, current, outcomes, aborts).1.len(),
    ensures
        ({
            let ws = run_from(p, current, outcomes, aborts).1;
            &&& i < outcomes.len()
            &&& reconnecting(outcomes[i])
            &&& ws[i] == if resets(outcomes[i]) {
                p.initial as int
            } else if i == 0 {
                current
            } else {
                spec_doubled(ws[i - 1], p.max as int)
            }
        }),
    decreases outcomes.len(),
{
    let ws = run_from(p, current, outcomes, aborts).1;
    let w = if resets(outcomes[0]) {
        p.initial as int
    } else {
        current
    };
    if i > 0 {
        let os = outcomes.skip(1);
        let ab = aborts.skip(1);
        let rest = run_from(p, spec_doubled(w, p.max as int), os, ab).1;
        assert(ws == seq![w] + rest);
        lemma_run_waits_from(p, spec_doubled(w, p.max as int), os, ab, i - 1);
        assert(os[i - 1] == outcomes[i]);
        if i - 1 > 0 {
            assert(ws[i - 1] == rest[i - 2]);
        } else {
            assert(ws[0] == w);
        }
    }
}

/// The waits of a run: the first is `initial`, each later one is `initial` when its failure
/// resets the backoff, else the one before it doubled and capped at `max`; and each wait
/// follows a failure with reconnecting on.
pub proof fn lemma_run_waits<E>(
    p: BackoffPolicy,
    outcomes: Seq<AttemptOutcome<E>>,
    aborts: Seq<bool>,
    i: int,
)
    requires
        0 <= i < spec_run(p, outcomes, aborts).1.len(),
    ensures
        ({
            let ws = spec_run(p, outcomes, aborts).1;
            &&& reconnecting(outcomes[i])
            &&& ws[i] == if i == 0 || resets(outcomes[i]) {
                p.initial as int
            } else {
                spec_doubled(ws[i - 1], p.max as int)
            }
        }),
{
    lemma_run_waits_from(p, p.initial as int, outcomes, aborts, i);
}

} // verus!
