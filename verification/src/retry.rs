//! Bounded retry with exponential backoff for the first connection to the store.
//!
//! The module decides; the caller acts. After each failed attempt the caller
//! asks [`Backoff::on_failure`] what to do, sleeps for the delay it is given
//! and tries again, or gives up.

use vstd::arithmetic::power2::{lemma_pow2_pos, lemma_pow2_unfold, pow2};
use vstd::prelude::*;

verus! {

/// How often to try and how long to wait in between, in seconds.
#[derive(Clone, Copy, Debug, PartialEq, Eq, Structural)]
pub struct RetryPolicy {
    /// Attempts made before giving up.
    pub max_attempts: u32,
    /// Wait after the first failure.
    pub initial_delay: u64,
    /// No wait is longer than this.
    pub max_delay: u64,
}

/// The smaller of two numbers.
pub open spec fn least(a: int, b: int) -> int {
    if a <= b {
        a
    } else {
        b
    }
}

impl RetryPolicy {
    /// At least one attempt, and the first wait is within the cap.
    pub open spec fn wf(&self) -> bool {
        self.max_attempts >= 1 && self.initial_delay <= self.max_delay
    }

    /// The wait that follows failure number `failures + 1`: the initial delay
    /// doubled once per earlier failure, and capped.
    pub open spec fn spec_delay(&self, failures: nat) -> int {
        least(self.initial_delay * pow2(failures), self.max_delay as int)
    }

    /// The waits of a run in which every attempt fails, in order.
    pub open spec fn spec_schedule(&self) -> Seq<u64> {
        Seq::new((self.max_attempts - 1) as nat, |i: int| self.spec_delay(i as nat) as u64)
    }

    /// A policy, if the numbers make one.
    pub fn new(max_attempts: u32, initial_delay: u64, max_delay: u64) -> (r: Option<RetryPolicy>)
        ensures
            r == if max_attempts >= 1 && initial_delay <= max_delay {
                Some(RetryPolicy { max_attempts, initial_delay, max_delay })
            } else {
                None
            },
            r matches Some(p) ==> p.wf(),
    {
        if max_attempts >= 1 && initial_delay <= max_delay {
            Some(RetryPolicy { max_attempts, initial_delay, max_delay })
        } else {
            None
        }
    }

    /// Ten attempts, waiting 2 s at first and never more than 30 s.
    pub fn standard() -> (p: RetryPolicy)
        ensures
            p == (RetryPolicy { max_attempts: 10, initial_delay: 2, max_delay: 30 }),
            p.wf(),
    {
        RetryPolicy { max_attempts: 10, initial_delay: 2, max_delay: 30 }
    }

    /// All the waits of a run in which every attempt fails.
    pub fn schedule(&self) -> (waits: Vec<u64>)
        requires
            self.wf(),
        ensures
            waits@ == self.spec_schedule(),
    {
        let mut waits: Vec<u64> = Vec::new();
        let mut state: Backoff = Backoff::start(*self);
        loop
            invariant
                self.wf(),
                state.wf(),
                state.policy == *self,
                waits@.len() == state.failures,
                forall|i: int| 0 <= i < waits@.len() ==> waits@[i] == self.spec_delay(i as nat),
            ensures
                waits@.len() == self.max_attempts - 1,
                forall|i: int| 0 <= i < waits@.len() ==> waits@[i] == self.spec_delay(i as nat),
            decreases self.max_attempts - state.failures,
        {
            match state.on_failure() {
                RetryAction::GiveUp => {
                    break ;
                },
                RetryAction::WaitThenRetry { delay, next } => {
                    waits.push(delay);
                    state = next;
                },
            }
        }
        assert(waits@ =~= self.spec_schedule());
        waits
    }
}

/// Where a run of attempts stands: the failures so far and the next wait.
#[derive(Clone, Copy, Debug, PartialEq, Eq, Structural)]
pub struct Backoff {
    pub policy: RetryPolicy,
    /// Failed attempts so far.
    pub failures: u32,
    /// The wait that follows the next failure.
    pub delay: u64,
}

/// What the caller does after a failed attempt.
#[derive(Clone, Copy, Debug, PartialEq, Eq, Structural)]
pub enum RetryAction {
    /// The last attempt has failed: report the failure.
    GiveUp,
    /// Sleep for `delay` seconds, try again, and go on from `next`.
    WaitThenRetry { delay: u64, next: Backoff },
}

impl Backoff {
    /// Another attempt is still allowed, and the wait is the one the policy
    /// gives for this many failures.
    pub open spec fn wf(&self) -> bool {
        &&& self.policy.wf()
        &&& self.failures < self.policy.max_attempts
        &&& self.delay == self.policy.spec_delay(self.failures as nat)
    }

    /// The decision after one more failure.
    pub open spec fn spec_on_failure(&self) -> RetryAction {
        if self.failures + 1 >= self.policy.max_attempts {
            RetryAction::GiveUp
        } else {
            RetryAction::WaitThenRetry {
                delay: self.delay,
                next: Backoff {
                    policy: self.policy,
                    failures: (self.failures + 1) as u32,
                    delay: self.policy.spec_delay((self.failures + 1) as nat) as u64,
                },
            }
        }
    }

    /// The state before the first attempt.
    pub fn start(policy: RetryPolicy) -> (state: Backoff)
        requires
            policy.wf(),
        ensures
            state == (Backoff { policy, failures: 0, delay: policy.initial_delay }),
            state.wf(),
    {
        proof {
            assert(pow2(0) == 1) by {
                vstd::arithmetic::power2::lemma2_to64();
            }
        }
        Backoff { policy, failures: 0, delay: policy.initial_delay }
    }

    /// Takes note of a failed attempt and says what to do next.
    pub fn on_failure(&self) -> (action: RetryAction)
        requires
            self.wf(),
        ensures
            action == self.spec_on_failure(),
            action matches RetryAction::WaitThenRetry { delay, next } ==> next.wf() && delay
                <= self.policy.max_delay,
    {
        if self.failures + 1 >= self.policy.max_attempts {
            return RetryAction::GiveUp;
        }
        let cap: u64 = self.policy.max_delay;
        let doubled: u64 = if self.delay > cap / 2 {
            cap
        } else {
            let twice: u64 = self.delay * 2;
            if twice > cap {
                cap
            } else {
                twice
            }
        };
        proof {
            lemma_doubling(self.policy, self.failures as nat);
        }
        RetryAction::WaitThenRetry {
            delay: self.delay,
            next: Backoff { policy: self.policy, failures: self.failures + 1, delay: doubled },
        }
    }
}

/// Doubling a capped wait and capping it again gives the next wait.
proof fn lemma_doubling(policy: RetryPolicy, failures: nat)
    requires
        policy.wf(),
    ensures
        policy.spec_delay(failures + 1) == least(
            2 * policy.spec_delay(failures),
            policy.max_delay as int,
        ),
        0 <= policy.spec_delay(failures) <= policy.max_delay,
{
    lemma_pow2_unfold(failures + 1);
    lemma_pow2_pos(failures);
    let p = pow2(failures) as int;
    let i = policy.initial_delay as int;
    assert(i * (2 * p) == 2 * (i * p)) by (nonlinear_arith);
    assert(i * p >= 0) by (nonlinear_arith)
        requires
            i >= 0,
            p > 0,
    ;
}

/// No wait exceeds the cap, and none is shorter than the first one.
pub proof fn delay_is_bounded(policy: RetryPolicy, failures: nat)
    requires
        policy.wf(),
    ensures
        policy.initial_delay <= policy.spec_delay(failures) <= policy.max_delay,
{
    lemma_pow2_pos(failures);
    let p = pow2(failures) as int;
    let i = policy.initial_delay as int;
    assert(i * p >= i) by (nonlinear_arith)
        requires
            i >= 0,
            p >= 1,
    ;
}

/// Waits never get shorter as failures add up.
pub proof fn delay_never_shrinks(policy: RetryPolicy, earlier: nat, later: nat)
    requires
        policy.wf(),
        earlier <= later,
    ensures
        policy.spec_delay(earlier) <= policy.spec_delay(later),
    decreases later - earlier,
{
    if earlier < later {
        delay_never_shrinks(policy, earlier, (later - 1) as nat);
        lemma_doubling(policy, (later - 1) as nat);
    }
}

/// A run makes at most `max_attempts` attempts: the state after `failures`
/// failures gives up exactly when one more failure is the last one allowed.
pub proof fn gives_up_at_the_ceiling(state: Backoff)
    requires
        state.wf(),
    ensures
        state.spec_on_failure() is GiveUp <==> state.failures + 1 == state.policy.max_attempts,
{
}

} // verus!
