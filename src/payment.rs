//! Settling a payment through an unreliable gateway: one logical request
//! under one idempotency token, retried a bounded number of times.
use vstd::prelude::*;
use crate::ids::new_ulid;

verus! {

/// How many times a failed request is sent again.
pub const MAX_RETRIES: u32 = 5;

/// The pause before each retry, in milliseconds.
pub const RETRY_DELAY_MS: u64 = 100;

/// The HTTP status with which the gateway acknowledges a payment.
pub const STATUS_NO_CONTENT: u16 = 204;

/// The body of a payment-creation request.
#[derive(Clone, Copy, Debug, PartialEq, Eq, Structural)]
pub struct PaymentGatewayPostPaymentRequest {
    pub amount: i32,
}

/// Why a payment could not be settled.
#[derive(Clone, Copy, Debug, PartialEq, Eq, Structural)]
pub enum PaymentGatewayError {
    /// The request did not reach the gateway or no response came back.
    Transport,
    /// The gateway answered with a status other than the acknowledgment.
    UnexpectedStatus(u16),
    /// The gateway lists another number of payments than there are rides.
    UnexpectedNumberOfPayments { ride_count: usize, payment_count: usize },
}

/// What one physical attempt came to.
#[derive(Clone, Copy, Debug, PartialEq, Eq, Structural)]
pub enum AttemptOutcome {
    Accepted,
    Rejected(u16),
    TransportFailed,
}

/// Bounded retry with a fixed delay.
#[derive(Clone, Copy, Debug, PartialEq, Eq, Structural)]
pub struct RetryPolicy {
    pub max_retries: u32,
    pub delay_ms: u64,
}

/// What to do after an attempt.
#[derive(Clone, Copy, Debug, PartialEq, Eq, Structural)]
pub enum NextStep {
    /// The payment went through.
    Settled,
    /// Send the identical request again after this many milliseconds.
    RetryAfter(u64),
    /// Retries are exhausted; this is the last attempt's failure.
    GiveUp(PaymentGatewayError),
}

pub open spec fn outcome_of_status(code: u16) -> AttemptOutcome {
    if code == STATUS_NO_CONTENT {
        AttemptOutcome::Accepted
    } else {
        AttemptOutcome::Rejected(code)
    }
}

/// The step after the `attempts`-th attempt (counting from one) came to `outcome`.
pub open spec fn decide(policy: RetryPolicy, attempts: int, outcome: AttemptOutcome) -> NextStep {
    match outcome {
        AttemptOutcome::Accepted => NextStep::Settled,
        AttemptOutcome::Rejected(code) => if attempts <= policy.max_retries {
            NextStep::RetryAfter(policy.delay_ms)
        } else {
            NextStep::GiveUp(PaymentGatewayError::UnexpectedStatus(code))
        },
        AttemptOutcome::TransportFailed => if attempts <= policy.max_retries {
            NextStep::RetryAfter(policy.delay_ms)
        } else {
            NextStep::GiveUp(PaymentGatewayError::Transport)
        },
    }
}

impl RetryPolicy {
    /// Five retries, 100 ms apart.
    pub fn standard() -> (r: RetryPolicy)
        ensures
            r.max_retries == MAX_RETRIES,
            r.delay_ms == RETRY_DELAY_MS,
    {
        RetryPolicy { max_retries: MAX_RETRIES, delay_ms: RETRY_DELAY_MS }
    }
}

/// Reads the gateway's response status: only the no-body acknowledgment is a success.
pub fn classify_status(code: u16) -> (r: AttemptOutcome)
    ensures
        r == outcome_of_status(code),
{
    if code == STATUS_NO_CONTENT {
        AttemptOutcome::Accepted
    } else {
        AttemptOutcome::Rejected(code)
    }
}

/// One logical payment: its body, its idempotency token, and the attempts
/// made so far.
#[derive(Debug)]
pub struct PaymentSession {
    pub request: PaymentGatewayPostPaymentRequest,
    pub token: String,
    pub policy: RetryPolicy,
    pub attempts: u64,
    pub finished: bool,
}

impl PaymentSession {
    /// A session with a token the caller chose.
    pub fn new(request: PaymentGatewayPostPaymentRequest, token: String, policy: RetryPolicy) -> (r:
        PaymentSession)
        ensures
            r.request == request,
            r.token@ == token@,
            r.policy == policy,
            r.attempts == 0,
            !r.finished,
    {
        PaymentSession { request, token, policy, attempts: 0, finished: false }
    }

    /// A session with a freshly minted token and the standard policy.
    pub fn with_fresh_token(request: PaymentGatewayPostPaymentRequest) -> (r: PaymentSession)
        ensures
            r.request == request,
            r.token@.len() == 26,
            r.policy == (RetryPolicy { max_retries: MAX_RETRIES, delay_ms: RETRY_DELAY_MS }),
            r.attempts == 0,
            !r.finished,
    {
        PaymentSession::new(request, new_ulid(), RetryPolicy::standard())
    }

    /// Takes in the outcome of the next attempt and says what follows. The
    /// body and the token never change, so every retry repeats the same
    /// logical request.
    pub fn record(&mut self, outcome: AttemptOutcome) -> (r: NextStep)
        requires
            !old(self).finished,
            old(self).attempts <= old(self).policy.max_retries,
        ensures
            r == decide(old(self).policy, old(self).attempts + 1, outcome),
            final(self).attempts == old(self).attempts + 1,
            final(self).finished == !(r is RetryAfter),
            final(self).request == old(self).request,
            final(self).token == old(self).token,
            final(self).policy == old(self).policy,
            !final(self).finished ==> final(self).attempts <= final(self).policy.max_retries,
    {
        self.attempts = self.attempts + 1;
        let step = match outcome {
            AttemptOutcome::Accepted => NextStep::Settled,
            AttemptOutcome::Rejected(code) => if self.attempts <= self.policy.max_retries as u64 {
                NextStep::RetryAfter(self.policy.delay_ms)
            } else {
                NextStep::GiveUp(PaymentGatewayError::UnexpectedStatus(code))
            },
            AttemptOutcome::TransportFailed => if self.attempts <= self.policy.max_retries as u64 {
                NextStep::RetryAfter(self.policy.delay_ms)
            } else {
                NextStep::GiveUp(PaymentGatewayError::Transport)
            },
        };
        self.finished = match step {
            NextStep::RetryAfter(_) => false,
            _ => true,
        };
        step
    }
}

/// Feeding attempt outcomes from index `k` on: whether the payment settles
/// and after how many attempts in all.
pub open spec fn run_from(policy: RetryPolicy, outcomes: Seq<AttemptOutcome>, k: int) -> (bool, int)
    decreases policy.max_retries + 1 - k,
{
    if k < 0 || k > policy.max_retries || k >= outcomes.len() {
        (outcomes[k] == AttemptOutcome::Accepted, k + 1)
    } else {
        match decide(policy, k + 1, outcomes[k]) {
            NextStep::RetryAfter(_) => run_from(policy, outcomes, k + 1),
            NextStep::Settled => (true, k + 1),
            NextStep::GiveUp(_) => (false, k + 1),
        }
    }
}

/// A payment settles exactly when one of its first `max_retries + 1` attempts
/// is accepted, after as many attempts as it takes to reach the first
/// acceptance; when all of them fail it gives up after `max_retries + 1`.
pub proof fn lemma_retry_bound(policy: RetryPolicy, outcomes: Seq<AttemptOutcome>)
    requires
        outcomes.len() > policy.max_retries,
    ensures
        ({
            let (ok, n) = run_from(policy, outcomes, 0);
            &&& 1 <= n <= policy.max_retries + 1
            &&& forall|j: int| 0 <= j < n - 1 ==> #[trigger] outcomes[j] != AttemptOutcome::Accepted
            &&& ok <==> outcomes[n - 1] == AttemptOutcome::Accepted
            &&& !ok ==> n == policy.max_retries + 1
        }),
{
    lemma_run_from(policy, outcomes, 0);
}

proof fn lemma_run_from(policy: RetryPolicy, outcomes: Seq<AttemptOutcome>, k: int)
    requires
        outcomes.len() > policy.max_retries,
        0 <= k <= policy.max_retries,
    ensures
        ({
            let (ok, n) = run_from(policy, outcomes, k);
            &&& k + 1 <= n <= policy.max_retries + 1
            &&& forall|j: int| k <= j < n - 1 ==> #[trigger] outcomes[j] != AttemptOutcome::Accepted
            &&& ok <==> outcomes[n - 1] == AttemptOutcome::Accepted
            &&& !ok ==> n == policy.max_retries + 1
        }),
    decreases policy.max_retries + 1 - k,
{
    if k < policy.max_retries {
        lemma_run_from(policy, outcomes, k + 1);
    }
}

} // verus!
