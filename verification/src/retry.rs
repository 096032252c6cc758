//! What happens to a chunk whose fetch fails: whether it is tried again,
//! after how long, and when it is given up.

use rand::Rng;
use vstd::prelude::*;
use crate::error::ApiError;
use crate::error::ApiErrorView;

verus! {

/// The wait before the first retry, in milliseconds, without jitter.
pub const BASE_WAIT_TIME: usize = 300;

/// The longest wait before a retry, in milliseconds.
pub const MAX_WAIT_TIME: usize = 10_000;

/// The most that chance adds to a wait, in milliseconds.
pub const MAX_JITTER: usize = 500;

/// `rand::Rng::gen_range` on the thread's generator, over `0..=max`. The
/// range is not empty, so the call returns, and what it returns lies in the
/// range; which value is left open.
#[verifier::external_body]
fn random_up_to(max: usize) -> (j: usize)
    ensures
        j <= max,
{
    rand::thread_rng().gen_range(0..=max)
}

/// The wait before retry number `n` (counted from 0): the base, plus the
/// square of `n`, plus the jitter, but never more than `max`.
pub open spec fn backoff_millis(base: nat, n: nat, max: nat, jitter: nat) -> nat {
    if base + n * n + jitter <= max {
        base + n * n + jitter
    } else {
        max
    }
}

/// The wait grows with the jitter and never exceeds `max`.
pub proof fn lemma_backoff_bounds(base: nat, n: nat, max: nat, jitter: nat)
    requires
        jitter <= MAX_JITTER,
    ensures
        backoff_millis(base, n, max, 0) <= backoff_millis(base, n, max, jitter),
        backoff_millis(base, n, max, jitter) <= backoff_millis(base, n, max, MAX_JITTER as nat),
        backoff_millis(base, n, max, jitter) <= max,
{
}

/// The wait before retry number `n` for a jitter that is already drawn.
pub fn backoff_with_jitter(base_wait_time: usize, n: usize, max: usize, jitter: usize) -> (wait:
    usize)
    ensures
        wait == backoff_millis(base_wait_time as nat, n as nat, max as nat, jitter as nat),
{
    let square = match n.checked_mul(n) {
        Some(v) => v,
        None => {
            return max;
        },
    };
    let sum = match base_wait_time.checked_add(square) {
        Some(v) => v,
        None => {
            return max;
        },
    };
    let all = match sum.checked_add(jitter) {
        Some(v) => v,
        None => {
            return max;
        },
    };
    if all <= max {
        all
    } else {
        max
    }
}

/// The wait before retry number `n`, with a jitter drawn at random from 0 to
/// 500 milliseconds.
pub fn exponential_backoff(base_wait_time: usize, n: usize, max: usize) -> (wait: usize)
    ensures
        exists|j: nat|
            j <= MAX_JITTER && wait == #[trigger] backoff_millis(
                base_wait_time as nat,
                n as nat,
                max as nat,
                j,
            ),
        wait <= max,
{
    let j = random_up_to(MAX_JITTER);
    backoff_with_jitter(base_wait_time, n, max, j)
}

/// The limits on retrying that a download is configured with.
#[derive(Clone, Copy, Debug, PartialEq, Eq, Structural)]
pub struct RetryPolicy {
    /// How many chunks may be in a retry at once. With 0 nothing is retried.
    pub parallel_failures: usize,
    /// How many retries one chunk gets.
    pub max_retries: usize,
}

/// A chunk whose fetch is under way.
#[derive(Debug, PartialEq, Eq)]
pub struct Fetching {
    /// How many retries were made before this attempt: 0 for the first
    /// attempt, and the number of the attempt after that.
    pub retries: usize,
}

/// A chunk that failed and asks for a slot to retry in.
#[derive(Debug, PartialEq, Eq)]
pub struct AwaitingSlot {
    /// How many retries were made so far.
    pub retries: usize,
}

/// What follows the end of an attempt.
#[derive(Debug, PartialEq, Eq)]
pub enum AttemptStep {
    /// The chunk is written.
    Done,
    /// The chunk is given up with this error; nothing more is asked for it.
    Fail(ApiError),
    /// A retry slot is to be asked for, without waiting for one.
    NeedSlot(AwaitingSlot),
}

/// What follows the answer to a request for a retry slot.
#[derive(Debug, PartialEq, Eq)]
pub enum SlotStep {
    /// The chunk is given up with this error.
    Fail(ApiError),
    /// After `millis` milliseconds the same range is fetched again; the slot
    /// is held until that attempt ends.
    Retry { millis: u64, next: Fetching },
}

/// The outcome of an attempt, in the model: what `AttemptStep` says with its
/// texts as character sequences.
pub enum AttemptStepView {
    Done,
    Fail(ApiErrorView),
    NeedSlot { retries: nat },
}

/// The rule for the end of an attempt that `retries` retries went before. A
/// success completes the chunk, always. A failure is final where nothing
/// may be retried. A failure once as many retries were made as the policy
/// allows is final too: the chunk ends in too many retries, which holds
/// that last failure, and no slot is asked for. Any other failure asks for
/// a retry slot.
pub open spec fn attempt_rule(
    policy: RetryPolicy,
    retries: nat,
    result: Result<(), ApiErrorView>,
) -> AttemptStepView {
    match result {
        Ok(_) => AttemptStepView::Done,
        Err(e) => if policy.parallel_failures == 0 {
            AttemptStepView::Fail(e)
        } else if retries >= policy.max_retries {
            AttemptStepView::Fail(ApiErrorView::TooManyRetries(Box::new(e)))
        } else {
            AttemptStepView::NeedSlot { retries }
        },
    }
}

/// The number of retries once one more is made; it stops at the largest
/// number that can be counted.
pub open spec fn one_more(retries: usize) -> usize {
    if retries < usize::MAX {
        (retries + 1) as usize
    } else {
        retries
    }
}

impl AttemptStep {
    /// The step with its texts as character sequences.
    pub open spec fn model(self) -> AttemptStepView {
        match self {
            AttemptStep::Done => AttemptStepView::Done,
            AttemptStep::Fail(e) => AttemptStepView::Fail(e@),
            AttemptStep::NeedSlot(w) => AttemptStepView::NeedSlot { retries: w.retries as nat },
        }
    }
}

impl Fetching {
    /// The state of a chunk before its first attempt.
    pub fn first() -> (state: Fetching)
        ensures
            state.retries == 0,
    {
        Fetching { retries: 0 }
    }

    /// Takes the result of the attempt and says what follows.
    pub fn on_attempt(self, policy: &RetryPolicy, result: Result<(), ApiError>) -> (step:
        AttemptStep)
        ensures
            step.model() == attempt_rule(
                *policy,
                self.retries as nat,
                match result {
                    Ok(_) => Ok(()),
                    Err(e) => Err(e@),
                },
            ),
    {
        match result {
            Ok(_) => AttemptStep::Done,
            Err(e) => {
                if policy.parallel_failures == 0 {
                    AttemptStep::Fail(e)
                } else if self.retries >= policy.max_retries {
                    AttemptStep::Fail(ApiError::TooManyRetries(Box::new(e)))
                } else {
                    AttemptStep::NeedSlot(AwaitingSlot { retries: self.retries })
                }
            },
        }
    }
}

impl AwaitingSlot {
    /// The step for a slot that was granted, once the jitter is drawn: wait
    /// for the backoff of the retries made so far, then fetch again, with
    /// one retry more counted.
    pub fn retry_with_jitter(self, jitter: usize) -> (step: SlotStep)
        ensures
            step matches SlotStep::Retry { millis, next },
            step->millis == backoff_millis(
                BASE_WAIT_TIME as nat,
                self.retries as nat,
                MAX_WAIT_TIME as nat,
                jitter as nat,
            ),
            step->next.retries == one_more(self.retries),
    {
        let wait = backoff_with_jitter(BASE_WAIT_TIME, self.retries, MAX_WAIT_TIME, jitter);
        let retries = if self.retries < usize::MAX {
            self.retries + 1
        } else {
            self.retries
        };
        SlotStep::Retry { millis: wait as u64, next: Fetching { retries } }
    }

    /// Takes the answer to the request for a retry slot: `None` where the
    /// slot was granted, else the reason why not. Without a slot the chunk
    /// fails with that reason and is not retried. With one, the same range
    /// is fetched again after the backoff for the retries made so far,
    /// whose jitter is drawn here.
    pub fn on_slot(self, refused: Option<String>) -> (step: SlotStep)
        ensures
            match refused {
                Some(why) => step matches SlotStep::Fail(e) && e@ == ApiErrorView::TryAcquireError(
                    why@,
                ),
                None => {
                    &&& step matches SlotStep::Retry { millis, next }
                    &&& exists|j: nat|
                        j <= MAX_JITTER && step->millis == #[trigger] backoff_millis(
                            BASE_WAIT_TIME as nat,
                            self.retries as nat,
                            MAX_WAIT_TIME as nat,
                            j,
                        )
                    &&& step->millis <= MAX_WAIT_TIME
                    &&& step->next.retries == one_more(self.retries)
                },
            },
    {
        match refused {
            Some(why) => SlotStep::Fail(ApiError::TryAcquireError(why)),
            None => {
                let j = random_up_to(MAX_JITTER);
                self.retry_with_jitter(j)
            },
        }
    }
}

/// The outcome of a fetch whose chunks ended as `results` say, in the order
/// of their ranges: success where every chunk was written, else the failure
/// of the first chunk that failed.
pub open spec fn fetch_result(results: Seq<Result<(), ApiError>>) -> Result<(), ApiError>
    decreases results.len(),
{
    if results.len() == 0 {
        Ok(())
    } else {
        match fetch_result(results.drop_last()) {
            Err(e) => Err(e),
            Ok(_) => results.last(),
        }
    }
}

/// A fetch succeeds exactly if each of its chunks does, and fails with the
/// failure of a chunk before which every chunk succeeded.
pub proof fn lemma_fetch_result(results: Seq<Result<(), ApiError>>)
    ensures
        fetch_result(results) is Ok <==> forall|i: int|
            0 <= i < results.len() ==> (#[trigger] results[i]) is Ok,
        fetch_result(results) is Err ==> exists|k: int|
            0 <= k < results.len() && #[trigger] results[k] == fetch_result(results) && forall|
                i: int,
            |
                0 <= i < k ==> (#[trigger] results[i]) is Ok,
    decreases results.len(),
{
    if results.len() > 0 {
        let before = results.drop_last();
        lemma_fetch_result(before);
        assert forall|i: int| 0 <= i < before.len() implies before[i] == results[i] by {}
        if fetch_result(before) is Err {
            let k = choose|k: int|
                0 <= k < before.len() && #[trigger] before[k] == fetch_result(before) && forall|
                    i: int,
                |
                    0 <= i < k ==> (#[trigger] before[i]) is Ok;
            assert(results[k] == fetch_result(results));
            assert forall|i: int| 0 <= i < k implies (#[trigger] results[i]) is Ok by {
                assert(before[i] is Ok);
            }
            assert(results[k] is Err);
        } else {
            assert forall|i: int| 0 <= i < before.len() implies (#[trigger] results[i]) is Ok by {
                assert(before[i] is Ok);
            }
            if results.last() is Err {
                let k = results.len() - 1;
                assert(results[k] == fetch_result(results));
            }
        }
    }
}

/// Gathers the outcomes of the chunks of one fetch, given in the order of
/// their ranges, once every chunk has ended.
pub fn fetch_outcome(results: Vec<Result<(), ApiError>>) -> (outcome: Result<(), ApiError>)
    ensures
        outcome == fetch_result(results@),
{
    let mut results = results;
    let ghost all = results@;
    let mut outcome: Result<(), ApiError> = Ok(());
    assert(all.take(all.len() as int) =~= all);
    assert(fetch_result(all) matches Ok(u) ==> u == ());
    while results.len() > 0
        invariant
            results@ == all.take(results@.len() as int),
            results@.len() <= all.len(),
            fetch_result(all) == (match fetch_result(results@) {
                Err(e) => Err(e),
                Ok(_) => outcome,
            }),
        decreases results@.len(),
    {
        let ghost before = results@;
        let last = results.pop();
        proof {
            assert(results@ =~= before.drop_last());
            assert(results@ =~= all.take(results@.len() as int));
            assert(last == Some(before.last()));
            assert(before.last() matches Ok(u) ==> u == ());
        }
        match last {
            Some(Err(e)) => {
                outcome = Err(e);
            },
            _ => {},
        }
    }
    outcome
}

/// Where a chunk stands after the attempts whose results are `results`, in
/// order, when every retry slot asked for is granted: its outcome, or
/// nothing while it is still under way. `retries` retries went before the
/// first of these attempts.
pub open spec fn chunk_outcome(
    policy: RetryPolicy,
    retries: nat,
    results: Seq<Result<(), ApiErrorView>>,
) -> Option<Result<(), ApiErrorView>>
    decreases results.len(),
{
    if results.len() == 0 {
        None
    } else {
        match attempt_rule(policy, retries, results[0]) {
            AttemptStepView::Done => Some(Ok(())),
            AttemptStepView::Fail(e) => Some(Err(e)),
            AttemptStepView::NeedSlot { retries: made } => chunk_outcome(
                policy,
                made + 1,
                results.drop_first(),
            ),
        }
    }
}

/// Whether the first `n` of `results` are failures.
pub open spec fn all_fail(results: Seq<Result<(), ApiErrorView>>, n: int) -> bool {
    forall|i: int| 0 <= i < n ==> (#[trigger] results[i]) is Err
}

/// Where nothing may be retried, the first failure of a chunk is its
/// outcome: no second attempt is made.
pub proof fn lemma_no_retry_without_budget(
    policy: RetryPolicy,
    results: Seq<Result<(), ApiErrorView>>,
)
    requires
        policy.parallel_failures == 0,
        results.len() > 0,
        results[0] is Err,
    ensures
        chunk_outcome(policy, 0, results) == Some(Err::<(), ApiErrorView>(results[0]->Err_0)),
        attempt_rule(policy, 0, results[0]) == AttemptStepView::Fail(results[0]->Err_0),
{
}

proof fn lemma_retry_succeeds(
    policy: RetryPolicy,
    retries: nat,
    results: Seq<Result<(), ApiErrorView>>,
    k: int,
)
    requires
        policy.parallel_failures >= 1,
        0 <= k < results.len(),
        all_fail(results, k),
        results[k] is Ok,
        retries + k <= policy.max_retries,
    ensures
        chunk_outcome(policy, retries, results) == Some(Ok::<(), ApiErrorView>(())),
    decreases k,
{
    if k > 0 {
        assert(results[0] is Err);
        let rest = results.drop_first();
        assert forall|i: int| 0 <= i < k - 1 implies (#[trigger] rest[i]) is Err by {
            assert(rest[i] == results[i + 1]);
        }
        assert(rest[k - 1] == results[k]);
        lemma_retry_succeeds(policy, retries + 1, rest, k - 1);
    }
}

proof fn lemma_retry_gives_up(
    policy: RetryPolicy,
    retries: nat,
    results: Seq<Result<(), ApiErrorView>>,
)
    requires
        policy.parallel_failures >= 1,
        retries <= policy.max_retries,
        results.len() > policy.max_retries - retries,
        all_fail(results, policy.max_retries - retries + 1),
    ensures
        chunk_outcome(policy, retries, results) == Some(
            Err::<(), ApiErrorView>(
                ApiErrorView::TooManyRetries(
                    Box::new(results[policy.max_retries - retries]->Err_0),
                ),
            ),
        ),
    decreases policy.max_retries - retries,
{
    assert(results[0] is Err);
    if retries < policy.max_retries {
        let rest = results.drop_first();
        assert forall|i: int| 0 <= i < policy.max_retries - retries implies (
        #[trigger] rest[i]) is Err by {
            assert(rest[i] == results[i + 1]);
        }
        assert(rest[policy.max_retries - retries - 1] == results[policy.max_retries - retries]);
        lemma_retry_gives_up(policy, retries + 1, rest);
    }
}

proof fn lemma_retry_ends(
    policy: RetryPolicy,
    retries: nat,
    results: Seq<Result<(), ApiErrorView>>,
)
    requires
        retries <= policy.max_retries,
        results.len() > policy.max_retries - retries,
    ensures
        chunk_outcome(policy, retries, results) is Some,
    decreases policy.max_retries - retries,
{
    if attempt_rule(policy, retries, results[0]) is NeedSlot {
        lemma_retry_ends(policy, retries + 1, results.drop_first());
    }
}

/// A chunk whose first attempt succeeds is written, whatever the policy.
pub proof fn lemma_success_completes(
    policy: RetryPolicy,
    retries: nat,
    results: Seq<Result<(), ApiErrorView>>,
)
    requires
        results.len() > 0,
        results[0] is Ok,
    ensures
        chunk_outcome(policy, retries, results) == Some(Ok::<(), ApiErrorView>(())),
{
}

/// Where retries are allowed and every slot is granted, a chunk whose first
/// `k` attempts fail and whose next attempt succeeds is written, as long as
/// `k` is no more than the retries allowed.
pub proof fn lemma_success_within_retries(
    policy: RetryPolicy,
    results: Seq<Result<(), ApiErrorView>>,
    k: int,
)
    requires
        policy.parallel_failures >= 1,
        0 <= k < results.len(),
        k <= policy.max_retries,
        all_fail(results, k),
        results[k] is Ok,
    ensures
        chunk_outcome(policy, 0, results) == Some(Ok::<(), ApiErrorView>(())),
{
    lemma_retry_succeeds(policy, 0, results, k);
}

/// Where retries are allowed and every slot is granted, a chunk that fails
/// on the first attempt and on every retry allowed ends in too many
/// retries, which holds the failure of the last of these attempts.
pub proof fn lemma_too_many_retries(policy: RetryPolicy, results: Seq<Result<(), ApiErrorView>>)
    requires
        policy.parallel_failures >= 1,
        results.len() >= policy.max_retries + 1,
        all_fail(results, policy.max_retries + 1),
    ensures
        chunk_outcome(policy, 0, results) == Some(
            Err::<(), ApiErrorView>(
                ApiErrorView::TooManyRetries(Box::new(results[policy.max_retries as int]->Err_0)),
            ),
        ),
{
    lemma_retry_gives_up(policy, 0, results);
}

/// No chunk is attempted more often than once and once more for each retry
/// allowed: after that many attempts its outcome is there.
pub proof fn lemma_attempts_are_bounded(
    policy: RetryPolicy,
    results: Seq<Result<(), ApiErrorView>>,
)
    requires
        results.len() >= policy.max_retries + 1,
    ensures
        chunk_outcome(policy, 0, results) is Some,
{
    lemma_retry_ends(policy, 0, results);
}

} // verus!
