//! Fetching the transactions of a batch of signatures: how often one fetch is tried, how
//! many fetches run at once, and what is kept of the outcomes.
//!
//! Nothing here talks to the gateway. The caller makes each attempt and reports how it
//! ended; the functions of this file say what to do next.

use crate::constants::{FETCH_RETRIES, FETCH_RETRY_DELAY_MS};
use crate::errors::CrawlError;
use crate::transaction::TransactionRecord;
use vstd::prelude::*;

verus! {

/// How often a failed attempt is tried again, and after what pause.
#[derive(Copy, Clone, Debug, PartialEq, Eq, Structural)]
pub struct RetryPolicy {
    /// How many times an attempt is tried again after the first one failed.
    pub retries: u32,
    /// The pause before each new attempt, in milliseconds.
    pub delay_ms: u64,
}

/// What to do after an attempt failed.
#[derive(Copy, Clone, Debug, PartialEq, Eq, Structural)]
pub enum RetryDecision {
    /// Pause for so many milliseconds, then try again.
    Retry(u64),
    /// Try no more: the fetch failed.
    GiveUp,
}

impl RetryPolicy {
    /// The policy for the fetch of a transaction: ten more attempts after the first, each
    /// after half a second.
    pub fn for_fetch() -> (policy: Self)
        ensures
            policy.retries == FETCH_RETRIES,
            policy.delay_ms == FETCH_RETRY_DELAY_MS,
    {
        RetryPolicy { retries: FETCH_RETRIES, delay_ms: FETCH_RETRY_DELAY_MS }
    }

    /// Whether another attempt is made once `failures` attempts have failed.
    pub open spec fn tries_again(&self, failures: nat) -> bool {
        failures <= self.retries
    }

    /// What to do now that `failures` attempts have failed, the last one just now.
    pub fn after_failure(&self, failures: u32) -> (decision: RetryDecision)
        ensures
            decision == if self.tries_again(failures as nat) {
                RetryDecision::Retry(self.delay_ms)
            } else {
                RetryDecision::GiveUp
            },
    {
        if failures <= self.retries {
            RetryDecision::Retry(self.delay_ms)
        } else {
            RetryDecision::GiveUp
        }
    }

    /// What a fetch gives that follows the policy, where the attempts end as `attempts`
    /// says, one after the other, and `failures` attempts have failed before: the value of
    /// the first attempt that succeeds, unless the policy gives up before it.
    pub open spec fn outcome<R>(&self, attempts: Seq<Option<R>>, failures: nat) -> Option<R>
        decreases attempts.len(),
    {
        if attempts.len() == 0 {
            None
        } else {
            match attempts.first() {
                Some(value) => Some(value),
                None => if self.tries_again(failures + 1) {
                    self.outcome(attempts.drop_first(), failures + 1)
                } else {
                    None
                },
            }
        }
    }

    /// A fetch gives the value of its first attempt that succeeds, where that attempt is
    /// among those that the policy makes: the first one and as many more as it tries again.
    pub proof fn lemma_fetch_succeeds<R>(&self, attempts: Seq<Option<R>>, first: int)
        requires
            0 <= first < attempts.len(),
            first <= self.retries,
            attempts[first] is Some,
            forall|i: int| 0 <= i < first ==> attempts[i] is None,
        ensures
            self.outcome(attempts, 0) == attempts[first],
    {
        self.lemma_outcome(attempts, 0, first);
    }

    /// A fetch gives nothing where every attempt fails that the policy makes, whatever a
    /// later attempt would have given.
    pub proof fn lemma_fetch_gives_up<R>(&self, attempts: Seq<Option<R>>)
        requires
            forall|i: int| 0 <= i < attempts.len() && i <= self.retries ==> attempts[i] is None,
        ensures
            self.outcome(attempts, 0) is None,
    {
        self.lemma_gives_up(attempts, 0);
    }

    proof fn lemma_outcome<R>(&self, attempts: Seq<Option<R>>, failures: nat, first: int)
        requires
            0 <= first < attempts.len(),
            failures + first <= self.retries,
            attempts[first] is Some,
            forall|i: int| 0 <= i < first ==> attempts[i] is None,
        ensures
            self.outcome(attempts, failures) == attempts[first],
        decreases attempts.len(),
    {
        if first > 0 {
            let rest = attempts.drop_first();
            self.lemma_outcome(rest, failures + 1, first - 1);
        }
    }

    proof fn lemma_gives_up<R>(&self, attempts: Seq<Option<R>>, failures: nat)
        requires
            failures <= self.retries,
            forall|i: int|
                0 <= i < attempts.len() && failures + i <= self.retries ==> attempts[i] is None,
        ensures
            self.outcome(attempts, failures) is None,
        decreases attempts.len(),
    {
        if attempts.len() > 0 {
            if self.tries_again(failures + 1) {
                let rest = attempts.drop_first();
                self.lemma_gives_up(rest, failures + 1);
            }
        }
    }
}

/// The records of the fetches that succeeded, in the order of the outcomes.
pub open spec fn records(outcomes: Seq<Result<TransactionRecord, CrawlError>>) -> Seq<
    TransactionRecord,
>
    decreases outcomes.len(),
{
    if outcomes.len() == 0 {
        Seq::empty()
    } else {
        match outcomes.last() {
            Ok(record) => records(outcomes.drop_last()).push(record),
            Err(_) => records(outcomes.drop_last()),
        }
    }
}

/// The errors of the fetches that failed, in the order of the outcomes.
pub open spec fn failures(outcomes: Seq<Result<TransactionRecord, CrawlError>>) -> Seq<CrawlError>
    decreases outcomes.len(),
{
    if outcomes.len() == 0 {
        Seq::empty()
    } else {
        match outcomes.last() {
            Ok(_) => failures(outcomes.drop_last()),
            Err(error) => failures(outcomes.drop_last()).push(error),
        }
    }
}

/// What is kept of the fetches of a batch.
pub struct FetchedBatch {
    /// The records of the fetches that succeeded.
    pub transactions: Vec<TransactionRecord>,
    /// The errors of the fetches that failed. They do not fail the batch.
    pub failures: Vec<CrawlError>,
}

/// The list in the opposite order.
fn reversed<T>(list: Vec<T>) -> (turned: Vec<T>)
    ensures
        turned@ == list@.reverse(),
{
    let ghost all = list@;
    let mut rest = list;
    let mut turned: Vec<T> = Vec::new();
    while rest.len() > 0
        invariant
            rest@.len() + turned@.len() == all.len(),
            rest@ == all.take(rest@.len() as int),
            forall|i: int| 0 <= i < turned@.len() ==> turned@[i] == all[all.len() - 1 - i],
        decreases rest.len(),
    {
        match rest.pop() {
            Some(item) => {
                turned.push(item);
            },
            None => {},
        }
    }
    turned
}

/// Sorts the outcomes of the fetches of a batch: the records are kept, the fetches that
/// failed leave their errors and are otherwise dropped. A failed fetch does not fail the
/// batch.
pub fn collect_fetched(outcomes: Vec<Result<TransactionRecord, CrawlError>>) -> (batch:
    FetchedBatch)
    ensures
        batch.transactions@ == records(outcomes@),
        batch.failures@ == failures(outcomes@),
{
    let ghost all = outcomes@;
    let mut rest = outcomes;
    let mut transactions: Vec<TransactionRecord> = Vec::new();
    let mut errors: Vec<CrawlError> = Vec::new();
    // The outcomes are taken from the end, so both lists are built backward.
    while rest.len() > 0
        invariant
            rest@.len() <= all.len(),
            rest@ == all.take(rest@.len() as int),
            records(all) == records(rest@) + transactions@.reverse(),
            failures(all) == failures(rest@) + errors@.reverse(),
        decreases rest.len(),
    {
        let outcome = rest.pop();
        match outcome {
            Some(Ok(record)) => {
                transactions.push(record);
            },
            Some(Err(error)) => {
                errors.push(error);
            },
            None => {},
        }
    }
    FetchedBatch { transactions: reversed(transactions), failures: reversed(errors) }
}

/// Where every fetch of a batch succeeded, the batch holds a record for every signature,
/// in their order.
pub proof fn lemma_all_fetched(outcomes: Seq<Result<TransactionRecord, CrawlError>>)
    requires
        forall|i: int| 0 <= i < outcomes.len() ==> outcomes[i] is Ok,
    ensures
        records(outcomes).len() == outcomes.len(),
        forall|i: int| 0 <= i < outcomes.len() ==> records(outcomes)[i] == outcomes[i]->Ok_0,
        failures(outcomes).len() == 0,
    decreases outcomes.len(),
{
    if outcomes.len() > 0 {
        lemma_all_fetched(outcomes.drop_last());
    }
}

/// A fetch that failed leaves no record: the batch is the one of the other fetches.
pub proof fn lemma_failed_fetch_dropped(
    outcomes: Seq<Result<TransactionRecord, CrawlError>>,
    failed: int,
)
    requires
        0 <= failed < outcomes.len(),
        outcomes[failed] is Err,
    ensures
        records(outcomes) == records(outcomes.remove(failed)),
    decreases outcomes.len(),
{
    if failed < outcomes.len() - 1 {
        lemma_failed_fetch_dropped(outcomes.drop_last(), failed);
        assert(outcomes.remove(failed).drop_last() =~= outcomes.drop_last().remove(failed));
    }
}

/// Whether `outcome` is how a fetch ends that follows the policy over attempts that end as
/// `attempts` says: with the value of the first attempt that succeeds, or with an error
/// where the policy gives up before one does.
pub open spec fn follows(
    policy: RetryPolicy,
    attempts: Seq<Option<TransactionRecord>>,
    outcome: Result<TransactionRecord, CrawlError>,
) -> bool {
    match policy.outcome(attempts, 0) {
        Some(record) => outcome == Ok::<TransactionRecord, CrawlError>(record),
        None => outcome is Err,
    }
}

/// Whether `first` is the place of the first attempt that succeeds, and the policy makes
/// that attempt.
pub open spec fn succeeds_at(
    policy: RetryPolicy,
    attempts: Seq<Option<TransactionRecord>>,
    first: int,
) -> bool {
    &&& 0 <= first < attempts.len()
    &&& first <= policy.retries
    &&& attempts[first] is Some
    &&& forall|i: int| 0 <= i < first ==> attempts[i] is None
}

/// Where every fetch of a batch succeeds within the attempts that the policy makes, however
/// many of them fail before, the batch holds a record for every signature: the one that the
/// first successful attempt for it gave.
pub proof fn lemma_batch_resilient(
    policy: RetryPolicy,
    attempts: Seq<Seq<Option<TransactionRecord>>>,
    first: Seq<int>,
    outcomes: Seq<Result<TransactionRecord, CrawlError>>,
)
    requires
        outcomes.len() == attempts.len(),
        first.len() == attempts.len(),
        forall|i: int| 0 <= i < attempts.len() ==> follows(policy, attempts[i], #[trigger] outcomes[i]),
        forall|i: int| 0 <= i < attempts.len() ==> succeeds_at(policy, attempts[i], #[trigger] first[i]),
    ensures
        records(outcomes).len() == attempts.len(),
        forall|i: int|
            0 <= i < attempts.len() ==> Some(#[trigger] records(outcomes)[i])
                == attempts[i][first[i]],
        failures(outcomes).len() == 0,
{
    assert forall|i: int| 0 <= i < outcomes.len() implies outcomes[i] is Ok && Some(
        outcomes[i]->Ok_0,
    ) == attempts[i][first[i]] by {
        policy.lemma_fetch_succeeds(attempts[i], first[i]);
    }
    lemma_all_fetched(outcomes);
}

/// A fetch of which every attempt fails that the policy makes leaves no record and does not
/// fail the batch: the batch is the one of the other fetches.
pub proof fn lemma_batch_drops_failed(
    policy: RetryPolicy,
    attempts: Seq<Seq<Option<TransactionRecord>>>,
    outcomes: Seq<Result<TransactionRecord, CrawlError>>,
    failed: int,
)
    requires
        outcomes.len() == attempts.len(),
        forall|i: int| 0 <= i < attempts.len() ==> follows(policy, attempts[i], #[trigger] outcomes[i]),
        0 <= failed < attempts.len(),
        forall|j: int|
            0 <= j < attempts[failed].len() && j <= policy.retries ==> attempts[failed][j] is None,
    ensures
        records(outcomes) == records(outcomes.remove(failed)),
{
    policy.lemma_fetch_gives_up(attempts[failed]);
    lemma_failed_fetch_dropped(outcomes, failed);
}

/// How far the fetches of a batch have come.
pub ghost struct Schedule {
    /// The number of signatures of the batch.
    pub total: nat,
    /// How many fetches may run at once.
    pub limit: nat,
    /// How many fetches were started: those of the first so many signatures.
    pub launched: nat,
    /// How many of the fetches that were started are still running.
    pub in_flight: nat,
}

/// What the caller does next.
#[derive(Copy, Clone, Debug, PartialEq, Eq, Structural)]
pub enum FetchAction {
    /// Start the fetch of the signature at this place of the batch.
    Launch(usize),
    /// Wait until a running fetch ends, then report it.
    Wait,
    /// Every fetch was started and has ended.
    Done,
    /// Fetches are left to start, none is running and none may be started: the limit is
    /// zero.
    Blocked,
}

/// What holds of a schedule at every moment: no more fetches run than the limit allows,
/// and none that was not started.
pub open spec fn orderly(schedule: Schedule) -> bool {
    &&& schedule.launched <= schedule.total
    &&& schedule.in_flight <= schedule.limit
    &&& schedule.in_flight <= schedule.launched
}

/// What the caller does next at `schedule`: a fetch is started while one is left and a
/// slot is free.
pub open spec fn next_action(schedule: Schedule) -> FetchAction {
    if schedule.launched < schedule.total && schedule.in_flight < schedule.limit {
        FetchAction::Launch(schedule.launched as usize)
    } else if schedule.in_flight > 0 {
        FetchAction::Wait
    } else if schedule.launched >= schedule.total {
        FetchAction::Done
    } else {
        FetchAction::Blocked
    }
}

/// The schedule after the caller was told what to do next: a fetch that is started takes a
/// slot.
pub open spec fn after_next(schedule: Schedule) -> Schedule {
    if next_action(schedule) is Launch {
        Schedule {
            launched: schedule.launched + 1,
            in_flight: schedule.in_flight + 1,
            ..schedule
        }
    } else {
        schedule
    }
}

/// The schedule after a running fetch ended, however it ended: its slot is free again.
pub open spec fn after_completion(schedule: Schedule) -> Schedule {
    if schedule.in_flight > 0 {
        Schedule { in_flight: (schedule.in_flight - 1) as nat, ..schedule }
    } else {
        schedule
    }
}

/// The order in which the fetches of a batch are started, so that no more than a given
/// number run at once.
pub struct FetchSchedule {
    total: usize,
    limit: usize,
    launched: usize,
    in_flight: usize,
}

impl View for FetchSchedule {
    type V = Schedule;

    closed spec fn view(&self) -> Schedule {
        Schedule {
            total: self.total as nat,
            limit: self.limit as nat,
            launched: self.launched as nat,
            in_flight: self.in_flight as nat,
        }
    }
}

impl FetchSchedule {
    /// The schedule for a batch of `total` signatures, of which at most `limit` are fetched
    /// at once.
    pub fn new(total: usize, limit: usize) -> (schedule: Self)
        ensures
            schedule@ == (Schedule { total: total as nat, limit: limit as nat, launched: 0, in_flight: 0 }),
            orderly(schedule@),
    {
        FetchSchedule { total, limit, launched: 0, in_flight: 0 }
    }

    /// How many fetches are running.
    pub fn in_flight(&self) -> (count: usize)
        ensures
            count == self@.in_flight,
    {
        self.in_flight
    }

    /// Says what to do next. A fetch that it tells to start counts as running from now on.
    pub fn next(&mut self) -> (action: FetchAction)
        ensures
            action == next_action(old(self)@),
            final(self)@ == after_next(old(self)@),
            orderly(old(self)@) ==> orderly(final(self)@),
    {
        if self.launched < self.total && self.in_flight < self.limit {
            let place = self.launched;
            self.launched = self.launched + 1;
            self.in_flight = self.in_flight + 1;
            FetchAction::Launch(place)
        } else if self.in_flight > 0 {
            FetchAction::Wait
        } else if self.launched >= self.total {
            FetchAction::Done
        } else {
            FetchAction::Blocked
        }
    }

    /// Takes note that a running fetch has ended. Whether it succeeded or failed makes no
    /// difference: its slot is free again.
    pub fn complete(&mut self)
        ensures
            final(self)@ == after_completion(old(self)@),
            orderly(old(self)@) ==> orderly(final(self)@),
    {
        if self.in_flight > 0 {
            self.in_flight = self.in_flight - 1;
        }
    }
}

} // verus!
