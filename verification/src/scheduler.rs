//! The scheduling engine: ingestion, the polling tick, and what follows a
//! transmission.
//!
//! The engine owns no schedule. Everything it does is a call to one of its
//! collaborators, and those calls are recorded, in order, each with what was
//! handed over and what came back (see `record`). The contracts below say exactly
//! which calls a function makes.

use vstd::prelude::*;
use crate::contract::{
    Clock,
    MetricEvent,
    Metrics,
    Repository,
    RepositoryError,
    TransmitError,
    Transmitter,
};
use crate::model::{is_random_uuid, Message, MessageSchedule, SchedulePattern, State};
use crate::record::{failure, polled, Collaborators, Step};
use crate::time::Timestamp;

verus! {

/// The most schedules that one tick claims.
pub const BATCH_SIZE: u32 = 100;

/// Why the engine could not do what it was asked.
#[derive(Debug, PartialEq, Eq)]
pub enum SchedulerError {
    /// The pattern was refused at ingestion.
    InvalidPattern,
    /// The repository failed: on insert, on poll, or on the save that follows a
    /// transmission (the schedule then stays claimed).
    Repository(RepositoryError),
    /// The message was not transmitted; the claim was given up.
    Transmit(TransmitError),
    /// The message was not transmitted and the claim could not be given up: the
    /// schedule stays claimed.
    Stuck { transmit: TransmitError, reschedule: RepositoryError },
}

/// The transmitter's error, read off the outcome of a reconciliation.
pub open spec fn transmit_failure(outcome: Result<(), SchedulerError>) -> Option<TransmitError> {
    match outcome {
        Err(SchedulerError::Transmit(e)) => Some(e),
        Err(SchedulerError::Stuck { transmit, reschedule }) => Some(transmit),
        _ => None,
    }
}

/// The repository's error, on save or on reschedule, read off the outcome of a
/// reconciliation.
pub open spec fn store_failure(outcome: Result<(), SchedulerError>) -> Option<RepositoryError> {
    match outcome {
        Err(SchedulerError::Repository(e)) => Some(e),
        Err(SchedulerError::Stuck { transmit, reschedule }) => Some(reschedule),
        _ => None,
    }
}

/// The outcome of a reconciliation for the errors, if any, of the transmitter and
/// then of the repository: success without an error; the one error as it came;
/// both where both failed.
pub open spec fn settled(
    transmitted: Option<TransmitError>,
    stored: Option<RepositoryError>,
) -> Result<(), SchedulerError> {
    match transmitted {
        None => match stored {
            None => Ok(()),
            Some(e) => Err(SchedulerError::Repository(e)),
        },
        Some(transmit) => match stored {
            None => Err(SchedulerError::Transmit(transmit)),
            Some(reschedule) => Err(SchedulerError::Stuck { transmit, reschedule }),
        },
    }
}

/// The metric for the save of an updated schedule.
pub open spec fn completion(updated: MessageSchedule, ok: bool) -> MetricEvent {
    if updated.state is Done {
        MetricEvent::MarkedDone(ok)
    } else {
        MetricEvent::AdvancedPeriodic(ok)
    }
}

/// The calls that transmit a claimed schedule and reconcile the repository, for
/// a given outcome. The message is transmitted first. Where that succeeded the
/// schedule is saved as it is after one more transmission; where it failed the
/// claim is given up and nothing else changes. Each call is followed by its metric.
pub open spec fn reconciliation(schedule: MessageSchedule, outcome: Result<(), SchedulerError>) -> Seq<
    Step,
> {
    let stored = store_failure(outcome);
    match transmit_failure(outcome) {
        None => {
            let updated = schedule.after_transmission();
            seq![
                Step::Transmitted { message: schedule.message, failure: None },
                Step::Counted { event: MetricEvent::Transmitted(true) },
                Step::Saved { schedule: updated, error: stored },
                Step::Counted { event: completion(updated, stored is None) },
            ]
        },
        Some(e) => seq![
            Step::Transmitted { message: schedule.message, failure: Some(e) },
            Step::Counted { event: MetricEvent::Transmitted(false) },
            Step::Rescheduled { id: schedule.id, error: stored },
            Step::Counted { event: MetricEvent::Rescheduled(stored is None) },
        ],
    }
}

/// The calls that reconcile the claimed schedules one after the other.
pub open spec fn batch_steps(
    claimed: Seq<MessageSchedule>,
    outcomes: Seq<Result<(), SchedulerError>>,
) -> Seq<Step>
    decreases claimed.len(),
{
    if claimed.len() == 0 {
        Seq::empty()
    } else {
        batch_steps(claimed.drop_last(), outcomes.drop_last()) + reconciliation(
            claimed.last(),
            outcomes.last(),
        )
    }
}

/// The calls of ingestion. An invalid pattern is counted and not stored; a valid
/// one is stored as a fresh schedule and the outcome counted.
pub open spec fn ingestion(
    pattern: SchedulePattern,
    message: Message,
    id: u128,
    stored: Option<RepositoryError>,
) -> Seq<Step> {
    if pattern.valid() {
        seq![
            Step::Stored { schedule: MessageSchedule::fresh(id, pattern, message), error: stored },
            Step::Counted { event: MetricEvent::Scheduled(stored is None) },
        ]
    } else {
        seq![Step::Counted { event: MetricEvent::Scheduled(false) }]
    }
}

/// The outcomes that a tick returned, one for each claimed schedule.
pub open spec fn outcomes_of(
    r: Result<Vec<Result<(), SchedulerError>>, SchedulerError>,
) -> Seq<Result<(), SchedulerError>> {
    match r {
        Ok(outcomes) => outcomes@,
        Err(_) => Seq::empty(),
    }
}

/// The outcome is one that a reconciliation can have: it is not the refusal of a
/// pattern.
pub open spec fn reconciled(outcome: Result<(), SchedulerError>) -> bool {
    !(outcome matches Err(SchedulerError::InvalidPattern))
}

/// The calls of one tick: the clock is read, a batch is claimed at that instant
/// and the poll counted; then each claimed schedule is reconciled in turn.
pub open spec fn tick_steps(
    now: Timestamp,
    result: Result<Seq<MessageSchedule>, RepositoryError>,
    outcomes: Seq<Result<(), SchedulerError>>,
) -> Seq<Step> {
    seq![
        Step::Now { now },
        Step::Polled { before: now, batch_size: BATCH_SIZE, result },
        Step::Counted { event: MetricEvent::Polled(result is Ok) },
    ] + match result {
        Ok(claimed) => batch_steps(claimed, outcomes),
        Err(_) => Seq::empty(),
    }
}

/// The outcome of a reconciliation from what the transmitter and the repository
/// returned.
pub fn settle(transmitted: Result<(), TransmitError>, stored: Result<(), RepositoryError>) -> (r:
    Result<(), SchedulerError>)
    ensures
        r == settled(failure(transmitted), failure(stored)),
        transmit_failure(r) == failure(transmitted),
        store_failure(r) == failure(stored),
{
    match transmitted {
        Ok(()) => match stored {
            Ok(()) => Ok(()),
            Err(e) => Err(SchedulerError::Repository(e)),
        },
        Err(transmit) => match stored {
            Ok(()) => Err(SchedulerError::Transmit(transmit)),
            Err(reschedule) => Err(SchedulerError::Stuck { transmit, reschedule }),
        },
    }
}

/// Which metric reports the save of `updated`.
pub fn completion_event(updated: &MessageSchedule, ok: bool) -> (r: MetricEvent)
    ensures
        r == completion(*updated, ok),
{
    match updated.state {
        State::Done => MetricEvent::MarkedDone(ok),
        _ => MetricEvent::AdvancedPeriodic(ok),
    }
}

pub struct MessageScheduler<R: Repository, T: Transmitter, C: Clock, M: Metrics> {
    // The repository, the transmitter, the clock and the metrics sink. Every call
    // to one of them goes through this value, which records it.
    calls: Collaborators<R, T, C, M>,
}

impl<R: Repository, T: Transmitter, C: Clock, M: Metrics> MessageScheduler<R, T, C, M> {
    /// The calls that the engine has made to its collaborators, oldest first.
    pub closed spec fn history(&self) -> Seq<Step> {
        self.calls.history()
    }

    /// The collaborators as the engine holds them.
    pub closed spec fn collaborators(&self) -> Collaborators<R, T, C, M> {
        self.calls
    }

    /// An engine that has made no call yet.
    pub fn new(repository: R, transmitter: T, now: C, metrics: M) -> (r: Self)
        ensures
            r.history() == Seq::<Step>::empty(),
            r.collaborators().held_repository() == repository,
            r.collaborators().held_transmitter() == transmitter,
            r.collaborators().held_metrics() == metrics,
            r.collaborators().held_clock() == now,
    {
        MessageScheduler { calls: Collaborators::new(repository, transmitter, now, metrics) }
    }

    pub fn repository(&self) -> (r: &R)
        ensures
            *r == self.collaborators().held_repository(),
    {
        self.calls.repository()
    }

    pub fn transmitter(&self) -> (r: &T)
        ensures
            *r == self.collaborators().held_transmitter(),
    {
        self.calls.transmitter()
    }

    pub fn metrics(&self) -> (r: &M)
        ensures
            *r == self.collaborators().held_metrics(),
    {
        self.calls.metrics()
    }

    /// Ingests a message with its pattern. An invalid pattern is refused; a valid
    /// one is stored as a fresh schedule under a random identifier, and the
    /// repository's error, if any, is returned as it came.
    pub fn schedule(&mut self, pattern: SchedulePattern, message: Message) -> (r: Result<
        (),
        SchedulerError,
    >)
        ensures
            !pattern.valid() ==> (r matches Err(SchedulerError::InvalidPattern))
                && final(self).history() == old(self).history() + ingestion(pattern, message, 0, None),
            pattern.valid() ==> (exists|id: u128, stored: Option<RepositoryError>|
                {
                    &&& is_random_uuid(id)
                    &&& final(self).history() == old(self).history() + #[trigger] ingestion(
                        pattern,
                        message,
                        id,
                        stored,
                    )
                    &&& r == settled(None, stored)
                }),
            !pattern.valid() ==> final(self).collaborators().held_repository() == old(
                self,
            ).collaborators().held_repository(),
            final(self).collaborators().same_sinks(&old(self).collaborators()),
    {
        if !pattern.is_valid() {
            self.calls.count(MetricEvent::Scheduled(false));
            proof {
                assert(self.history() =~= old(self).history() + ingestion(
                    pattern,
                    message,
                    0,
                    None,
                ));
            }
            return Err(SchedulerError::InvalidPattern);
        }
        let schedule = MessageSchedule::new(pattern, message);
        let stored = self.calls.store(&schedule);
        match stored {
            Ok(()) => {
                self.calls.count(MetricEvent::Scheduled(true));
                proof {
                    assert(self.history() =~= old(self).history() + ingestion(
                        pattern,
                        message,
                        schedule.id,
                        failure(stored),
                    ));
                }
                Ok(())
            },
            Err(e) => {
                self.calls.count(MetricEvent::Scheduled(false));
                proof {
                    assert(self.history() =~= old(self).history() + ingestion(
                        pattern,
                        message,
                        schedule.id,
                        failure(stored),
                    ));
                }
                Err(SchedulerError::Repository(e))
            },
        }
    }

    /// Transmits a claimed schedule and reconciles the repository: the calls made
    /// are those of `reconciliation` for the outcome that is returned.
    pub fn transmit(&mut self, schedule: &MessageSchedule) -> (r: Result<(), SchedulerError>)
        ensures
            final(self).history() == old(self).history() + reconciliation(*schedule, r),
            reconciled(r),
            final(self).collaborators().same_sinks(&old(self).collaborators()),
    {
        let updated = schedule.transmitted();
        let transmitted = self.calls.hand_over(&schedule.message);
        match transmitted {
            Ok(()) => {
                self.calls.count(MetricEvent::Transmitted(true));
                let stored = self.calls.save(&updated);
                self.calls.count(completion_event(&updated, stored.is_ok()));
                let r = settle(transmitted, stored);
                proof {
                    assert(self.history() =~= old(self).history() + reconciliation(*schedule, r));
                }
                r
            },
            Err(_) => {
                self.calls.count(MetricEvent::Transmitted(false));
                let stored = self.calls.release(schedule.id);
                self.calls.count(MetricEvent::Rescheduled(stored.is_ok()));
                let r = settle(transmitted, stored);
                proof {
                    assert(self.history() =~= old(self).history() + reconciliation(*schedule, r));
                }
                r
            },
        }
    }

    /// One tick: reads the clock, claims what is due, and transmits and reconciles
    /// each claimed schedule in turn. A failing poll ends the tick with the
    /// repository's error. The outcome of each claimed schedule is returned in the
    /// order of the claims; a failure among them does not end the tick.
    pub fn process_batch(&mut self) -> (r: Result<Vec<Result<(), SchedulerError>>, SchedulerError>)
        ensures
            (exists|now: Timestamp, result: Result<Seq<MessageSchedule>, RepositoryError>|
                {
                    &&& final(self).history() == old(self).history() + #[trigger] tick_steps(
                        now,
                        result,
                        outcomes_of(r),
                    )
                    &&& match result {
                        Ok(claimed) => r matches Ok(outcomes) && outcomes@.len() == claimed.len(),
                        Err(e) => r matches Err(SchedulerError::Repository(f)) && f == e,
                    }
                }),
            forall|i: int| 0 <= i < outcomes_of(r).len() ==> reconciled(#[trigger] outcomes_of(r)[i]),
            final(self).collaborators().same_sinks(&old(self).collaborators()),
    {
        let now = self.calls.read_clock();
        let polled_batch = self.calls.poll(now, BATCH_SIZE);
        match polled_batch {
            Err(e) => {
                self.calls.count(MetricEvent::Polled(false));
                let r = Err(SchedulerError::Repository(e));
                proof {
                    assert(self.history() =~= old(self).history() + tick_steps(
                        now,
                        polled(polled_batch),
                        outcomes_of(r),
                    ));
                }
                r
            },
            Ok(claimed) => {
                self.calls.count(MetricEvent::Polled(true));
                let ghost base = self.history();
                let mut outcomes: Vec<Result<(), SchedulerError>> = Vec::new();
                let mut i: usize = 0;
                proof {
                    assert(self.history() =~= base + batch_steps(claimed@.take(0), outcomes@));
                }
                while i < claimed.len()
                    invariant
                        i <= claimed.len(),
                        outcomes@.len() == i,
                        self.history() == base + batch_steps(claimed@.take(i as int), outcomes@),
                        forall|j: int| 0 <= j < i ==> reconciled(#[trigger] outcomes@[j]),
                        self.collaborators().same_sinks(&old(self).collaborators()),
                    decreases claimed.len() - i,
                {
                    let ghost settled_so_far = outcomes@;
                    let outcome = self.transmit(&claimed[i]);
                    outcomes.push(outcome);
                    proof {
                        let taken = claimed@.take(i + 1);
                        assert(taken.drop_last() =~= claimed@.take(i as int));
                        assert(outcomes@.drop_last() =~= settled_so_far);
                        assert(self.history() =~= base + batch_steps(taken, outcomes@));
                    }
                    i += 1;
                }
                let r = Ok(outcomes);
                proof {
                    assert(claimed@.take(claimed.len() as int) =~= claimed@);
                    assert(self.history() =~= old(self).history() + tick_steps(
                        now,
                        polled(polled_batch),
                        outcomes_of(r),
                    ));
                }
                r
            },
        }
    }
}

/// The calls of a batch come in fours, one reconciliation for each claimed schedule
/// in the order of the claims.
pub proof fn lemma_batch_layout(
    claimed: Seq<MessageSchedule>,
    outcomes: Seq<Result<(), SchedulerError>>,
    i: int,
)
    requires
        outcomes.len() == claimed.len(),
        0 <= i < claimed.len(),
    ensures
        batch_steps(claimed, outcomes).len() == 4 * claimed.len(),
        batch_steps(claimed, outcomes).subrange(4 * i, 4 * i + 4) == reconciliation(
            claimed[i],
            outcomes[i],
        ),
    decreases claimed.len(),
{
    let all = batch_steps(claimed, outcomes);
    let front = batch_steps(claimed.drop_last(), outcomes.drop_last());
    let back = reconciliation(claimed.last(), outcomes.last());
    lemma_batch_length(claimed.drop_last(), outcomes.drop_last());
    if i == claimed.len() - 1 {
        assert(all.subrange(4 * i, 4 * i + 4) =~= back);
    } else {
        lemma_batch_layout(claimed.drop_last(), outcomes.drop_last(), i);
        assert(all.subrange(4 * i, 4 * i + 4) =~= front.subrange(4 * i, 4 * i + 4));
    }
}

/// A batch makes four calls for each claimed schedule.
pub proof fn lemma_batch_length(
    claimed: Seq<MessageSchedule>,
    outcomes: Seq<Result<(), SchedulerError>>,
)
    ensures
        batch_steps(claimed, outcomes).len() == 4 * claimed.len(),
    decreases claimed.len(),
{
    if claimed.len() > 0 {
        lemma_batch_length(claimed.drop_last(), outcomes.drop_last());
    }
}

/// Each claimed schedule is transmitted exactly once, in the order of the claims,
/// and nothing else is transmitted: the calls to the transmitter are those at the
/// head of each reconciliation, each with the message of its schedule.
pub proof fn lemma_transmits_each_claim_once(
    claimed: Seq<MessageSchedule>,
    outcomes: Seq<Result<(), SchedulerError>>,
    k: int,
)
    requires
        outcomes.len() == claimed.len(),
        0 <= k < batch_steps(claimed, outcomes).len(),
    ensures
        0 <= k / 4 < claimed.len(),
        batch_steps(claimed, outcomes)[k] is Transmitted <==> k % 4 == 0,
        batch_steps(claimed, outcomes)[k] matches Step::Transmitted { message, failure }
            ==> message == claimed[k / 4].message && failure == transmit_failure(outcomes[k / 4]),
{
    let i = k / 4;
    lemma_batch_length(claimed, outcomes);
    lemma_batch_layout(claimed, outcomes, i);
    let four = batch_steps(claimed, outcomes).subrange(4 * i, 4 * i + 4);
    assert(four[k - 4 * i] == batch_steps(claimed, outcomes)[k]);
}

/// No advance without transmit: a schedule is saved only directly after its
/// message was transmitted with success and that success counted, and what is
/// saved is the claimed schedule after one more transmission. Its count is the
/// claimed count plus one and its `next` is derived from that count, unless the
/// claimed count is `u32::MAX` and cannot grow.
pub proof fn lemma_saves_follow_transmission(
    claimed: Seq<MessageSchedule>,
    outcomes: Seq<Result<(), SchedulerError>>,
    k: int,
)
    requires
        outcomes.len() == claimed.len(),
        0 <= k < batch_steps(claimed, outcomes).len(),
        batch_steps(claimed, outcomes)[k] is Saved,
    ensures
        k % 4 == 2,
        0 <= k / 4 < claimed.len(),
        batch_steps(claimed, outcomes)[k - 2] == (Step::Transmitted {
            message: claimed[k / 4].message,
            failure: None,
        }),
        batch_steps(claimed, outcomes)[k - 1] == (Step::Counted {
            event: MetricEvent::Transmitted(true),
        }),
        batch_steps(claimed, outcomes)[k] matches Step::Saved { schedule, error } && {
            &&& schedule == claimed[k / 4].after_transmission()
            &&& schedule.id == claimed[k / 4].id
            &&& schedule.transmission_count <= claimed[k / 4].transmission_count + 1
            &&& claimed[k / 4].transmission_count < u32::MAX ==> schedule.transmission_count
                == claimed[k / 4].transmission_count + 1 && schedule.derived()
            &&& schedule.state is Done <==> schedule.next is None
        },
{
    let i = k / 4;
    lemma_batch_length(claimed, outcomes);
    lemma_batch_layout(claimed, outcomes, i);
    let all = batch_steps(claimed, outcomes);
    let four = all.subrange(4 * i, 4 * i + 4);
    assert(four[k - 4 * i] == all[k]);
    assert(four[0] == all[4 * i]);
    assert(four[1] == all[4 * i + 1]);
}

/// A failed transmission changes no schedule: it is followed by the release of
/// the claim and by nothing that saves.
pub proof fn lemma_failure_releases(
    claimed: Seq<MessageSchedule>,
    outcomes: Seq<Result<(), SchedulerError>>,
    i: int,
)
    requires
        outcomes.len() == claimed.len(),
        0 <= i < claimed.len(),
        transmit_failure(outcomes[i]) is Some,
    ensures
        batch_steps(claimed, outcomes).len() == 4 * claimed.len(),
        batch_steps(claimed, outcomes)[4 * i + 2] == (Step::Rescheduled {
            id: claimed[i].id,
            error: store_failure(outcomes[i]),
        }),
        !(batch_steps(claimed, outcomes)[4 * i + 3] is Saved),
{
    lemma_batch_layout(claimed, outcomes, i);
    let all = batch_steps(claimed, outcomes);
    let four = all.subrange(4 * i, 4 * i + 4);
    assert(four[2] == all[4 * i + 2]);
    assert(four[3] == all[4 * i + 3]);
}

} // verus!
