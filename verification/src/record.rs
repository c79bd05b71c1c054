//! The collaborators of an engine, and the record of the calls made to them.
//!
//! `Collaborators` holds the repository, the transmitter, the clock and the
//! metrics sink behind private fields. Each of its methods makes one call to one
//! of them and appends that call to a ghost record, with what was handed over and
//! what came back. Nothing else in the crate can reach the collaborators or the
//! record, so the record of an engine is the list of the calls it has made.

use vstd::prelude::*;
use crate::contract::{
    Clock,
    MetricEvent,
    Metrics,
    Repository,
    RepositoryError,
    TransmitError,
    Transmitter,
};
use crate::model::{Message, MessageSchedule};
use crate::time::Timestamp;

verus! {

/// One call to a collaborator, with what came back.
pub enum Step {
    /// The clock was read.
    Now { now: Timestamp },
    /// `Repository::store_schedule`.
    Stored { schedule: MessageSchedule, error: Option<RepositoryError> },
    /// `Repository::poll_batch`.
    Polled { before: Timestamp, batch_size: u32, result: Result<Seq<MessageSchedule>, RepositoryError> },
    /// `Transmitter::transmit`.
    Transmitted { message: Message, failure: Option<TransmitError> },
    /// `Repository::save`.
    Saved { schedule: MessageSchedule, error: Option<RepositoryError> },
    /// `Repository::reschedule`.
    Rescheduled { id: u128, error: Option<RepositoryError> },
    /// `Metrics::count`.
    Counted { event: MetricEvent },
}

/// The error of a result, if it is one.
pub open spec fn failure<E>(result: Result<(), E>) -> Option<E> {
    match result {
        Ok(_) => None,
        Err(e) => Some(e),
    }
}

/// What a poll returned, with the claimed schedules as a sequence.
pub open spec fn polled(result: Result<Vec<MessageSchedule>, RepositoryError>) -> Result<
    Seq<MessageSchedule>,
    RepositoryError,
> {
    match result {
        Ok(claimed) => Ok(claimed@),
        Err(e) => Err(e),
    }
}

pub struct Collaborators<R: Repository, T: Transmitter, C: Clock, M: Metrics> {
    // Keeps the engine stateless: stores and hands out the schedules.
    repository: R,
    // Sends a message on the outbound channel.
    transmitter: T,
    // Tells the current time.
    now: C,
    // Counts events of interest.
    metrics: M,
    // The calls made so far.
    trace: Ghost<Seq<Step>>,
}

impl<R: Repository, T: Transmitter, C: Clock, M: Metrics> Collaborators<R, T, C, M> {
    /// The calls made so far, oldest first.
    pub closed spec fn history(&self) -> Seq<Step> {
        self.trace@
    }

    pub closed spec fn held_repository(&self) -> R {
        self.repository
    }

    pub closed spec fn held_transmitter(&self) -> T {
        self.transmitter
    }

    pub closed spec fn held_metrics(&self) -> M {
        self.metrics
    }

    pub closed spec fn held_clock(&self) -> C {
        self.now
    }

    /// The transmitter, the metrics sink and the clock are the values that `before`
    /// holds. They are called through shared references, which change no value.
    pub open spec fn same_sinks(&self, before: &Self) -> bool {
        &&& self.held_transmitter() == before.held_transmitter()
        &&& self.held_metrics() == before.held_metrics()
        &&& self.held_clock() == before.held_clock()
    }

    pub fn new(repository: R, transmitter: T, now: C, metrics: M) -> (r: Self)
        ensures
            r.history() == Seq::<Step>::empty(),
            r.held_repository() == repository,
            r.held_transmitter() == transmitter,
            r.held_metrics() == metrics,
            r.held_clock() == now,
    {
        Collaborators { repository, transmitter, now, metrics, trace: Ghost(Seq::empty()) }
    }

    pub fn repository(&self) -> (r: &R)
        ensures
            *r == self.held_repository(),
    {
        &self.repository
    }

    pub fn transmitter(&self) -> (r: &T)
        ensures
            *r == self.held_transmitter(),
    {
        &self.transmitter
    }

    pub fn metrics(&self) -> (r: &M)
        ensures
            *r == self.held_metrics(),
    {
        &self.metrics
    }

    /// Reads the clock.
    pub fn read_clock(&mut self) -> (now: Timestamp)
        ensures
            final(self).history() == old(self).history().push(Step::Now { now }),
            final(self).same_sinks(old(self)),
            final(self).held_repository() == old(self).held_repository(),
    {
        let now = self.now.now();
        self.trace = Ghost(self.trace@.push(Step::Now { now }));
        now
    }

    /// Counts an event.
    pub fn count(&mut self, event: MetricEvent)
        ensures
            final(self).history() == old(self).history().push(Step::Counted { event }),
            final(self).same_sinks(old(self)),
            final(self).held_repository() == old(self).held_repository(),
    {
        self.metrics.count(event);
        self.trace = Ghost(self.trace@.push(Step::Counted { event }));
    }

    /// Stores a new schedule.
    pub fn store(&mut self, schedule: &MessageSchedule) -> (result: Result<(), RepositoryError>)
        ensures
            final(self).history() == old(self).history().push(
                Step::Stored { schedule: *schedule, error: failure(result) },
            ),
            final(self).same_sinks(old(self)),
    {
        let result = self.repository.store_schedule(schedule);
        self.trace = Ghost(
            self.trace@.push(Step::Stored { schedule: *schedule, error: failure(result) }),
        );
        result
    }

    /// Claims a batch.
    pub fn poll(&mut self, before: Timestamp, batch_size: u32) -> (result: Result<
        Vec<MessageSchedule>,
        RepositoryError,
    >)
        ensures
            final(self).history() == old(self).history().push(
                Step::Polled { before, batch_size, result: polled(result) },
            ),
            final(self).same_sinks(old(self)),
    {
        let result = self.repository.poll_batch(before, batch_size);
        self.trace = Ghost(
            self.trace@.push(Step::Polled { before, batch_size, result: polled(result) }),
        );
        result
    }

    /// Hands a copy of the message to the transmitter.
    pub fn hand_over(&mut self, message: &Message) -> (result: Result<(), TransmitError>)
        ensures
            final(self).history() == old(self).history().push(
                Step::Transmitted { message: *message, failure: failure(result) },
            ),
            final(self).same_sinks(old(self)),
            final(self).held_repository() == old(self).held_repository(),
    {
        let result = self.transmitter.transmit(message.clone());
        self.trace = Ghost(
            self.trace@.push(Step::Transmitted { message: *message, failure: failure(result) }),
        );
        result
    }

    /// Saves an updated schedule.
    pub fn save(&mut self, schedule: &MessageSchedule) -> (result: Result<(), RepositoryError>)
        ensures
            final(self).history() == old(self).history().push(
                Step::Saved { schedule: *schedule, error: failure(result) },
            ),
            final(self).same_sinks(old(self)),
    {
        let result = self.repository.save(schedule);
        self.trace = Ghost(
            self.trace@.push(Step::Saved { schedule: *schedule, error: failure(result) }),
        );
        result
    }

    /// Gives up the claim on a schedule.
    pub fn release(&mut self, id: u128) -> (result: Result<(), RepositoryError>)
        ensures
            final(self).history() == old(self).history().push(
                Step::Rescheduled { id, error: failure(result) },
            ),
            final(self).same_sinks(old(self)),
    {
        let result = self.repository.reschedule(id);
        self.trace = Ghost(self.trace@.push(Step::Rescheduled { id, error: failure(result) }));
        result
    }
}

} // verus!
