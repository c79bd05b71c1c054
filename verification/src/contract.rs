//! The collaborators of the scheduling engine.
//!
//! The engine is handed a repository, a transmitter, a metrics sink and a clock.
//! Their methods carry no contract: the engine is verified for whatever they
//! return.

use vstd::prelude::*;
use crate::model::{Message, MessageSchedule};
use crate::time::Timestamp;

verus! {

/// Why a repository operation failed.
#[derive(Debug, PartialEq, Eq)]
pub enum RepositoryError {
    /// A schedule with the same identifier is stored already.
    DuplicateId,
    /// The store could not be reached or did not commit.
    Unavailable(String),
}

/// Why a message was not handed over.
#[derive(Debug, PartialEq, Eq)]
pub struct TransmitError {
    pub reason: String,
}

/// Durable storage of schedules, with a claim on those that are being transmitted.
pub trait Repository {
    /// Inserts a new schedule.
    fn store_schedule(&mut self, schedule: &MessageSchedule) -> Result<(), RepositoryError>;

    /// Claims up to `batch_size` waiting schedules that are due at `before` and
    /// returns copies of them. A claim lasts until `save` or `reschedule`.
    fn poll_batch(&mut self, before: Timestamp, batch_size: u32) -> Result<
        Vec<MessageSchedule>,
        RepositoryError,
    >;

    /// Replaces the claimed schedule of the same identifier, which ends the claim.
    fn save(&mut self, schedule: &MessageSchedule) -> Result<(), RepositoryError>;

    /// Ends the claim on a schedule and leaves the schedule as it was.
    fn reschedule(&mut self, schedule_id: u128) -> Result<(), RepositoryError>;
}

/// The outbound channel.
pub trait Transmitter {
    /// `Ok` when the channel has accepted the message, `Err` when it was not
    /// delivered.
    fn transmit(&self, message: Message) -> Result<(), TransmitError>;
}

/// What the engine counts.
#[derive(Clone, Copy, Debug, PartialEq, Eq, Structural)]
pub enum MetricEvent {
    Scheduled(bool),
    Polled(bool),
    Transmitted(bool),
    MarkedDone(bool),
    AdvancedPeriodic(bool),
    Rescheduled(bool),
}

/// A sink for counters.
pub trait Metrics {
    fn count(&self, event: MetricEvent);
}

/// The source of the current time.
pub trait Clock {
    fn now(&self) -> Timestamp;
}

} // verus!
