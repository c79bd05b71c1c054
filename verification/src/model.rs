//! Schedules and the patterns that say when they fire.

use vstd::prelude::*;
use crate::cron_expr::{
    ascends_to,
    cron_parses,
    expression_parses,
    occurrence,
    occurrence_after,
};
use crate::time::{TimeSpan, Timestamp};

verus! {

/// How often a periodic pattern fires.
#[derive(Clone, Copy, Debug, PartialEq, Eq, Structural)]
pub enum Repeat {
    /// Without end.
    Infinitely,
    /// The number of transmissions planned.
    Times(u32),
}

impl Repeat {
    /// The number of transmissions planned, where there is one.
    pub open spec fn limit(self) -> Option<nat> {
        match self {
            Repeat::Infinitely => None,
            Repeat::Times(n) => Some(n as nat),
        }
    }

    /// Nothing more is due after `transmission_count` transmissions: the planned
    /// number is reached. `Infinitely` is never exhausted.
    pub open spec fn exhausted(self, transmission_count: nat) -> bool {
        self matches Repeat::Times(n) && transmission_count >= n
    }

    /// The largest count of which the repeat allows a fire time, where a 32-bit
    /// count can name one: `n - 1` for `Times(n)`, `u32::MAX` for `Infinitely`, none
    /// for `Times(0)`.
    pub open spec fn last_count(self) -> Option<nat> {
        match self {
            Repeat::Infinitely => Some(u32::MAX as nat),
            Repeat::Times(n) => if n == 0 {
                None
            } else {
                Some((n - 1) as nat)
            },
        }
    }

    pub fn is_exhausted(&self, transmission_count: u32) -> (r: bool)
        ensures
            r == self.exhausted(transmission_count as nat),
    {
        match self {
            Repeat::Infinitely => false,
            Repeat::Times(n) => transmission_count >= *n,
        }
    }
}

pub open spec fn in_i128(x: int) -> bool {
    i128::MIN <= x <= i128::MAX
}

/// Fires at `first_transmission + k * interval` for `k = 0, 1, ..`.
#[derive(Clone, Copy, Debug, PartialEq, Eq, Structural)]
pub struct Interval {
    pub first_transmission: Timestamp,
    pub interval: TimeSpan,
    pub repeat: Repeat,
}

impl Interval {
    pub fn new(first_transmission: Timestamp, interval: TimeSpan, repeat: Repeat) -> (r: Interval)
        ensures
            r == (Interval { first_transmission, interval, repeat }),
    {
        Interval { first_transmission, interval, repeat }
    }

    /// The instant of occurrence `k`, in nanoseconds since the epoch.
    pub open spec fn instant(self, k: nat) -> int {
        self.first_transmission.nanos + k * self.interval.nanos
    }

    /// Occurrence `k` and its distance from the first are values of the type.
    pub open spec fn representable(self, k: nat) -> bool {
        in_i128(k * self.interval.nanos) && in_i128(self.instant(k))
    }

    /// The interval is positive, and the last occurrence that the repeat allows
    /// and a 32-bit count can name is representable (and with it every one before).
    pub open spec fn valid(self) -> bool {
        &&& self.interval.nanos > 0
        &&& self.repeat.last_count() matches Some(last) ==> self.representable(last)
    }

    pub open spec fn fire_time(self, transmission_count: nat) -> Option<Timestamp> {
        if self.repeat.exhausted(transmission_count) || !self.representable(transmission_count) {
            None
        } else {
            Some(Timestamp { nanos: self.instant(transmission_count) as i128 })
        }
    }

    pub fn next(&self, transmission_count: u32) -> (r: Option<Timestamp>)
        ensures
            r == self.fire_time(transmission_count as nat),
    {
        if self.repeat.is_exhausted(transmission_count) {
            return None;
        }
        let k: i128 = transmission_count as i128;
        match k.checked_mul(self.interval.nanos) {
            Some(offset) => match self.first_transmission.nanos.checked_add(offset) {
                Some(nanos) => Some(Timestamp { nanos }),
                None => None,
            },
            None => None,
        }
    }

    pub fn is_valid(&self) -> (r: bool)
        ensures
            r == self.valid(),
    {
        if self.interval.nanos <= 0 {
            return false;
        }
        let last: u32 = match self.repeat {
            Repeat::Infinitely => u32::MAX,
            Repeat::Times(n) => {
                if n == 0 {
                    return true;
                }
                n - 1
            },
        };
        let k: i128 = last as i128;
        match k.checked_mul(self.interval.nanos) {
            Some(offset) => self.first_transmission.nanos.checked_add(offset).is_some(),
            None => false,
        }
    }

    /// A valid pattern fires at `first_transmission + k * interval` for every
    /// count `k` that its repeat allows: no occurrence is lost to the range of the
    /// type.
    pub proof fn lemma_valid_fires(self, transmission_count: nat)
        requires
            self.valid(),
            !self.repeat.exhausted(transmission_count),
            transmission_count <= u32::MAX,
        ensures
            self.representable(transmission_count),
            self.fire_time(transmission_count) == Some(
                Timestamp { nanos: self.instant(transmission_count) as i128 },
            ),
            self.fire_time(transmission_count)->0.nanos == self.first_transmission.nanos
                + transmission_count * self.interval.nanos,
    {
        let last = self.repeat.last_count()->0;
        let step = self.interval.nanos as int;
        assert(0 <= transmission_count * step <= last * step) by (nonlinear_arith)
            requires
                step > 0,
                transmission_count <= last,
        ;
    }

    /// Later occurrences of a valid pattern are strictly later instants.
    pub proof fn lemma_fire_times_ascend(self, earlier: nat, later: nat)
        requires
            self.valid(),
            earlier < later <= u32::MAX,
            self.fire_time(later) is Some,
        ensures
            self.fire_time(earlier) is Some,
            self.fire_time(earlier)->0.nanos < self.fire_time(later)->0.nanos,
    {
        self.lemma_valid_fires(earlier);
        self.lemma_valid_fires(later);
        let step = self.interval.nanos as int;
        assert(earlier * step < later * step) by (nonlinear_arith)
            requires
                step > 0,
                earlier < later,
        ;
    }
}

/// Fires at the occurrences of a cron expression strictly after a start instant.
#[derive(Debug, PartialEq, Eq)]
pub struct Cron {
    pub first_transmission_after: Timestamp,
    pub expression: String,
    pub repeat: Repeat,
}

impl Clone for Cron {
    fn clone(&self) -> (r: Self)
        ensures
            r == *self,
    {
        Cron {
            first_transmission_after: self.first_transmission_after,
            expression: self.expression.clone(),
            repeat: self.repeat,
        }
    }
}

impl Cron {
    pub fn new(first_transmission_after: Timestamp, expression: String, repeat: Repeat) -> (r: Cron)
        ensures
            r == (Cron { first_transmission_after, expression, repeat }),
    {
        Cron { first_transmission_after, expression, repeat }
    }

    /// The expression parses.
    pub open spec fn valid(self) -> bool {
        cron_parses(self.expression@)
    }

    pub open spec fn fire_time(self, transmission_count: nat) -> Option<Timestamp> {
        if self.repeat.exhausted(transmission_count) {
            None
        } else {
            occurrence(self.expression@, self.first_transmission_after, transmission_count)
        }
    }

    /// The fire time numbered `transmission_count`, where there is one, is later
    /// than the start, and every fire time before it exists and is earlier.
    pub open spec fn fires_ascend_to(self, transmission_count: nat) -> bool {
        self.fire_time(transmission_count) matches Some(found) ==> {
            &&& self.first_transmission_after.nanos < found.nanos
            &&& forall|earlier: nat|
                earlier < transmission_count ==> (#[trigger] self.fire_time(earlier) matches Some(
                    before,
                ) && before.nanos < found.nanos)
        }
    }

    /// Asks the calendar for the occurrence numbered `transmission_count`, unless
    /// the repeat is exhausted.
    pub fn next(&self, transmission_count: u32) -> (r: Option<Timestamp>)
        ensures
            r == self.fire_time(transmission_count as nat),
            self.fires_ascend_to(transmission_count as nat),
    {
        if self.repeat.is_exhausted(transmission_count) {
            return None;
        }
        let found = occurrence_after(
            self.expression.as_str(),
            self.first_transmission_after,
            transmission_count,
        );
        proof {
            let count = transmission_count as nat;
            assert forall|earlier: nat| earlier < count && found is Some implies (
            #[trigger] self.fire_time(earlier) matches Some(before) && before.nanos
                < found->0.nanos) by {
                assert(occurrence(self.expression@, self.first_transmission_after, earlier) is Some);
            }
        }
        found
    }

    pub fn is_valid(&self) -> (r: bool)
        ensures
            r == self.valid(),
    {
        expression_parses(self.expression.as_str())
    }
}

/// Fires once.
#[derive(Clone, Copy, Debug, PartialEq, Eq, Structural)]
pub struct Delayed {
    pub transmit_at: Timestamp,
}

impl Delayed {
    pub fn new(transmit_at: Timestamp) -> (r: Delayed)
        ensures
            r.transmit_at == transmit_at,
    {
        Delayed { transmit_at }
    }

    pub open spec fn fire_time(self, transmission_count: nat) -> Option<Timestamp> {
        if transmission_count == 0 {
            Some(self.transmit_at)
        } else {
            None
        }
    }

    pub fn next(&self, transmission_count: u32) -> (r: Option<Timestamp>)
        ensures
            r == self.fire_time(transmission_count as nat),
    {
        if transmission_count == 0 {
            Some(self.transmit_at)
        } else {
            None
        }
    }
}

/// When a schedule fires.
#[derive(Debug, PartialEq, Eq)]
pub enum SchedulePattern {
    Delayed(Delayed),
    Cron(Cron),
    Interval(Interval),
}

impl Clone for SchedulePattern {
    fn clone(&self) -> (r: Self)
        ensures
            r == *self,
    {
        match self {
            SchedulePattern::Delayed(delayed) => SchedulePattern::Delayed(*delayed),
            SchedulePattern::Cron(cron) => SchedulePattern::Cron(cron.clone()),
            SchedulePattern::Interval(interval) => SchedulePattern::Interval(*interval),
        }
    }
}

impl SchedulePattern {
    /// The instant at which the pattern fires after `transmission_count`
    /// transmissions; `None` when it never fires again.
    pub open spec fn next_fire_time(self, transmission_count: nat) -> Option<Timestamp> {
        match self {
            SchedulePattern::Delayed(delayed) => delayed.fire_time(transmission_count),
            SchedulePattern::Cron(cron) => cron.fire_time(transmission_count),
            SchedulePattern::Interval(interval) => interval.fire_time(transmission_count),
        }
    }

    /// What ingestion accepts: a positive interval whose occurrences are all
    /// representable, a cron expression that parses, any delayed instant.
    pub open spec fn valid(self) -> bool {
        match self {
            SchedulePattern::Delayed(_) => true,
            SchedulePattern::Cron(cron) => cron.valid(),
            SchedulePattern::Interval(interval) => interval.valid(),
        }
    }

    /// The number of transmissions after which the pattern is spent for certain,
    /// where there is one: one for a delayed pattern, the planned number for
    /// `Times`, none for `Infinitely`.
    pub open spec fn limit(self) -> Option<nat> {
        match self {
            SchedulePattern::Delayed(_) => Some(1),
            SchedulePattern::Cron(cron) => cron.repeat.limit(),
            SchedulePattern::Interval(interval) => interval.repeat.limit(),
        }
    }

    /// The fire time numbered `transmission_count`, where there is one, is later
    /// than every fire time before it, and all of those exist.
    pub open spec fn fires_ascend_to(self, transmission_count: nat) -> bool {
        self.next_fire_time(transmission_count) matches Some(found) ==> forall|earlier: nat|
            earlier < transmission_count ==> (#[trigger] self.next_fire_time(earlier) matches Some(
                before,
            ) && before.nanos < found.nanos)
    }

    /// Called after a transmission, with the new count, to find when the schedule is
    /// due next. `None` completes the schedule.
    pub fn next(&self, transmission_count: u32) -> (r: Option<Timestamp>)
        ensures
            r == self.next_fire_time(transmission_count as nat),
            self is Cron || self.valid() ==> self.fires_ascend_to(transmission_count as nat),
    {
        match self {
            SchedulePattern::Delayed(delayed) => delayed.next(transmission_count),
            SchedulePattern::Interval(interval) => {
                proof {
                    if interval.valid() {
                        lemma_fires_ascend(*self, transmission_count as nat);
                    }
                }
                interval.next(transmission_count)
            },
            SchedulePattern::Cron(cron) => {
                let r = cron.next(transmission_count);
                proof {
                    let count = transmission_count as nat;
                    assert forall|earlier: nat| earlier < count && r is Some implies (
                    #[trigger] self.next_fire_time(earlier) matches Some(before) && before.nanos
                        < r->0.nanos) by {
                        assert(cron.fire_time(earlier) is Some);
                    }
                }
                r
            },
        }
    }

    pub fn is_valid(&self) -> (r: bool)
        ensures
            r == self.valid(),
    {
        match self {
            SchedulePattern::Delayed(_) => true,
            SchedulePattern::Cron(cron) => cron.is_valid(),
            SchedulePattern::Interval(interval) => interval.is_valid(),
        }
    }
}

/// The fire times of a valid pattern are strictly increasing in the transmission
/// count until the pattern is spent: where the fire time numbered
/// `transmission_count` exists, so does every earlier one, at an earlier instant.
/// This is stated of the counts that a schedule can hold.
///
/// For a delayed and an interval pattern this follows from the arithmetic. For a
/// cron pattern it rests on the order of the calendar's occurrences up to that
/// number, which `occurrence_after` states of each occurrence that it computes.
pub proof fn lemma_fires_ascend(pattern: SchedulePattern, transmission_count: nat)
    requires
        pattern.valid(),
        transmission_count <= u32::MAX,
        pattern matches SchedulePattern::Cron(cron) ==> ascends_to(
            cron.expression@,
            cron.first_transmission_after,
            transmission_count,
        ),
    ensures
        pattern.fires_ascend_to(transmission_count),
{
    match pattern {
        SchedulePattern::Interval(interval) => {
            if interval.fire_time(transmission_count) is Some {
                assert forall|earlier: nat| earlier < transmission_count implies (
                #[trigger] pattern.next_fire_time(earlier) matches Some(before) && before.nanos
                    < interval.fire_time(transmission_count)->0.nanos) by {
                    interval.lemma_fire_times_ascend(earlier, transmission_count);
                }
            }
        },
        SchedulePattern::Cron(cron) => {
            if cron.fire_time(transmission_count) is Some {
                assert forall|earlier: nat| earlier < transmission_count implies (
                #[trigger] pattern.next_fire_time(earlier) matches Some(before) && before.nanos
                    < cron.fire_time(transmission_count)->0.nanos) by {
                    assert(occurrence(cron.expression@, cron.first_transmission_after, earlier)
                        is Some);
                }
            }
        },
        SchedulePattern::Delayed(_) => {},
    }
}

/// Once a valid pattern has no fire time it never has one again. (For a cron
/// pattern, under the order of the calendar's occurrences up to `later`.)
pub proof fn lemma_spent_stays_spent(pattern: SchedulePattern, spent: nat, later: nat)
    requires
        pattern.valid(),
        spent <= later <= u32::MAX,
        pattern matches SchedulePattern::Cron(cron) ==> ascends_to(
            cron.expression@,
            cron.first_transmission_after,
            later,
        ),
        pattern.next_fire_time(spent) is None,
    ensures
        pattern.next_fire_time(later) is None,
{
    if spent < later {
        lemma_fires_ascend(pattern, later);
    }
}

/// Where a schedule stands in its life.
#[derive(Clone, Copy, Debug, PartialEq, Eq, Structural)]
pub enum State {
    /// Stored and waiting for its next fire time.
    Scheduled,
    /// Claimed by a worker that is transmitting it.
    Doing,
    /// Completed: it never fires again.
    Done,
}

/// What is handed to the transmitter.
#[derive(Debug, PartialEq, Eq)]
pub enum Message {
    Event(String),
}

impl Clone for Message {
    fn clone(&self) -> (r: Self)
        ensures
            r == *self,
    {
        match self {
            Message::Event(payload) => Message::Event(payload.clone()),
        }
    }
}

/// A message with the pattern that says when to transmit it, as it is stored.
#[derive(Debug, PartialEq, Eq)]
pub struct MessageSchedule {
    pub id: u128,
    pub schedule_pattern: SchedulePattern,
    /// When the schedule is due next; `None` once it is spent.
    pub next: Option<Timestamp>,
    /// How many times the message has been transmitted.
    pub transmission_count: u32,
    pub message: Message,
    pub state: State,
}

impl Clone for MessageSchedule {
    fn clone(&self) -> (r: Self)
        ensures
            r == *self,
    {
        MessageSchedule {
            id: self.id,
            schedule_pattern: self.schedule_pattern.clone(),
            next: self.next,
            transmission_count: self.transmission_count,
            message: self.message.clone(),
            state: self.state,
        }
    }
}

/// The identifier carries the marks of a random UUID: version 4 in bits 76 to 79
/// and the variant `10` in bits 62 and 63.
pub open spec fn is_random_uuid(id: u128) -> bool {
    id & 0x0000_0000_0000_f000_c000_0000_0000_0000 == 0x0000_0000_0000_4000_8000_0000_0000_0000
}

/// Draws a random identifier with `uuid::Uuid::new_v4` and hands it back as the
/// integer that `Uuid::as_u128` gives. Of the value only the version and variant
/// bits are claimed, which `new_v4` sets in every identifier; the rest is chance.
#[verifier::external_body]
fn fresh_id() -> (id: u128)
    ensures
        is_random_uuid(id),
{
    uuid::Uuid::new_v4().as_u128()
}

impl MessageSchedule {
    /// `next` is the pattern's fire time for the transmission count.
    pub open spec fn derived(self) -> bool {
        self.next == self.schedule_pattern.next_fire_time(self.transmission_count as nat)
    }

    /// The count has reached the largest value that it can hold and the schedule
    /// has no `next`: it was transmitted once more than the count can tell.
    pub open spec fn count_spent(self) -> bool {
        self.transmission_count == u32::MAX && self.next is None
    }

    /// What holds of a schedule from its creation through every transmission: `next`
    /// is derived (or the count is spent), a completed schedule has no `next`, and
    /// the count is within what the pattern plans.
    pub open spec fn wf(self) -> bool {
        &&& self.derived() || self.count_spent()
        &&& self.state is Done ==> self.next is None
        &&& self.schedule_pattern.limit() matches Some(n) ==> self.transmission_count <= n
    }

    /// The schedule as it is first stored.
    pub open spec fn fresh(
        id: u128,
        schedule_pattern: SchedulePattern,
        message: Message,
    ) -> MessageSchedule {
        MessageSchedule {
            id,
            schedule_pattern,
            next: schedule_pattern.next_fire_time(0),
            transmission_count: 0,
            message,
            state: State::Scheduled,
        }
    }

    /// The schedule after one more transmission. The count grows by one, `next` is
    /// the pattern's fire time for the new count, and the schedule is `Done` exactly
    /// when nothing is due any more. A count of `u32::MAX` cannot grow: the schedule
    /// is then completed, with the count as it is and without a `next`.
    pub open spec fn after_transmission(self) -> MessageSchedule {
        if self.transmission_count < u32::MAX {
            let count = (self.transmission_count + 1) as u32;
            let next = self.schedule_pattern.next_fire_time(count as nat);
            MessageSchedule {
                id: self.id,
                schedule_pattern: self.schedule_pattern,
                next,
                transmission_count: count,
                message: self.message,
                state: if next is None {
                    State::Done
                } else {
                    State::Scheduled
                },
            }
        } else {
            MessageSchedule {
                id: self.id,
                schedule_pattern: self.schedule_pattern,
                next: None,
                transmission_count: self.transmission_count,
                message: self.message,
                state: State::Done,
            }
        }
    }

    /// After `transmissions` transmissions.
    pub open spec fn after_transmissions(self, transmissions: nat) -> MessageSchedule
        decreases transmissions,
    {
        if transmissions == 0 {
            self
        } else {
            self.after_transmissions((transmissions - 1) as nat).after_transmission()
        }
    }

    /// Waiting, and due at `now`.
    pub open spec fn due(self, now: Timestamp) -> bool {
        self.state is Scheduled && (self.next matches Some(at) && at.nanos <= now.nanos)
    }

    /// Builds the schedule for a pattern and a message under a given identifier.
    pub fn with_id(id: u128, schedule_pattern: SchedulePattern, message: Message) -> (r:
        MessageSchedule)
        ensures
            r == MessageSchedule::fresh(id, schedule_pattern, message),
            r.wf(),
    {
        let next = schedule_pattern.next(0);
        MessageSchedule {
            id,
            schedule_pattern,
            next,
            transmission_count: 0,
            message,
            state: State::Scheduled,
        }
    }

    /// Builds the schedule for a pattern and a message under a random identifier.
    pub fn new(schedule_pattern: SchedulePattern, message: Message) -> (r: MessageSchedule)
        ensures
            r == MessageSchedule::fresh(r.id, schedule_pattern, message),
            is_random_uuid(r.id),
            r.wf(),
    {
        MessageSchedule::with_id(fresh_id(), schedule_pattern, message)
    }

    /// The schedule as it is saved after a successful transmission.
    pub fn transmitted(&self) -> (r: MessageSchedule)
        ensures
            r == self.after_transmission(),
            r.state is Done <==> r.next is None,
            self.transmission_count < u32::MAX ==> r.derived() && r.transmission_count
                == self.transmission_count + 1,
            self.wf() && self.next is Some ==> r.wf(),
    {
        if self.transmission_count < u32::MAX {
            let count: u32 = self.transmission_count + 1;
            let next = self.schedule_pattern.next(count);
            let state = match next {
                Some(_) => State::Scheduled,
                None => State::Done,
            };
            MessageSchedule {
                id: self.id,
                schedule_pattern: self.schedule_pattern.clone(),
                next,
                transmission_count: count,
                message: self.message.clone(),
                state,
            }
        } else {
            MessageSchedule {
                id: self.id,
                schedule_pattern: self.schedule_pattern.clone(),
                next: None,
                transmission_count: self.transmission_count,
                message: self.message.clone(),
                state: State::Done,
            }
        }
    }

    pub fn is_due(&self, now: Timestamp) -> (r: bool)
        ensures
            r == self.due(now),
    {
        match self.state {
            State::Scheduled => match self.next {
                Some(at) => at.nanos <= now.nanos,
                None => false,
            },
            _ => false,
        }
    }
}

/// A transmission of a well-formed schedule that is still due leaves it
/// well-formed, with a count that is larger by one unless it cannot grow.
pub proof fn lemma_transmission_keeps_wf(schedule: MessageSchedule)
    requires
        schedule.wf(),
        schedule.next is Some,
    ensures
        schedule.after_transmission().wf(),
        schedule.transmission_count < u32::MAX ==> schedule.after_transmission().transmission_count
            == schedule.transmission_count + 1 && schedule.after_transmission().derived(),
{
}

/// A schedule is transmitted at most as often as its pattern plans: the count of
/// a well-formed schedule under `Times(n)` is at most `n`, and under a delayed
/// pattern at most one.
pub proof fn lemma_transmissions_bounded(schedule: MessageSchedule)
    requires
        schedule.wf(),
    ensures
        match schedule.schedule_pattern {
            SchedulePattern::Delayed(_) => schedule.transmission_count <= 1,
            SchedulePattern::Cron(cron) => cron.repeat matches Repeat::Times(n)
                ==> schedule.transmission_count <= n,
            SchedulePattern::Interval(interval) => interval.repeat matches Repeat::Times(n)
                ==> schedule.transmission_count <= n,
        },
{
}

/// A valid pattern whose fire time numbered `through` exists is transmitted
/// through it. After `through` transmissions or fewer the schedule waits, with the
/// fire time of its count; and where `through` is the last count that the pattern
/// plans, one more transmission completes the schedule, with as many transmissions
/// as planned.
///
/// For a cron pattern this rests on the order of the calendar's occurrences up to
/// `through`, which `occurrence_after` states of each occurrence that it computes.
pub proof fn lemma_fires_through(
    id: u128,
    pattern: SchedulePattern,
    message: Message,
    through: nat,
    transmissions: nat,
)
    requires
        pattern.valid(),
        through <= u32::MAX,
        pattern.next_fire_time(through) is Some,
        pattern matches SchedulePattern::Cron(cron) ==> ascends_to(
            cron.expression@,
            cron.first_transmission_after,
            through,
        ),
        transmissions <= through + 1,
        transmissions <= u32::MAX,
    ensures
        ({
            let reached = MessageSchedule::fresh(id, pattern, message).after_transmissions(
                transmissions,
            );
            &&& reached.wf()
            &&& reached.derived()
            &&& reached.id == id
            &&& reached.schedule_pattern == pattern
            &&& reached.message == message
            &&& reached.transmission_count == transmissions
            &&& transmissions <= through ==> reached.next is Some && reached.state is Scheduled
            &&& transmissions == through + 1 && pattern.limit() == Some(transmissions)
                ==> reached.next is None && reached.state is Done
        }),
    decreases transmissions,
{
    lemma_fires_ascend(pattern, through);
    if transmissions > 0 {
        lemma_fires_through(id, pattern, message, through, (transmissions - 1) as nat);
    }
}

/// A valid delayed or interval pattern with a planned number of transmissions is
/// transmitted exactly that often: after fewer transmissions the schedule waits
/// with a fire time, and after the last one it is spent.
pub proof fn lemma_runs_to_exhaustion(
    id: u128,
    pattern: SchedulePattern,
    message: Message,
    transmissions: nat,
)
    requires
        pattern.valid(),
        !(pattern is Cron),
        pattern.limit() matches Some(planned) && transmissions <= planned,
    ensures
        ({
            let planned = pattern.limit()->0;
            let reached = MessageSchedule::fresh(id, pattern, message).after_transmissions(
                transmissions,
            );
            &&& reached.wf()
            &&& reached.id == id
            &&& reached.schedule_pattern == pattern
            &&& reached.message == message
            &&& reached.transmission_count == transmissions
            &&& transmissions < planned ==> reached.next is Some && reached.state is Scheduled
            &&& transmissions == planned ==> reached.next is None
            &&& 0 < transmissions == planned ==> reached.state is Done
        }),
{
    let planned = pattern.limit()->0;
    if planned > 0 {
        let last = (planned - 1) as nat;
        if let SchedulePattern::Interval(interval) = pattern {
            interval.lemma_valid_fires(last);
        }
        lemma_fires_through(id, pattern, message, last, transmissions);
    }
}

} // verus!
