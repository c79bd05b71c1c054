use message_scheduler::contract::{
    Clock, MetricEvent, Metrics, Repository, RepositoryError, TransmitError, Transmitter,
};
use message_scheduler::model::{
    Delayed, Interval, Message, MessageSchedule, Repeat, SchedulePattern, State,
};
use message_scheduler::repository_in_memory::RepositoryInMemory;
use message_scheduler::scheduler::{MessageScheduler, SchedulerError};
use message_scheduler::time::{TimeSpan, Timestamp};
use std::cell::{Cell, RefCell};
use std::rc::Rc;

const NOW_MILLIS: i64 = 1_700_000_000_000;

/// A clock that is set by hand.
#[derive(Clone)]
struct ManualClock {
    millis: Rc<Cell<i64>>,
}

impl ManualClock {
    fn at(millis: i64) -> ManualClock {
        ManualClock { millis: Rc::new(Cell::new(millis)) }
    }

    fn advance(&self, millis: i64) {
        self.millis.set(self.millis.get() + millis);
    }
}

impl Clock for ManualClock {
    fn now(&self) -> Timestamp {
        Timestamp::from_millis(self.millis.get())
    }
}

/// A transmitter that fails its first `failures` calls and keeps what it was handed.
#[derive(Clone)]
struct CountingTransmitter {
    failures: Rc<Cell<u32>>,
    transmitted: Rc<RefCell<Vec<Message>>>,
}

impl CountingTransmitter {
    fn succeeding() -> CountingTransmitter {
        CountingTransmitter::failing_first(0)
    }

    fn failing_first(failures: u32) -> CountingTransmitter {
        CountingTransmitter {
            failures: Rc::new(Cell::new(failures)),
            transmitted: Rc::new(RefCell::new(vec![])),
        }
    }

    fn calls(&self) -> usize {
        self.transmitted.borrow().len()
    }
}

impl Transmitter for CountingTransmitter {
    fn transmit(&self, message: Message) -> Result<(), TransmitError> {
        self.transmitted.borrow_mut().push(message);
        if self.failures.get() > 0 {
            self.failures.set(self.failures.get() - 1);
            Err(TransmitError { reason: "not available".into() })
        } else {
            Ok(())
        }
    }
}

struct RecordingMetrics {
    events: RefCell<Vec<MetricEvent>>,
}

impl RecordingMetrics {
    fn new() -> RecordingMetrics {
        RecordingMetrics { events: RefCell::new(vec![]) }
    }

    fn times(&self, event: MetricEvent) -> usize {
        self.events.borrow().iter().filter(|seen| **seen == event).count()
    }
}

impl Metrics for RecordingMetrics {
    fn count(&self, event: MetricEvent) {
        self.events.borrow_mut().push(event);
    }
}

/// One in-memory repository behind several handles; `save` can be made to fail.
#[derive(Clone)]
struct SharedRepository {
    inner: Rc<RefCell<RepositoryInMemory>>,
    save_fails: bool,
}

impl SharedRepository {
    fn new() -> SharedRepository {
        SharedRepository { inner: Rc::new(RefCell::new(RepositoryInMemory::new())), save_fails: false }
    }

    fn schedules(&self) -> Vec<MessageSchedule> {
        self.inner.borrow().schedules()
    }

    fn only(&self) -> MessageSchedule {
        let schedules = self.schedules();
        assert_eq!(schedules.len(), 1);
        schedules[0].clone()
    }
}

impl Repository for SharedRepository {
    fn store_schedule(&mut self, schedule: &MessageSchedule) -> Result<(), RepositoryError> {
        self.inner.borrow_mut().store_schedule(schedule)
    }

    fn poll_batch(
        &mut self,
        before: Timestamp,
        batch_size: u32,
    ) -> Result<Vec<MessageSchedule>, RepositoryError> {
        self.inner.borrow_mut().poll_batch(before, batch_size)
    }

    fn save(&mut self, schedule: &MessageSchedule) -> Result<(), RepositoryError> {
        if self.save_fails {
            return Err(RepositoryError::Unavailable("save failed".into()));
        }
        self.inner.borrow_mut().save(schedule)
    }

    fn reschedule(&mut self, schedule_id: u128) -> Result<(), RepositoryError> {
        self.inner.borrow_mut().reschedule(schedule_id)
    }
}

type Engine = MessageScheduler<SharedRepository, CountingTransmitter, ManualClock, RecordingMetrics>;

fn engine(
    repository: &SharedRepository,
    transmitter: &CountingTransmitter,
    clock: &ManualClock,
) -> Engine {
    MessageScheduler::new(repository.clone(), transmitter.clone(), clock.clone(), RecordingMetrics::new())
}

fn delayed(at_millis: i64) -> SchedulePattern {
    SchedulePattern::Delayed(Delayed::new(Timestamp::from_millis(at_millis)))
}

#[test]
fn delayed_in_the_past_is_transmitted_on_the_next_tick() {
    let repository = SharedRepository::new();
    let transmitter = CountingTransmitter::succeeding();
    let clock = ManualClock::at(NOW_MILLIS);
    let mut scheduler = engine(&repository, &transmitter, &clock);

    scheduler.schedule(delayed(NOW_MILLIS - 10), Message::Event("late".into())).unwrap();
    let ingested = repository.only();
    assert_eq!(ingested.state, State::Scheduled);
    assert_eq!(ingested.transmission_count, 0);
    assert_eq!(ingested.next, Some(Timestamp::from_millis(NOW_MILLIS - 10)));

    assert_eq!(scheduler.process_batch(), Ok(vec![Ok(())]));

    assert_eq!(transmitter.calls(), 1);
    assert_eq!(*transmitter.transmitted.borrow(), vec![Message::Event("late".into())]);
    let stored = repository.only();
    assert_eq!(stored.id, ingested.id);
    assert_eq!(stored.state, State::Done);
    assert_eq!(stored.transmission_count, 1);
    assert_eq!(stored.next, None);
    assert_eq!(
        *scheduler.metrics().events.borrow(),
        vec![
            MetricEvent::Scheduled(true),
            MetricEvent::Polled(true),
            MetricEvent::Transmitted(true),
            MetricEvent::MarkedDone(true),
        ]
    );

    // Done is final: later ticks transmit nothing.
    for _ in 0..5 {
        clock.advance(100);
        assert_eq!(scheduler.process_batch(), Ok(vec![]));
    }
    assert_eq!(transmitter.calls(), 1);
    assert_eq!(repository.only(), stored);
}

#[test]
fn delayed_in_the_future_is_not_transmitted() {
    let repository = SharedRepository::new();
    let transmitter = CountingTransmitter::succeeding();
    let clock = ManualClock::at(NOW_MILLIS);
    let mut scheduler = engine(&repository, &transmitter, &clock);

    scheduler.schedule(delayed(NOW_MILLIS + 3_600_000), Message::Event("early".into())).unwrap();
    let ingested = repository.only();

    for _ in 0..10 {
        assert_eq!(scheduler.process_batch(), Ok(vec![]));
        clock.advance(5_000);
    }

    assert_eq!(transmitter.calls(), 0);
    assert_eq!(repository.only(), ingested);
    assert_eq!(repository.only().state, State::Scheduled);
    assert_eq!(scheduler.metrics().times(MetricEvent::Polled(true)), 10);
    assert_eq!(scheduler.metrics().times(MetricEvent::Transmitted(true)), 0);
}

#[test]
fn interval_of_three_is_transmitted_three_times() {
    let repository = SharedRepository::new();
    let transmitter = CountingTransmitter::succeeding();
    let clock = ManualClock::at(NOW_MILLIS);
    let mut scheduler = engine(&repository, &transmitter, &clock);

    let pattern = SchedulePattern::Interval(Interval::new(
        Timestamp::from_millis(NOW_MILLIS - 10),
        TimeSpan::from_millis(100),
        Repeat::Times(3),
    ));
    scheduler.schedule(pattern, Message::Event("thrice".into())).unwrap();

    let mut transmitted_at = vec![];
    for tick in 0..50 {
        let outcomes = scheduler.process_batch().unwrap();
        for outcome in outcomes {
            assert_eq!(outcome, Ok(()));
            transmitted_at.push(tick * 10);
        }
        let stored = repository.only();
        assert_eq!(stored.transmission_count as usize, transmitted_at.len());
        clock.advance(10);
    }

    // Due at -10, 90 and 190 ms: picked up by the ticks at 0, 90 and 190 ms.
    assert_eq!(transmitted_at, vec![0, 90, 190]);
    assert_eq!(transmitter.calls(), 3);
    let stored = repository.only();
    assert_eq!(stored.state, State::Done);
    assert_eq!(stored.next, None);
    assert_eq!(stored.transmission_count, 3);
    assert_eq!(scheduler.metrics().times(MetricEvent::AdvancedPeriodic(true)), 2);
    assert_eq!(scheduler.metrics().times(MetricEvent::MarkedDone(true)), 1);
    assert_eq!(scheduler.metrics().times(MetricEvent::Transmitted(true)), 3);
}

#[test]
fn failed_transmission_is_tried_again() {
    let repository = SharedRepository::new();
    let transmitter = CountingTransmitter::failing_first(1);
    let clock = ManualClock::at(NOW_MILLIS);
    let mut scheduler = engine(&repository, &transmitter, &clock);

    scheduler.schedule(delayed(NOW_MILLIS), Message::Event("retry".into())).unwrap();
    let ingested = repository.only();

    assert_eq!(
        scheduler.process_batch(),
        Ok(vec![Err(SchedulerError::Transmit(TransmitError { reason: "not available".into() }))])
    );
    assert_eq!(transmitter.calls(), 1);
    assert_eq!(repository.only(), ingested);
    assert_eq!(repository.only().state, State::Scheduled);
    assert_eq!(repository.only().transmission_count, 0);

    clock.advance(100);
    assert_eq!(scheduler.process_batch(), Ok(vec![Ok(())]));
    assert_eq!(transmitter.calls(), 2);
    assert_eq!(repository.only().state, State::Done);
    assert_eq!(repository.only().transmission_count, 1);
    assert_eq!(
        *scheduler.metrics().events.borrow(),
        vec![
            MetricEvent::Scheduled(true),
            MetricEvent::Polled(true),
            MetricEvent::Transmitted(false),
            MetricEvent::Rescheduled(true),
            MetricEvent::Polled(true),
            MetricEvent::Transmitted(true),
            MetricEvent::MarkedDone(true),
        ]
    );
}

#[test]
fn failed_save_leaves_the_schedule_claimed() {
    let mut repository = SharedRepository::new();
    let transmitter = CountingTransmitter::succeeding();
    let clock = ManualClock::at(NOW_MILLIS);
    MessageScheduler::new(repository.clone(), transmitter.clone(), clock.clone(), RecordingMetrics::new())
        .schedule(delayed(NOW_MILLIS), Message::Event("stuck".into()))
        .unwrap();
    let ingested = repository.only();

    repository.save_fails = true;
    let mut scheduler = engine(&repository, &transmitter, &clock);
    assert_eq!(
        scheduler.process_batch(),
        Ok(vec![Err(SchedulerError::Repository(RepositoryError::Unavailable("save failed".into())))])
    );

    assert_eq!(transmitter.calls(), 1);
    assert_eq!(scheduler.metrics().times(MetricEvent::MarkedDone(false)), 1);
    assert_eq!(scheduler.metrics().times(MetricEvent::MarkedDone(true)), 0);
    let stored = repository.only();
    assert_eq!(stored.state, State::Doing);
    assert_eq!(stored.transmission_count, 0);
    assert_eq!(stored.next, ingested.next);

    // The claim stays: no later tick picks the schedule up again.
    clock.advance(100);
    assert_eq!(scheduler.process_batch(), Ok(vec![]));
    assert_eq!(transmitter.calls(), 1);
}

fn run_two_engines(schedules: usize) {
    let repository = SharedRepository::new();
    let transmitter = CountingTransmitter::succeeding();
    let clock = ManualClock::at(NOW_MILLIS);
    let mut one = engine(&repository, &transmitter, &clock);
    let mut other = engine(&repository, &transmitter, &clock);

    for i in 0..schedules {
        let scheduler = if i % 2 == 0 { &mut one } else { &mut other };
        scheduler.schedule(delayed(NOW_MILLIS), Message::Event(format!("message {}", i))).unwrap();
    }

    let mut outcomes = 0;
    for _ in 0..3 {
        outcomes += one.process_batch().unwrap().len();
        outcomes += other.process_batch().unwrap().len();
        clock.advance(100);
    }

    assert_eq!(outcomes, schedules);
    assert_eq!(transmitter.calls(), schedules);
    let mut payloads: Vec<String> = transmitter
        .transmitted
        .borrow()
        .iter()
        .map(|message| match message {
            Message::Event(payload) => payload.clone(),
        })
        .collect();
    payloads.sort();
    payloads.dedup();
    assert_eq!(payloads.len(), schedules);
    let stored = repository.schedules();
    assert_eq!(stored.len(), schedules);
    for schedule in stored {
        assert_eq!(schedule.state, State::Done);
        assert_eq!(schedule.next, None);
        assert_eq!(schedule.transmission_count, 1);
    }
}

#[test]
fn two_engines_transmit_each_schedule_once() {
    run_two_engines(100);
}

#[test]
fn two_engines_share_a_larger_backlog() {
    run_two_engines(250);
}
