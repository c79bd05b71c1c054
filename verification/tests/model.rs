use message_scheduler::model::{
    Cron, Delayed, Interval, Message, MessageSchedule, Repeat, SchedulePattern, State,
};
use message_scheduler::time::{TimeSpan, Timestamp};

// 2024-01-01T00:00:00Z
const NEW_YEAR_2024: i64 = 1_704_067_200;

fn at_secs(secs: i64) -> Timestamp {
    Timestamp::from_parts(secs, 0)
}

fn every_day_at_half_past_nine(repeat: Repeat) -> Cron {
    Cron::new(at_secs(NEW_YEAR_2024), "0 30 9 * * * *".to_string(), repeat)
}

#[test]
fn delayed_fires_once() {
    let at = Timestamp::from_millis(1_700_000_000_000);
    let pattern = SchedulePattern::Delayed(Delayed::new(at));
    assert_eq!(pattern.next(0), Some(at));
    assert_eq!(pattern.next(1), None);
    assert_eq!(pattern.next(2), None);
    assert_eq!(pattern.next(u32::MAX), None);
    assert!(pattern.is_valid());
}

#[test]
fn interval_fires_at_first_plus_count_times_interval() {
    let first = Timestamp::from_millis(1_000);
    let interval = Interval::new(first, TimeSpan::from_millis(100), Repeat::Infinitely);
    assert_eq!(interval.next(0), Some(first));
    assert_eq!(interval.next(1), Some(Timestamp::from_millis(1_100)));
    assert_eq!(interval.next(7), Some(Timestamp::from_millis(1_700)));
    assert_eq!(
        interval.next(3_000_000_000),
        Some(Timestamp::from_nanos(1_000_000_000 + 3_000_000_000i128 * 100_000_000))
    );
    let pattern = SchedulePattern::Interval(interval);
    assert_eq!(pattern.next(7), Some(Timestamp::from_millis(1_700)));
}

#[test]
fn interval_with_times_is_spent_after_that_many() {
    let first = Timestamp::from_millis(-50);
    let interval = Interval::new(first, TimeSpan::from_millis(20), Repeat::Times(3));
    assert_eq!(interval.next(0), Some(Timestamp::from_millis(-50)));
    assert_eq!(interval.next(1), Some(Timestamp::from_millis(-30)));
    assert_eq!(interval.next(2), Some(Timestamp::from_millis(-10)));
    assert_eq!(interval.next(3), None);
    assert_eq!(interval.next(4), None);
    let never = Interval::new(first, TimeSpan::from_millis(20), Repeat::Times(0));
    assert_eq!(never.next(0), None);
    assert!(never.is_valid());
}

#[test]
fn infinitely_is_never_exhausted() {
    let interval =
        Interval::new(Timestamp::from_nanos(0), TimeSpan::from_nanos(1), Repeat::Infinitely);
    assert_eq!(interval.next(u32::MAX - 1), Some(Timestamp::from_nanos(4_294_967_294)));
    assert_eq!(interval.next(u32::MAX), Some(Timestamp::from_nanos(4_294_967_295)));
    // From 2024-01-01T00:00:00Z, every millisecond.
    let every_milli = Interval::new(
        Timestamp::from_parts(NEW_YEAR_2024, 0),
        TimeSpan::from_millis(1),
        Repeat::Infinitely,
    );
    assert!(every_milli.is_valid());
    assert_eq!(
        every_milli.next(4_294_967_295),
        Some(Timestamp::from_millis(NEW_YEAR_2024 * 1_000 + 4_294_967_295))
    );
    assert_eq!(
        SchedulePattern::Interval(every_milli).next(u32::MAX),
        Some(Timestamp::from_millis(NEW_YEAR_2024 * 1_000 + 4_294_967_295))
    );
    assert!(!Repeat::Infinitely.is_exhausted(0));
    assert!(!Repeat::Infinitely.is_exhausted(u32::MAX - 1));
    assert!(!Repeat::Infinitely.is_exhausted(u32::MAX));
    assert!(Repeat::Times(2).is_exhausted(2));
    assert!(!Repeat::Times(2).is_exhausted(1));
    assert!(Repeat::Times(0).is_exhausted(0));
    assert!(Repeat::Times(u32::MAX).is_exhausted(u32::MAX));
    assert!(!Repeat::Times(u32::MAX).is_exhausted(u32::MAX - 1));
    let cron = every_day_at_half_past_nine(Repeat::Infinitely);
    assert_eq!(cron.next(3), Some(at_secs(NEW_YEAR_2024 + 3 * 86_400 + 9 * 3_600 + 30 * 60)));
}

#[test]
fn interval_must_be_positive() {
    let first = Timestamp::from_millis(0);
    for repeat in [Repeat::Infinitely, Repeat::Times(0), Repeat::Times(5)] {
        assert!(!Interval::new(first, TimeSpan::from_nanos(0), repeat).is_valid());
        assert!(!Interval::new(first, TimeSpan::from_nanos(-1), repeat).is_valid());
        assert!(Interval::new(first, TimeSpan::from_nanos(1), repeat).is_valid());
    }
    assert!(!SchedulePattern::Interval(Interval::new(
        first,
        TimeSpan::from_millis(-100),
        Repeat::Infinitely
    ))
    .is_valid());
}

#[test]
fn interval_must_fit_the_instant_range() {
    let last = Timestamp::from_nanos(i128::MAX);
    // The only occurrence is the first: it fits.
    assert!(Interval::new(last, TimeSpan::from_nanos(1), Repeat::Times(1)).is_valid());
    // The second would lie past the range.
    let two = Interval::new(last, TimeSpan::from_nanos(1), Repeat::Times(2));
    assert!(!two.is_valid());
    assert_eq!(two.next(0), Some(last));
    assert_eq!(two.next(1), None);
    // The offset alone leaves the range.
    let wide = Interval::new(
        Timestamp::from_nanos(i128::MIN),
        TimeSpan::from_nanos(i128::MAX),
        Repeat::Times(4),
    );
    assert!(!wide.is_valid());
    assert_eq!(wide.next(1), Some(Timestamp::from_nanos(-1)));
    assert_eq!(wide.next(2), None);
    // A daily schedule without end fits.
    assert!(Interval::new(
        Timestamp::from_millis(1_700_000_000_000),
        TimeSpan::from_secs(86_400),
        Repeat::Infinitely
    )
    .is_valid());
    // Without end, the occurrence at the largest count has to fit.
    let short = Interval::new(
        Timestamp::from_nanos(i128::MAX - 4_294_967_294),
        TimeSpan::from_nanos(1),
        Repeat::Infinitely,
    );
    assert!(!short.is_valid());
    assert_eq!(short.next(u32::MAX - 1), Some(Timestamp::from_nanos(i128::MAX)));
    assert_eq!(short.next(u32::MAX), None);
    let fits = Interval::new(
        Timestamp::from_nanos(i128::MAX - 4_294_967_295),
        TimeSpan::from_nanos(1),
        Repeat::Infinitely,
    );
    assert!(fits.is_valid());
    assert_eq!(fits.next(u32::MAX), Some(Timestamp::from_nanos(i128::MAX)));
    assert!(Interval::new(
        Timestamp::from_nanos(i128::MAX - 4_294_967_294),
        TimeSpan::from_nanos(1),
        Repeat::Times(u32::MAX)
    )
    .is_valid());
}

#[test]
fn cron_fires_at_the_occurrences_after_the_start() {
    let cron = every_day_at_half_past_nine(Repeat::Infinitely);
    assert!(cron.is_valid());
    assert_eq!(cron.next(0), Some(at_secs(NEW_YEAR_2024 + 9 * 3_600 + 30 * 60)));
    assert_eq!(cron.next(1), Some(at_secs(NEW_YEAR_2024 + 86_400 + 9 * 3_600 + 30 * 60)));
    assert_eq!(cron.next(31), Some(at_secs(NEW_YEAR_2024 + 31 * 86_400 + 9 * 3_600 + 30 * 60)));
    let pattern = SchedulePattern::Cron(cron);
    assert!(pattern.is_valid());
    assert_eq!(pattern.next(0), Some(at_secs(1_704_101_400)));
}

#[test]
fn cron_occurrence_is_strictly_after_the_start() {
    let on_the_dot = Cron::new(at_secs(1_704_101_400), "0 30 9 * * * *".to_string(), Repeat::Infinitely);
    assert_eq!(on_the_dot.next(0), Some(at_secs(1_704_101_400 + 86_400)));
    let just_before = Cron::new(
        Timestamp::from_parts(1_704_101_399, 999_999_999),
        "0 30 9 * * * *".to_string(),
        Repeat::Infinitely,
    );
    assert_eq!(just_before.next(0), Some(at_secs(1_704_101_400)));
}

#[test]
fn cron_with_times_is_spent_after_that_many() {
    let cron = every_day_at_half_past_nine(Repeat::Times(2));
    assert!(cron.next(0).is_some());
    assert!(cron.next(1).is_some());
    assert_eq!(cron.next(2), None);
    assert_eq!(every_day_at_half_past_nine(Repeat::Times(0)).next(0), None);
}

#[test]
fn cron_without_further_occurrences_has_no_next() {
    let past_year = Cron::new(at_secs(NEW_YEAR_2024), "0 0 0 1 1 * 2000".to_string(), Repeat::Infinitely);
    assert!(past_year.is_valid());
    assert_eq!(past_year.next(0), None);
    // 2024-07-01T00:00:00Z, and no other
    let once = Cron::new(at_secs(NEW_YEAR_2024), "0 0 0 1 7 * 2024".to_string(), Repeat::Infinitely);
    assert_eq!(once.next(0), Some(at_secs(1_719_792_000)));
    assert_eq!(once.next(1), None);
    assert_eq!(once.next(2), None);
}

#[test]
fn cron_expression_must_parse() {
    for expression in ["", "not a cron expression", "* * *", "61 * * * * * *", "0 0 0 * * * 1492"] {
        let cron = Cron::new(at_secs(NEW_YEAR_2024), expression.to_string(), Repeat::Infinitely);
        assert!(!cron.is_valid(), "{}", expression);
        assert_eq!(cron.next(0), None, "{}", expression);
        assert!(!SchedulePattern::Cron(cron).is_valid(), "{}", expression);
    }
    for expression in ["* * * * * * *", "0 0 0 * * *", "@daily", "0 30 9,12,15 1,15 May-Aug Mon,Wed,Fri 2018/2"] {
        let cron = Cron::new(at_secs(NEW_YEAR_2024), expression.to_string(), Repeat::Infinitely);
        assert!(cron.is_valid(), "{}", expression);
    }
}

#[test]
fn cron_start_outside_the_calendar_has_no_occurrence() {
    for start in [
        Timestamp::from_nanos(i128::MAX),
        Timestamp::from_nanos(i128::MIN),
        Timestamp::from_parts(8_000_000_000_000, 0),
        Timestamp::from_parts(i64::MAX, 0),
        Timestamp::from_parts(i64::MIN, 0),
    ] {
        let cron = Cron::new(start, "* * * * * * *".to_string(), Repeat::Infinitely);
        assert_eq!(cron.next(0), None);
    }
    let early = Cron::new(at_secs(0), "* * * * * * *".to_string(), Repeat::Infinitely);
    assert_eq!(early.next(0), Some(at_secs(1)));
    assert_eq!(early.next(59), Some(at_secs(60)));
}

#[test]
fn fire_times_increase_until_the_pattern_is_spent() {
    let patterns = vec![
        SchedulePattern::Delayed(Delayed::new(Timestamp::from_millis(5))),
        SchedulePattern::Interval(Interval::new(
            Timestamp::from_millis(-500),
            TimeSpan::from_nanos(1),
            Repeat::Times(12),
        )),
        SchedulePattern::Interval(Interval::new(
            Timestamp::from_millis(1_700_000_000_000),
            TimeSpan::from_secs(3_600),
            Repeat::Infinitely,
        )),
        SchedulePattern::Cron(every_day_at_half_past_nine(Repeat::Times(9))),
        SchedulePattern::Cron(Cron::new(
            at_secs(NEW_YEAR_2024),
            "0 0 0 29 2 * *".to_string(),
            Repeat::Infinitely,
        )),
    ];
    for pattern in patterns {
        let mut spent = false;
        let mut previous: Option<Timestamp> = None;
        for count in 0..20u32 {
            match pattern.next(count) {
                Some(at) => {
                    assert!(!spent, "{:?} fires again at {}", pattern, count);
                    if let Some(before) = previous {
                        assert!(before < at, "{:?} at {}", pattern, count);
                    }
                    previous = Some(at);
                }
                None => spent = true,
            }
        }
    }
}

#[test]
fn leap_day_schedule_skips_to_the_next_leap_year() {
    let cron = Cron::new(at_secs(NEW_YEAR_2024), "0 0 0 29 2 * *".to_string(), Repeat::Infinitely);
    // 2024-02-29T00:00:00Z and 2028-02-29T00:00:00Z
    assert_eq!(cron.next(0), Some(at_secs(1_709_164_800)));
    assert_eq!(cron.next(1), Some(at_secs(1_835_395_200)));
}

#[test]
fn new_schedule_waits_for_its_first_fire_time() {
    let at = Timestamp::from_millis(42);
    let schedule = MessageSchedule::with_id(
        9,
        SchedulePattern::Delayed(Delayed::new(at)),
        Message::Event("payload".into()),
    );
    assert_eq!(
        schedule,
        MessageSchedule {
            id: 9,
            schedule_pattern: SchedulePattern::Delayed(Delayed::new(at)),
            next: Some(at),
            transmission_count: 0,
            message: Message::Event("payload".into()),
            state: State::Scheduled,
        }
    );
    let cron = MessageSchedule::new(
        SchedulePattern::Cron(every_day_at_half_past_nine(Repeat::Infinitely)),
        Message::Event("payload".into()),
    );
    assert_eq!(cron.next, Some(at_secs(1_704_101_400)));
    assert_eq!(cron.transmission_count, 0);
    assert_eq!(cron.state, State::Scheduled);
    let spent = MessageSchedule::new(
        SchedulePattern::Interval(Interval::new(at, TimeSpan::from_millis(1), Repeat::Times(0))),
        Message::Event("payload".into()),
    );
    assert_eq!(spent.next, None);
    assert_eq!(spent.state, State::Scheduled);
}

#[test]
fn new_schedules_get_different_identifiers() {
    let pattern = SchedulePattern::Delayed(Delayed::new(Timestamp::from_millis(42)));
    let one = MessageSchedule::new(pattern.clone(), Message::Event("payload".into()));
    let other = MessageSchedule::new(pattern, Message::Event("payload".into()));
    assert_ne!(one.id, other.id);
    for id in [one.id, other.id] {
        assert_eq!((id >> 76) & 0xf, 4);
        assert_eq!((id >> 62) & 0x3, 2);
    }
}

#[test]
fn transmitted_delayed_schedule_is_done() {
    let schedule = MessageSchedule::with_id(
        1,
        SchedulePattern::Delayed(Delayed::new(Timestamp::from_millis(42))),
        Message::Event("payload".into()),
    );
    let after = schedule.transmitted();
    assert_eq!(after.id, 1);
    assert_eq!(after.schedule_pattern, schedule.schedule_pattern);
    assert_eq!(after.message, schedule.message);
    assert_eq!(after.transmission_count, 1);
    assert_eq!(after.next, None);
    assert_eq!(after.state, State::Done);
}

#[test]
fn times_three_is_transmitted_three_times() {
    let first = Timestamp::from_millis(1_000);
    let mut schedule = MessageSchedule::with_id(
        1,
        SchedulePattern::Interval(Interval::new(first, TimeSpan::from_millis(100), Repeat::Times(3))),
        Message::Event("payload".into()),
    );
    let mut transmissions = 0;
    while schedule.next.is_some() {
        assert_eq!(schedule.state, State::Scheduled);
        assert_eq!(schedule.next, Some(Timestamp::from_millis(1_000 + 100 * transmissions)));
        schedule = schedule.transmitted();
        transmissions += 1;
        assert_eq!(schedule.transmission_count as i64, transmissions);
    }
    assert_eq!(transmissions, 3);
    assert_eq!(schedule.state, State::Done);
    assert_eq!(schedule.transmission_count, 3);
}

#[test]
fn count_stops_at_its_largest_value() {
    let schedule = MessageSchedule {
        id: 1,
        schedule_pattern: SchedulePattern::Interval(Interval::new(
            Timestamp::from_nanos(0),
            TimeSpan::from_nanos(1),
            Repeat::Infinitely,
        )),
        next: Some(Timestamp::from_nanos(4_294_967_294)),
        transmission_count: u32::MAX - 1,
        message: Message::Event("payload".into()),
        state: State::Doing,
    };
    let last = schedule.transmitted();
    assert_eq!(last.transmission_count, u32::MAX);
    assert_eq!(last.next, Some(Timestamp::from_nanos(4_294_967_295)));
    assert_eq!(last.state, State::Scheduled);
    // The count cannot grow any more: one more transmission completes the schedule.
    let spent = last.transmitted();
    assert_eq!(spent.id, 1);
    assert_eq!(spent.schedule_pattern, schedule.schedule_pattern);
    assert_eq!(spent.message, schedule.message);
    assert_eq!(spent.transmission_count, u32::MAX);
    assert_eq!(spent.next, None);
    assert_eq!(spent.state, State::Done);
    assert_eq!(spent.transmitted(), spent);
}

#[test]
fn times_of_the_largest_count_ends_there() {
    let schedule = MessageSchedule {
        id: 1,
        schedule_pattern: SchedulePattern::Interval(Interval::new(
            Timestamp::from_nanos(0),
            TimeSpan::from_nanos(1),
            Repeat::Times(u32::MAX),
        )),
        next: Some(Timestamp::from_nanos(4_294_967_294)),
        transmission_count: u32::MAX - 1,
        message: Message::Event("payload".into()),
        state: State::Doing,
    };
    let done = schedule.transmitted();
    assert_eq!(done.transmission_count, u32::MAX);
    assert_eq!(done.next, None);
    assert_eq!(done.state, State::Done);
}

#[test]
fn due_when_waiting_and_not_in_the_future() {
    let at = Timestamp::from_millis(42);
    let mut schedule = MessageSchedule::with_id(
        1,
        SchedulePattern::Delayed(Delayed::new(at)),
        Message::Event("payload".into()),
    );
    assert!(schedule.is_due(at));
    assert!(schedule.is_due(Timestamp::from_millis(43)));
    assert!(!schedule.is_due(Timestamp::from_millis(41)));
    schedule.state = State::Doing;
    assert!(!schedule.is_due(at));
    schedule.state = State::Done;
    assert!(!schedule.is_due(at));
    schedule.state = State::Scheduled;
    schedule.next = None;
    assert!(!schedule.is_due(at));
}
