//! Occurrences of a cron expression, computed by the `cron` crate.
//!
//! The crate's parser and calendar search are not verified here. Their results
//! are named by two uninterpreted functions; everything around the two calls
//! is verified against those names.

use vstd::prelude::*;
use crate::time::Timestamp;

verus! {

/// Whether `cron::Schedule` parses `expression`.
pub uninterp spec fn cron_parses(expression: Seq<char>) -> bool;

/// What `cron::Schedule::after(..).nth(index)` yields, in whole seconds since the
/// epoch, for the schedule parsed from `expression` and the UTC start instant
/// `secs` seconds and `subsec_nanos` nanoseconds after the epoch. `None` where the
/// expression does not parse, the start is no instant of `chrono`, or the schedule
/// has no such occurrence.
pub uninterp spec fn cron_occurrence(
    expression: Seq<char>,
    secs: i64,
    subsec_nanos: u32,
    index: u32,
) -> Option<i64>;

/// Start instants at or after this many seconds are not handed to the calendar
/// search: it begins one second after its start, and the calendar ends a little past
/// 8.2 * 10^12 seconds.
pub const START_SECONDS_END: i64 = 8_000_000_000_000;

/// Calls `<cron::Schedule as FromStr>::from_str` and reports whether it succeeded.
#[verifier::external_body]
pub(crate) fn expression_parses(expression: &str) -> (ok: bool)
    ensures
        ok == cron_parses(expression@),
{
    expression.parse::<cron::Schedule>().is_ok()
}

/// Calls `cron::Schedule::after` on the start instant and takes the element
/// numbered `index` of the iterator it returns.
///
/// Beyond naming the result, the contract claims two things that the iterator's
/// source shows: each element is searched from one second after the element before
/// it (the first from one second after the start), so an occurrence is later than
/// the start and later than every occurrence with a smaller index; and an element
/// is only reached through all elements before it, so those exist.
/// Occurrences fall on whole seconds, so the seconds are the whole result.
/// The bound on `secs` keeps the start's successor second inside the calendar; the
/// bound on `subsec_nanos` keeps leap-second notation out.
#[verifier::external_body]
fn nth_occurrence_after(expression: &str, secs: i64, subsec_nanos: u32, index: u32) -> (r: Option<
    i64,
>)
    requires
        secs < START_SECONDS_END,
        subsec_nanos < 1_000_000_000,
    ensures
        r == cron_occurrence(expression@, secs, subsec_nanos, index),
        r matches Some(found) ==> secs < found,
        r matches Some(found) ==> forall|earlier: u32|
            earlier < index ==> (#[trigger] cron_occurrence(
                expression@,
                secs,
                subsec_nanos,
                earlier,
            ) matches Some(before) && before < found),
{
    let schedule = expression.parse::<cron::Schedule>().ok()?;
    let start = chrono::DateTime::<chrono::Utc>::from_timestamp(secs, subsec_nanos)?;
    schedule.after(&start).nth(index as usize).map(|found| found.timestamp())
}

/// Whether the calendar search can start at `after`.
pub open spec fn supported_start(after: Timestamp) -> bool {
    i64::MIN <= after.seconds() < START_SECONDS_END
}

/// The occurrence numbered `index` (from 0) of `expression` strictly after
/// `after`, if there is one.
pub open spec fn occurrence(expression: Seq<char>, after: Timestamp, index: nat) -> Option<
    Timestamp,
> {
    if index > u32::MAX || !supported_start(after) {
        None
    } else {
        match cron_occurrence(
            expression,
            after.seconds() as i64,
            after.subsec_nanos() as u32,
            index as u32,
        ) {
            Some(secs) => Some(Timestamp::of_parts(secs as int, 0)),
            None => None,
        }
    }
}

/// The occurrence numbered `index`, where there is one, is later than `after`,
/// and every occurrence with a smaller index exists and is earlier than it.
pub open spec fn ascends_to(expression: Seq<char>, after: Timestamp, index: nat) -> bool {
    occurrence(expression, after, index) matches Some(found) ==> {
        &&& after.nanos < found.nanos
        &&& forall|earlier: nat|
            earlier < index ==> (#[trigger] occurrence(expression, after, earlier) matches Some(
                before,
            ) && before.nanos < found.nanos)
    }
}

/// Computes `occurrence(expression, after, index)`.
pub fn occurrence_after(expression: &str, after: Timestamp, index: u32) -> (r: Option<Timestamp>)
    ensures
        r == occurrence(expression@, after, index as nat),
        ascends_to(expression@, after, index as nat),
{
    let (secs, subsec_nanos) = match after.to_parts() {
        Some(parts) => parts,
        None => { return None; },
    };
    if secs >= START_SECONDS_END {
        return None;
    }
    match nth_occurrence_after(expression, secs, subsec_nanos, index) {
        Some(found) => {
            let at = Timestamp::from_parts(found, 0);
            proof {
                assert forall|earlier: nat| earlier < index implies (#[trigger] occurrence(
                    expression@,
                    after,
                    earlier,
                ) matches Some(before) && before.nanos < at.nanos) by {
                    let e = earlier as u32;
                    assert(cron_occurrence(expression@, secs, subsec_nanos, e) is Some);
                }
            }
            Some(at)
        },
        None => None,
    }
}

} // verus!
