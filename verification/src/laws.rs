//! What the engine and the in-memory repository give together.

use vstd::prelude::*;
use crate::model::{Message, MessageSchedule, SchedulePattern};
use crate::repository_in_memory::{
    after_poll,
    after_reschedule,
    after_save,
    claim,
    claims,
    is_claimed,
    lemma_claim_origin,
    lemma_claims_bounded,
    unique_ids,
};
use crate::record::Step;
use crate::scheduler::{
    batch_steps,
    ingestion,
    lemma_batch_layout,
    reconciliation,
    store_failure,
    tick_steps,
    transmit_failure,
    SchedulerError,
    BATCH_SIZE,
};
use crate::time::Timestamp;

verus! {

/// The place of a claimed schedule among the copies that the poll hands out.
pub open spec fn claim_number(
    store: Seq<MessageSchedule>,
    before: Timestamp,
    limit: nat,
    i: int,
) -> int {
    claims(store, before, limit, i as nat).len() as int
}

/// A claimed schedule is handed out at its claim number.
pub proof fn lemma_claim_at_its_number(
    store: Seq<MessageSchedule>,
    before: Timestamp,
    limit: nat,
    n: nat,
    i: int,
)
    requires
        0 <= i < n <= store.len(),
        is_claimed(store, before, limit, i),
    ensures
        0 <= claim_number(store, before, limit, i) < claims(store, before, limit, n).len(),
        claims(store, before, limit, n)[claim_number(store, before, limit, i)] == claim(store[i]),
    decreases n,
{
    if i < n - 1 {
        lemma_claim_at_its_number(store, before, limit, (n - 1) as nat, i);
    }
}

/// At least once, one tick at a time: a waiting schedule that is due when the
/// tick polls is claimed and its message is handed to the transmitter in that tick,
/// provided that the batch has room for it: fewer than `limit` schedules before it
/// in the store are due as well.
pub proof fn lemma_due_schedule_is_transmitted(
    store: Seq<MessageSchedule>,
    now: Timestamp,
    limit: nat,
    outcomes: Seq<Result<(), SchedulerError>>,
    i: int,
)
    requires
        0 <= i < store.len(),
        store[i].due(now),
        claim_number(store, now, limit, i) < limit,
        outcomes.len() == claims(store, now, limit, store.len()).len(),
    ensures
        ({
            let claimed = claims(store, now, limit, store.len());
            let at = 4 * claim_number(store, now, limit, i);
            &&& 0 <= at < batch_steps(claimed, outcomes).len()
            &&& batch_steps(claimed, outcomes)[at] matches Step::Transmitted { message, failure }
            &&& message == store[i].message
        }),
{
    let claimed = claims(store, now, limit, store.len());
    let number = claim_number(store, now, limit, i);
    lemma_claim_at_its_number(store, now, limit, store.len(), i);
    lemma_batch_layout(claimed, outcomes, number);
    let four = batch_steps(claimed, outcomes).subrange(4 * number, 4 * number + 4);
    assert(four[0] == batch_steps(claimed, outcomes)[4 * number]);
}

/// A store within the batch size has room for every due schedule.
pub proof fn lemma_small_store_has_room(
    store: Seq<MessageSchedule>,
    now: Timestamp,
    limit: nat,
    i: int,
)
    requires
        0 <= i < store.len() <= limit,
    ensures
        claim_number(store, now, limit, i) < limit,
{
    lemma_claims_bounded(store, now, limit, i as nat);
}

/// Nothing is transmitted that was not waiting and due: every message handed to
/// the transmitter in a tick is that of a stored schedule that was `Scheduled`
/// with `next` at or before the instant of the poll. A schedule that is `Doing` or
/// `Done` is not transmitted.
pub proof fn lemma_transmitted_was_due(
    store: Seq<MessageSchedule>,
    now: Timestamp,
    limit: nat,
    outcomes: Seq<Result<(), SchedulerError>>,
    k: int,
) -> (i: int)
    requires
        outcomes.len() == claims(store, now, limit, store.len()).len(),
        0 <= k < batch_steps(claims(store, now, limit, store.len()), outcomes).len(),
        batch_steps(claims(store, now, limit, store.len()), outcomes)[k] is Transmitted,
    ensures
        0 <= i < store.len(),
        store[i].due(now),
        store[i].state is Scheduled,
        batch_steps(claims(store, now, limit, store.len()), outcomes)[k] matches Step::Transmitted {
            message,
            failure,
        } && message == store[i].message,
{
    let claimed = claims(store, now, limit, store.len());
    crate::scheduler::lemma_transmits_each_claim_once(claimed, outcomes, k);
    lemma_claim_origin(store, now, limit, store.len(), k / 4)
}

/// The in-memory store after one recorded call that the repository answered
/// without an error: an insert appends, a poll claims, a save replaces the claimed
/// schedule, a reschedule gives the claim up. Every other call leaves the store as
/// it is.
pub open spec fn replay_step(store: Seq<MessageSchedule>, step: Step) -> Seq<MessageSchedule> {
    match step {
        Step::Stored { schedule, error } => if error is None {
            store.push(schedule)
        } else {
            store
        },
        Step::Polled { before, batch_size, result } => if result is Ok {
            after_poll(store, before, batch_size as nat)
        } else {
            store
        },
        Step::Saved { schedule, error } => if error is None {
            after_save(store, schedule)
        } else {
            store
        },
        Step::Rescheduled { id, error } => if error is None {
            after_reschedule(store, id)
        } else {
            store
        },
        _ => store,
    }
}

/// The in-memory store after a record of calls, oldest first.
pub open spec fn replay(store: Seq<MessageSchedule>, steps: Seq<Step>) -> Seq<MessageSchedule>
    decreases steps.len(),
{
    if steps.len() == 0 {
        store
    } else {
        replay_step(replay(store, steps.drop_last()), steps.last())
    }
}

/// The stored schedule at `j` once the first `done` claims of a tick are
/// reconciled. A schedule that the poll did not claim is untouched. A claimed one
/// is `Doing` until its turn; after a successful transmission it is the schedule
/// after one more transmission, and after a failed one it is as it was before the
/// poll.
pub open spec fn settled_schedule(
    store: Seq<MessageSchedule>,
    now: Timestamp,
    limit: nat,
    outcomes: Seq<Result<(), SchedulerError>>,
    done: nat,
    j: int,
) -> MessageSchedule {
    if is_claimed(store, now, limit, j) {
        let number = claim_number(store, now, limit, j);
        if number < done {
            if transmit_failure(outcomes[number]) is None {
                store[j].after_transmission()
            } else {
                store[j]
            }
        } else {
            claim(store[j])
        }
    } else {
        store[j]
    }
}

/// The store once the first `done` claims of a tick are reconciled.
pub open spec fn settled_store(
    store: Seq<MessageSchedule>,
    now: Timestamp,
    limit: nat,
    outcomes: Seq<Result<(), SchedulerError>>,
    done: nat,
) -> Seq<MessageSchedule> {
    Seq::new(store.len(), |j: int| settled_schedule(store, now, limit, outcomes, done, j))
}

/// Replaying two records one after the other is replaying them joined.
pub proof fn lemma_replay_joined(store: Seq<MessageSchedule>, first: Seq<Step>, second: Seq<Step>)
    ensures
        replay(store, first + second) == replay(replay(store, first), second),
    decreases second.len(),
{
    if second.len() == 0 {
        assert(first + second =~= first);
    } else {
        lemma_replay_joined(store, first, second.drop_last());
        assert((first + second).drop_last() =~= first + second.drop_last());
    }
}

/// Two claimed schedules have different claim numbers.
pub proof fn lemma_claim_numbers_differ(
    store: Seq<MessageSchedule>,
    now: Timestamp,
    limit: nat,
    i: int,
    j: int,
)
    requires
        unique_ids(store),
        0 <= i < store.len(),
        0 <= j < store.len(),
        i != j,
        is_claimed(store, now, limit, i),
        is_claimed(store, now, limit, j),
    ensures
        claim_number(store, now, limit, i) != claim_number(store, now, limit, j),
{
    lemma_claim_at_its_number(store, now, limit, store.len(), i);
    lemma_claim_at_its_number(store, now, limit, store.len(), j);
}

/// The calls of one reconciliation, replayed on a store in which the repository
/// does not fail: a successful transmission ends in the save of the schedule after
/// one more transmission, a failed one in the release of the claim.
pub proof fn lemma_reconciliation_on_store(
    store: Seq<MessageSchedule>,
    schedule: MessageSchedule,
    outcome: Result<(), SchedulerError>,
)
    requires
        store_failure(outcome) is None,
    ensures
        replay(store, reconciliation(schedule, outcome)) == if transmit_failure(outcome) is None {
            after_save(store, schedule.after_transmission())
        } else {
            after_reschedule(store, schedule.id)
        },
{
    let steps = reconciliation(schedule, outcome);
    let three = steps.drop_last();
    let two = three.drop_last();
    let one = two.drop_last();
    let none = one.drop_last();
    assert(replay(store, none) == store);
    assert(one.last() == steps[0]);
    assert(replay(store, one) == store);
    assert(two.last() == steps[1]);
    assert(replay(store, two) == store);
    assert(three.last() == steps[2]);
    let reconciled_store = if transmit_failure(outcome) is None {
        after_save(store, schedule.after_transmission())
    } else {
        after_reschedule(store, schedule.id)
    };
    assert(replay(store, three) == replay_step(replay(store, two), three.last()));
    assert(replay(store, three) == reconciled_store);
    assert(steps.last() == steps[3]);
    assert(replay(store, steps) == replay_step(replay(store, three), steps.last()));
}

/// The in-memory store after one tick, schedule by schedule. The record of the
/// tick is replayed on the store as `RepositoryInMemory` answers it: the poll hands
/// out `claims(..)`, and no save or reschedule fails. Afterwards a schedule that
/// was not claimed is untouched; a claimed schedule whose message was transmitted
/// is the schedule after one more transmission; and a claimed schedule whose
/// transmission failed is as it was before the tick, waiting and due again.
pub proof fn lemma_tick_on_store(
    store: Seq<MessageSchedule>,
    now: Timestamp,
    outcomes: Seq<Result<(), SchedulerError>>,
)
    requires
        unique_ids(store),
        outcomes.len() == claims(store, now, BATCH_SIZE as nat, store.len()).len(),
        forall|i: int| 0 <= i < outcomes.len() ==> store_failure(#[trigger] outcomes[i]) is None,
    ensures
        ({
            let claimed = claims(store, now, BATCH_SIZE as nat, store.len());
            let after = replay(store, tick_steps(now, Ok(claimed), outcomes));
            &&& after == settled_store(store, now, BATCH_SIZE as nat, outcomes, claimed.len())
            &&& after.len() == store.len()
            &&& unique_ids(after)
            &&& forall|j: int|
                0 <= j < store.len() ==> #[trigger] after[j] == if !is_claimed(
                    store,
                    now,
                    BATCH_SIZE as nat,
                    j,
                ) {
                    store[j]
                } else if transmit_failure(outcomes[claim_number(store, now, BATCH_SIZE as nat, j)])
                    is None {
                    store[j].after_transmission()
                } else {
                    store[j]
                }
        }),
{
    let limit = BATCH_SIZE as nat;
    let claimed = claims(store, now, limit, store.len());
    let head = seq![
        Step::Now { now },
        Step::Polled { before: now, batch_size: BATCH_SIZE, result: Ok(claimed) },
        Step::Counted { event: crate::contract::MetricEvent::Polled(true) },
    ];
    let polled_store = after_poll(store, now, limit);
    assert(replay(store, head) == polled_store) by {
        let two = head.drop_last();
        let one = two.drop_last();
        let none = one.drop_last();
        assert(replay(store, none) == store);
        assert(one.last() == head[0]);
        assert(replay(store, one) == store);
        assert(two.last() == head[1]);
        assert(replay(store, two) == polled_store);
        assert(head.last() == head[2]);
    }
    lemma_replay_joined(store, head, batch_steps(claimed, outcomes));
    lemma_batch_on_store(store, now, limit, outcomes, claimed.len());
    assert(claimed.take(claimed.len() as int) =~= claimed);
    assert(outcomes.take(outcomes.len() as int) =~= outcomes);
    let after = settled_store(store, now, limit, outcomes, claimed.len());
    assert forall|j: int| 0 <= j < store.len() && is_claimed(store, now, limit, j) implies claim_number(
        store,
        now,
        limit,
        j,
    ) < claimed.len() by {
        lemma_claim_at_its_number(store, now, limit, store.len(), j);
    }
    assert forall|i: int, j: int| 0 <= i < j < after.len() implies after[i].id != after[j].id by {
        assert(after[i].id == store[i].id);
        assert(after[j].id == store[j].id);
    }
}

/// The store after the poll of a tick and the reconciliation of its first `done`
/// claims.
pub proof fn lemma_batch_on_store(
    store: Seq<MessageSchedule>,
    now: Timestamp,
    limit: nat,
    outcomes: Seq<Result<(), SchedulerError>>,
    done: nat,
)
    requires
        unique_ids(store),
        outcomes.len() == claims(store, now, limit, store.len()).len(),
        forall|i: int| 0 <= i < outcomes.len() ==> store_failure(#[trigger] outcomes[i]) is None,
        done <= outcomes.len(),
    ensures
        replay(
            after_poll(store, now, limit),
            batch_steps(
                claims(store, now, limit, store.len()).take(done as int),
                outcomes.take(done as int),
            ),
        ) == settled_store(store, now, limit, outcomes, done),
    decreases done,
{
    let claimed = claims(store, now, limit, store.len());
    let polled_store = after_poll(store, now, limit);
    if done == 0 {
        assert(settled_store(store, now, limit, outcomes, 0) =~= polled_store);
    } else {
        let m = (done - 1) as nat;
        lemma_batch_on_store(store, now, limit, outcomes, m);
        let before = settled_store(store, now, limit, outcomes, m);
        let schedule = claimed[m as int];
        let outcome = outcomes[m as int];
        assert(claimed.take(done as int).drop_last() =~= claimed.take(m as int));
        assert(outcomes.take(done as int).drop_last() =~= outcomes.take(m as int));
        lemma_replay_joined(
            polled_store,
            batch_steps(claimed.take(m as int), outcomes.take(m as int)),
            reconciliation(schedule, outcome),
        );
        lemma_reconciliation_on_store(before, schedule, outcome);
        let origin = lemma_claim_origin(store, now, limit, store.len(), m as int);
        let after = replay(before, reconciliation(schedule, outcome));
        assert(store[origin].due(now));
        assert forall|j: int| 0 <= j < store.len() implies after[j] == settled_schedule(
            store,
            now,
            limit,
            outcomes,
            done,
            j,
        ) by {
            assert(before[j].id == store[j].id);
            if j != origin {
                if is_claimed(store, now, limit, j) {
                    lemma_claim_numbers_differ(store, now, limit, j, origin);
                }
            }
        }
        assert(after =~= settled_store(store, now, limit, outcomes, done));
    }
}

/// The calls of an ingestion that the repository accepted, replayed on the store:
/// the fresh schedule is appended.
pub proof fn lemma_ingestion_on_store(
    store: Seq<MessageSchedule>,
    pattern: SchedulePattern,
    message: Message,
    id: u128,
)
    requires
        pattern.valid(),
    ensures
        replay(store, ingestion(pattern, message, id, None)) == store.push(
            MessageSchedule::fresh(id, pattern, message),
        ),
{
    let steps = ingestion(pattern, message, id, None);
    let one = steps.drop_last();
    let none = one.drop_last();
    assert(replay(store, none) == store);
    assert(one.last() == steps[0]);
    assert(replay(store, one) == store.push(MessageSchedule::fresh(id, pattern, message)));
    assert(steps.last() == steps[1]);
}

} // verus!
