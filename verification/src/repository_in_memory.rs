//! A repository that keeps its schedules in a vector.

use vstd::prelude::*;
use crate::contract::{Repository, RepositoryError};
use crate::model::{MessageSchedule, State};
use crate::time::Timestamp;

verus! {

/// No two stored schedules share an identifier.
pub open spec fn unique_ids(store: Seq<MessageSchedule>) -> bool {
    forall|i: int, j: int| 0 <= i < j < store.len() ==> store[i].id != store[j].id
}

/// Some stored schedule has the identifier.
pub open spec fn holds_id(store: Seq<MessageSchedule>, id: u128) -> bool {
    exists|i: int| 0 <= i < store.len() && #[trigger] store[i].id == id
}

/// The schedule as a worker holds it: claimed, otherwise unchanged.
pub open spec fn claim(schedule: MessageSchedule) -> MessageSchedule {
    MessageSchedule {
        id: schedule.id,
        schedule_pattern: schedule.schedule_pattern,
        next: schedule.next,
        transmission_count: schedule.transmission_count,
        message: schedule.message,
        state: State::Doing,
    }
}

/// The schedule as it waits again after a claim was given up.
pub open spec fn release(schedule: MessageSchedule) -> MessageSchedule {
    MessageSchedule {
        id: schedule.id,
        schedule_pattern: schedule.schedule_pattern,
        next: schedule.next,
        transmission_count: schedule.transmission_count,
        message: schedule.message,
        state: State::Scheduled,
    }
}

/// The copies that a poll hands out from the first `n` stored schedules: in the
/// order of the store, every waiting schedule that is due at `before`, until
/// `limit` are taken.
pub open spec fn claims(store: Seq<MessageSchedule>, before: Timestamp, limit: nat, n: nat) -> Seq<
    MessageSchedule,
>
    decreases n,
{
    if n == 0 {
        Seq::empty()
    } else {
        let earlier = claims(store, before, limit, (n - 1) as nat);
        if earlier.len() < limit && store[n - 1].due(before) {
            earlier.push(claim(store[n - 1]))
        } else {
            earlier
        }
    }
}

/// The poll claims the schedule at `i`.
pub open spec fn is_claimed(store: Seq<MessageSchedule>, before: Timestamp, limit: nat, i: int) -> bool {
    claims(store, before, limit, i as nat).len() < limit && store[i].due(before)
}

/// The store after a poll: the claimed schedules are `Doing`, the others untouched.
pub open spec fn after_poll(store: Seq<MessageSchedule>, before: Timestamp, limit: nat) -> Seq<
    MessageSchedule,
> {
    Seq::new(
        store.len(),
        |i: int|
            if is_claimed(store, before, limit, i) {
                claim(store[i])
            } else {
                store[i]
            },
    )
}

/// The store after a save: the claimed schedule of that identifier is replaced;
/// without a claim nothing changes.
pub open spec fn after_save(store: Seq<MessageSchedule>, schedule: MessageSchedule) -> Seq<
    MessageSchedule,
> {
    Seq::new(
        store.len(),
        |i: int|
            if store[i].id == schedule.id && store[i].state is Doing {
                schedule
            } else {
                store[i]
            },
    )
}

/// The store after a claim was given up: the claimed schedule of that identifier
/// waits again, with its count and fire time as they were.
pub open spec fn after_reschedule(store: Seq<MessageSchedule>, id: u128) -> Seq<MessageSchedule> {
    Seq::new(
        store.len(),
        |i: int|
            if store[i].id == id && store[i].state is Doing {
                release(store[i])
            } else {
                store[i]
            },
    )
}

/// Schedules in the order in which they were stored. No two share an identifier.
pub struct RepositoryInMemory {
    schedules: Vec<MessageSchedule>,
}

impl View for RepositoryInMemory {
    type V = Seq<MessageSchedule>;

    closed spec fn view(&self) -> Seq<MessageSchedule> {
        self.schedules@
    }
}

impl RepositoryInMemory {
    #[verifier::type_invariant]
    spec fn distinct(self) -> bool {
        unique_ids(self.schedules@)
    }

    /// An empty repository.
    pub fn new() -> (r: RepositoryInMemory)
        ensures
            r@ == Seq::<MessageSchedule>::empty(),
    {
        RepositoryInMemory { schedules: Vec::new() }
    }

    /// The number of stored schedules.
    pub fn len(&self) -> (r: usize)
        ensures
            r == self@.len(),
    {
        self.schedules.len()
    }

    /// Copies of the stored schedules, in the order of the store.
    pub fn schedules(&self) -> (r: Vec<MessageSchedule>)
        ensures
            r@ == self@,
            unique_ids(self@),
    {
        proof {
            use_type_invariant(self);
        }
        let mut copies: Vec<MessageSchedule> = Vec::new();
        let mut i: usize = 0;
        while i < self.schedules.len()
            invariant
                i <= self.schedules.len(),
                copies@ == self.schedules@.take(i as int),
            decreases self.schedules.len() - i,
        {
            copies.push(self.schedules[i].clone());
            proof {
                assert(copies@ =~= self.schedules@.take(i + 1));
            }
            i += 1;
        }
        proof {
            assert(self.schedules@.take(self.schedules.len() as int) =~= self.schedules@);
        }
        copies
    }

    /// A copy of the stored schedule with the identifier.
    pub fn find(&self, id: u128) -> (r: Option<MessageSchedule>)
        ensures
            unique_ids(self@),
            match r {
                Some(found) => found.id == id && self@.contains(found),
                None => !holds_id(self@, id),
            },
    {
        proof {
            use_type_invariant(self);
        }
        let mut i: usize = 0;
        while i < self.schedules.len()
            invariant
                i <= self.schedules.len(),
                unique_ids(self.schedules@),
                forall|j: int| 0 <= j < i ==> self.schedules@[j].id != id,
            decreases self.schedules.len() - i,
        {
            if self.schedules[i].id == id {
                return Some(self.schedules[i].clone());
            }
            i += 1;
        }
        None
    }
}

impl Repository for RepositoryInMemory {
    /// Appends the schedule, unless its identifier is taken.
    fn store_schedule(&mut self, schedule: &MessageSchedule) -> (r: Result<(), RepositoryError>)
        ensures
            unique_ids(final(self)@),
            match r {
                Ok(()) => !holds_id(old(self)@, schedule.id) && final(self)@ == old(self)@.push(
                    *schedule,
                ),
                Err(e) => holds_id(old(self)@, schedule.id) && final(self)@ == old(self)@ && e
                    == RepositoryError::DuplicateId,
            },
    {
        proof {
            use_type_invariant(&*self);
        }
        let mut i: usize = 0;
        while i < self.schedules.len()
            invariant
                i <= self.schedules.len(),
                unique_ids(self.schedules@),
                forall|j: int| 0 <= j < i ==> self.schedules@[j].id != schedule.id,
            decreases self.schedules.len() - i,
        {
            if self.schedules[i].id == schedule.id {
                return Err(RepositoryError::DuplicateId);
            }
            i += 1;
        }
        let mut schedules: Vec<MessageSchedule> = Vec::new();
        std::mem::swap(&mut self.schedules, &mut schedules);
        schedules.push(schedule.clone());
        self.schedules = schedules;
        Ok(())
    }

    /// Claims, in the order of the store, the waiting schedules that are due at
    /// `before`, `batch_size` of them at most.
    fn poll_batch(&mut self, before: Timestamp, batch_size: u32) -> (r: Result<
        Vec<MessageSchedule>,
        RepositoryError,
    >)
        ensures
            unique_ids(final(self)@),
            r matches Ok(claimed) && claimed@ == claims(
                old(self)@,
                before,
                batch_size as nat,
                old(self)@.len(),
            ),
            final(self)@ == after_poll(old(self)@, before, batch_size as nat),
    {
        proof {
            use_type_invariant(&*self);
        }
        let ghost stored = self.schedules@;
        let ghost limit = batch_size as nat;
        let mut schedules: Vec<MessageSchedule> = Vec::new();
        std::mem::swap(&mut self.schedules, &mut schedules);
        let mut claimed: Vec<MessageSchedule> = Vec::new();
        let mut i: usize = 0;
        while i < schedules.len()
            invariant
                i <= schedules.len(),
                schedules@.len() == stored.len(),
                limit == batch_size as nat,
                claimed@ == claims(stored, before, limit, i as nat),
                claimed@.len() <= i,
                forall|j: int| 0 <= j < i ==> schedules@[j] == after_poll(stored, before, limit)[j],
                forall|j: int| i <= j < stored.len() ==> schedules@[j] == stored[j],
                forall|j: int| 0 <= j < stored.len() ==> schedules@[j].id == stored[j].id,
            decreases schedules.len() - i,
        {
            if claimed.len() < batch_size as usize && schedules[i].is_due(before) {
                let mut taken = schedules[i].clone();
                taken.state = State::Doing;
                claimed.push(taken.clone());
                schedules.set(i, taken);
            }
            i += 1;
        }
        assert(schedules@ =~= after_poll(stored, before, limit));
        self.schedules = schedules;
        Ok(claimed)
    }

    /// Replaces the claimed schedule of the same identifier. Without a claim the
    /// store stays as it is.
    fn save(&mut self, schedule: &MessageSchedule) -> (r: Result<(), RepositoryError>)
        ensures
            unique_ids(final(self)@),
            r is Ok,
            final(self)@ == after_save(old(self)@, *schedule),
    {
        proof {
            use_type_invariant(&*self);
        }
        let ghost stored = self.schedules@;
        let mut schedules: Vec<MessageSchedule> = Vec::new();
        std::mem::swap(&mut self.schedules, &mut schedules);
        let mut i: usize = 0;
        while i < schedules.len()
            invariant
                i <= schedules.len(),
                schedules@.len() == stored.len(),
                forall|j: int| 0 <= j < i ==> schedules@[j] == after_save(stored, *schedule)[j],
                forall|j: int| i <= j < stored.len() ==> schedules@[j] == stored[j],
                forall|j: int| 0 <= j < stored.len() ==> schedules@[j].id == stored[j].id,
            decreases schedules.len() - i,
        {
            if schedules[i].id == schedule.id {
                let claimed = match schedules[i].state {
                    State::Doing => true,
                    _ => false,
                };
                if claimed {
                    schedules.set(i, schedule.clone());
                }
            }
            i += 1;
        }
        assert(schedules@ =~= after_save(stored, *schedule));
        self.schedules = schedules;
        Ok(())
    }

    /// Gives up the claim on the schedule with the identifier.
    fn reschedule(&mut self, schedule_id: u128) -> (r: Result<(), RepositoryError>)
        ensures
            unique_ids(final(self)@),
            r is Ok,
            final(self)@ == after_reschedule(old(self)@, schedule_id),
    {
        proof {
            use_type_invariant(&*self);
        }
        let ghost stored = self.schedules@;
        let mut schedules: Vec<MessageSchedule> = Vec::new();
        std::mem::swap(&mut self.schedules, &mut schedules);
        let mut i: usize = 0;
        while i < schedules.len()
            invariant
                i <= schedules.len(),
                schedules@.len() == stored.len(),
                forall|j: int| 0 <= j < i ==> schedules@[j] == after_reschedule(stored, schedule_id)[j],
                forall|j: int| i <= j < stored.len() ==> schedules@[j] == stored[j],
                forall|j: int| 0 <= j < stored.len() ==> schedules@[j].id == stored[j].id,
            decreases schedules.len() - i,
        {
            if schedules[i].id == schedule_id {
                let claimed = match schedules[i].state {
                    State::Doing => true,
                    _ => false,
                };
                if claimed {
                    let mut released = schedules[i].clone();
                    released.state = State::Scheduled;
                    schedules.set(i, released);
                }
            }
            i += 1;
        }
        assert(schedules@ =~= after_reschedule(stored, schedule_id));
        self.schedules = schedules;
        Ok(())
    }
}

/// Where a claim comes from: the claim numbered `a` of a poll over the first `n`
/// stored schedules is the claimed copy of the schedule at the index returned,
/// which was waiting and due, and before which exactly `a` schedules were claimed.
pub proof fn lemma_claim_origin(
    store: Seq<MessageSchedule>,
    before: Timestamp,
    limit: nat,
    n: nat,
    a: int,
) -> (j: int)
    requires
        n <= store.len(),
        0 <= a < claims(store, before, limit, n).len(),
    ensures
        0 <= j < n,
        is_claimed(store, before, limit, j),
        claims(store, before, limit, j as nat).len() == a,
        claims(store, before, limit, n)[a] == claim(store[j]),
    decreases n,
{
    let earlier = claims(store, before, limit, (n - 1) as nat);
    if a < earlier.len() {
        lemma_claim_origin(store, before, limit, (n - 1) as nat, a)
    } else {
        n - 1
    }
}

/// A poll claims at most `limit` schedules, and no more than it has looked at.
pub proof fn lemma_claims_bounded(store: Seq<MessageSchedule>, before: Timestamp, limit: nat, n: nat)
    ensures
        claims(store, before, limit, n).len() <= limit,
        claims(store, before, limit, n).len() <= n,
    decreases n,
{
    if n > 0 {
        lemma_claims_bounded(store, before, limit, (n - 1) as nat);
    }
}

/// Every schedule that a poll hands out was waiting and due, is handed out as
/// claimed, and is `Doing` in the store afterwards.
pub proof fn lemma_claims_were_due(store: Seq<MessageSchedule>, before: Timestamp, limit: nat, a: int)
    requires
        0 <= a < claims(store, before, limit, store.len()).len(),
    ensures
        claims(store, before, limit, store.len())[a].state is Doing,
        exists|j: int|
            {
                &&& 0 <= j < store.len()
                &&& (#[trigger] store[j]).due(before)
                &&& claims(store, before, limit, store.len())[a] == claim(store[j])
                &&& after_poll(store, before, limit)[j] == claim(store[j])
            },
{
    let j = lemma_claim_origin(store, before, limit, store.len(), a);
    assert(store[j].due(before));
}

/// Claim exclusivity: a schedule that one poll has claimed is not handed out by
/// the next poll, whatever its instant and size, and no poll hands a schedule out
/// twice.
pub proof fn lemma_claims_exclusive(
    store: Seq<MessageSchedule>,
    before: Timestamp,
    limit: nat,
    again_before: Timestamp,
    again_limit: nat,
)
    requires
        unique_ids(store),
    ensures
        ({
            let first = claims(store, before, limit, store.len());
            let second = claims(
                after_poll(store, before, limit),
                again_before,
                again_limit,
                store.len(),
            );
            &&& forall|a: int, b: int|
                0 <= a < first.len() && 0 <= b < second.len() ==> first[a].id != second[b].id
            &&& forall|a: int, b: int| 0 <= a < b < first.len() ==> first[a].id != first[b].id
        }),
{
    let first = claims(store, before, limit, store.len());
    let held = after_poll(store, before, limit);
    let second = claims(held, again_before, again_limit, store.len());
    assert forall|a: int, b: int| 0 <= a < first.len() && 0 <= b < second.len() implies first[a].id
        != second[b].id by {
        let j = lemma_claim_origin(store, before, limit, store.len(), a);
        let k = lemma_claim_origin(held, again_before, again_limit, store.len(), b);
        assert(held[k].due(again_before));
        assert(held[j] == claim(store[j]));
        assert(j != k);
        assert(held[k].id == store[k].id);
    }
    assert forall|a: int, b: int| 0 <= a < b < first.len() implies first[a].id != first[b].id by {
        let j = lemma_claim_origin(store, before, limit, store.len(), a);
        let k = lemma_claim_origin(store, before, limit, store.len(), b);
        assert(j != k);
    }
}

/// Terminality: a completed schedule is never claimed, and no operation of the
/// repository changes it.
pub proof fn lemma_done_is_final(
    store: Seq<MessageSchedule>,
    i: int,
    before: Timestamp,
    limit: nat,
    saved: MessageSchedule,
    id: u128,
)
    requires
        0 <= i < store.len(),
        store[i].state is Done,
    ensures
        !is_claimed(store, before, limit, i),
        after_poll(store, before, limit)[i] == store[i],
        after_save(store, saved)[i] == store[i],
        after_reschedule(store, id)[i] == store[i],
        unique_ids(store) ==> forall|a: int|
            0 <= a < claims(store, before, limit, store.len()).len() ==> (#[trigger] claims(
                store,
                before,
                limit,
                store.len(),
            )[a]).id != store[i].id,
{
    if unique_ids(store) {
        let handed = claims(store, before, limit, store.len());
        assert forall|a: int| 0 <= a < handed.len() implies (#[trigger] handed[a]).id
            != store[i].id by {
            let j = lemma_claim_origin(store, before, limit, store.len(), a);
            assert(store[j].due(before));
            assert(j != i);
        }
    }
}

/// Only a save changes what a schedule holds: a poll and a reschedule leave the
/// identifier, the pattern, the message, the transmission count and `next` of every
/// stored schedule as they were.
pub proof fn lemma_claiming_keeps_progress(
    store: Seq<MessageSchedule>,
    i: int,
    before: Timestamp,
    limit: nat,
    id: u128,
)
    requires
        0 <= i < store.len(),
    ensures
        release(after_poll(store, before, limit)[i]) == release(store[i]),
        release(after_reschedule(store, id)[i]) == release(store[i]),
{
}

/// A save changes nothing but the claimed schedule of the saved identifier.
pub proof fn lemma_save_needs_claim(store: Seq<MessageSchedule>, saved: MessageSchedule, i: int)
    requires
        0 <= i < store.len(),
    ensures
        after_save(store, saved)[i] != store[i] ==> store[i].state is Doing && store[i].id
            == saved.id && after_save(store, saved)[i] == saved,
{
}

/// Derived next: where `next` is derived in every stored schedule, it still is
/// after a poll, after a reschedule, and after the save of a schedule in which it
/// is derived.
pub proof fn lemma_store_stays_derived(
    store: Seq<MessageSchedule>,
    before: Timestamp,
    limit: nat,
    saved: MessageSchedule,
    id: u128,
)
    requires
        forall|i: int| 0 <= i < store.len() ==> (#[trigger] store[i]).derived(),
        saved.derived(),
    ensures
        forall|i: int|
            0 <= i < store.len() ==> (#[trigger] after_poll(store, before, limit)[i]).derived(),
        forall|i: int| 0 <= i < store.len() ==> (#[trigger] after_save(store, saved)[i]).derived(),
        forall|i: int|
            0 <= i < store.len() ==> (#[trigger] after_reschedule(store, id)[i]).derived(),
{
    assert forall|i: int| 0 <= i < store.len() implies (#[trigger] after_poll(
        store,
        before,
        limit,
    )[i]).derived() by {
        assert(store[i].derived());
    }
    assert forall|i: int| 0 <= i < store.len() implies (#[trigger] after_save(
        store,
        saved,
    )[i]).derived() by {
        assert(store[i].derived());
    }
    assert forall|i: int| 0 <= i < store.len() implies (#[trigger] after_reschedule(
        store,
        id,
    )[i]).derived() by {
        assert(store[i].derived());
    }
}

/// A poll with room for the whole store claims every waiting schedule that is
/// due, and hands out its claimed copy.
pub proof fn lemma_due_is_claimed(store: Seq<MessageSchedule>, before: Timestamp, limit: nat, i: int)
    requires
        store.len() <= limit,
        0 <= i < store.len(),
        store[i].due(before),
    ensures
        is_claimed(store, before, limit, i),
        after_poll(store, before, limit)[i] == claim(store[i]),
        claims(store, before, limit, store.len()).contains(claim(store[i])),
{
    lemma_claims_bounded(store, before, limit, i as nat);
    lemma_claim_is_handed_out(store, before, limit, store.len(), i);
}

/// A claimed schedule is among the copies handed out.
pub proof fn lemma_claim_is_handed_out(
    store: Seq<MessageSchedule>,
    before: Timestamp,
    limit: nat,
    n: nat,
    i: int,
)
    requires
        0 <= i < n <= store.len(),
        is_claimed(store, before, limit, i),
    ensures
        claims(store, before, limit, n).contains(claim(store[i])),
    decreases n,
{
    let earlier = claims(store, before, limit, (n - 1) as nat);
    let all = claims(store, before, limit, n);
    if i == n - 1 {
        assert(all[earlier.len() as int] == claim(store[i]));
    } else {
        lemma_claim_is_handed_out(store, before, limit, (n - 1) as nat, i);
        let a = choose|a: int| 0 <= a < earlier.len() && earlier[a] == claim(store[i]);
        assert(all[a] == claim(store[i]));
    }
}

/// Giving up the claim on a schedule puts it back as it was before the poll: it
/// waits again, due at the same instant, with the same count.
pub proof fn lemma_reschedule_restores(
    store: Seq<MessageSchedule>,
    before: Timestamp,
    limit: nat,
    i: int,
)
    requires
        0 <= i < store.len(),
        is_claimed(store, before, limit, i),
    ensures
        after_reschedule(after_poll(store, before, limit), store[i].id)[i] == store[i],
{
}

} // verus!
