//! Properties of the registry that hold across operations and states.
//!
//! `Pallet::new` establishes `PalletView::wf` and every operation preserves
//! it, so the facts stated here of well-formed states hold of every state the
//! registry can reach.
use vstd::prelude::*;
use crate::types::{AccountId, Error, Origin, Student};
use crate::dispatch::{dispatched, Call};
use crate::owners::{has_entry, holds, lemma_owned_at, without, MAX_STUDENTS_PER_OWNER};
use crate::model::PalletView;

verus! {

/// Along any run of record creations (or receptions), the ids handed out are
/// strictly increasing, so no two are equal.
pub proof fn lemma_issued_ids_increase(
    states: Seq<PalletView>,
    who: Seq<AccountId>,
    records: Seq<Student>,
    ids: Seq<u32>,
)
    requires
        states.len() == ids.len() + 1,
        who.len() == ids.len(),
        records.len() == ids.len(),
        forall|n: int|
            0 <= n < ids.len() ==> #[trigger] states[n].inserted(
                states[n + 1],
                who[n],
                records[n],
                Ok(ids[n]),
            ),
    ensures
        forall|i: int, j: int| 0 <= i < j < ids.len() ==> ids[i] < ids[j],
{
    assert forall|i: int, j: int| 0 <= i < j < ids.len() implies ids[i] < ids[j] by {
        lemma_counter_grows(states, who, records, ids, i, j);
        assert(states[j].inserted(states[j + 1], who[j], records[j], Ok(ids[j])));
        assert(states[i].inserted(states[i + 1], who[i], records[i], Ok(ids[i])));
    }
}

proof fn lemma_counter_grows(
    states: Seq<PalletView>,
    who: Seq<AccountId>,
    records: Seq<Student>,
    ids: Seq<u32>,
    i: int,
    j: int,
)
    requires
        states.len() == ids.len() + 1,
        who.len() == ids.len(),
        records.len() == ids.len(),
        forall|n: int|
            0 <= n < ids.len() ==> #[trigger] states[n].inserted(
                states[n + 1],
                who[n],
                records[n],
                Ok(ids[n]),
            ),
        0 <= i < j <= ids.len(),
    ensures
        states[j].student_count >= states[i].student_count + (j - i),
    decreases j - i,
{
    let n = j - 1;
    assert(states[n].inserted(states[n + 1], who[n], records[n], Ok(ids[n])));
    if j - 1 > i {
        lemma_counter_grows(states, who, records, ids, i, j - 1);
    }
}

/// No record id is listed for two different accounts.
pub proof fn lemma_ownership_exclusive(v: PalletView, a: AccountId, b: AccountId, id: u32)
    requires
        v.wf(),
        v.owns(a, id),
        v.owns(b, id),
    ensures
        a == b,
{
    let i = lemma_entry_holding(v, a, id);
    let j = lemma_entry_holding(v, b, id);
    assert(holds(v.owners, i, id) && holds(v.owners, j, id));
}

/// The entry through which `who` owns `id`.
proof fn lemma_entry_holding(v: PalletView, who: AccountId, id: u32) -> (i: int)
    requires
        v.wf(),
        v.owns(who, id),
    ensures
        0 <= i < v.owners.len(),
        v.owners[i].owner == who,
        v.owned(who) == v.owners[i].ids@,
        holds(v.owners, i, id),
{
    assert(has_entry(v.owners, who));
    let i = choose|i: int| 0 <= i < v.owners.len() && v.owners[i].owner == who;
    lemma_owned_at(v.owners, i);
    i
}

/// Every id in the ownership index has a live record.
pub proof fn lemma_no_dangling(v: PalletView, who: AccountId, id: u32)
    requires
        v.wf(),
        v.owns(who, id),
    ensures
        v.students.contains_key(id),
{
    let i = lemma_entry_holding(v, who, id);
}

/// A transfer that fails leaves the record store, the ownership index and
/// everything else exactly as they were.
pub proof fn lemma_failed_transfer_changes_nothing(
    v0: PalletView,
    v1: PalletView,
    who: AccountId,
    id: u32,
    dest_para_id: u32,
    r: Result<(), Error>,
)
    requires
        v0.transferred(v1, who, id, dest_para_id, r),
        r is Err,
    ensures
        v1.students == v0.students,
        v1.owners == v0.owners,
        v1 == v0,
{
}

/// After a successful transfer the record is gone from the store and from
/// the sender's list.
pub proof fn lemma_transfer_removes_record(
    v0: PalletView,
    v1: PalletView,
    who: AccountId,
    id: u32,
    dest_para_id: u32,
)
    requires
        v0.wf(),
        v0.transferred(v1, who, id, dest_para_id, Ok(())),
    ensures
        !v1.students.contains_key(id),
        !v1.owned(who).contains(id),
{
    assert(v1.owned(who) == without(v0.owned(who), id));
    let i = lemma_entry_holding(v0, who, id);
    lemma_without_drops(v0.owned(who), id);
}

/// Storing a record for an account that already holds the most records
/// allowed fails with `MaxStudentsReached` and changes nothing.
pub proof fn lemma_capacity_enforced(
    v0: PalletView,
    v1: PalletView,
    who: AccountId,
    s: Student,
    r: Result<u32, Error>,
)
    requires
        v0.inserted(v1, who, s, r),
        v0.owned(who).len() >= MAX_STUDENTS_PER_OWNER,
    ensures
        r == Err::<u32, Error>(Error::MaxStudentsReached),
        v1 == v0,
{
}

/// Taking `id` out of a list without repeats leaves none of it.
proof fn lemma_without_drops(s: Seq<u32>, id: u32)
    requires
        s.no_duplicates(),
    ensures
        !without(s, id).contains(id),
{
    if s.contains(id) {
        let q = s.index_of(id);
        if s.remove(q).contains(id) {
            let a = choose|a: int| 0 <= a < s.remove(q).len() && s.remove(q)[a] == id;
            if a < q {
                assert(s[a] == id);
            } else {
                assert(s[a + 1] == id);
            }
        }
    }
}

/// No operation moves the id counter back: each leaves it where it was or
/// moves it up.
pub proof fn lemma_counter_never_decreases(
    v0: PalletView,
    v1: PalletView,
    who: AccountId,
    id: u32,
    s: Student,
    dest_para_id: u32,
    issued: Result<u32, Error>,
    r: Result<(), Error>,
    origin: Origin,
    call: Call,
)
    ensures
        v0.inserted(v1, who, s, issued) ==> v0.student_count <= v1.student_count,
        v0.updated(v1, who, id, s, r) ==> v0.student_count <= v1.student_count,
        v0.graduated(v1, who, id, r) ==> v0.student_count <= v1.student_count,
        v0.deleted(v1, who, id, r) ==> v0.student_count <= v1.student_count,
        v0.admin_deleted(v1, id, r) ==> v0.student_count <= v1.student_count,
        v0.transferred(v1, who, id, dest_para_id, r) ==> v0.student_count <= v1.student_count,
        dispatched(v0, v1, origin, call, r) ==> v0.student_count <= v1.student_count,
{
}

proof fn lemma_chain_grows(mid: Seq<PalletView>, n: int)
    requires
        0 <= n < mid.len(),
        forall|k: int|
            0 <= k < mid.len() - 1 ==> #[trigger] mid[k].student_count <= mid[k + 1].student_count,
    ensures
        mid[0].student_count <= mid[n].student_count,
    decreases n,
{
    if n > 0 {
        lemma_chain_grows(mid, n - 1);
        let k = n - 1;
        assert(mid[k].student_count <= mid[k + 1].student_count);
    }
}

/// An id once issued is never issued again. After an insertion that issued
/// `first`, and any operations after it (each of which keeps the counter
/// from going back), a later insertion issues an id above `first` that no
/// record and no account holds.
pub proof fn lemma_ids_never_reissued(
    v0: PalletView,
    mid: Seq<PalletView>,
    v_end: PalletView,
    first: u32,
    who1: AccountId,
    s1: Student,
    later: u32,
    who2: AccountId,
    s2: Student,
)
    requires
        mid.len() >= 1,
        v0.inserted(mid[0], who1, s1, Ok(first)),
        forall|k: int|
            0 <= k < mid.len() - 1 ==> #[trigger] mid[k].student_count <= mid[k + 1].student_count,
        mid.last().wf(),
        mid.last().inserted(v_end, who2, s2, Ok(later)),
    ensures
        first < later,
        !mid.last().students.contains_key(later),
        forall|w: AccountId| !(#[trigger] mid.last().owned(w)).contains(later),
{
    lemma_chain_grows(mid, mid.len() - 1);
    assert forall|w: AccountId| !(#[trigger] mid.last().owned(w)).contains(later) by {
        if mid.last().owned(w).contains(later) {
            lemma_no_dangling(mid.last(), w, later);
        }
    }
}

/// The administrator's deletion of a record that `owner` holds succeeds; it
/// removes the record, takes the id out of `owner`'s list, and leaves every
/// other record, every other account's list and the counter as they were.
pub proof fn lemma_admin_delete_removes(
    v0: PalletView,
    v1: PalletView,
    owner: AccountId,
    id: u32,
    r: Result<(), Error>,
)
    requires
        v0.wf(),
        v0.owns(owner, id),
        v0.admin_deleted(v1, id, r),
    ensures
        r is Ok,
        v1.students == v0.students.remove(id),
        !v1.owned(owner).contains(id),
        v1.owned(owner) == v0.owned(owner).remove(v0.owned(owner).index_of(id)),
        forall|w: AccountId| w != owner ==> #[trigger] v1.owned(w) == v0.owned(w),
        v1.student_count == v0.student_count,
{
    lemma_no_dangling(v0, owner, id);
    let i = lemma_entry_holding(v0, owner, id);
    lemma_without_drops(v0.owned(owner), id);
    assert(v1.owned(owner) == without(v0.owned(owner), id));
    assert forall|w: AccountId| w != owner implies #[trigger] v1.owned(w) == v0.owned(w) by {
        assert(v1.owned(w) == without(v0.owned(w), id));
        if v0.owned(w).contains(id) {
            lemma_ownership_exclusive(v0, owner, w, id);
        }
    }
}

} // verus!
