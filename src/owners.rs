//! The ownership index as a sequence of entries, one per account, and the
//! facts about it that the registry's operations rely on.
use vstd::prelude::*;
use crate::types::AccountId;

verus! {

/// The largest number of records one account may own.
pub const MAX_STUDENTS_PER_OWNER: usize = 100;

/// The record ids owned by one account, in the order it acquired them.
#[derive(Clone, Debug, PartialEq, Eq)]
pub struct OwnerEntry {
    pub owner: AccountId,
    pub ids: Vec<u32>,
}

/// No account has two entries.
pub open spec fn owners_unique(owners: Seq<OwnerEntry>) -> bool {
    forall|i: int, j: int|
        0 <= i < owners.len() && 0 <= j < owners.len() && i != j ==> #[trigger] owners[i].owner
            != #[trigger] owners[j].owner
}

/// Entry `i` lists `id`.
pub open spec fn holds(owners: Seq<OwnerEntry>, i: int, id: u32) -> bool {
    0 <= i < owners.len() && owners[i].ids@.contains(id)
}

pub open spec fn has_entry(owners: Seq<OwnerEntry>, who: AccountId) -> bool {
    exists|i: int| 0 <= i < owners.len() && owners[i].owner == who
}

/// The ids that `who` owns; an account without an entry owns none.
pub open spec fn owned_in(owners: Seq<OwnerEntry>, who: AccountId) -> Seq<u32> {
    if has_entry(owners, who) {
        owners[choose|i: int| 0 <= i < owners.len() && owners[i].owner == who].ids@
    } else {
        Seq::empty()
    }
}

/// `s` with the occurrence of `id` taken out, if it holds one; the other ids
/// keep their order.
pub open spec fn without(s: Seq<u32>, id: u32) -> Seq<u32> {
    if s.contains(id) {
        s.remove(s.index_of(id))
    } else {
        s
    }
}

/// The shape every reachable index has: one entry per account, each within
/// the capacity and free of repeats, and no id listed by two entries.
pub open spec fn index_wf(owners: Seq<OwnerEntry>) -> bool {
    &&& owners_unique(owners)
    &&& forall|i: int|
        0 <= i < owners.len() ==> (#[trigger] owners[i]).ids@.len() <= MAX_STUDENTS_PER_OWNER
            && owners[i].ids@.no_duplicates()
    &&& forall|i: int, j: int, id: u32|
        #[trigger] holds(owners, i, id) && #[trigger] holds(owners, j, id) ==> i == j
}

pub proof fn lemma_owned_at(owners: Seq<OwnerEntry>, i: int)
    requires
        owners_unique(owners),
        0 <= i < owners.len(),
    ensures
        owned_in(owners, owners[i].owner) == owners[i].ids@,
{
    let who = owners[i].owner;
    assert(has_entry(owners, who));
    let c = choose|c: int| 0 <= c < owners.len() && owners[c].owner == who;
    assert(c == i);
}

/// Changing the ids of entry `k` alone leaves every other account's list as
/// it was.
pub proof fn lemma_owned_update(
    owners0: Seq<OwnerEntry>,
    owners1: Seq<OwnerEntry>,
    k: int,
    w: AccountId,
)
    requires
        owners_unique(owners0),
        0 <= k < owners0.len(),
        owners1.len() == owners0.len(),
        owners1[k].owner == owners0[k].owner,
        forall|i: int| 0 <= i < owners0.len() && i != k ==> owners1[i] == owners0[i],
    ensures
        owners_unique(owners1),
        w == owners0[k].owner ==> owned_in(owners1, w) == owners1[k].ids@,
        w != owners0[k].owner ==> owned_in(owners1, w) == owned_in(owners0, w),
{
    assert forall|i: int, j: int|
        0 <= i < owners1.len() && 0 <= j < owners1.len() && i != j implies
            #[trigger] owners1[i].owner != #[trigger] owners1[j].owner by {
        assert(owners0[i].owner != owners0[j].owner);
    }
    if w == owners0[k].owner {
        lemma_owned_at(owners1, k);
    } else if has_entry(owners0, w) {
        let i = choose|i: int| 0 <= i < owners0.len() && owners0[i].owner == w;
        lemma_owned_at(owners0, i);
        lemma_owned_at(owners1, i);
    } else {
        assert(!has_entry(owners1, w)) by {
            if has_entry(owners1, w) {
                let i = choose|i: int| 0 <= i < owners1.len() && owners1[i].owner == w;
                assert(owners0[i].owner == w);
            }
        }
    }
}

/// Appending an entry for a new account leaves every other account's list as
/// it was.
pub proof fn lemma_owned_push(owners0: Seq<OwnerEntry>, e: OwnerEntry, w: AccountId)
    requires
        owners_unique(owners0),
        !has_entry(owners0, e.owner),
    ensures
        owners_unique(owners0.push(e)),
        w == e.owner ==> owned_in(owners0.push(e), w) == e.ids@,
        w != e.owner ==> owned_in(owners0.push(e), w) == owned_in(owners0, w),
{
    let owners1 = owners0.push(e);
    assert forall|i: int, j: int|
        0 <= i < owners1.len() && 0 <= j < owners1.len() && i != j implies
            #[trigger] owners1[i].owner != #[trigger] owners1[j].owner by {
        if i < owners0.len() && j < owners0.len() {
            assert(owners0[i].owner != owners0[j].owner);
        } else if i < owners0.len() {
            assert(owners1[i] == owners0[i]);
        } else {
            assert(owners1[j] == owners0[j]);
        }
    }
    if w == e.owner {
        lemma_owned_at(owners1, owners0.len() as int);
    } else if has_entry(owners0, w) {
        let i = choose|i: int| 0 <= i < owners0.len() && owners0[i].owner == w;
        lemma_owned_at(owners0, i);
        assert(owners1[i] == owners0[i]);
        lemma_owned_at(owners1, i);
    } else {
        assert(!has_entry(owners1, w)) by {
            if has_entry(owners1, w) {
                let i = choose|i: int| 0 <= i < owners1.len() && owners1[i].owner == w;
                assert(owners1[i] == owners0[i]);
            }
        }
    }
}

/// In a well-formed index an id that no entry lists is in no account's list.
pub proof fn lemma_not_held(owners: Seq<OwnerEntry>, id: u32, w: AccountId)
    requires
        owners_unique(owners),
        forall|i: int| !holds(owners, i, id),
    ensures
        !owned_in(owners, w).contains(id),
{
    if has_entry(owners, w) {
        let i = choose|i: int| 0 <= i < owners.len() && owners[i].owner == w;
        lemma_owned_at(owners, i);
        assert(!holds(owners, i, id));
    }
}

/// With no repeats, the position of `id` is the one `without` takes out.
pub proof fn lemma_without_at(s: Seq<u32>, p: int, id: u32)
    requires
        s.no_duplicates(),
        0 <= p < s.len(),
        s[p] == id,
    ensures
        without(s, id) == s.remove(p),
{
    assert(s.contains(id));
    let q = s.index_of(id);
    assert(0 <= q < s.len() && s[q] == id);
    assert(q == p);
}

/// Searches `ids` for `id`.
pub fn position_of(ids: &Vec<u32>, id: u32) -> (r: Option<usize>)
    ensures
        match r {
            Some(p) => p < ids@.len() && ids@[p as int] == id,
            None => !ids@.contains(id),
        },
{
    let mut p: usize = 0;
    while p < ids.len()
        invariant
            p <= ids@.len(),
            forall|q: int| 0 <= q < p ==> ids@[q] != id,
        decreases ids@.len() - p,
    {
        if ids[p] == id {
            return Some(p);
        }
        p = p + 1;
    }
    None
}

/// Searches the index for the entry of `who`.
pub fn entry_of(owners: &Vec<OwnerEntry>, who: AccountId) -> (r: Option<usize>)
    ensures
        match r {
            Some(k) => k < owners@.len() && owners@[k as int].owner == who,
            None => !has_entry(owners@, who),
        },
{
    let mut k: usize = 0;
    while k < owners.len()
        invariant
            k <= owners@.len(),
            forall|q: int| 0 <= q < k ==> owners@[q].owner != who,
        decreases owners@.len() - k,
    {
        if owners[k].owner == who {
            return Some(k);
        }
        k = k + 1;
    }
    None
}

} // verus!
