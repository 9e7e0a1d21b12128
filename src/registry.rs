//! The registry itself: the record store, the ownership index, and the
//! operations that change them.
use vstd::prelude::*;
use std::collections::HashMap;
use crate::types::{
    AccountId, Config, Error, Event, Gender, Location, Origin, SendError, Student, XcmMessage,
};
use crate::owners::{
    entry_of, has_entry, holds, lemma_not_held, lemma_owned_at, lemma_owned_push,
    lemma_owned_update, lemma_without_at, position_of, without, OwnerEntry, MAX_STUDENTS_PER_OWNER,
};
use crate::encode::{transfer_message, transfer_message_spec};
use crate::model::PalletView;

verus! {

broadcast use vstd::std_specs::hash::group_hash_axioms;

/// The message transport that carries a transfer to its destination chain.
/// The runtime supplies it; whether it accepts a message is its own affair.
pub trait XcmSender {
    /// Queues `message` for delivery to `destination`.
    fn send_xcm(&mut self, destination: Location, message: XcmMessage) -> (r: Result<
        (),
        SendError,
    >);
}

/// The whole state of the registry on one chain.
pub struct Pallet {
    config: Config,
    student_count: u32,
    students: HashMap<u32, Student>,
    students_by_owner: Vec<OwnerEntry>,
    events: Vec<Event>,
}

impl Pallet {
    pub closed spec fn view(&self) -> PalletView {
        PalletView {
            config: self.config,
            student_count: self.student_count,
            students: self.students@,
            owners: self.students_by_owner@,
            events: self.events@,
        }
    }

    /// An empty registry.
    pub fn new(config: Config) -> (r: Pallet)
        ensures
            r.view().wf(),
            r.view().config == config,
            r.view().student_count == 0,
            r.view().students == Map::<u32, Student>::empty(),
            r.view().owners == Seq::<OwnerEntry>::empty(),
            r.view().events == Seq::<Event>::empty(),
    {
        Pallet {
            config,
            student_count: 0,
            students: HashMap::new(),
            students_by_owner: Vec::new(),
            events: Vec::new(),
        }
    }

    /// Stores `s` under a fresh id for `who`; the caller has checked that
    /// nothing refuses it.
    fn insert_new(&mut self, who: AccountId, s: Student) -> (id: u32)
        requires
            old(self).view().wf(),
            old(self).view().insert_error(who, s) is None,
        ensures
            final(self).view().wf(),
            id == old(self).view().student_count,
            final(self).view().student_count == id + 1,
            final(self).view().config == old(self).view().config,
            !old(self).view().students.contains_key(id),
            final(self).view().students == old(self).view().students.insert(id, s),
            old(self).view().index_added(final(self).view(), who, id),
            final(self).view().events == old(self).view().events,
    {
        let ghost v0 = self.view();
        let id = self.student_count;
        self.student_count = id + 1;
        self.students.insert(id, s);
        assert(forall|i: int| !holds(v0.owners, i, id));
        match entry_of(&self.students_by_owner, who) {
            Some(k) => {
                let OwnerEntry { owner, mut ids } = self.students_by_owner.remove(k);
                proof {
                    lemma_owned_at(v0.owners, k as int);
                }
                ids.push(id);
                self.students_by_owner.insert(k, OwnerEntry { owner, ids });
                proof {
                    let o1 = self.students_by_owner@;
                    let kk = k as int;
                    assert forall|i: int| 0 <= i < v0.owners.len() && i != kk implies o1[i]
                        == v0.owners[i] by {}
                    assert forall|w: AccountId| #[trigger]
                        self.view().owned(w) == if w == who {
                            v0.owned(w).push(id)
                        } else {
                            v0.owned(w)
                        } by {
                        lemma_owned_update(v0.owners, o1, kk, w);
                    }
                    lemma_owned_update(v0.owners, o1, kk, who);
                    assert forall|i: int, j: int, x: u32|
                        #[trigger] holds(o1, i, x) && #[trigger] holds(o1, j, x) implies i
                        == j by {
                        if i != kk && j != kk {
                            assert(holds(v0.owners, i, x) && holds(v0.owners, j, x));
                        } else if i == kk && j == kk {
                        } else {
                            let a = if i == kk { j } else { i };
                            assert(holds(v0.owners, a, x));
                            if x == id {
                            } else {
                                assert(o1[kk].ids@ == v0.owners[kk].ids@.push(id));
                                assert(holds(v0.owners, kk, x)) by {
                                    let p = choose|p: int|
                                        0 <= p < o1[kk].ids@.len() && o1[kk].ids@[p] == x;
                                    assert(v0.owners[kk].ids@[p] == x);
                                }
                            }
                        }
                    }
                    assert forall|i: int, x: u32| #[trigger]
                        holds(o1, i, x) implies self.view().students.contains_key(x) by {
                        if i != kk {
                            assert(holds(v0.owners, i, x));
                        } else if x != id {
                            let p = choose|p: int|
                                0 <= p < o1[kk].ids@.len() && o1[kk].ids@[p] == x;
                            assert(v0.owners[kk].ids@[p] == x);
                            assert(holds(v0.owners, kk, x));
                        }
                    }
                    assert(o1[kk].ids@.no_duplicates()) by {
                        assert(!v0.owners[kk].ids@.contains(id)) by {
                            assert(!holds(v0.owners, kk, id));
                        }
                    }
                    assert(self.view().wf());
                }
            },
            None => {
                let mut ids: Vec<u32> = Vec::new();
                ids.push(id);
                let e = OwnerEntry { owner: who, ids };
                self.students_by_owner.push(e);
                proof {
                    let o1 = self.students_by_owner@;
                    assert(o1 == v0.owners.push(e));
                    assert forall|w: AccountId| #[trigger]
                        self.view().owned(w) == if w == who {
                            v0.owned(w).push(id)
                        } else {
                            v0.owned(w)
                        } by {
                        lemma_owned_push(v0.owners, e, w);
                        if w == who {
                            assert(e.ids@ =~= Seq::<u32>::empty().push(id));
                        }
                    }
                    lemma_owned_push(v0.owners, e, who);
                    assert forall|i: int, j: int, x: u32|
                        #[trigger] holds(o1, i, x) && #[trigger] holds(o1, j, x) implies i
                        == j by {
                        let n = v0.owners.len() as int;
                        if i != n && j != n {
                            assert(holds(v0.owners, i, x) && holds(v0.owners, j, x));
                        } else if i != n {
                            assert(o1[n].ids@ =~= seq![id]);
                            assert(holds(v0.owners, i, x));
                        } else if j != n {
                            assert(o1[n].ids@ =~= seq![id]);
                            assert(holds(v0.owners, j, x));
                        }
                    }
                    assert forall|i: int, x: u32| #[trigger]
                        holds(o1, i, x) implies self.view().students.contains_key(x) by {
                        if i != v0.owners.len() {
                            assert(holds(v0.owners, i, x));
                        } else {
                            assert(o1[i].ids@ =~= seq![id]);
                        }
                    }
                    assert(self.view().wf());
                }
            },
        }
        id
    }

    /// How many records `who` owns.
    fn owned_count(&self, who: AccountId) -> (n: usize)
        requires
            self.view().wf(),
        ensures
            n == self.view().owned(who).len(),
    {
        match entry_of(&self.students_by_owner, who) {
            Some(k) => {
                proof {
                    lemma_owned_at(self.view().owners, k as int);
                }
                self.students_by_owner[k].ids.len()
            },
            None => 0,
        }
    }

    /// Why storing `s` for `who` would be refused, if it would.
    fn check_insert(&self, who: AccountId, s: &Student) -> (r: Option<Error>)
        requires
            self.view().wf(),
        ensures
            r == self.view().insert_error(who, *s),
    {
        if self.owned_count(who) >= MAX_STUDENTS_PER_OWNER {
            Some(Error::MaxStudentsReached)
        } else if s.name.len() > self.config.max_name_len as usize {
            Some(Error::NameTooLong)
        } else if s.surname.len() > self.config.max_surname_len as usize {
            Some(Error::SurnameTooLong)
        } else if self.student_count == u32::MAX {
            Some(Error::StorageOverflow)
        } else {
            None
        }
    }

    /// Creates a record for `who`, not yet graduated, under a fresh id, and
    /// emits `StudentCreated`.
    pub fn create_student(
        &mut self,
        who: AccountId,
        name: Vec<u8>,
        surname: Vec<u8>,
        age: u32,
        gender: Gender,
    ) -> (r: Result<u32, Error>)
        requires
            old(self).view().wf(),
        ensures
            final(self).view().wf(),
            old(self).view().inserted(
                final(self).view(),
                who,
                (Student { name, surname, age, gender, has_graduated: false }),
                r,
            ),
            r is Ok ==> final(self).view().events == old(self).view().events.push(
                (Event::StudentCreated { who, student_id: r->Ok_0 }),
            ),
    {
        let s = Student { name, surname, age, gender, has_graduated: false };
        match self.check_insert(who, &s) {
            Some(e) => Err(e),
            None => {
                let id = self.insert_new(who, s);
                let ghost v1 = self.view();
                self.events.push(Event::StudentCreated { who, student_id: id });
                proof {
                    let v0 = old(self).view();
                    assert forall|w: AccountId| #[trigger] self.view().owned(w) == v1.owned(w) by {}
                    assert(v0.index_added(self.view(), who, id));
                }
                Ok(id)
            },
        }
    }

    /// Stores a record that arrived from another chain under a fresh id for
    /// `new_owner`, and emits `StudentReceived`. A record refused here is
    /// dropped.
    pub fn receive_student(&mut self, new_owner: AccountId, student: Student) -> (r: Result<
        u32,
        Error,
    >)
        requires
            old(self).view().wf(),
        ensures
            final(self).view().wf(),
            old(self).view().inserted(final(self).view(), new_owner, student, r),
            r is Ok ==> final(self).view().events == old(self).view().events.push(
                (Event::StudentReceived { student_id: r->Ok_0 }),
            ),
    {
        match self.check_insert(new_owner, &student) {
            Some(e) => Err(e),
            None => {
                let id = self.insert_new(new_owner, student);
                let ghost v1 = self.view();
                self.events.push(Event::StudentReceived { student_id: id });
                proof {
                    let v0 = old(self).view();
                    assert forall|w: AccountId| #[trigger] self.view().owned(w) == v1.owned(w) by {}
                    assert(v0.index_added(self.view(), new_owner, id));
                }
                Ok(id)
            },
        }
    }

    /// Takes record `id` out of the store and out of entry `k`, where it sits
    /// at position `p`.
    fn remove_record(&mut self, k: usize, p: usize, id: u32)
        requires
            old(self).view().wf(),
            k < old(self).view().owners.len(),
            p < old(self).view().owners[k as int].ids@.len(),
            old(self).view().owners[k as int].ids@[p as int] == id,
        ensures
            final(self).view().wf(),
            final(self).view().config == old(self).view().config,
            final(self).view().student_count == old(self).view().student_count,
            final(self).view().students == old(self).view().students.remove(id),
            old(self).view().index_removed(final(self).view(), id),
            final(self).view().events == old(self).view().events,
    {
        let ghost v0 = self.view();
        let ghost kk = k as int;
        let OwnerEntry { owner, mut ids } = self.students_by_owner.remove(k);
        ids.remove(p);
        self.students_by_owner.insert(k, OwnerEntry { owner, ids });
        self.students.remove(&id);
        proof {
            let o0 = v0.owners;
            let o1 = self.students_by_owner@;
            let ids0 = o0[kk].ids@;
            assert(o1[kk].ids@ == ids0.remove(p as int));
            assert(holds(o0, kk, id));
            assert forall|i: int| 0 <= i < o0.len() && i != kk implies o1[i] == o0[i] by {}
            assert forall|i: int, x: u32| #[trigger] holds(o1, i, x) implies holds(o0, i, x)
                && x != id by {
                if i == kk {
                    let a = choose|a: int| 0 <= a < o1[kk].ids@.len() && o1[kk].ids@[a] == x;
                    if a < p {
                        assert(ids0[a] == x);
                    } else {
                        assert(ids0[a + 1] == x);
                    }
                } else {
                    assert(o1[i] == o0[i]);
                    if x == id {
                        assert(holds(o0, i, id));
                    }
                }
            }
            assert(o1[kk].ids@.no_duplicates()) by {
                assert forall|a: int, b: int|
                    0 <= a < o1[kk].ids@.len() && 0 <= b < o1[kk].ids@.len() && a != b implies
                    o1[kk].ids@[a] != o1[kk].ids@[b] by {
                    let a0 = if a < p { a } else { a + 1 };
                    let b0 = if b < p { b } else { b + 1 };
                    assert(ids0[a0] != ids0[b0]);
                }
            }
            assert forall|w: AccountId| #[trigger]
                self.view().owned(w) == without(v0.owned(w), id) by {
                lemma_owned_update(o0, o1, kk, w);
                if w == owner {
                    lemma_owned_at(o0, kk);
                    lemma_without_at(ids0, p as int, id);
                } else if has_entry(o0, w) {
                    let i = choose|i: int| 0 <= i < o0.len() && o0[i].owner == w;
                    lemma_owned_at(o0, i);
                    assert(!holds(o0, i, id));
                } else {
                }
            }
            lemma_owned_update(o0, o1, kk, owner);
            assert(self.view().wf());
        }
    }

    /// Where `who` lists `id` in the index, if it does.
    fn find_owned(&self, who: AccountId, id: u32) -> (r: Option<(usize, usize)>)
        requires
            self.view().wf(),
        ensures
            match r {
                Some((k, p)) => {
                    &&& k < self.view().owners.len()
                    &&& self.view().owners[k as int].owner == who
                    &&& p < self.view().owners[k as int].ids@.len()
                    &&& self.view().owners[k as int].ids@[p as int] == id
                    &&& self.view().owns(who, id)
                },
                None => !self.view().owns(who, id),
            },
    {
        match entry_of(&self.students_by_owner, who) {
            Some(k) => {
                proof {
                    lemma_owned_at(self.view().owners, k as int);
                }
                match position_of(&self.students_by_owner[k].ids, id) {
                    Some(p) => Some((k, p)),
                    None => None,
                }
            },
            None => None,
        }
    }

    /// Emits `ev`; nothing else changes.
    fn deposit_event(&mut self, ev: Event)
        ensures
            final(self).view().events == old(self).view().events.push(ev),
            final(self).view().config == old(self).view().config,
            final(self).view().student_count == old(self).view().student_count,
            final(self).view().students == old(self).view().students,
            final(self).view().owners == old(self).view().owners,
            forall|w: AccountId| #[trigger]
                final(self).view().owned(w) == old(self).view().owned(w),
    {
        self.events.push(ev);
    }

    /// Deletes record `student_id`. A signed origin must own it, and gets
    /// `StudentDeleted`; the administrator deletes it whoever owns it, as
    /// [`Pallet::admin_delete_student`] does.
    pub fn delete_student(&mut self, origin: Origin, student_id: u32) -> (r: Result<(), Error>)
        requires
            old(self).view().wf(),
        ensures
            final(self).view().wf(),
            match origin {
                Origin::Signed(who) => old(self).view().deleted(
                    final(self).view(),
                    who,
                    student_id,
                    r,
                ),
                Origin::Root => old(self).view().admin_deleted(final(self).view(), student_id, r),
            },
    {
        let who = match origin {
            Origin::Signed(who) => who,
            Origin::Root => {
                return self.admin_delete_student(student_id);
            },
        };
        if !self.students.contains_key(&student_id) {
            return Err(Error::StudentNotFound);
        }
        match self.find_owned(who, student_id) {
            None => Err(Error::NotStudentOwner),
            Some((k, p)) => {
                self.remove_record(k, p, student_id);
                self.deposit_event(Event::StudentDeleted { who, student_id });
                Ok(())
            },
        }
    }

    /// Deletes record `student_id` whoever owns it, takes it out of the first
    /// entry of the index that lists it, and emits `StudentDeletedByAdmin`.
    /// The caller has been checked to be the chain's administrator.
    pub fn admin_delete_student(&mut self, student_id: u32) -> (r: Result<(), Error>)
        requires
            old(self).view().wf(),
        ensures
            final(self).view().wf(),
            old(self).view().admin_deleted(final(self).view(), student_id, r),
    {
        if !self.students.contains_key(&student_id) {
            return Err(Error::StudentNotFound);
        }
        let mut k: usize = 0;
        while k < self.students_by_owner.len()
            invariant
                self.view() == old(self).view(),
                self.view().wf(),
                self.view().students.contains_key(student_id),
                k <= self.view().owners.len(),
                forall|i: int| 0 <= i < k ==> !holds(self.view().owners, i, student_id),
            decreases self.view().owners.len() - k,
        {
            match position_of(&self.students_by_owner[k].ids, student_id) {
                Some(p) => {
                    self.remove_record(k, p, student_id);
                    self.deposit_event(Event::StudentDeletedByAdmin { student_id });
                    return Ok(());
                },
                None => {},
            }
            k = k + 1;
        }
        let ghost v0 = self.view();
        self.students.remove(&student_id);
        proof {
            assert forall|w: AccountId| #[trigger]
                self.view().owned(w) == without(v0.owned(w), student_id) by {
                lemma_not_held(v0.owners, student_id, w);
            }
            assert forall|i: int, x: u32| #[trigger]
                holds(self.view().owners, i, x) implies self.view().students.contains_key(x) by {
                assert(holds(v0.owners, i, x));
            }
        }
        self.deposit_event(Event::StudentDeletedByAdmin { student_id });
        Ok(())
    }

    /// Replaces the fields of record `student_id`, which `who` must own,
    /// keeping its graduation flag, and emits `StudentUpdated`.
    pub fn update_student(
        &mut self,
        who: AccountId,
        student_id: u32,
        name: Vec<u8>,
        surname: Vec<u8>,
        age: u32,
        gender: Gender,
    ) -> (r: Result<(), Error>)
        requires
            old(self).view().wf(),
        ensures
            final(self).view().wf(),
            old(self).view().updated(
                final(self).view(),
                who,
                student_id,
                (Student {
                    name,
                    surname,
                    age,
                    gender,
                    has_graduated: old(self).view().students[student_id].has_graduated,
                }),
                r,
            ),
    {
        let has_graduated = match self.students.get(&student_id) {
            Some(old_record) => old_record.has_graduated,
            None => {
                return Err(Error::StudentNotFound);
            },
        };
        if self.find_owned(who, student_id).is_none() {
            return Err(Error::NotStudentOwner);
        }
        if name.len() > self.config.max_name_len as usize {
            return Err(Error::NameTooLong);
        }
        if surname.len() > self.config.max_surname_len as usize {
            return Err(Error::SurnameTooLong);
        }
        let ghost v0 = self.view();
        self.students.insert(student_id, Student { name, surname, age, gender, has_graduated });
        proof {
            assert forall|i: int, x: u32| #[trigger]
                holds(self.view().owners, i, x) implies self.view().students.contains_key(x) by {
                assert(holds(v0.owners, i, x));
            }
        }
        self.deposit_event(Event::StudentUpdated { who, student_id });
        Ok(())
    }

    /// Marks record `student_id`, which `who` must own, as graduated.
    pub fn graduate_student(&mut self, who: AccountId, student_id: u32) -> (r: Result<(), Error>)
        requires
            old(self).view().wf(),
        ensures
            final(self).view().wf(),
            old(self).view().graduated(final(self).view(), who, student_id, r),
    {
        if !self.students.contains_key(&student_id) {
            return Err(Error::StudentNotFound);
        }
        if self.find_owned(who, student_id).is_none() {
            return Err(Error::NotStudentOwner);
        }
        let ghost v0 = self.view();
        match self.students.remove(&student_id) {
            Some(record) => {
                if record.has_graduated {
                    self.students.insert(student_id, record);
                    proof {
                        assert(self.view().students =~= v0.students);
                    }
                    return Err(Error::AlreadyGraduated);
                }
                let Student { name, surname, age, gender, has_graduated: _ } = record;
                self.students.insert(
                    student_id,
                    Student { name, surname, age, gender, has_graduated: true },
                );
                proof {
                    assert(self.view().students =~= v0.students.insert(
                        student_id,
                        Student { name, surname, age, gender, has_graduated: true },
                    ));
                    assert forall|i: int, x: u32| #[trigger]
                        holds(self.view().owners, i, x) implies self.view().students.contains_key(
                        x,
                    ) by {
                        assert(holds(v0.owners, i, x));
                    }
                }
                Ok(())
            },
            None => Err(Error::StudentNotFound),
        }
    }

    /// Checks that `who` may transfer record `student_id` and builds what is
    /// to be sent: the sibling parachain `dest_para_id`, and the message that
    /// recreates the record, graduated, under `new_owner` there. Nothing
    /// changes.
    pub fn prepare_transfer(
        &self,
        who: AccountId,
        student_id: u32,
        dest_para_id: u32,
        new_owner: AccountId,
    ) -> (r: Result<(Location, XcmMessage), Error>)
        requires
            self.view().wf(),
        ensures
            match r {
                Ok((destination, message)) => {
                    &&& self.view().transfer_error(who, student_id) is None
                    &&& destination == (Location { parents: 1, para_id: dest_para_id })
                    &&& transfer_message_spec(
                        self.view().config,
                        self.view().students[student_id],
                        new_owner,
                        message,
                    )
                },
                Err(e) => self.view().transfer_error(who, student_id) == Some(e),
            },
    {
        let record = match self.students.get(&student_id) {
            Some(record) => record,
            None => {
                return Err(Error::StudentNotFound);
            },
        };
        if self.find_owned(who, student_id).is_none() {
            return Err(Error::NotStudentOwner);
        }
        if record.has_graduated {
            return Err(Error::AlreadyGraduated);
        }
        let message = transfer_message(&self.config, record, new_owner);
        Ok((Location::sibling(dest_para_id), message))
    }

    /// Settles a transfer of record `student_id` by `who` once the transport
    /// has answered: if it accepted the message, the record leaves the store
    /// and the owner's list and `StudentTransferred` is emitted; if it refused,
    /// nothing changes.
    pub fn complete_transfer(
        &mut self,
        who: AccountId,
        student_id: u32,
        destination: Location,
        sent: Result<(), SendError>,
    ) -> (r: Result<(), Error>)
        requires
            old(self).view().wf(),
            old(self).view().transfer_error(who, student_id) is None,
        ensures
            final(self).view().wf(),
            match sent {
                Ok(()) => {
                    &&& r == Ok::<(), Error>(())
                    &&& old(self).view().removed(
                        final(self).view(),
                        student_id,
                        (Event::StudentTransferred { student_id, destination }),
                    )
                },
                Err(_) => {
                    &&& r == Err::<(), Error>(Error::XcmSendFailed)
                    &&& final(self).view() == old(self).view()
                },
            },
    {
        if sent.is_err() {
            return Err(Error::XcmSendFailed);
        }
        match self.find_owned(who, student_id) {
            Some((k, p)) => {
                self.remove_record(k, p, student_id);
                self.deposit_event(Event::StudentTransferred { student_id, destination });
                Ok(())
            },
            None => Err(Error::NotStudentOwner),
        }
    }

    /// Graduates record `student_id`, which `who` must own, and moves it to
    /// `new_owner` on the sibling parachain `dest_para_id` through `sender`.
    /// The local record is removed only once the transport accepts the
    /// message; on any error nothing changes, and a transfer refused before
    /// sending leaves `sender` untouched.
    pub fn transfer_student_xcm<S: XcmSender>(
        &mut self,
        sender: &mut S,
        who: AccountId,
        student_id: u32,
        dest_para_id: u32,
        new_owner: AccountId,
    ) -> (r: Result<(), Error>)
        requires
            old(self).view().wf(),
        ensures
            final(self).view().wf(),
            old(self).view().transferred(
                final(self).view(),
                who,
                student_id,
                dest_para_id,
                r,
            ),
            old(self).view().transfer_error(who, student_id) is Some ==> *final(sender) == *old(
                sender,
            ),
    {
        match self.prepare_transfer(who, student_id, dest_para_id, new_owner) {
            Err(e) => Err(e),
            Ok((destination, message)) => {
                let sent = sender.send_xcm(destination, message);
                self.complete_transfer(who, student_id, destination, sent)
            },
        }
    }

    pub fn config(&self) -> (r: Config)
        ensures
            r == self.view().config,
    {
        self.config
    }

    /// The id the next stored record will get.
    pub fn student_count(&self) -> (r: u32)
        ensures
            r == self.view().student_count,
    {
        self.student_count
    }

    /// The record stored under `student_id`.
    pub fn student(&self, student_id: u32) -> (r: Option<&Student>)
        ensures
            match r {
                Some(s) => self.view().students.contains_key(student_id) && *s
                    == self.view().students[student_id],
                None => !self.view().students.contains_key(student_id),
            },
    {
        self.students.get(&student_id)
    }

    /// The ids that `who` owns, in the order acquired.
    pub fn students_of(&self, who: AccountId) -> (r: Vec<u32>)
        requires
            self.view().wf(),
        ensures
            r@ == self.view().owned(who),
    {
        let mut out: Vec<u32> = Vec::new();
        match entry_of(&self.students_by_owner, who) {
            Some(k) => {
                proof {
                    lemma_owned_at(self.view().owners, k as int);
                }
                let ids = &self.students_by_owner[k].ids;
                let mut p: usize = 0;
                while p < ids.len()
                    invariant
                        p <= ids@.len(),
                        out@ == ids@.subrange(0, p as int),
                    decreases ids@.len() - p,
                {
                    out.push(ids[p]);
                    p = p + 1;
                    proof {
                        assert(out@ =~= ids@.subrange(0, p as int));
                    }
                }
                proof {
                    assert(out@ =~= ids@);
                }
            },
            None => {
                proof {
                    assert(out@ =~= Seq::<u32>::empty());
                }
            },
        }
        out
    }

    /// The notifications emitted so far, oldest first.
    pub fn events(&self) -> (r: &Vec<Event>)
        ensures
            r@ == self.view().events,
    {
        &self.events
    }
}

} // verus!
