//! The registry's state as mathematical values, its invariant, and the
//! outcome of each operation as a relation between the state before and
//! after.
use vstd::prelude::*;
use crate::types::{AccountId, Config, Error, Event, Location, Student};
use crate::owners::{holds, index_wf, owned_in, without, OwnerEntry, MAX_STUDENTS_PER_OWNER};

verus! {

/// What a `Pallet` holds, as mathematical values.
pub struct PalletView {
    pub config: Config,
    /// The next id to issue.
    pub student_count: u32,
    /// The record store.
    pub students: Map<u32, Student>,
    /// The ownership index, one entry per account.
    pub owners: Seq<OwnerEntry>,
    /// The notifications emitted so far, oldest first.
    pub events: Seq<Event>,
}

impl PalletView {
    /// The ids that `who` owns, in the order acquired.
    pub open spec fn owned(self, who: AccountId) -> Seq<u32> {
        owned_in(self.owners, who)
    }

    /// Whether a record's fields are within the configured bounds.
    pub open spec fn fits(self, s: Student) -> bool {
        s.name@.len() <= self.config.max_name_len && s.surname@.len()
            <= self.config.max_surname_len
    }

    /// The invariant of every reachable state: the index is well formed, every
    /// listed id has a live record, every record fits the bounds, and every
    /// issued id lies below the counter.
    pub open spec fn wf(self) -> bool {
        &&& index_wf(self.owners)
        &&& forall|i: int, id: u32| #[trigger]
            holds(self.owners, i, id) ==> self.students.contains_key(id)
        &&& forall|id: u32| #[trigger]
            self.students.contains_key(id) ==> id < self.student_count && self.fits(
                self.students[id],
            )
    }

    /// Whether `who` holds `id` in the index.
    pub open spec fn owns(self, who: AccountId, id: u32) -> bool {
        self.owned(who).contains(id)
    }

    /// Every account's list is as before, but that `who` has `id` appended.
    pub open spec fn index_added(self, next: PalletView, who: AccountId, id: u32) -> bool {
        forall|w: AccountId| #[trigger]
            next.owned(w) == if w == who {
                self.owned(w).push(id)
            } else {
                self.owned(w)
            }
    }

    /// Every account's list is as before, with `id` taken out wherever it was.
    pub open spec fn index_removed(self, next: PalletView, id: u32) -> bool {
        forall|w: AccountId| #[trigger] next.owned(w) == without(self.owned(w), id)
    }

    /// Why storing a new record for `who` would be refused, if it would. An
    /// account that is full is refused whatever the record holds.
    pub open spec fn insert_error(self, who: AccountId, s: Student) -> Option<Error> {
        if self.owned(who).len() >= MAX_STUDENTS_PER_OWNER {
            Some(Error::MaxStudentsReached)
        } else if s.name@.len() > self.config.max_name_len {
            Some(Error::NameTooLong)
        } else if s.surname@.len() > self.config.max_surname_len {
            Some(Error::SurnameTooLong)
        } else if self.student_count == u32::MAX {
            Some(Error::StorageOverflow)
        } else {
            None
        }
    }

    /// `s` stored under a freshly issued id for `who`; or, on an error,
    /// nothing changed.
    pub open spec fn inserted(
        self,
        next: PalletView,
        who: AccountId,
        s: Student,
        r: Result<u32, Error>,
    ) -> bool {
        match r {
            Ok(id) => {
                &&& self.insert_error(who, s) is None
                &&& id == self.student_count
                &&& next.student_count == id + 1
                &&& next.config == self.config
                &&& !self.students.contains_key(id)
                &&& next.students == self.students.insert(id, s)
                &&& self.index_added(next, who, id)
            },
            Err(e) => self.insert_error(who, s) == Some(e) && next == self,
        }
    }

    /// Why `who` may not act on record `id` as its owner, if it may not.
    pub open spec fn owner_error(self, who: AccountId, id: u32) -> Option<Error> {
        if !self.students.contains_key(id) {
            Some(Error::StudentNotFound)
        } else if !self.owns(who, id) {
            Some(Error::NotStudentOwner)
        } else {
            None
        }
    }

    /// Why a transfer of `id` by `who` would be refused before anything is
    /// sent, if it would.
    pub open spec fn transfer_error(self, who: AccountId, id: u32) -> Option<Error> {
        if self.owner_error(who, id) is Some {
            self.owner_error(who, id)
        } else if self.students[id].has_graduated {
            Some(Error::AlreadyGraduated)
        } else {
            None
        }
    }

    /// Record `id` gone from the store and from every list, the counter and
    /// the configuration kept, and `ev` emitted.
    pub open spec fn removed(self, next: PalletView, id: u32, ev: Event) -> bool {
        &&& next.config == self.config
        &&& next.student_count == self.student_count
        &&& next.students == self.students.remove(id)
        &&& self.index_removed(next, id)
        &&& next.events == self.events.push(ev)
    }
    /// Why an update of record `id` by `who` to the fields of `s` would be
    /// refused, if it would.
    pub open spec fn update_error(self, who: AccountId, id: u32, s: Student) -> Option<Error> {
        if self.owner_error(who, id) is Some {
            self.owner_error(who, id)
        } else if s.name@.len() > self.config.max_name_len {
            Some(Error::NameTooLong)
        } else if s.surname@.len() > self.config.max_surname_len {
            Some(Error::SurnameTooLong)
        } else {
            None
        }
    }

    /// Record `id` replaced by `s` with `StudentUpdated` emitted; or, on an
    /// error, nothing changed.
    pub open spec fn updated(
        self,
        next: PalletView,
        who: AccountId,
        id: u32,
        s: Student,
        r: Result<(), Error>,
    ) -> bool {
        match r {
            Ok(()) => {
                &&& self.update_error(who, id, s) is None
                &&& next.students == self.students.insert(id, s)
                &&& next.owners == self.owners
                &&& next.config == self.config
                &&& next.student_count == self.student_count
                &&& next.events == self.events.push(Event::StudentUpdated { who, student_id: id })
            },
            Err(e) => self.update_error(who, id, s) == Some(e) && next == self,
        }
    }

    /// Record `id` marked graduated, nothing else changed; or, on an error,
    /// nothing changed at all.
    pub open spec fn graduated(
        self,
        next: PalletView,
        who: AccountId,
        id: u32,
        r: Result<(), Error>,
    ) -> bool {
        let s = self.students[id];
        match r {
            Ok(()) => {
                &&& self.transfer_error(who, id) is None
                &&& next.students == self.students.insert(
                    id,
                    Student {
                        name: s.name,
                        surname: s.surname,
                        age: s.age,
                        gender: s.gender,
                        has_graduated: true,
                    },
                )
                &&& next.owners == self.owners
                &&& next.config == self.config
                &&& next.student_count == self.student_count
                &&& next.events == self.events
            },
            Err(e) => self.transfer_error(who, id) == Some(e) && next == self,
        }
    }

    /// Record `id`, owned by `who`, gone with `StudentDeleted` emitted; or,
    /// on an error, nothing changed.
    pub open spec fn deleted(
        self,
        next: PalletView,
        who: AccountId,
        id: u32,
        r: Result<(), Error>,
    ) -> bool {
        match r {
            Ok(()) => {
                &&& self.owner_error(who, id) is None
                &&& self.removed(next, id, Event::StudentDeleted { who, student_id: id })
            },
            Err(e) => self.owner_error(who, id) == Some(e) && next == self,
        }
    }

    /// Record `id` gone, whoever owned it, with `StudentDeletedByAdmin`
    /// emitted; or, if there is no such record, nothing changed.
    pub open spec fn admin_deleted(self, next: PalletView, id: u32, r: Result<(), Error>) -> bool {
        match r {
            Ok(()) => {
                &&& self.students.contains_key(id)
                &&& self.removed(next, id, Event::StudentDeletedByAdmin { student_id: id })
            },
            Err(e) => !self.students.contains_key(id) && e == Error::StudentNotFound && next
                == self,
        }
    }

    /// The outcome of a transfer of `id` by `who` to the sibling parachain
    /// `dest_para_id`: refused before sending with nothing changed; or the
    /// transport refused it, with nothing changed; or the record is gone.
    pub open spec fn transferred(
        self,
        next: PalletView,
        who: AccountId,
        id: u32,
        dest_para_id: u32,
        r: Result<(), Error>,
    ) -> bool {
        let destination = Location { parents: 1, para_id: dest_para_id };
        match self.transfer_error(who, id) {
            Some(e) => r == Err::<(), Error>(e) && next == self,
            None => match r {
                Ok(()) => self.removed(
                    next,
                    id,
                    Event::StudentTransferred { student_id: id, destination },
                ),
                Err(e) => e == Error::XcmSendFailed && next == self,
            },
        }
    }
}

} // verus!
