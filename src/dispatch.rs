//! The pallet's calls as one closed enum, and the dispatcher that checks the
//! origin of a call and routes it to its operation.
use vstd::prelude::*;
use crate::types::{AccountId, Error, Event, Gender, Origin, Student};
use crate::model::PalletView;
use crate::registry::{Pallet, XcmSender};

verus! {

/// A call into the pallet, with its arguments.
#[derive(Clone, Debug, PartialEq, Eq)]
pub enum Call {
    CreateStudent { name: Vec<u8>, surname: Vec<u8>, age: u32, gender: Gender },
    GraduateStudent { student_id: u32 },
    DeleteStudent { student_id: u32 },
    UpdateStudent { student_id: u32, name: Vec<u8>, surname: Vec<u8>, age: u32, gender: Gender },
    TransferStudentXcm { student_id: u32, dest_para_id: u32, new_owner: AccountId },
    /// Arrives from another chain through the message transport, which has
    /// already checked where it comes from; any origin may carry it.
    ReceiveStudent { student: Student, new_owner: AccountId },
    AdminDeleteStudent { student_id: u32 },
}

/// A result that carries an id, with the id dropped.
pub open spec fn unit_of(r: Result<u32, Error>) -> Result<(), Error> {
    match r {
        Ok(_) => Ok(()),
        Err(e) => Err(e),
    }
}

/// What dispatching `call` from `origin` does to `v0`, ending in `v1` with
/// result `r`: a call that needs a signed origin, or the administrator, is
/// refused with `BadOrigin` and changes nothing; any other call does what its
/// operation does. A deletion from the administrator deletes whoever owns
/// the record.
pub open spec fn dispatched(
    v0: PalletView,
    v1: PalletView,
    origin: Origin,
    call: Call,
    r: Result<(), Error>,
) -> bool {
    match call {
        Call::ReceiveStudent { student, new_owner } => exists|id: Result<u32, Error>|
            #[trigger] unit_of(id) == r && v0.inserted(v1, new_owner, student, id) && (id is Ok
                ==> v1.events == v0.events.push(
                Event::StudentReceived { student_id: id->Ok_0 },
            )),
        Call::DeleteStudent { student_id } => match origin {
            Origin::Signed(who) => v0.deleted(v1, who, student_id, r),
            Origin::Root => v0.admin_deleted(v1, student_id, r),
        },
        Call::AdminDeleteStudent { student_id } => match origin {
            Origin::Root => v0.admin_deleted(v1, student_id, r),
            Origin::Signed(_) => r == Err::<(), Error>(Error::BadOrigin) && v1 == v0,
        },
        _ => match origin {
            Origin::Root => r == Err::<(), Error>(Error::BadOrigin) && v1 == v0,
            Origin::Signed(who) => match call {
                Call::CreateStudent { name, surname, age, gender } => exists|id: Result<u32, Error>|
                    #[trigger] unit_of(id) == r && v0.inserted(
                        v1,
                        who,
                        Student { name, surname, age, gender, has_graduated: false },
                        id,
                    ) && (id is Ok ==> v1.events == v0.events.push(
                        Event::StudentCreated { who, student_id: id->Ok_0 },
                    )),
                Call::GraduateStudent { student_id } => v0.graduated(v1, who, student_id, r),
                Call::UpdateStudent { student_id, name, surname, age, gender } => v0.updated(
                    v1,
                    who,
                    student_id,
                    Student {
                        name,
                        surname,
                        age,
                        gender,
                        has_graduated: v0.students[student_id].has_graduated,
                    },
                    r,
                ),
                Call::TransferStudentXcm { student_id, dest_para_id, .. } => v0.transferred(
                    v1,
                    who,
                    student_id,
                    dest_para_id,
                    r,
                ),
                _ => true,
            },
        },
    }
}

impl Pallet {
    /// Checks the origin of `call` and runs it, sending through `sender` if it
    /// is a transfer.
    pub fn dispatch<S: XcmSender>(&mut self, sender: &mut S, origin: Origin, call: Call) -> (r:
        Result<(), Error>)
        requires
            old(self).view().wf(),
        ensures
            final(self).view().wf(),
            dispatched(old(self).view(), final(self).view(), origin, call, r),
    {
        match call {
            Call::ReceiveStudent { student, new_owner } => {
                let id = self.receive_student(new_owner, student);
                let r = match id {
                    Ok(_) => Ok(()),
                    Err(e) => Err(e),
                };
                proof {
                    assert(unit_of(id) == r);
                }
                r
            },
            Call::DeleteStudent { student_id } => self.delete_student(origin, student_id),
            Call::AdminDeleteStudent { student_id } => match origin {
                Origin::Root => self.admin_delete_student(student_id),
                Origin::Signed(_) => Err(Error::BadOrigin),
            },
            _ => match origin {
                Origin::Root => Err(Error::BadOrigin),
                Origin::Signed(who) => match call {
                    Call::CreateStudent { name, surname, age, gender } => {
                        let ghost v0 = self.view();
                        let ghost s = Student { name, surname, age, gender, has_graduated: false };
                        let id = self.create_student(who, name, surname, age, gender);
                        let r = match id {
                            Ok(_) => Ok(()),
                            Err(e) => Err(e),
                        };
                        proof {
                            assert(unit_of(id) == r);
                            assert(v0.inserted(self.view(), who, s, id));
                        }
                        r
                    },
                    Call::GraduateStudent { student_id } => self.graduate_student(who, student_id),
                    Call::UpdateStudent { student_id, name, surname, age, gender } => {
                        self.update_student(who, student_id, name, surname, age, gender)
                    },
                    Call::TransferStudentXcm { student_id, dest_para_id, new_owner } => {
                        self.transfer_student_xcm(sender, who, student_id, dest_para_id, new_owner)
                    },
                    _ => Err(Error::BadOrigin),
                },
            },
        }
    }
}

} // verus!
