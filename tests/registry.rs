use pallet_template::{
    Config, Error, Event, Gender, Location, Origin, Pallet, SendError, Student, XcmMessage,
    XcmSender, MAX_STUDENTS_PER_OWNER,
};

const U1: u64 = 1;
const U2: u64 = 2;
const U3: u64 = 3;
const U4: u64 = 4;
const DEST: u32 = 2000;

fn config() -> Config {
    Config { max_name_len: 16, max_surname_len: 16, pallet_index: 8 }
}

struct Recorder {
    accept: bool,
    sent: Vec<(Location, XcmMessage)>,
}

impl XcmSender for Recorder {
    fn send_xcm(&mut self, destination: Location, message: XcmMessage) -> Result<(), SendError> {
        self.sent.push((destination, message));
        if self.accept {
            Ok(())
        } else {
            Err(SendError::Transport)
        }
    }
}

fn create_ada(p: &mut Pallet, who: u64) -> Result<u32, Error> {
    p.create_student(who, b"Ada".to_vec(), b"Lovelace".to_vec(), 30, Gender::Male)
}

#[test]
fn create_returns_first_id_and_lists_it() {
    let mut p = Pallet::new(config());
    assert_eq!(create_ada(&mut p, U1), Ok(0));
    assert_eq!(p.students_of(U1), vec![0]);
    let s = p.student(0).unwrap();
    assert_eq!(s.name, b"Ada".to_vec());
    assert_eq!(s.surname, b"Lovelace".to_vec());
    assert_eq!(s.age, 30);
    assert_eq!(s.gender, Gender::Male);
    assert!(!s.has_graduated);
    assert_eq!(p.student_count(), 1);
    assert_eq!(p.events(), &vec![Event::StudentCreated { who: U1, student_id: 0 }]);
}

#[test]
fn ids_are_distinct_and_increasing() {
    let mut p = Pallet::new(config());
    let a = create_ada(&mut p, U1).unwrap();
    let b = create_ada(&mut p, U2).unwrap();
    p.delete_student(Origin::Signed(U2), b).unwrap();
    let c = create_ada(&mut p, U1).unwrap();
    let d = p.receive_student(U3, p.student(a).unwrap().clone()).unwrap();
    assert_eq!(vec![a, b, c, d], vec![0, 1, 2, 3]);
    assert_eq!(p.students_of(U1), vec![0, 2]);
}

#[test]
fn delete_by_non_owner_fails() {
    let mut p = Pallet::new(config());
    create_ada(&mut p, U1).unwrap();
    assert_eq!(p.delete_student(Origin::Signed(U2), 0), Err(Error::NotStudentOwner));
    assert!(p.student(0).is_some());
    assert_eq!(p.students_of(U1), vec![0]);
}

#[test]
fn delete_missing_fails() {
    let mut p = Pallet::new(config());
    assert_eq!(p.delete_student(Origin::Signed(U1), 5), Err(Error::StudentNotFound));
}

#[test]
fn delete_by_owner_keeps_order_of_the_rest() {
    let mut p = Pallet::new(config());
    for _ in 0..4 {
        create_ada(&mut p, U1).unwrap();
    }
    assert_eq!(p.delete_student(Origin::Signed(U1), 1), Ok(()));
    assert!(p.student(1).is_none());
    assert_eq!(p.students_of(U1), vec![0, 2, 3]);
    assert_eq!(p.events().last(), Some(&Event::StudentDeleted { who: U1, student_id: 1 }));
}

#[test]
fn ownership_is_exclusive_and_never_dangles() {
    let mut p = Pallet::new(config());
    for who in [U1, U2, U1, U3, U2] {
        create_ada(&mut p, who).unwrap();
    }
    p.delete_student(Origin::Signed(U1), 2).unwrap();
    p.admin_delete_student(4).unwrap();
    let mut seen = Vec::new();
    for who in [U1, U2, U3, U4] {
        for id in p.students_of(who) {
            assert!(!seen.contains(&id));
            assert!(p.student(id).is_some());
            seen.push(id);
        }
    }
    seen.sort();
    assert_eq!(seen, vec![0, 1, 3]);
}

#[test]
fn name_and_surname_bounds() {
    let mut p = Pallet::new(config());
    let long = vec![b'a'; 17];
    let edge = vec![b'a'; 16];
    assert_eq!(
        p.create_student(U1, long.clone(), b"x".to_vec(), 1, Gender::Other),
        Err(Error::NameTooLong)
    );
    assert_eq!(
        p.create_student(U1, b"x".to_vec(), long, 1, Gender::Other),
        Err(Error::SurnameTooLong)
    );
    assert!(p.events().is_empty());
    assert_eq!(p.student_count(), 0);
    assert_eq!(p.create_student(U1, edge.clone(), edge, 1, Gender::Female), Ok(0));
}

#[test]
fn capacity_is_enforced_on_create() {
    let mut p = Pallet::new(config());
    for i in 0..MAX_STUDENTS_PER_OWNER {
        assert_eq!(create_ada(&mut p, U1), Ok(i as u32));
    }
    let events = p.events().len();
    assert_eq!(create_ada(&mut p, U1), Err(Error::MaxStudentsReached));
    assert_eq!(p.student_count(), MAX_STUDENTS_PER_OWNER as u32);
    assert_eq!(p.students_of(U1).len(), MAX_STUDENTS_PER_OWNER);
    assert_eq!(p.events().len(), events);
    assert!(p.student(MAX_STUDENTS_PER_OWNER as u32).is_none());
    assert_eq!(create_ada(&mut p, U2), Ok(MAX_STUDENTS_PER_OWNER as u32));
}

#[test]
fn capacity_is_enforced_on_receive() {
    let mut p = Pallet::new(config());
    for _ in 0..MAX_STUDENTS_PER_OWNER {
        create_ada(&mut p, U3).unwrap();
    }
    let incoming = p.student(0).unwrap().clone();
    let events = p.events().len();
    assert_eq!(p.receive_student(U3, incoming), Err(Error::MaxStudentsReached));
    let mut too_long = p.student(0).unwrap().clone();
    too_long.name = vec![b'a'; 17];
    assert_eq!(p.receive_student(U3, too_long.clone()), Err(Error::MaxStudentsReached));
    assert_eq!(p.student_count(), MAX_STUDENTS_PER_OWNER as u32);
    assert_eq!(p.events().len(), events);
    assert_eq!(p.students_of(U3).len(), MAX_STUDENTS_PER_OWNER);
    assert_eq!(p.receive_student(U1, too_long), Err(Error::NameTooLong));
}

#[test]
fn update_replaces_fields_and_keeps_flag() {
    let mut p = Pallet::new(config());
    create_ada(&mut p, U1).unwrap();
    p.graduate_student(U1, 0).unwrap();
    assert_eq!(
        p.update_student(U1, 0, b"Grace".to_vec(), b"Hopper".to_vec(), 40, Gender::Female),
        Ok(())
    );
    let s = p.student(0).unwrap();
    assert_eq!(s.name, b"Grace".to_vec());
    assert_eq!(s.surname, b"Hopper".to_vec());
    assert_eq!(s.age, 40);
    assert_eq!(s.gender, Gender::Female);
    assert!(s.has_graduated);
    assert_eq!(p.events().last(), Some(&Event::StudentUpdated { who: U1, student_id: 0 }));
}

#[test]
fn update_errors() {
    let mut p = Pallet::new(config());
    create_ada(&mut p, U1).unwrap();
    assert_eq!(
        p.update_student(U1, 9, b"A".to_vec(), b"B".to_vec(), 1, Gender::Male),
        Err(Error::StudentNotFound)
    );
    assert_eq!(
        p.update_student(U2, 0, b"A".to_vec(), b"B".to_vec(), 1, Gender::Male),
        Err(Error::NotStudentOwner)
    );
    assert_eq!(
        p.update_student(U1, 0, vec![b'a'; 17], b"B".to_vec(), 1, Gender::Male),
        Err(Error::NameTooLong)
    );
    assert_eq!(
        p.update_student(U1, 0, b"A".to_vec(), vec![b'a'; 17], 1, Gender::Male),
        Err(Error::SurnameTooLong)
    );
    assert_eq!(p.student(0).unwrap().name, b"Ada".to_vec());
}

#[test]
fn graduate_once() {
    let mut p = Pallet::new(config());
    create_ada(&mut p, U1).unwrap();
    assert_eq!(p.graduate_student(U2, 0), Err(Error::NotStudentOwner));
    assert_eq!(p.graduate_student(U1, 3), Err(Error::StudentNotFound));
    assert_eq!(p.graduate_student(U1, 0), Ok(()));
    assert!(p.student(0).unwrap().has_graduated);
    assert_eq!(p.graduate_student(U1, 0), Err(Error::AlreadyGraduated));
}

fn ada_call_bytes(pallet_index: u8, owner: u64) -> Vec<u8> {
    let mut v = vec![pallet_index, 10, 12, b'A', b'd', b'a', 32];
    v.extend_from_slice(b"Lovelace");
    v.extend_from_slice(&[30, 0, 0, 0, 0, 1]);
    v.extend_from_slice(&owner.to_le_bytes());
    v
}

#[test]
fn transfer_sends_and_removes() {
    let mut p = Pallet::new(config());
    create_ada(&mut p, U1).unwrap();
    let mut sender = Recorder { accept: true, sent: Vec::new() };
    assert_eq!(p.transfer_student_xcm(&mut sender, U1, 0, DEST, U3), Ok(()));
    assert!(p.student(0).is_none());
    assert!(p.students_of(U1).is_empty());
    let destination = Location { parents: 1, para_id: DEST };
    assert_eq!(
        p.events().last(),
        Some(&Event::StudentTransferred { student_id: 0, destination })
    );
    assert_eq!(sender.sent.len(), 1);
    let (to, message) = &sender.sent[0];
    assert_eq!(*to, destination);
    assert_eq!(message.fallback_ref_time, 1_000_000_000);
    assert_eq!(message.fallback_proof_size, 0);
    assert_eq!(message.call, ada_call_bytes(8, U3));
}

#[test]
fn refused_transfer_changes_nothing() {
    let mut p = Pallet::new(config());
    create_ada(&mut p, U1).unwrap();
    let before = p.events().clone();
    let mut sender = Recorder { accept: false, sent: Vec::new() };
    assert_eq!(p.transfer_student_xcm(&mut sender, U1, 0, DEST, U3), Err(Error::XcmSendFailed));
    assert_eq!(sender.sent.len(), 1);
    let s = p.student(0).unwrap();
    assert!(!s.has_graduated);
    assert_eq!(p.students_of(U1), vec![0]);
    assert_eq!(p.events(), &before);
    assert_eq!(p.student_count(), 1);
}

#[test]
fn transfer_checks_before_sending() {
    let mut p = Pallet::new(config());
    create_ada(&mut p, U1).unwrap();
    let mut sender = Recorder { accept: true, sent: Vec::new() };
    assert_eq!(p.transfer_student_xcm(&mut sender, U1, 7, DEST, U3), Err(Error::StudentNotFound));
    assert_eq!(p.transfer_student_xcm(&mut sender, U2, 0, DEST, U3), Err(Error::NotStudentOwner));
    p.graduate_student(U1, 0).unwrap();
    assert_eq!(
        p.transfer_student_xcm(&mut sender, U1, 0, DEST, U3),
        Err(Error::AlreadyGraduated)
    );
    assert!(sender.sent.is_empty());
    assert_eq!(p.students_of(U1), vec![0]);
}

#[test]
fn prepare_then_complete() {
    let mut p = Pallet::new(config());
    create_ada(&mut p, U1).unwrap();
    let (destination, message) = p.prepare_transfer(U1, 0, DEST, U3).unwrap();
    assert_eq!(destination, Location::sibling(DEST));
    assert_eq!(message.call, ada_call_bytes(8, U3));
    assert_eq!(
        p.complete_transfer(U1, 0, destination, Err(SendError::Unroutable)),
        Err(Error::XcmSendFailed)
    );
    assert!(p.student(0).is_some());
    assert_eq!(p.complete_transfer(U1, 0, destination, Ok(())), Ok(()));
    assert!(p.student(0).is_none());
}

#[test]
fn destination_recreates_the_record() {
    let mut source = Pallet::new(config());
    create_ada(&mut source, U1).unwrap();
    let mut sender = Recorder { accept: true, sent: Vec::new() };
    let record = source.student(0).unwrap().clone();
    source.transfer_student_xcm(&mut sender, U1, 0, DEST, U3).unwrap();

    let mut destination = Pallet::new(config());
    let arrived = Student { has_graduated: true, ..record };
    assert_eq!(destination.receive_student(U3, arrived.clone()), Ok(0));
    assert_eq!(destination.students_of(U3), vec![0]);
    assert_eq!(destination.student(0), Some(&arrived));
    assert_eq!(destination.events(), &vec![Event::StudentReceived { student_id: 0 }]);
}

#[test]
fn admin_delete_removes_from_owner() {
    let mut p = Pallet::new(config());
    create_ada(&mut p, U1).unwrap();
    create_ada(&mut p, U4).unwrap();
    create_ada(&mut p, U4).unwrap();
    assert_eq!(p.admin_delete_student(1), Ok(()));
    assert!(p.student(1).is_none());
    assert_eq!(p.students_of(U4), vec![2]);
    assert_eq!(p.students_of(U1), vec![0]);
    assert_eq!(p.events().last(), Some(&Event::StudentDeletedByAdmin { student_id: 1 }));
    assert_eq!(p.admin_delete_student(1), Err(Error::StudentNotFound));
}

#[test]
fn admin_delete_of_unlisted_record() {
    let mut p = Pallet::new(config());
    create_ada(&mut p, U1).unwrap();
    let record = p.student(0).unwrap().clone();
    assert_eq!(p.receive_student(U2, record), Ok(1));
    assert_eq!(p.admin_delete_student(0), Ok(()));
    assert_eq!(p.students_of(U1), Vec::<u32>::new());
    assert_eq!(p.students_of(U2), vec![1]);
}

#[test]
fn root_delete_skips_the_owner_check() {
    let mut p = Pallet::new(config());
    create_ada(&mut p, U1).unwrap();
    create_ada(&mut p, U4).unwrap();
    create_ada(&mut p, U4).unwrap();
    assert_eq!(p.delete_student(Origin::Root, 1), Ok(()));
    assert!(p.student(1).is_none());
    assert_eq!(p.students_of(U4), vec![2]);
    assert_eq!(p.students_of(U1), vec![0]);
    assert_eq!(p.student_count(), 3);
    assert_eq!(p.events().last(), Some(&Event::StudentDeletedByAdmin { student_id: 1 }));
    assert_eq!(p.delete_student(Origin::Root, 1), Err(Error::StudentNotFound));
}

#[test]
fn ids_are_not_reused_after_any_calls() {
    let mut p = Pallet::new(config());
    let first = create_ada(&mut p, U1).unwrap();
    let mut sender = Recorder { accept: true, sent: Vec::new() };
    create_ada(&mut p, U2).unwrap();
    p.delete_student(Origin::Signed(U1), first).unwrap();
    p.transfer_student_xcm(&mut sender, U2, 1, DEST, U3).unwrap();
    p.admin_delete_student(1).unwrap_err();
    let later = create_ada(&mut p, U1).unwrap();
    assert!(later > first);
    assert_eq!(later, 2);
    assert_eq!(p.students_of(U1), vec![2]);
    assert!(p.student(first).is_none());
}
