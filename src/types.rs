//! Plain data of the registry: records, configuration, errors and notifications.
use vstd::prelude::*;

verus! {

/// The identity that owns records; on chain this is an account id.
pub type AccountId = u64;

/// A block height as seen by the pallet.
#[derive(Clone, Copy, Debug, PartialEq, Eq, Structural, Default)]
pub struct CompositeStruct {
    pub block_number: u32,
}

/// The closed set of categories a record can carry.
#[derive(Clone, Copy, Debug, PartialEq, Eq, Structural)]
pub enum Gender {
    Male,
    Female,
    Other,
}

/// Who a call comes from.
#[derive(Clone, Copy, Debug, PartialEq, Eq, Structural)]
pub enum Origin {
    /// An account that signed the call.
    Signed(AccountId),
    /// The chain's administrator.
    Root,
}

/// A student record.
#[derive(Clone, Debug, PartialEq, Eq)]
pub struct Student {
    pub name: Vec<u8>,
    pub surname: Vec<u8>,
    pub age: u32,
    pub gender: Gender,
    pub has_graduated: bool,
}

/// The parameters the runtime wires into the pallet.
#[derive(Clone, Copy, Debug, PartialEq, Eq, Structural)]
pub struct Config {
    /// Longest accepted name, in bytes.
    pub max_name_len: u32,
    /// Longest accepted surname, in bytes.
    pub max_surname_len: u32,
    /// The index of this pallet in the runtime, the first byte of every call
    /// addressed to it.
    pub pallet_index: u8,
}

/// A destination for a cross-chain message: `parents` levels up, then into
/// the parachain `para_id`.
#[derive(Clone, Copy, Debug, PartialEq, Eq, Structural)]
pub struct Location {
    pub parents: u8,
    pub para_id: u32,
}

impl Location {
    /// The sibling parachain `para_id`, reached through the relay chain.
    pub fn sibling(para_id: u32) -> (r: Location)
        ensures
            r.parents == 1,
            r.para_id == para_id,
    {
        Location { parents: 1, para_id }
    }
}

/// A cross-chain program that runs without payment on the destination and
/// dispatches `call` there with the origin of this chain's sovereign account,
/// capped at the given fallback weight.
#[derive(Clone, Debug, PartialEq, Eq)]
pub struct XcmMessage {
    pub fallback_ref_time: u64,
    pub fallback_proof_size: u64,
    /// The encoded call to dispatch on the destination.
    pub call: Vec<u8>,
}

/// Why the message transport refused an outbound message.
#[derive(Clone, Copy, Debug, PartialEq, Eq, Structural)]
pub enum SendError {
    /// The transport does not handle this destination.
    NotApplicable,
    /// The transport could not queue the message.
    Transport,
    /// No route leads to the destination.
    Unroutable,
    /// The destination does not accept messages from here.
    DestinationUnsupported,
    /// The message is larger than the transport accepts.
    ExceedsMaxMessageSize,
    /// The message lacks something the transport needs.
    MissingArgument,
    /// The delivery fees could not be paid.
    Fees,
}

/// Why an operation was refused. A refused operation changes nothing.
#[derive(Clone, Copy, Debug, PartialEq, Eq, Structural)]
pub enum Error {
    /// The call came from an origin that may not make it.
    BadOrigin,
    NoneValue,
    /// The record id counter is exhausted.
    StorageOverflow,
    NameTooLong,
    SurnameTooLong,
    StudentAlreadyExists,
    /// The owner already holds the largest allowed number of records.
    MaxStudentsReached,
    StudentNotFound,
    NotStudentOwner,
    AlreadyGraduated,
    /// The message transport refused the transfer message.
    XcmSendFailed,
}

/// A notification emitted by a successful operation.
#[derive(Clone, Copy, Debug, PartialEq, Eq, Structural)]
pub enum Event {
    SomethingStored { block_number: u32, who: AccountId },
    StudentCreated { who: AccountId, student_id: u32 },
    StudentUpdated { who: AccountId, student_id: u32 },
    StudentDeleted { who: AccountId, student_id: u32 },
    StudentDeletedByAdmin { student_id: u32 },
    XcmMessageSent { destination: Location },
    StudentReceived { student_id: u32 },
    StudentTransferred { student_id: u32, destination: Location },
}

} // verus!
