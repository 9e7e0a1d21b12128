//! A per-account registry of student records that can hand a record over to
//! another parachain through a cross-chain message.
//!
//! The registry is an explicit [`Pallet`] value: a record store keyed by a
//! monotonically issued id, an ownership index from account to the ordered
//! list of ids it holds, and the notifications that each operation emits.
//! Every operation either commits completely or leaves the value unchanged.
pub mod types;
pub mod encode;
pub mod decode;
pub mod owners;
pub mod model;
pub mod registry;
pub mod dispatch;
pub mod laws;

pub use types::{
    AccountId, CompositeStruct, Config, Error, Event, Gender, Location, Origin, SendError,
    Student, XcmMessage,
};
pub use decode::decode_receive_call;
pub use encode::{encode_receive_call, encode_student, transfer_message};
pub use owners::{OwnerEntry, MAX_STUDENTS_PER_OWNER};
pub use model::PalletView;
pub use registry::{Pallet, XcmSender};
pub use dispatch::Call;
