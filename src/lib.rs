//! Identity-attestation registration: the record lifecycle, the attestator
//! registry and the state machine that drives them, with a byte encoding of
//! the stored records.

pub mod bytes;
pub mod codec;
pub mod engine;
pub mod error;
pub mod hash;
pub mod lifecycle;
pub mod registry;
pub mod store;
pub mod value_state;
pub mod user;

pub use codec::DecodeError;
pub use engine::Attestation;
pub use error::AttestationError;
pub use user::User;
pub use value_state::ValueState;
