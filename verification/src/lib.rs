//! A pseudonym system in the style of Lysyanskaya, Rivest, Sahai and Wolf.
//!
//! A user holds one master secret and registers an unlinkable pseudonym with
//! each organization. An organization issues a credential on a pseudonym, and
//! the user shows it to another organization under another pseudonym.
//!
//! Every protocol role is a session: a value that is started with the role's
//! inputs, hands out the messages to send, and is fed each message that
//! arrives. The caller owns the channel.

pub mod bytes;
pub mod credential;
pub mod error;
pub mod hash;
pub mod key;
pub mod modular;
pub mod nym;
pub mod point;
pub mod proofs;
pub mod scalar;
pub mod signature;
pub mod transport;

pub use error::Error;
pub use key::{OrgPublicKey, OrgSecretKey, UserPublicKey, UserSecretKey};
pub use credential::Cred;
pub use nym::{Nym, Org, User};
pub use point::Point;
pub use scalar::Scalar;
pub use signature::Signature;
