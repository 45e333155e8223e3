//! Schnorr identification over the Ristretto group: the scalar and group
//! arithmetic, the text encoding of the three protocol messages, and the
//! prover's and the verifier's state machines.
//!
//! A session is driven from outside: the transport reports an [`Event`], the
//! session answers with the [`Action`] to perform next. Nothing here reads
//! or writes a stream.

pub mod base16;
pub mod exchange;
pub mod group;
pub mod keys;
pub mod message;
pub mod prover;
pub mod scalar;
pub mod session;
pub mod verification;

pub use crate::base16::HexError;
pub use crate::exchange::{run_exchange, Transcript};
pub use crate::group::GroupElement;
pub use crate::keys::KeyPair;
pub use crate::message::{
    point_from_hex, point_to_hex, scalar_from_hex, scalar_to_hex, DecodeError, Message,
    MessageKind, PointDecodeError, ProtocolMessage,
};
pub use crate::prover::{respond, ProverSession, ProverState};
pub use crate::scalar::Scalar;
pub use crate::session::{
    stray_event, Action, Event, ProtocolError, SessionError, TransportError,
};
pub use crate::verification::{verify_response, VerifierSession, VerifierState};
