//! A multi-party fair card draw built from a two-phase commit-reveal scheme
//! and VRF-backed draws: each player commits to a private secret, reveals it
//! for public checking, then draws cards from verifiable random outputs; the
//! highest verified card wins.

use vstd::prelude::*;

pub mod bytes;
pub mod commitment;
pub mod player;
pub mod protocol;
pub mod vrf;

verus! {

/// The ways the protocol can fail.
#[derive(Clone, Copy, Debug, PartialEq, Eq, Structural)]
pub enum ProtocolError {
    /// A revealed secret's hash does not match the stored commitment digest.
    CommitmentMismatch,
    /// A player's best-draw proof failed VRF verification.
    VrfVerificationFailure,
    /// An operation was invoked out of state-machine order.
    ProtocolViolation,
    /// A best draw was requested before any draw happened.
    NotReady,
}

} // verus!
