use vstd::prelude::*;

verus! {

/// The registry's configuration surface: the one tunable parameter, the
/// maximum byte length permitted for a fingerprint.
#[derive(Clone, Copy, PartialEq, Eq, Structural, Debug)]
pub struct Config {
    pub max_bytes_in_hash: u32,
}

/// A registration record: who currently owns a fingerprint, and the height
/// of the sequence counter at the moment the claim was created or last
/// transferred.
#[derive(Clone, Copy, PartialEq, Eq, Structural, Debug)]
pub struct ClaimRecord {
    pub owner: u64,
    pub height: u64,
}

/// The notification emitted by a successful operation, returned to the
/// caller so that external observers can react to it.
#[derive(Clone, PartialEq, Eq, Debug)]
pub enum Event {
    /// A fingerprint was registered: the caller and the fingerprint.
    ClaimCreated(u64, Vec<u8>),
    /// A claim was revoked by its owner: the caller and the fingerprint.
    ClaimRevoked(u64, Vec<u8>),
    /// A claim changed owner: the previous owner, the new owner, and the
    /// fingerprint.
    ClaimTransferred(u64, u64, Vec<u8>),
}

/// The three domain errors. Each is detected before any state is touched,
/// so a failing call never mutates the registry.
#[derive(Clone, Copy, PartialEq, Eq, Structural, Debug)]
pub enum Error {
    /// A registration was attempted on a fingerprint already present.
    ProofAlreadyClaimed,
    /// A revoke or transfer was attempted on an absent fingerprint.
    NoSuchProof,
    /// A revoke or transfer was attempted by an actor other than the
    /// recorded owner.
    NotProofOwner,
}

} // verus!
