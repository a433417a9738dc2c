//! A proof-of-existence claim registry.
//!
//! An identified actor can assert first registration of an opaque digital
//! fingerprint, revoke the claim, or transfer it to another actor. The
//! registry owns the mapping from fingerprint to (owner, height) and
//! decides, for each requested operation, whether it is valid against the
//! current state and what mutation and notification result. Callers are
//! assumed to be authenticated, and the current height is supplied by the
//! host's sequence counter; both arrive here as plain values.

mod laws;
mod registry;
mod types;

pub use laws::lemma_exactly_once_claim;
pub use laws::lemma_failure_is_atomic;
pub use laws::lemma_ownership_gate;
pub use laws::lemma_revoke_then_reregister;
pub use laws::lemma_self_transfer_allowed;
pub use laws::lemma_transfer_updates_both;
pub use registry::create_claim_spec;
pub use registry::revoke_claim_spec;
pub use registry::transfer_claim_spec;
pub use registry::Pallet;
pub use types::ClaimRecord;
pub use types::Config;
pub use types::Error;
pub use types::Event;
