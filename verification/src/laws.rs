use vstd::prelude::*;

use crate::registry::{create_claim_spec, revoke_claim_spec, transfer_claim_spec};
use crate::types::{ClaimRecord, Error};

verus! {

/// Exactly-once claim: registering the same fingerprint twice in a row,
/// with no intervening revoke, succeeds the first time and fails the
/// second time with `ProofAlreadyClaimed`, whoever the second caller is;
/// the state after the second call is the state after the first call.
pub proof fn lemma_exactly_once_claim(
    m: Map<Seq<u8>, ClaimRecord>,
    first: u64,
    second: u64,
    claim: Seq<u8>,
    h1: u64,
    h2: u64,
)
    requires
        !m.contains_key(claim),
    ensures
        ({
            let (m1, r1) = create_claim_spec(m, first, claim, h1);
            let (m2, r2) = create_claim_spec(m1, second, claim, h2);
            &&& r1 == Ok::<(), Error>(())
            &&& r2 == Err::<(), Error>(Error::ProofAlreadyClaimed)
            &&& m2 == m1
        }),
{
}

/// Ownership gate: when a fingerprint is owned by one actor, a revoke or
/// a transfer attempted by any other actor fails with `NotProofOwner` and
/// leaves the state unchanged.
pub proof fn lemma_ownership_gate(
    m: Map<Seq<u8>, ClaimRecord>,
    owner: u64,
    intruder: u64,
    claim: Seq<u8>,
    dest: u64,
    height: u64,
)
    requires
        m.contains_key(claim),
        m[claim].owner == owner,
        intruder != owner,
    ensures
        revoke_claim_spec(m, intruder, claim) == (m, Err::<(), Error>(Error::NotProofOwner)),
        transfer_claim_spec(m, intruder, claim, dest, height) == (
            m,
            Err::<(), Error>(Error::NotProofOwner),
        ),
{
}

/// Revoke-then-reregister: after its owner revokes a claim, a register of
/// the same fingerprint by any actor succeeds, and that actor becomes the
/// owner, at the height of the new registration.
pub proof fn lemma_revoke_then_reregister(
    m: Map<Seq<u8>, ClaimRecord>,
    owner: u64,
    newcomer: u64,
    claim: Seq<u8>,
    height: u64,
)
    requires
        m.contains_key(claim),
        m[claim].owner == owner,
    ensures
        ({
            let (m1, r1) = revoke_claim_spec(m, owner, claim);
            let (m2, r2) = create_claim_spec(m1, newcomer, claim, height);
            &&& r1 == Ok::<(), Error>(())
            &&& r2 == Ok::<(), Error>(())
            &&& m2.contains_key(claim)
            &&& m2[claim] == (ClaimRecord { owner: newcomer, height })
        }),
{
}

/// Transfer updates both fields: a transfer by the owner overwrites the
/// record with the destination and the current height, whatever the
/// record's prior height was, and registers or removes no other
/// fingerprint.
pub proof fn lemma_transfer_updates_both(
    m: Map<Seq<u8>, ClaimRecord>,
    owner: u64,
    dest: u64,
    claim: Seq<u8>,
    height: u64,
)
    requires
        m.contains_key(claim),
        m[claim].owner == owner,
    ensures
        ({
            let (m1, r1) = transfer_claim_spec(m, owner, claim, dest, height);
            &&& r1 == Ok::<(), Error>(())
            &&& m1[claim] == (ClaimRecord { owner: dest, height })
            &&& m1.dom() == m.dom()
        }),
{
    let (m1, r1) = transfer_claim_spec(m, owner, claim, dest, height);
    assert(m1.dom() =~= m.dom());
}

/// Self-transfer allowed: a transfer whose destination is the caller
/// itself succeeds, refreshes the height, and leaves the owner and the
/// set of registered fingerprints unchanged.
pub proof fn lemma_self_transfer_allowed(
    m: Map<Seq<u8>, ClaimRecord>,
    owner: u64,
    claim: Seq<u8>,
    height: u64,
)
    requires
        m.contains_key(claim),
        m[claim].owner == owner,
    ensures
        ({
            let (m1, r1) = transfer_claim_spec(m, owner, claim, owner, height);
            &&& r1 == Ok::<(), Error>(())
            &&& m1[claim].owner == m[claim].owner
            &&& m1[claim].height == height
            &&& m1.dom() == m.dom()
        }),
{
    let (m1, r1) = transfer_claim_spec(m, owner, claim, owner, height);
    assert(m1.dom() =~= m.dom());
}

/// Atomicity on failure: whenever an operation fails, with any of the
/// three errors, the state it leaves behind is the state it was given.
pub proof fn lemma_failure_is_atomic(
    m: Map<Seq<u8>, ClaimRecord>,
    sender: u64,
    claim: Seq<u8>,
    dest: u64,
    height: u64,
)
    ensures
        create_claim_spec(m, sender, claim, height).1 is Err ==> create_claim_spec(
            m,
            sender,
            claim,
            height,
        ).0 == m,
        revoke_claim_spec(m, sender, claim).1 is Err ==> revoke_claim_spec(m, sender, claim).0
            == m,
        transfer_claim_spec(m, sender, claim, dest, height).1 is Err ==> transfer_claim_spec(
            m,
            sender,
            claim,
            dest,
            height,
        ).0 == m,
{
}

} // verus!
