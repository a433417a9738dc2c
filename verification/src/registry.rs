use vstd::prelude::*;

use crate::types::{ClaimRecord, Config, Error, Event};

verus! {

/// One stored claim: the fingerprint bytes and the current registration
/// record for them.
type Entry = (Vec<u8>, ClaimRecord);

/// The mathematical content of a sequence of stored claims: the mapping
/// from fingerprint to registration record, later entries taking
/// precedence (a well-formed registry never stores a fingerprint twice,
/// so precedence never matters there).
spec fn claims_map_of(entries: Seq<Entry>) -> Map<Seq<u8>, ClaimRecord>
    decreases entries.len(),
{
    if entries.len() == 0 {
        Map::empty()
    } else {
        claims_map_of(entries.drop_last()).insert(entries.last().0@, entries.last().1)
    }
}

/// No fingerprint occurs under two different indices.
spec fn unique_keys(entries: Seq<Entry>) -> bool {
    forall|i: int, j: int|
        0 <= i < j < entries.len() ==> entries[i].0@ != entries[j].0@
}

/// The state transition of a register request, on the map view: the state
/// after the request and its result. Registration fails on a fingerprint
/// already present and otherwise records the caller as owner at the given
/// height.
pub open spec fn create_claim_spec(
    m: Map<Seq<u8>, ClaimRecord>,
    sender: u64,
    claim: Seq<u8>,
    height: u64,
) -> (Map<Seq<u8>, ClaimRecord>, Result<(), Error>) {
    if m.contains_key(claim) {
        (m, Err(Error::ProofAlreadyClaimed))
    } else {
        (m.insert(claim, ClaimRecord { owner: sender, height }), Ok(()))
    }
}

/// The state transition of a revoke request, on the map view: the state
/// after the request and its result. Revocation fails on an absent
/// fingerprint or when the caller is not the recorded owner, and otherwise
/// removes the record.
pub open spec fn revoke_claim_spec(
    m: Map<Seq<u8>, ClaimRecord>,
    sender: u64,
    claim: Seq<u8>,
) -> (Map<Seq<u8>, ClaimRecord>, Result<(), Error>) {
    if !m.contains_key(claim) {
        (m, Err(Error::NoSuchProof))
    } else if m[claim].owner != sender {
        (m, Err(Error::NotProofOwner))
    } else {
        (m.remove(claim), Ok(()))
    }
}

/// The state transition of a transfer request, on the map view: the state
/// after the request and its result. Transfer fails on an absent
/// fingerprint or when the caller is not the recorded owner, and otherwise
/// overwrites both the owner and the height. The destination is not
/// compared with the caller: a self-transfer succeeds and refreshes the
/// height.
pub open spec fn transfer_claim_spec(
    m: Map<Seq<u8>, ClaimRecord>,
    sender: u64,
    claim: Seq<u8>,
    dest: u64,
    height: u64,
) -> (Map<Seq<u8>, ClaimRecord>, Result<(), Error>) {
    if !m.contains_key(claim) {
        (m, Err(Error::NoSuchProof))
    } else if m[claim].owner != sender {
        (m, Err(Error::NotProofOwner))
    } else {
        (m.insert(claim, ClaimRecord { owner: dest, height }), Ok(()))
    }
}

/// The claim registry: the full set of currently active
/// fingerprint -> (owner, height) records, together with its
/// configuration.
pub struct Pallet {
    config: Config,
    proofs: Vec<Entry>,
}

impl Pallet {
    /// The registry state as a mapping from fingerprint to registration
    /// record. Every contract below is stated over this view.
    pub closed spec fn as_map(&self) -> Map<Seq<u8>, ClaimRecord> {
        claims_map_of(self.proofs@)
    }

    /// The configured maximum byte length of a fingerprint.
    pub closed spec fn spec_max_bytes(&self) -> u32 {
        self.config.max_bytes_in_hash
    }

    /// Well-formedness: no fingerprint is stored twice, and every stored
    /// fingerprint respects the configured length bound.
    pub closed spec fn wf(&self) -> bool {
        &&& unique_keys(self.proofs@)
        &&& forall|i: int|
            0 <= i < self.proofs@.len()
                ==> #[trigger] self.proofs@[i].0@.len() <= self.config.max_bytes_in_hash
    }

    /// An empty registry with the given configuration.
    pub fn new(config: Config) -> (r: Pallet)
        ensures
            r.wf(),
            r.spec_max_bytes() == config.max_bytes_in_hash,
            r.as_map() == Map::<Seq<u8>, ClaimRecord>::empty(),
    {
        Pallet { config, proofs: Vec::new() }
    }

    /// The configured maximum byte length of a fingerprint.
    pub fn max_bytes_in_hash(&self) -> (r: u32)
        ensures
            r == self.spec_max_bytes(),
    {
        self.config.max_bytes_in_hash
    }

    /// The index of the stored entry for `claim`, if the fingerprint is
    /// present.
    fn find_index(&self, claim: &Vec<u8>) -> (r: Option<usize>)
        ensures
            match r {
                Some(i) => {
                    &&& i < self.proofs@.len()
                    &&& self.proofs@[i as int].0@ == claim@
                },
                None => forall|i: int|
                    0 <= i < self.proofs@.len() ==> self.proofs@[i].0@ != claim@,
            },
    {
        let mut i: usize = 0;
        while i < self.proofs.len()
            invariant
                i <= self.proofs@.len(),
                forall|j: int| 0 <= j < i ==> self.proofs@[j].0@ != claim@,
            decreases self.proofs@.len() - i,
        {
            if self.proofs[i].0 == *claim {
                proof {
                    assert(self.proofs@[i as int].0@ =~= claim@);
                }
                return Some(i);
            }
            i = i + 1;
        }
        None
    }

    /// Register `claim` for `sender` at the given height. Fails with
    /// `ProofAlreadyClaimed` exactly when the fingerprint is already
    /// present; otherwise inserts `claim -> (sender, current_height)` and
    /// returns the `ClaimCreated` notification. A failing call leaves the
    /// registry untouched.
    pub fn create_claim(&mut self, sender: u64, claim: Vec<u8>, current_height: u64) -> (r: Result<
        Event,
        Error,
    >)
        requires
            old(self).wf(),
            claim@.len() <= old(self).spec_max_bytes(),
        ensures
            final(self).wf(),
            final(self).spec_max_bytes() == old(self).spec_max_bytes(),
            final(self).as_map() == create_claim_spec(
                old(self).as_map(),
                sender,
                claim@,
                current_height,
            ).0,
            r is Ok <==> !old(self).as_map().contains_key(claim@),
            r matches Ok(e) ==> e == Event::ClaimCreated(sender, claim),
            r matches Err(e) ==> Err::<(), Error>(e) == create_claim_spec(
                old(self).as_map(),
                sender,
                claim@,
                current_height,
            ).1,
            r is Err ==> *final(self) == *old(self),
    {
        proof {
            lemma_claims_map_contains(self.proofs@, claim@);
        }
        match self.find_index(&claim) {
            Some(_) => Err(Error::ProofAlreadyClaimed),
            None => {
                let ghost old_entries = self.proofs@;
                let stored = claim.clone();
                proof {
                    assert forall|i: int| 0 <= i < claim@.len() implies stored@[i]
                        == claim@[i] by {
                        assert(cloned::<u8>(claim[i], stored[i]));
                    }
                    assert(stored@ =~= claim@);
                }
                let entry = (stored, ClaimRecord { owner: sender, height: current_height });
                let ghost entry_snap = entry;
                self.proofs.push(entry);
                proof {
                    lemma_claims_map_push(old_entries, entry_snap);
                }
                Ok(Event::ClaimCreated(sender, claim))
            },
        }
    }

    /// Revoke `claim` on behalf of `sender`. Fails with `NoSuchProof` when
    /// the fingerprint is absent and with `NotProofOwner` when the caller
    /// is not the recorded owner; otherwise removes the record and returns
    /// the `ClaimRevoked` notification. A failing call leaves the registry
    /// untouched.
    pub fn revoke_claim(&mut self, sender: u64, claim: Vec<u8>) -> (r: Result<Event, Error>)
        requires
            old(self).wf(),
            claim@.len() <= old(self).spec_max_bytes(),
        ensures
            final(self).wf(),
            final(self).spec_max_bytes() == old(self).spec_max_bytes(),
            final(self).as_map() == revoke_claim_spec(old(self).as_map(), sender, claim@).0,
            r is Ok <==> (old(self).as_map().contains_key(claim@) && old(self).as_map()[claim@].owner
                == sender),
            r matches Ok(e) ==> e == Event::ClaimRevoked(sender, claim),
            r matches Err(e) ==> Err::<(), Error>(e) == revoke_claim_spec(
                old(self).as_map(),
                sender,
                claim@,
            ).1,
            r is Err ==> *final(self) == *old(self),
    {
        proof {
            lemma_claims_map_contains(self.proofs@, claim@);
        }
        match self.find_index(&claim) {
            None => Err(Error::NoSuchProof),
            Some(i) => {
                proof {
                    lemma_claims_map_index(self.proofs@, i as int);
                }
                if self.proofs[i].1.owner != sender {
                    Err(Error::NotProofOwner)
                } else {
                    let ghost old_entries = self.proofs@;
                    let entry = self.proofs.remove(i);
                    proof {
                        old_entries.remove_ensures(i as int);
                        lemma_unique_remove(old_entries, i as int);
                        lemma_claims_map_remove(old_entries, i as int);
                        assert forall|j: int| 0 <= j < self.proofs@.len() implies #[trigger] self
                            .proofs@[j].0@.len() <= self.config.max_bytes_in_hash by {
                            if j < i {
                                assert(self.proofs@[j] == old_entries[j]);
                            } else {
                                assert(self.proofs@[j] == old_entries[j + 1]);
                            }
                        }
                    }
                    Ok(Event::ClaimRevoked(sender, claim))
                }
            },
        }
    }

    /// Transfer `claim` from `sender` to `dest` at the given height. Fails
    /// with `NoSuchProof` when the fingerprint is absent and with
    /// `NotProofOwner` when the caller is not the recorded owner;
    /// otherwise overwrites the record with `(dest, current_height)`,
    /// leaving the fingerprint unchanged, and returns the
    /// `ClaimTransferred` notification. The destination is never compared
    /// with the caller: a self-transfer succeeds and refreshes the height.
    /// A failing call leaves the registry untouched.
    pub fn transfer_claim(
        &mut self,
        sender: u64,
        claim: Vec<u8>,
        dest: u64,
        current_height: u64,
    ) -> (r: Result<Event, Error>)
        requires
            old(self).wf(),
            claim@.len() <= old(self).spec_max_bytes(),
        ensures
            final(self).wf(),
            final(self).spec_max_bytes() == old(self).spec_max_bytes(),
            final(self).as_map() == transfer_claim_spec(
                old(self).as_map(),
                sender,
                claim@,
                dest,
                current_height,
            ).0,
            r is Ok <==> (old(self).as_map().contains_key(claim@) && old(self).as_map()[claim@].owner
                == sender),
            r matches Ok(e) ==> e == Event::ClaimTransferred(sender, dest, claim),
            r matches Err(e) ==> Err::<(), Error>(e) == transfer_claim_spec(
                old(self).as_map(),
                sender,
                claim@,
                dest,
                current_height,
            ).1,
            r is Err ==> *final(self) == *old(self),
    {
        proof {
            lemma_claims_map_contains(self.proofs@, claim@);
        }
        match self.find_index(&claim) {
            None => Err(Error::NoSuchProof),
            Some(i) => {
                proof {
                    lemma_claims_map_index(self.proofs@, i as int);
                }
                if self.proofs[i].1.owner != sender {
                    Err(Error::NotProofOwner)
                } else {
                    let ghost old_entries = self.proofs@;
                    let entry = self.proofs.remove(i);
                    let new_entry = (entry.0, ClaimRecord { owner: dest, height: current_height });
                    let ghost entry_snap = new_entry;
                    self.proofs.push(new_entry);
                    proof {
                        old_entries.remove_ensures(i as int);
                        lemma_unique_remove(old_entries, i as int);
                        lemma_claims_map_remove(old_entries, i as int);
                        lemma_claims_map_push(old_entries.remove(i as int), entry_snap);
                        assert(self.as_map() =~= transfer_claim_spec(
                            claims_map_of(old_entries),
                            sender,
                            claim@,
                            dest,
                            current_height,
                        ).0);
                        assert forall|j: int|
                            0 <= j < old_entries.remove(i as int).len() implies old_entries.remove(
                            i as int,
                        )[j].0@ != entry_snap.0@ by {
                            if j < i {
                                assert(old_entries.remove(i as int)[j] == old_entries[j]);
                            } else {
                                assert(old_entries.remove(i as int)[j] == old_entries[j + 1]);
                            }
                        }
                        assert forall|j: int| 0 <= j < self.proofs@.len() implies #[trigger] self
                            .proofs@[j].0@.len() <= self.config.max_bytes_in_hash by {
                            if j < old_entries.len() - 1 {
                                if j < i {
                                    assert(self.proofs@[j] == old_entries[j]);
                                } else {
                                    assert(self.proofs@[j] == old_entries[j + 1]);
                                }
                            } else {
                                assert(self.proofs@[j] == entry_snap);
                            }
                        }
                    }
                    Ok(Event::ClaimTransferred(sender, dest, claim))
                }
            },
        }
    }

    /// Whether `claim` is currently registered.
    pub fn contains_claim(&self, claim: &Vec<u8>) -> (r: bool)
        ensures
            r == self.as_map().contains_key(claim@),
    {
        proof {
            lemma_claims_map_contains(self.proofs@, claim@);
        }
        self.find_index(claim).is_some()
    }

    /// The current record for `claim`: its owner and the height at which
    /// it was created or last transferred, or nothing when the
    /// fingerprint is not registered.
    pub fn get_claim(&self, claim: &Vec<u8>) -> (r: Option<ClaimRecord>)
        requires
            self.wf(),
        ensures
            match r {
                Some(record) => self.as_map().contains_key(claim@) && record == self.as_map()[
                    claim@
                ],
                None => !self.as_map().contains_key(claim@),
            },
    {
        proof {
            lemma_claims_map_contains(self.proofs@, claim@);
        }
        match self.find_index(claim) {
            None => None,
            Some(i) => {
                proof {
                    lemma_claims_map_index(self.proofs@, i as int);
                }
                Some(self.proofs[i].1)
            },
        }
    }

    /// How many fingerprints are currently registered.
    pub fn claim_count(&self) -> (r: usize)
        requires
            self.wf(),
        ensures
            r == self.as_map().len(),
    {
        proof {
            lemma_claims_map_len(self.proofs@);
        }
        self.proofs.len()
    }

    /// The number of stored registration records whose fingerprint is
    /// `claim`.
    pub closed spec fn records_for(&self, claim: Seq<u8>) -> nat {
        count_key(self.proofs@, claim)
    }

    /// Uniqueness: a well-formed registry holds at most one registration
    /// record for any fingerprint, and holds exactly one for each
    /// fingerprint its map view contains. Every operation preserves
    /// well-formedness, so this holds after any sequence of operations.
    pub proof fn lemma_uniqueness(&self, claim: Seq<u8>)
        requires
            self.wf(),
        ensures
            self.records_for(claim) <= 1,
            self.as_map().contains_key(claim) <==> self.records_for(claim) == 1,
    {
        lemma_count_key_le_one(self.proofs@, claim);
        lemma_count_key_zero(self.proofs@, claim);
        lemma_claims_map_contains(self.proofs@, claim);
    }
}

/// The number of entries whose fingerprint is `k`.
spec fn count_key(entries: Seq<Entry>, k: Seq<u8>) -> nat
    decreases entries.len(),
{
    if entries.len() == 0 {
        0
    } else {
        count_key(entries.drop_last(), k) + if entries.last().0@ == k {
            1nat
        } else {
            0nat
        }
    }
}

/// A fingerprint held by no entry is counted zero times.
proof fn lemma_count_key_zero(entries: Seq<Entry>, k: Seq<u8>)
    ensures
        (count_key(entries, k) == 0) <==> (forall|i: int|
            0 <= i < entries.len() ==> entries[i].0@ != k),
    decreases entries.len(),
{
    if entries.len() > 0 {
        lemma_count_key_zero(entries.drop_last(), k);
        if count_key(entries, k) == 0 {
            assert forall|i: int| 0 <= i < entries.len() implies entries[i].0@ != k by {
                if i < entries.len() - 1 {
                    assert(entries.drop_last()[i] == entries[i]);
                }
            }
        } else {
            if entries.last().0@ != k {
                let i = choose|i: int|
                    0 <= i < entries.drop_last().len() && entries.drop_last()[i].0@ == k;
                assert(entries[i].0@ == k);
            }
        }
    }
}

/// Without duplicate fingerprints, no fingerprint is counted twice.
proof fn lemma_count_key_le_one(entries: Seq<Entry>, k: Seq<u8>)
    requires
        unique_keys(entries),
    ensures
        count_key(entries, k) <= 1,
    decreases entries.len(),
{
    if entries.len() > 0 {
        lemma_unique_drop_last(entries);
        lemma_count_key_le_one(entries.drop_last(), k);
        if entries.last().0@ == k {
            assert forall|i: int|
                0 <= i < entries.drop_last().len() implies entries.drop_last()[i].0@ != k by {
                assert(entries.drop_last()[i] == entries[i]);
                assert(entries[i].0@ != entries[entries.len() - 1].0@);
            }
            lemma_count_key_zero(entries.drop_last(), k);
        }
    }
}

/// `claims_map_of(entries)` holds a fingerprint exactly when some entry
/// holds it.
proof fn lemma_claims_map_contains(entries: Seq<Entry>, k: Seq<u8>)
    ensures
        claims_map_of(entries).contains_key(k) <==> (exists|i: int|
            0 <= i < entries.len() && entries[i].0@ == k),
    decreases entries.len(),
{
    if entries.len() > 0 {
        lemma_claims_map_contains(entries.drop_last(), k);
        if claims_map_of(entries).contains_key(k) {
            if entries.last().0@ != k {
                let i = choose|i: int|
                    0 <= i < entries.drop_last().len() && entries.drop_last()[i].0@ == k;
                assert(entries[i].0@ == k);
            } else {
                assert(entries[entries.len() - 1].0@ == k);
            }
        }
        if exists|i: int| 0 <= i < entries.len() && entries[i].0@ == k {
            let i = choose|i: int| 0 <= i < entries.len() && entries[i].0@ == k;
            if i < entries.len() - 1 {
                assert(entries.drop_last()[i].0@ == k);
            }
        }
    }
}

/// Dropping the last entry keeps the fingerprints free of duplicates.
proof fn lemma_unique_drop_last(entries: Seq<Entry>)
    requires
        unique_keys(entries),
        entries.len() > 0,
    ensures
        unique_keys(entries.drop_last()),
{
    assert forall|i: int, j: int|
        0 <= i < j < entries.drop_last().len() implies entries.drop_last()[i].0@
        != entries.drop_last()[j].0@ by {
        assert(entries.drop_last()[i] == entries[i]);
        assert(entries.drop_last()[j] == entries[j]);
    }
}

/// Removing an entry keeps the fingerprints free of duplicates.
proof fn lemma_unique_remove(entries: Seq<Entry>, i: int)
    requires
        unique_keys(entries),
        0 <= i < entries.len(),
    ensures
        unique_keys(entries.remove(i)),
{
    entries.remove_ensures(i);
    assert forall|x: int, y: int|
        0 <= x < y < entries.remove(i).len() implies entries.remove(i)[x].0@
        != entries.remove(i)[y].0@ by {
        if x < i {
            assert(entries.remove(i)[x] == entries[x]);
        } else {
            assert(entries.remove(i)[x] == entries[x + 1]);
        }
        if y < i {
            assert(entries.remove(i)[y] == entries[y]);
        } else {
            assert(entries.remove(i)[y] == entries[y + 1]);
        }
    }
}

/// In a registry without duplicate fingerprints, the map assigns to each
/// stored fingerprint exactly the record stored beside it.
proof fn lemma_claims_map_index(entries: Seq<Entry>, i: int)
    requires
        unique_keys(entries),
        0 <= i < entries.len(),
    ensures
        claims_map_of(entries).contains_key(entries[i].0@),
        claims_map_of(entries)[entries[i].0@] == entries[i].1,
    decreases entries.len(),
{
    if i < entries.len() - 1 {
        lemma_unique_drop_last(entries);
        lemma_claims_map_index(entries.drop_last(), i);
        assert(entries.drop_last()[i] == entries[i]);
        assert(entries.last().0@ != entries[i].0@);
    }
}

/// Appending an entry inserts its fingerprint into the map.
proof fn lemma_claims_map_push(entries: Seq<Entry>, e: Entry)
    ensures
        claims_map_of(entries.push(e)) == claims_map_of(entries).insert(e.0@, e.1),
{
    assert(entries.push(e).drop_last() =~= entries);
    assert(entries.push(e).last() == e);
}

/// Removing the entry at an index removes its fingerprint from the map.
proof fn lemma_claims_map_remove(entries: Seq<Entry>, i: int)
    requires
        unique_keys(entries),
        0 <= i < entries.len(),
    ensures
        claims_map_of(entries.remove(i)) == claims_map_of(entries).remove(entries[i].0@),
    decreases entries.len(),
{
    entries.remove_ensures(i);
    let k = entries[i].0@;
    if i == entries.len() - 1 {
        assert(entries.remove(i) =~= entries.drop_last());
        lemma_claims_map_contains(entries.drop_last(), k);
        assert forall|j: int|
            0 <= j < entries.drop_last().len() implies entries.drop_last()[j].0@ != k by {
            assert(entries.drop_last()[j] == entries[j]);
        }
        assert(!claims_map_of(entries.drop_last()).contains_key(k));
        assert(claims_map_of(entries.remove(i)) =~= claims_map_of(entries).remove(k));
    } else {
        let shorter = entries.remove(i);
        entries.drop_last().remove_ensures(i);
        lemma_unique_drop_last(entries);
        assert(shorter.last() == entries.last());
        assert(shorter.drop_last() =~= entries.drop_last().remove(i));
        assert(entries.drop_last()[i] == entries[i]);
        lemma_claims_map_remove(entries.drop_last(), i);
        assert(entries.last().0@ != k);
        assert(claims_map_of(shorter) =~= claims_map_of(entries).remove(k));
    }
}

/// In a registry without duplicate fingerprints, the number of map entries
/// is the number of stored entries.
proof fn lemma_claims_map_len(entries: Seq<Entry>)
    requires
        unique_keys(entries),
    ensures
        claims_map_of(entries).dom().finite(),
        claims_map_of(entries).len() == entries.len(),
    decreases entries.len(),
{
    if entries.len() > 0 {
        lemma_unique_drop_last(entries);
        lemma_claims_map_len(entries.drop_last());
        lemma_claims_map_contains(entries.drop_last(), entries.last().0@);
        assert forall|j: int|
            0 <= j < entries.drop_last().len() implies entries.drop_last()[j].0@
            != entries.last().0@ by {
            assert(entries.drop_last()[j] == entries[j]);
        }
        assert(!claims_map_of(entries.drop_last()).contains_key(entries.last().0@));
        vstd::set::axiom_set_insert_len(
            claims_map_of(entries.drop_last()).dom(),
            entries.last().0@,
        );
    }
}

} // verus!
