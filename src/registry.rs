//! The claim registry: a map from fingerprint to the record of its one live
//! claim, with the create-once and owner-gated-delete rules.
use vstd::prelude::*;

verus! {

/// Authenticated identity of a caller.
pub type AccountId = u64;

/// Logical time at which a claim was accepted (a block height).
pub type BlockNumber = u32;

/// Parameters that the host chooses for a registry.
pub struct Config {
    /// The longest fingerprint accepted, in bytes.
    pub max_bytes_in_hash: u32,
}

/// The live claim on one fingerprint.
#[derive(Clone, Copy, Debug, PartialEq, Eq, Structural)]
pub struct ClaimRecord {
    pub owner: AccountId,
    pub created_at: BlockNumber,
}

/// What a successful operation reports to the host's event sink.
#[derive(Debug, PartialEq, Eq)]
pub enum Event {
    ClaimCreated(AccountId, Vec<u8>),
    ClaimRevoked(AccountId, Vec<u8>),
}

/// Why an operation was refused. A refused operation changes nothing.
#[derive(Clone, Copy, Debug, PartialEq, Eq, Structural)]
pub enum Error {
    /// The fingerprint is longer than the registry accepts.
    ProofTooLong,
    /// `claim_proof` on a fingerprint that already has a live claim.
    ProofAlreadyClaimed,
    /// `revoke_proof` on a fingerprint that has no live claim.
    ProofDoesNotExist,
    /// `revoke_proof` by someone other than the claim's owner.
    NotProofOwner,
}

/// Contents of a registry: each claimed fingerprint with its record.
pub type Claims = Map<Seq<u8>, ClaimRecord>;

/// Whether every claimed fingerprint is at most `max` bytes long.
pub open spec fn bounded(m: Claims, max: nat) -> bool {
    forall|k: Seq<u8>| #[trigger] m.contains_key(k) ==> k.len() <= max
}

/// What `claim_proof` answers on contents `m`.
pub open spec fn claim_outcome(m: Claims, max: nat, proof: Seq<u8>) -> Result<(), Error> {
    if proof.len() > max {
        Err(Error::ProofTooLong)
    } else if m.contains_key(proof) {
        Err(Error::ProofAlreadyClaimed)
    } else {
        Ok(())
    }
}

/// The contents after `claim_proof`: the new record where the claim is
/// accepted, the old contents where it is refused.
pub open spec fn claim_state(
    m: Claims,
    max: nat,
    who: AccountId,
    proof: Seq<u8>,
    now: BlockNumber,
) -> Claims {
    if claim_outcome(m, max, proof) is Ok {
        m.insert(proof, ClaimRecord { owner: who, created_at: now })
    } else {
        m
    }
}

/// What `revoke_proof` answers on contents `m`.
pub open spec fn revoke_outcome(m: Claims, max: nat, who: AccountId, proof: Seq<u8>) -> Result<
    (),
    Error,
> {
    if proof.len() > max {
        Err(Error::ProofTooLong)
    } else if !m.contains_key(proof) {
        Err(Error::ProofDoesNotExist)
    } else if m[proof].owner != who {
        Err(Error::NotProofOwner)
    } else {
        Ok(())
    }
}

/// The contents after `revoke_proof`: without the fingerprint where the
/// revocation is accepted, unchanged where it is refused.
pub open spec fn revoke_state(m: Claims, max: nat, who: AccountId, proof: Seq<u8>) -> Claims {
    if revoke_outcome(m, max, who, proof) is Ok {
        m.remove(proof)
    } else {
        m
    }
}

struct Entry {
    proof: Vec<u8>,
    record: ClaimRecord,
}

/// A claim registry. Its contents are viewed as a map from fingerprint to
/// record; every fingerprint in it has exactly one record.
pub struct Pallet {
    max_bytes_in_hash: u32,
    entries: Vec<Entry>,
    claims: Ghost<Claims>,
}

impl View for Pallet {
    type V = Claims;

    closed spec fn view(&self) -> Claims {
        self.claims@
    }
}

impl Pallet {
    /// The longest fingerprint this registry accepts.
    pub closed spec fn max_bytes(&self) -> nat {
        self.max_bytes_in_hash as nat
    }

    spec fn key(&self, i: int) -> Seq<u8> {
        self.entries@[i].proof@
    }

    /// The entries hold the contents, each fingerprint once, each within
    /// the length bound.
    pub closed spec fn wf(&self) -> bool {
        &&& forall|i: int, j: int|
            0 <= i < j < self.entries@.len() ==> #[trigger] self.key(i) != #[trigger] self.key(j)
        &&& forall|i: int|
            0 <= i < self.entries@.len() ==> {
                &&& self.claims@.contains_key(#[trigger] self.key(i))
                &&& self.claims@[self.key(i)] == self.entries@[i].record
            }
        &&& forall|k: Seq<u8>| #[trigger]
            self.claims@.contains_key(k) ==> exists|i: int|
                0 <= i < self.entries@.len() && #[trigger] self.key(i) == k
        &&& bounded(self.claims@, self.max_bytes())
    }

    /// Every fingerprint in a well-formed registry is within its bound.
    pub proof fn contents_bounded(&self)
        requires
            self.wf(),
        ensures
            bounded(self@, self.max_bytes()),
    {
    }

    /// An empty registry with the given configuration.
    pub fn new(config: Config) -> (r: Pallet)
        ensures
            r.wf(),
            r@ == Claims::empty(),
            r.max_bytes() == config.max_bytes_in_hash,
    {
        Pallet { max_bytes_in_hash: config.max_bytes_in_hash, entries: Vec::new(), claims: Ghost(Map::empty()) }
    }

    /// The longest fingerprint this registry accepts, in bytes.
    pub fn max_bytes_in_hash(&self) -> (r: u32)
        ensures
            r == self.max_bytes(),
    {
        self.max_bytes_in_hash
    }

    fn find(&self, proof: &Vec<u8>) -> (r: Option<usize>)
        requires
            self.wf(),
        ensures
            match r {
                Some(i) => i < self.entries@.len() && self.key(i as int) == proof@,
                None => !self@.contains_key(proof@),
            },
    {
        let mut i: usize = 0;
        while i < self.entries.len()
            invariant
                self.wf(),
                i <= self.entries@.len(),
                forall|j: int| 0 <= j < i ==> self.key(j) != proof@,
            decreases self.entries@.len() - i,
        {
            if bytes_eq(&self.entries[i].proof, proof) {
                return Some(i);
            }
            i += 1;
        }
        None
    }

    /// The live claim on `proof`, if there is one.
    pub fn claim_of(&self, proof: &Vec<u8>) -> (r: Option<ClaimRecord>)
        requires
            self.wf(),
        ensures
            r == (if self@.contains_key(proof@) {
                Some(self@[proof@])
            } else {
                None::<ClaimRecord>
            }),
    {
        match self.find(proof) {
            Some(i) => Some(self.entries[i].record),
            None => None,
        }
    }

    /// Claims `proof` for `sender` at time `now`. Refused with
    /// `ProofTooLong` when the fingerprint exceeds the bound, else with
    /// `ProofAlreadyClaimed` when it has a live claim; otherwise records
    /// `sender` as owner and reports `ClaimCreated`.
    pub fn claim_proof(&mut self, sender: AccountId, proof: Vec<u8>, now: BlockNumber) -> (r: Result<
        Event,
        Error,
    >)
        requires
            old(self).wf(),
        ensures
            final(self).wf(),
            final(self).max_bytes() == old(self).max_bytes(),
            final(self)@ == claim_state(old(self)@, old(self).max_bytes(), sender, proof@, now),
            r is Ok <==> claim_outcome(old(self)@, old(self).max_bytes(), proof@) is Ok,
            r matches Err(e) ==> claim_outcome(old(self)@, old(self).max_bytes(), proof@) == Err::<(), Error>(e),
            r matches Ok(ev) ==> (ev matches Event::ClaimCreated(who, p) && who == sender && p@ == proof@),
    {
        if proof.len() as u64 > self.max_bytes_in_hash as u64 {
            return Err(Error::ProofTooLong);
        }
        if self.find(&proof).is_some() {
            return Err(Error::ProofAlreadyClaimed);
        }
        let record = ClaimRecord { owner: sender, created_at: now };
        let stored = proof.clone();
        assert(stored@ =~= proof@);
        let ghost before = *self;
        self.entries.push(Entry { proof: stored, record });
        self.claims = Ghost(self.claims@.insert(proof@, record));
        proof {
            let n = before.entries@.len() as int;
            assert(self.key(n) == proof@);
            assert forall|i: int| 0 <= i < n implies #[trigger] self.key(i) == before.key(i) by {}
            assert forall|k: Seq<u8>| #[trigger] self.claims@.contains_key(k) implies exists|i: int|
                0 <= i < self.entries@.len() && #[trigger] self.key(i) == k by {
                if k == proof@ {
                    assert(self.key(n) == k);
                } else {
                    let i = choose|i: int| 0 <= i < n && #[trigger] before.key(i) == k;
                    assert(self.key(i) == k);
                }
            }
        }
        Ok(Event::ClaimCreated(sender, proof))
    }

    /// Revokes `sender`'s claim on `proof`. Refused with `ProofTooLong` when
    /// the fingerprint exceeds the bound, with `ProofDoesNotExist` when it
    /// has no live claim, with `NotProofOwner` when the claim is someone
    /// else's; otherwise removes the claim and reports `ClaimRevoked`.
    pub fn revoke_proof(&mut self, sender: AccountId, proof: Vec<u8>) -> (r: Result<Event, Error>)
        requires
            old(self).wf(),
        ensures
            final(self).wf(),
            final(self).max_bytes() == old(self).max_bytes(),
            final(self)@ == revoke_state(old(self)@, old(self).max_bytes(), sender, proof@),
            r is Ok <==> revoke_outcome(old(self)@, old(self).max_bytes(), sender, proof@) is Ok,
            r matches Err(e) ==> revoke_outcome(old(self)@, old(self).max_bytes(), sender, proof@)
                == Err::<(), Error>(e),
            r matches Ok(ev) ==> (ev matches Event::ClaimRevoked(who, p) && who == sender && p@ == proof@),
    {
        if proof.len() as u64 > self.max_bytes_in_hash as u64 {
            return Err(Error::ProofTooLong);
        }
        let i = match self.find(&proof) {
            Some(i) => i,
            None => {
                return Err(Error::ProofDoesNotExist);
            },
        };
        if self.entries[i].record.owner != sender {
            return Err(Error::NotProofOwner);
        }
        let ghost before = *self;
        let _gone = self.entries.remove(i);
        self.claims = Ghost(self.claims@.remove(proof@));
        proof {
            let n = before.entries@.len() as int;
            assert forall|j: int| 0 <= j < n - 1 implies #[trigger] self.key(j) == before.key(
                if j < i { j } else { j + 1 },
            ) by {}
            assert forall|j: int| 0 <= j < n - 1 implies self.claims@.contains_key(#[trigger] self.key(j))
                && self.claims@[self.key(j)] == self.entries@[j].record by {
                let o = if j < i { j } else { j + 1 };
                assert(before.key(o) != before.key(i as int));
            }
            assert forall|k: Seq<u8>| #[trigger] self.claims@.contains_key(k) implies exists|j: int|
                0 <= j < self.entries@.len() && #[trigger] self.key(j) == k by {
                let o = choose|o: int| 0 <= o < n && #[trigger] before.key(o) == k;
                if o < i {
                    assert(self.key(o) == k);
                } else {
                    assert(self.key(o - 1) == k);
                }
            }
        }
        Ok(Event::ClaimRevoked(sender, proof))
    }
}

/// Byte-wise equality of two buffers.
fn bytes_eq(a: &Vec<u8>, b: &Vec<u8>) -> (r: bool)
    ensures
        r == (a@ == b@),
{
    if a.len() != b.len() {
        return false;
    }
    let mut i: usize = 0;
    while i < a.len()
        invariant
            a@.len() == b@.len(),
            i <= a@.len(),
            forall|j: int| 0 <= j < i ==> a@[j] == b@[j],
        decreases a@.len() - i,
    {
        if a[i] != b[i] {
            return false;
        }
        i += 1;
    }
    assert(a@ =~= b@);
    true
}

} // verus!
