//! Laws of the registry, stated over the contents that `claim_proof` and
//! `revoke_proof` are specified by.
use vstd::prelude::*;

use crate::registry::{
    bounded, claim_outcome, claim_state, revoke_outcome, revoke_state, AccountId, BlockNumber,
    ClaimRecord, Claims, Error,
};

verus! {

/// One operation on a registry, as a caller issues it.
pub enum Call {
    Claim { who: AccountId, proof: Seq<u8>, now: BlockNumber },
    Revoke { who: AccountId, proof: Seq<u8> },
}

/// What the registry answers to `c` on contents `m`.
pub open spec fn outcome(m: Claims, max: nat, c: Call) -> Result<(), Error> {
    match c {
        Call::Claim { who, proof, now } => claim_outcome(m, max, proof),
        Call::Revoke { who, proof } => revoke_outcome(m, max, who, proof),
    }
}

/// The contents after `c` on contents `m`.
pub open spec fn step(m: Claims, max: nat, c: Call) -> Claims {
    match c {
        Call::Claim { who, proof, now } => claim_state(m, max, who, proof, now),
        Call::Revoke { who, proof } => revoke_state(m, max, who, proof),
    }
}

/// The contents after the calls of `calls`, in order, on contents `m`.
pub open spec fn run(m: Claims, max: nat, calls: Seq<Call>) -> Claims
    decreases calls.len(),
{
    if calls.len() == 0 {
        m
    } else {
        run(step(m, max, calls[0]), max, calls.drop_first())
    }
}

/// Whether `c` is a revocation of `proof` issued by `who`.
pub open spec fn revokes(c: Call, who: AccountId, proof: Seq<u8>) -> bool {
    c matches Call::Revoke { who: w, proof: p } && w == who && p == proof
}

/// Whether `c` is a claim on `proof`, by anyone.
pub open spec fn claims(c: Call, proof: Seq<u8>) -> bool {
    c matches Call::Claim { proof: p, .. } && p == proof
}

proof fn lemma_claim_survives(m: Claims, max: nat, proof: Seq<u8>, calls: Seq<Call>)
    requires
        m.contains_key(proof),
        forall|i: int| 0 <= i < calls.len() ==> !revokes(#[trigger] calls[i], m[proof].owner, proof),
    ensures
        run(m, max, calls).contains_key(proof),
        run(m, max, calls)[proof] == m[proof],
    decreases calls.len(),
{
    if calls.len() > 0 {
        let next = step(m, max, calls[0]);
        assert(!revokes(calls[0], m[proof].owner, proof));
        assert(next.contains_key(proof) && next[proof] == m[proof]);
        let rest = calls.drop_first();
        assert forall|i: int| 0 <= i < rest.len() implies !revokes(
            #[trigger] rest[i],
            next[proof].owner,
            proof,
        ) by {
            assert(rest[i] == calls[i + 1]);
        }
        lemma_claim_survives(next, max, proof, rest);
    }
}

/// A fingerprint is claimed once: after `who` claims it, it keeps that claim
/// through any calls that do not include its revocation by `who`, and every
/// further claim on it, by `who` or anyone else, is refused with
/// `ProofAlreadyClaimed` and changes nothing.
pub proof fn claim_is_exclusive(
    m: Claims,
    max: nat,
    who: AccountId,
    proof: Seq<u8>,
    now: BlockNumber,
    later: Seq<Call>,
    other: AccountId,
    other_now: BlockNumber,
)
    requires
        claim_outcome(m, max, proof) is Ok,
        forall|i: int| 0 <= i < later.len() ==> !revokes(#[trigger] later[i], who, proof),
    ensures
        ({
            let after = run(claim_state(m, max, who, proof, now), max, later);
            &&& after.contains_key(proof)
            &&& after[proof] == (ClaimRecord { owner: who, created_at: now })
            &&& claim_outcome(after, max, proof) == Err::<(), Error>(Error::ProofAlreadyClaimed)
            &&& claim_state(after, max, other, proof, other_now) == after
        }),
{
    let first = claim_state(m, max, who, proof, now);
    lemma_claim_survives(first, max, proof, later);
}

/// Only the owner may revoke: on a claimed fingerprint, a revocation is
/// accepted exactly when the caller is the recorded owner; anyone else is
/// refused with `NotProofOwner` and the contents stay as they were.
pub proof fn revoke_needs_owner(m: Claims, max: nat, caller: AccountId, proof: Seq<u8>)
    requires
        bounded(m, max),
        m.contains_key(proof),
    ensures
        revoke_outcome(m, max, caller, proof) is Ok <==> caller == m[proof].owner,
        caller != m[proof].owner ==> revoke_outcome(m, max, caller, proof) == Err::<(), Error>(
            Error::NotProofOwner,
        ),
        caller != m[proof].owner ==> revoke_state(m, max, caller, proof) == m,
{
}

/// A claim followed by its revocation by the same party leaves the contents
/// as they were, and the fingerprint may then be claimed by anyone.
pub proof fn claim_then_revoke(
    m: Claims,
    max: nat,
    owner: AccountId,
    proof: Seq<u8>,
    now: BlockNumber,
    next: AccountId,
    next_now: BlockNumber,
)
    requires
        claim_outcome(m, max, proof) is Ok,
    ensures
        ({
            let claimed = claim_state(m, max, owner, proof, now);
            let freed = revoke_state(claimed, max, owner, proof);
            &&& revoke_outcome(claimed, max, owner, proof) is Ok
            &&& freed == m
            &&& claim_outcome(freed, max, proof) is Ok
            &&& claim_state(freed, max, next, proof, next_now) == m.insert(
                proof,
                ClaimRecord { owner: next, created_at: next_now },
            )
        }),
{
    let claimed = claim_state(m, max, owner, proof, now);
    assert(revoke_state(claimed, max, owner, proof) =~= m);
}

proof fn lemma_stays_unclaimed(m: Claims, max: nat, proof: Seq<u8>, calls: Seq<Call>)
    requires
        !m.contains_key(proof),
        forall|i: int| 0 <= i < calls.len() ==> !claims(#[trigger] calls[i], proof),
    ensures
        !run(m, max, calls).contains_key(proof),
    decreases calls.len(),
{
    if calls.len() > 0 {
        assert(!claims(calls[0], proof));
        let rest = calls.drop_first();
        assert forall|i: int| 0 <= i < rest.len() implies !claims(#[trigger] rest[i], proof) by {
            assert(rest[i] == calls[i + 1]);
        }
        lemma_stays_unclaimed(step(m, max, calls[0]), max, proof, rest);
    }
}

/// A fingerprint of acceptable length that no call has claimed cannot be
/// revoked: the revocation is refused with `ProofDoesNotExist`.
pub proof fn revoke_of_unclaimed(
    m: Claims,
    max: nat,
    calls: Seq<Call>,
    caller: AccountId,
    proof: Seq<u8>,
)
    requires
        proof.len() <= max,
        !m.contains_key(proof),
        forall|i: int| 0 <= i < calls.len() ==> !claims(#[trigger] calls[i], proof),
    ensures
        revoke_outcome(run(m, max, calls), max, caller, proof) == Err::<(), Error>(
            Error::ProofDoesNotExist,
        ),
{
    lemma_stays_unclaimed(m, max, proof, calls);
}

/// Once a claim is revoked, revoking it again, by anyone, is refused with
/// `ProofDoesNotExist`.
pub proof fn revoke_of_revoked(
    m: Claims,
    max: nat,
    owner: AccountId,
    caller: AccountId,
    proof: Seq<u8>,
)
    requires
        revoke_outcome(m, max, owner, proof) is Ok,
    ensures
        revoke_outcome(revoke_state(m, max, owner, proof), max, caller, proof) == Err::<(), Error>(
            Error::ProofDoesNotExist,
        ),
{
}

/// A refused call changes nothing, so issuing it again any number of times
/// is refused with the same error and still changes nothing.
pub proof fn refusal_repeats(m: Claims, max: nat, c: Call, times: nat)
    requires
        outcome(m, max, c) is Err,
    ensures
        step(m, max, c) == m,
        outcome(step(m, max, c), max, c) == outcome(m, max, c),
        run(m, max, Seq::new(times, |i: int| c)) == m,
    decreases times,
{
    if times > 0 {
        let calls = Seq::new(times, |i: int| c);
        assert(calls.drop_first() =~= Seq::new((times - 1) as nat, |i: int| c));
        refusal_repeats(m, max, c, (times - 1) as nat);
    }
}

} // verus!
