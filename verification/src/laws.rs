//! Laws of the registry's transition functions.
//!
//! Each proof function states a property that holds of every registry state
//! and every choice of arguments. Because the executable operations of
//! [`crate::registry::Pallet`] are ensured to follow these transition
//! functions exactly, each law carries over to the executable registry.

use vstd::prelude::*;

use crate::model::{
    create_outcome, revoke_outcome, transfer_outcome, AccountId, BlockNumber, ClaimInfo, ClaimMap,
    Error,
};

verus! {

/// Uniqueness: after a successful creation of a claim on `identifier`, any
/// further creation on the same identifier, by any caller, fails with
/// `ProofAlreadyExists` — until the claim is revoked, the entry persists.
pub proof fn lemma_create_is_unique(
    claims: ClaimMap,
    next: ClaimMap,
    limit: nat,
    first_caller: AccountId,
    second_caller: AccountId,
    identifier: Seq<u8>,
    first_now: BlockNumber,
    second_now: BlockNumber,
)
    requires
        create_outcome(claims, limit, first_caller, identifier, first_now) == Ok::<
            ClaimMap,
            Error,
        >(next),
    ensures
        create_outcome(next, limit, second_caller, identifier, second_now) == Err::<
            ClaimMap,
            Error,
        >(Error::ProofAlreadyExists),
{
    assert(next.dom().contains(identifier));
}

/// Ownership gating: a claim owned by `owner` can be neither revoked nor
/// transferred by a different caller; both operations fail with
/// `NotClaimOwner`.
pub proof fn lemma_ownership_gating(
    claims: ClaimMap,
    limit: nat,
    owner: AccountId,
    caller: AccountId,
    recipient: AccountId,
    identifier: Seq<u8>,
    now: BlockNumber,
)
    requires
        identifier.len() < limit,
        claims.dom().contains(identifier),
        claims[identifier].owner == owner,
        caller != owner,
    ensures
        revoke_outcome(claims, limit, caller, identifier) == Err::<ClaimMap, Error>(
            Error::NotClaimOwner,
        ),
        transfer_outcome(claims, limit, caller, identifier, recipient, now) == Err::<
            ClaimMap,
            Error,
        >(Error::NotClaimOwner),
{
}

/// Existence gating: an identifier with no current entry can be neither
/// revoked nor transferred; both operations fail with `ClaimNotExist`.
pub proof fn lemma_existence_gating(
    claims: ClaimMap,
    limit: nat,
    caller: AccountId,
    recipient: AccountId,
    identifier: Seq<u8>,
    now: BlockNumber,
)
    requires
        identifier.len() < limit,
        !claims.dom().contains(identifier),
    ensures
        revoke_outcome(claims, limit, caller, identifier) == Err::<ClaimMap, Error>(
            Error::ClaimNotExist,
        ),
        transfer_outcome(claims, limit, caller, identifier, recipient, now) == Err::<
            ClaimMap,
            Error,
        >(Error::ClaimNotExist),
{
}

/// Length gating: an identifier whose length reaches the configured bound is
/// rejected by every operation with `BadMetadata`, whatever the other
/// arguments; no transition yields a successor map.
pub proof fn lemma_length_gating(
    claims: ClaimMap,
    limit: nat,
    caller: AccountId,
    recipient: AccountId,
    identifier: Seq<u8>,
    now: BlockNumber,
)
    requires
        identifier.len() >= limit,
    ensures
        create_outcome(claims, limit, caller, identifier, now) == Err::<ClaimMap, Error>(
            Error::BadMetadata,
        ),
        revoke_outcome(claims, limit, caller, identifier) == Err::<ClaimMap, Error>(
            Error::BadMetadata,
        ),
        transfer_outcome(claims, limit, caller, identifier, recipient, now) == Err::<
            ClaimMap,
            Error,
        >(Error::BadMetadata),
{
}

/// Transfer effect: after a successful transfer, the entry for the identifier
/// records the recipient as owner and the ledger position of the transfer —
/// not the original creation position — and no other entry changes.
pub proof fn lemma_transfer_effect(
    claims: ClaimMap,
    next: ClaimMap,
    limit: nat,
    caller: AccountId,
    recipient: AccountId,
    identifier: Seq<u8>,
    now: BlockNumber,
)
    requires
        transfer_outcome(claims, limit, caller, identifier, recipient, now) == Ok::<
            ClaimMap,
            Error,
        >(next),
    ensures
        next.dom().contains(identifier),
        next[identifier] == (ClaimInfo { owner: recipient, registered_at: now }),
        forall|other: Seq<u8>| other != identifier ==> (
            next.dom().contains(other) == claims.dom().contains(other)
            && (next.dom().contains(other) ==> next[other] == claims[other])
        ),
{
}

/// Revoke effect: after a successful revocation, the identifier is absent
/// from the map, and a subsequent creation on it, by any caller, succeeds.
pub proof fn lemma_revoke_effect(
    claims: ClaimMap,
    next: ClaimMap,
    limit: nat,
    caller: AccountId,
    later_caller: AccountId,
    identifier: Seq<u8>,
    later_now: BlockNumber,
)
    requires
        revoke_outcome(claims, limit, caller, identifier) == Ok::<ClaimMap, Error>(next),
    ensures
        !next.dom().contains(identifier),
        create_outcome(next, limit, later_caller, identifier, later_now) == Ok::<
            ClaimMap,
            Error,
        >(next.insert(
            identifier,
            (ClaimInfo { owner: later_caller, registered_at: later_now }),
        )),
{
}

} // verus!
