//! The mathematical model of the registry: the abstract map state, the error
//! taxonomy, the event alphabet, and one transition function per operation.
//!
//! Each transition function takes the current claims map together with the
//! operation's arguments and returns either the successor map or the error
//! that rejects the call. The executable registry is proved to follow these
//! transitions exactly, and the library's laws are stated over them.

use vstd::prelude::*;

verus! {

/// The account identifier of an authenticated caller, as handed in by the host.
pub type AccountId = u64;

/// The host's monotonically non-decreasing ledger position (e.g. block height).
pub type BlockNumber = u64;

/// A live claim as the registry records it: who owns it, and at which ledger
/// position it was registered or last transferred.
#[derive(Clone, Copy, PartialEq, Eq, Structural, Debug)]
pub struct ClaimInfo {
    pub owner: AccountId,
    pub registered_at: BlockNumber,
}

/// Why a mutating operation was rejected. Exactly one of these is returned on
/// failure; on success the registry returns unit.
#[derive(Clone, Copy, PartialEq, Eq, Structural, Debug)]
pub enum Error {
    /// The identifier's length is not strictly below the configured bound.
    BadMetadata,
    /// A claim with this identifier is already registered.
    ProofAlreadyExists,
    /// No claim with this identifier is registered.
    ClaimNotExist,
    /// The caller is not the recorded owner of the claim.
    NotClaimOwner,
}

/// The abstract registry state: each registered identifier maps to its claim.
pub type ClaimMap = Map<Seq<u8>, ClaimInfo>;

/// An emitted notification, one per successful operation (ghost image of
/// [`crate::registry::Event`]).
pub enum EventView {
    /// `ClaimCreated(owner, identifier)`
    ClaimCreated(AccountId, Seq<u8>),
    /// `ClaimRevoked(former_owner, identifier)`
    ClaimRevoked(AccountId, Seq<u8>),
    /// `ClaimMutated(former_owner, identifier, new_owner)`
    ClaimMutated(AccountId, Seq<u8>, AccountId),
}

/// The transition for registering a claim: the identifier must be shorter
/// than `limit` and not yet registered; the new entry records the caller as
/// owner and `now` as the registration position.
pub open spec fn create_outcome(
    claims: ClaimMap,
    limit: nat,
    caller: AccountId,
    identifier: Seq<u8>,
    now: BlockNumber,
) -> Result<ClaimMap, Error> {
    if identifier.len() >= limit {
        Err(Error::BadMetadata)
    } else if claims.dom().contains(identifier) {
        Err(Error::ProofAlreadyExists)
    } else {
        Ok(claims.insert(identifier, (ClaimInfo { owner: caller, registered_at: now })))
    }
}

/// The transition for revoking a claim: the identifier must be shorter than
/// `limit`, registered, and owned by the caller; the entry is removed.
pub open spec fn revoke_outcome(
    claims: ClaimMap,
    limit: nat,
    caller: AccountId,
    identifier: Seq<u8>,
) -> Result<ClaimMap, Error> {
    if identifier.len() >= limit {
        Err(Error::BadMetadata)
    } else if !claims.dom().contains(identifier) {
        Err(Error::ClaimNotExist)
    } else if claims[identifier].owner != caller {
        Err(Error::NotClaimOwner)
    } else {
        Ok(claims.remove(identifier))
    }
}

/// The transition for transferring a claim: the identifier must be shorter
/// than `limit`, registered, and owned by the caller; the entry is overwritten
/// with the recipient as owner and `now` as the refreshed registration
/// position. Transferring to the current owner is legal.
pub open spec fn transfer_outcome(
    claims: ClaimMap,
    limit: nat,
    caller: AccountId,
    identifier: Seq<u8>,
    recipient: AccountId,
    now: BlockNumber,
) -> Result<ClaimMap, Error> {
    if identifier.len() >= limit {
        Err(Error::BadMetadata)
    } else if !claims.dom().contains(identifier) {
        Err(Error::ClaimNotExist)
    } else if claims[identifier].owner != caller {
        Err(Error::NotClaimOwner)
    } else {
        Ok(claims.insert(identifier, (ClaimInfo { owner: recipient, registered_at: now })))
    }
}

} // verus!
