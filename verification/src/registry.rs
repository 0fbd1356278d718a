//! The executable claim registry.
//!
//! [`Pallet`] holds the registered claims and the log of emitted events. The
//! claims are stored as a vector of records whose identifiers are pairwise
//! distinct; its abstract view is the map of [`crate::model::ClaimMap`], and
//! each mutating operation is proved to follow the corresponding transition
//! function of [`crate::model`].

use vstd::prelude::*;

use crate::model::{
    create_outcome, revoke_outcome, transfer_outcome, AccountId, BlockNumber, ClaimInfo, ClaimMap,
    Error, EventView,
};

verus! {

/// Host-supplied configuration, fixed for the registry's lifetime.
#[derive(Clone, Copy)]
pub struct Config {
    /// Exclusive upper bound on the length of an accepted identifier.
    pub max_identifier_len: usize,
}

/// One registered claim: the identifier it was registered under, its current
/// owner, and the ledger position of its creation or latest transfer.
pub struct ClaimRecord {
    pub identifier: Vec<u8>,
    pub owner: AccountId,
    pub registered_at: BlockNumber,
}

/// A notification of a successful operation, pushed onto the registry's event
/// log exactly once per success, after the state change.
pub enum Event {
    /// `ClaimCreated(owner, identifier)`
    ClaimCreated(AccountId, Vec<u8>),
    /// `ClaimRevoked(former_owner, identifier)`
    ClaimRevoked(AccountId, Vec<u8>),
    /// `ClaimMutated(former_owner, identifier, new_owner)`
    ClaimMutated(AccountId, Vec<u8>, AccountId),
}

impl View for Event {
    type V = EventView;

    open spec fn view(&self) -> EventView {
        match self {
            Event::ClaimCreated(owner, identifier) => (
                EventView::ClaimCreated(*owner, identifier@)
            ),
            Event::ClaimRevoked(owner, identifier) => (
                EventView::ClaimRevoked(*owner, identifier@)
            ),
            Event::ClaimMutated(owner, identifier, recipient) => (
                EventView::ClaimMutated(*owner, identifier@, *recipient)
            ),
        }
    }
}

/// Whether some record in `s` carries the identifier `id`.
pub open spec fn has_identifier(s: Seq<ClaimRecord>, id: Seq<u8>) -> bool {
    exists|i: int| 0 <= i < s.len() && s[i].identifier@ == id
}

/// Whether the records in `s` carry pairwise distinct identifiers.
pub open spec fn unique_identifiers(s: Seq<ClaimRecord>) -> bool {
    forall|i: int, j: int| 0 <= i < j < s.len() ==> s[i].identifier@ != s[j].identifier@
}

/// The claim recorded in `s` under `id` (meaningful only when `s` has `id`
/// and its identifiers are unique).
pub open spec fn claim_at(s: Seq<ClaimRecord>, id: Seq<u8>) -> ClaimInfo {
    let i = choose|i: int| 0 <= i < s.len() && s[i].identifier@ == id;
    ClaimInfo { owner: s[i].owner, registered_at: s[i].registered_at }
}

/// The abstract map that a record sequence denotes.
pub open spec fn claims_of(s: Seq<ClaimRecord>) -> ClaimMap {
    Map::new(|id: Seq<u8>| has_identifier(s, id), |id: Seq<u8>| claim_at(s, id))
}

/// With pairwise distinct identifiers, the claim recorded under the
/// identifier of the record at `i` is that record's claim.
proof fn lemma_claim_at_index(s: Seq<ClaimRecord>, i: int)
    requires
        unique_identifiers(s),
        0 <= i < s.len(),
    ensures
        claim_at(s, s[i].identifier@) == (ClaimInfo {
            owner: s[i].owner,
            registered_at: s[i].registered_at,
        }),
{
    let id = s[i].identifier@;
    let j = choose|j: int| 0 <= j < s.len() && s[j].identifier@ == id;
    if j < i {
        assert(s[j].identifier@ != s[i].identifier@);
    } else if i < j {
        assert(s[i].identifier@ != s[j].identifier@);
    }
}

/// Appending a record with a fresh identifier denotes inserting its claim.
proof fn lemma_claims_push(s: Seq<ClaimRecord>, r: ClaimRecord)
    requires
        unique_identifiers(s),
        !has_identifier(s, r.identifier@),
    ensures
        unique_identifiers(s.push(r)),
        claims_of(s.push(r)) == claims_of(s).insert(
            r.identifier@,
            (ClaimInfo { owner: r.owner, registered_at: r.registered_at }),
        ),
{
    let t = s.push(r);
    assert forall|i: int, j: int| 0 <= i < j < t.len() implies (
        t[i].identifier@ != t[j].identifier@
    ) by {
        if j < s.len() {
            assert(s[i].identifier@ != s[j].identifier@);
        } else {
            assert(t[i] == s[i]);
        }
    }
    assert forall|id: Seq<u8>| has_identifier(s, id) implies has_identifier(t, id) by {
        let i = choose|i: int| 0 <= i < s.len() && s[i].identifier@ == id;
        assert(t[i].identifier@ == id);
    }
    assert forall|id: Seq<u8>| has_identifier(t, id) && id != r.identifier@ implies (
        has_identifier(s, id)
    ) by {
        let i = choose|i: int| 0 <= i < t.len() && t[i].identifier@ == id;
        assert(i < s.len() && s[i].identifier@ == id);
    }
    assert(t[s.len() as int] == r);
    assert(has_identifier(t, r.identifier@));
    assert forall|id: Seq<u8>| has_identifier(s, id) implies (
        claim_at(t, id) == claim_at(s, id)
    ) by {
        let i = choose|i: int| 0 <= i < s.len() && s[i].identifier@ == id;
        lemma_claim_at_index(s, i);
        assert(t[i] == s[i]);
        lemma_claim_at_index(t, i);
    }
    lemma_claim_at_index(t, s.len() as int);
    assert(claims_of(t) =~= claims_of(s).insert(
        r.identifier@,
        (ClaimInfo { owner: r.owner, registered_at: r.registered_at }),
    ));
}

/// Removing the record at `i` denotes removing its claim.
proof fn lemma_claims_remove(s: Seq<ClaimRecord>, i: int)
    requires
        unique_identifiers(s),
        0 <= i < s.len(),
    ensures
        unique_identifiers(s.remove(i)),
        claims_of(s.remove(i)) == claims_of(s).remove(s[i].identifier@),
{
    let t = s.remove(i);
    let id = s[i].identifier@;
    assert forall|p: int, q: int| 0 <= p < q < t.len() implies (
        t[p].identifier@ != t[q].identifier@
    ) by {
        let p0: int = if p < i { p } else { p + 1 };
        let q0: int = if q < i { q } else { q + 1 };
        assert(t[p] == s[p0] && t[q] == s[q0]);
        assert(s[p0].identifier@ != s[q0].identifier@);
    }
    assert forall|k: Seq<u8>| has_identifier(t, k) implies (
        has_identifier(s, k) && k != id
    ) by {
        let p = choose|p: int| 0 <= p < t.len() && t[p].identifier@ == k;
        let p0: int = if p < i { p } else { p + 1 };
        assert(t[p] == s[p0]);
        assert(s[p0].identifier@ == k);
        if p0 < i {
            assert(s[p0].identifier@ != s[i].identifier@);
        } else {
            assert(s[i].identifier@ != s[p0].identifier@);
        }
    }
    assert forall|k: Seq<u8>| has_identifier(s, k) && k != id implies (
        has_identifier(t, k) && claim_at(t, k) == claim_at(s, k)
    ) by {
        let p0 = choose|p0: int| 0 <= p0 < s.len() && s[p0].identifier@ == k;
        let p: int = if p0 < i { p0 } else { p0 - 1 };
        assert(t[p] == s[p0]);
        lemma_claim_at_index(s, p0);
        lemma_claim_at_index(t, p);
    }
    assert(claims_of(t) =~= claims_of(s).remove(id));
}

/// Overwriting the record at `i` with one carrying the same identifier
/// denotes inserting the new claim.
proof fn lemma_claims_update(s: Seq<ClaimRecord>, i: int, r: ClaimRecord)
    requires
        unique_identifiers(s),
        0 <= i < s.len(),
        r.identifier@ == s[i].identifier@,
    ensures
        unique_identifiers(s.update(i, r)),
        claims_of(s.update(i, r)) == claims_of(s).insert(
            r.identifier@,
            (ClaimInfo { owner: r.owner, registered_at: r.registered_at }),
        ),
{
    let t = s.update(i, r);
    assert forall|p: int, q: int| 0 <= p < q < t.len() implies (
        t[p].identifier@ != t[q].identifier@
    ) by {
        assert(s[p].identifier@ != s[q].identifier@);
        assert(t[p].identifier@ == s[p].identifier@ && t[q].identifier@ == s[q].identifier@);
    }
    assert forall|k: Seq<u8>| has_identifier(t, k) implies has_identifier(s, k) by {
        let p = choose|p: int| 0 <= p < t.len() && t[p].identifier@ == k;
        assert(s[p].identifier@ == k);
    }
    assert forall|k: Seq<u8>| has_identifier(s, k) implies has_identifier(t, k) by {
        let p = choose|p: int| 0 <= p < s.len() && s[p].identifier@ == k;
        assert(t[p].identifier@ == k);
    }
    assert forall|k: Seq<u8>| has_identifier(s, k) && k != r.identifier@ implies (
        claim_at(t, k) == claim_at(s, k)
    ) by {
        let p = choose|p: int| 0 <= p < s.len() && s[p].identifier@ == k;
        assert(t[p] == s[p]);
        lemma_claim_at_index(s, p);
        lemma_claim_at_index(t, p);
    }
    lemma_claim_at_index(t, i);
    assert(claims_of(t) =~= claims_of(s).insert(
        r.identifier@,
        (ClaimInfo { owner: r.owner, registered_at: r.registered_at }),
    ));
}

/// A copy of an identifier, byte for byte.
fn clone_identifier(identifier: &Vec<u8>) -> (copy: Vec<u8>)
    ensures
        copy@ == identifier@,
{
    let copy = identifier.clone();
    proof {
        assert forall|i: int| 0 <= i < identifier@.len() implies identifier@[i] == copy@[i] by {
            assert(cloned::<u8>(identifier[i], copy[i]));
        }
        assert(copy@ =~= identifier@);
    }
    copy
}

/// The claim registry: the sole persistent state is the claims map; the event
/// log records the notifications owed to the host's event sink.
pub struct Pallet {
    config: Config,
    proofs: Vec<ClaimRecord>,
    events: Vec<Event>,
}

impl Pallet {
    /// The abstract view of the registered claims.
    pub closed spec fn claims(self) -> ClaimMap {
        claims_of(self.proofs@)
    }

    /// The exclusive identifier-length bound, as a mathematical integer.
    pub closed spec fn limit(self) -> nat {
        self.config.max_identifier_len as nat
    }

    /// The events emitted so far, oldest first.
    pub closed spec fn events(self) -> Seq<EventView> {
        Seq::new(self.events@.len(), |i: int| self.events@[i]@)
    }

    /// The registry's invariant: registered identifiers are pairwise distinct.
    pub closed spec fn well_formed(self) -> bool {
        unique_identifiers(self.proofs@)
    }

    /// A fresh registry with the given configuration, no claims, no events.
    pub fn new(config: Config) -> (registry: Pallet)
        ensures
            registry.well_formed(),
            registry.limit() == config.max_identifier_len as nat,
            registry.claims() == ClaimMap::empty(),
            registry.events() == Seq::<EventView>::empty(),
    {
        let registry = Pallet { config, proofs: Vec::new(), events: Vec::new() };
        proof {
            assert(registry.claims() =~= ClaimMap::empty());
            assert(registry.events() =~= Seq::<EventView>::empty());
        }
        registry
    }

    /// The index of the record registered under `identifier`, if any.
    fn find_index(&self, identifier: &Vec<u8>) -> (found: Option<usize>)
        ensures
            match found {
                Some(i) => (
                    i < self.proofs@.len() && self.proofs@[i as int].identifier@ == identifier@
                ),
                None => !has_identifier(self.proofs@, identifier@),
            },
    {
        let n = self.proofs.len();
        let mut i: usize = 0;
        while i < n
            invariant
                n == self.proofs@.len(),
                i <= n,
                forall|k: int| 0 <= k < i ==> self.proofs@[k].identifier@ != identifier@,
            decreases n - i,
        {
            if &self.proofs[i].identifier == identifier {
                return Some(i);
            }
            i += 1;
        }
        None
    }

    /// Registers `identifier` to `caller` at ledger position `now`, or rejects
    /// the call and leaves the registry unchanged. On success the registry
    /// emits `ClaimCreated(caller, identifier)`.
    pub fn create_claim(
        &mut self,
        caller: AccountId,
        identifier: Vec<u8>,
        now: BlockNumber,
    ) -> (result: Result<(), Error>)
        requires
            old(self).well_formed(),
        ensures
            final(self).well_formed(),
            final(self).limit() == old(self).limit(),
            match create_outcome(old(self).claims(), old(self).limit(), caller, identifier@, now) {
                Ok(next) => (
                    result == Ok::<(), Error>(())
                    && final(self).claims() == next
                    && final(self).events() == old(self).events().push(
                        EventView::ClaimCreated(caller, identifier@),
                    )
                ),
                Err(e) => (
                    result == Err::<(), Error>(e)
                    && final(self).claims() == old(self).claims()
                    && final(self).events() == old(self).events()
                ),
            },
    {
        if identifier.len() >= self.config.max_identifier_len {
            return Err(Error::BadMetadata);
        }
        if self.find_index(&identifier).is_some() {
            proof {
                assert(has_identifier(self.proofs@, identifier@));
            }
            return Err(Error::ProofAlreadyExists);
        }
        let event_identifier = clone_identifier(&identifier);
        let record = ClaimRecord { identifier, owner: caller, registered_at: now };
        proof {
            lemma_claims_push(self.proofs@, record);
        }
        self.proofs.push(record);
        self.events.push(Event::ClaimCreated(caller, event_identifier));
        proof {
            assert(final(self).events() =~= old(self).events().push(
                EventView::ClaimCreated(caller, event_identifier@),
            ));
        }
        Ok(())
    }

    /// Removes the claim registered under `identifier` on behalf of its owner,
    /// or rejects the call and leaves the registry unchanged. On success the
    /// registry emits `ClaimRevoked(caller, identifier)`.
    pub fn revoke_claim(&mut self, caller: AccountId, identifier: Vec<u8>) -> (result: Result<
        (),
        Error,
    >)
        requires
            old(self).well_formed(),
        ensures
            final(self).well_formed(),
            final(self).limit() == old(self).limit(),
            match revoke_outcome(old(self).claims(), old(self).limit(), caller, identifier@) {
                Ok(next) => (
                    result == Ok::<(), Error>(())
                    && final(self).claims() == next
                    && final(self).events() == old(self).events().push(
                        EventView::ClaimRevoked(caller, identifier@),
                    )
                ),
                Err(e) => (
                    result == Err::<(), Error>(e)
                    && final(self).claims() == old(self).claims()
                    && final(self).events() == old(self).events()
                ),
            },
    {
        if identifier.len() >= self.config.max_identifier_len {
            return Err(Error::BadMetadata);
        }
        let found = self.find_index(&identifier);
        match found {
            None => Err(Error::ClaimNotExist),
            Some(i) => {
                proof {
                    assert(has_identifier(self.proofs@, identifier@));
                    lemma_claim_at_index(self.proofs@, i as int);
                }
                if self.proofs[i].owner != caller {
                    return Err(Error::NotClaimOwner);
                }
                proof {
                    lemma_claims_remove(self.proofs@, i as int);
                }
                self.proofs.remove(i);
                self.events.push(Event::ClaimRevoked(caller, identifier));
                proof {
                    let event = self.events@.last();
                    assert(final(self).events() =~= old(self).events().push(event@));
                }
                Ok(())
            },
        }
    }

    /// Moves the claim registered under `identifier` from its owner `caller`
    /// to `recipient`, refreshing its registration position to `now`, or
    /// rejects the call and leaves the registry unchanged. Transferring to the
    /// current owner is legal and refreshes the position. On success the
    /// registry emits `ClaimMutated(caller, identifier, recipient)`.
    pub fn transfer_claim(
        &mut self,
        caller: AccountId,
        identifier: Vec<u8>,
        recipient: AccountId,
        now: BlockNumber,
    ) -> (result: Result<(), Error>)
        requires
            old(self).well_formed(),
        ensures
            final(self).well_formed(),
            final(self).limit() == old(self).limit(),
            match transfer_outcome(
                old(self).claims(),
                old(self).limit(),
                caller,
                identifier@,
                recipient,
                now,
            ) {
                Ok(next) => (
                    result == Ok::<(), Error>(())
                    && final(self).claims() == next
                    && final(self).events() == old(self).events().push(
                        EventView::ClaimMutated(caller, identifier@, recipient),
                    )
                ),
                Err(e) => (
                    result == Err::<(), Error>(e)
                    && final(self).claims() == old(self).claims()
                    && final(self).events() == old(self).events()
                ),
            },
    {
        if identifier.len() >= self.config.max_identifier_len {
            return Err(Error::BadMetadata);
        }
        let found = self.find_index(&identifier);
        match found {
            None => Err(Error::ClaimNotExist),
            Some(i) => {
                proof {
                    assert(has_identifier(self.proofs@, identifier@));
                    lemma_claim_at_index(self.proofs@, i as int);
                }
                if self.proofs[i].owner != caller {
                    return Err(Error::NotClaimOwner);
                }
                let record_identifier = clone_identifier(&identifier);
                let record = ClaimRecord {
                    identifier: record_identifier,
                    owner: recipient,
                    registered_at: now,
                };
                proof {
                    lemma_claims_update(self.proofs@, i as int, record);
                }
                self.proofs.set(i, record);
                self.events.push(Event::ClaimMutated(caller, identifier, recipient));
                proof {
                    let event = self.events@.last();
                    assert(final(self).events() =~= old(self).events().push(event@));
                }
                Ok(())
            },
        }
    }

    /// The claim registered under `identifier`, if any: its owner and the
    /// ledger position recorded at creation or latest transfer.
    pub fn proofs(&self, identifier: &Vec<u8>) -> (claim: Option<(AccountId, BlockNumber)>)
        requires
            self.well_formed(),
        ensures
            match claim {
                Some(entry) => (
                    self.claims().dom().contains(identifier@)
                    && self.claims()[identifier@] == (ClaimInfo {
                        owner: entry.0,
                        registered_at: entry.1,
                    })
                ),
                None => !self.claims().dom().contains(identifier@),
            },
    {
        let found = self.find_index(identifier);
        match found {
            None => None,
            Some(i) => {
                proof {
                    assert(has_identifier(self.proofs@, identifier@));
                    lemma_claim_at_index(self.proofs@, i as int);
                }
                Some((self.proofs[i].owner, self.proofs[i].registered_at))
            },
        }
    }

    /// The events emitted so far, oldest first.
    pub fn event_log(&self) -> (log: &Vec<Event>)
        ensures
            log@.len() == self.events().len(),
            forall|i: int| 0 <= i < log@.len() ==> log@[i]@ == self.events()[i],
    {
        &self.events
    }
}

} // verus!
