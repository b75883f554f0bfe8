//! Which target a debug client holds.
//!
//! An identity outlives the wrapper it was issued to: it is kept per client, and a new one is
//! issued whenever a client lets its target go. Forgetting one costs whatever was cached against
//! it, and never hands one target's answers to another.
use std::collections::HashMap;
use vstd::prelude::*;

verus! {

/// How many clients' identities are remembered before all of them are dropped.
pub const MAX_REMEMBERED_CLIENTS: usize = 64;

/// The identities in force, by client.
pub struct Identities {
    pub next: u64,
    pub known: HashMap<u64, u64>,
}

impl Identities {
    /// Whether every identity in force was issued before the next one, and no more clients are
    /// remembered than may be.
    pub open spec fn wf(&self) -> bool {
        &&& forall|key: u64| #[trigger]
            self.known@.contains_key(key) ==> self.known@[key] < self.next
        &&& self.known@.dom().len() <= MAX_REMEMBERED_CLIENTS
    }

    /// No client is known yet.
    pub fn new() -> (identities: Identities)
        ensures
            identities.wf(),
            identities.next == 1,
            identities.known@ == Map::<u64, u64>::empty(),
    {
        Identities { next: 1, known: HashMap::new() }
    }

    /// The identity in force for a client, issuing one where there is none. Only a client that is
    /// not known can have the others dropped.
    pub fn identity_for(&mut self, key: u64) -> (identity: u64)
        requires
            old(self).wf(),
            old(self).next < u64::MAX,
        ensures
            issued(*old(self), key, identity, *final(self)),
            old(self).known@.contains_key(key) ==> {
                &&& identity == old(self).known@[key]
                &&& final(self).next == old(self).next
                &&& final(self).known@ == old(self).known@
            },
            !old(self).known@.contains_key(key) ==> {
                &&& identity == old(self).next
                &&& final(self).next == old(self).next + 1
                &&& final(self).known@ == remembering(old(self).known@, key, identity)
            },
    {
        broadcast use vstd::std_specs::hash::group_hash_axioms;

        if let Some(identity) = self.known.get(&key) {
            return *identity;
        }
        let identity: u64 = self.next;
        self.next = identity + 1;
        self.remember(key, identity);
        identity
    }

    /// A new identity for a client, so that nothing cached against the target it lets go of is
    /// handed to a later wrapper of the same client. Only a client that is not known can have the
    /// others dropped.
    pub fn reissue_for(&mut self, key: u64) -> (identity: u64)
        requires
            old(self).wf(),
            old(self).next < u64::MAX,
        ensures
            issued(*old(self), key, identity, *final(self)),
            identity == old(self).next,
            final(self).next == old(self).next + 1,
            final(self).known@ == remembering(old(self).known@, key, identity),
    {
        let identity: u64 = self.next;
        self.next = identity + 1;
        self.remember(key, identity);
        identity
    }

    fn remember(&mut self, key: u64, identity: u64)
        requires
            old(self).known@.dom().len() <= MAX_REMEMBERED_CLIENTS,
        ensures
            final(self).next == old(self).next,
            final(self).known@ == remembering(old(self).known@, key, identity),
            final(self).known@.dom().len() <= MAX_REMEMBERED_CLIENTS,
    {
        broadcast use vstd::std_specs::hash::group_hash_axioms;

        if !self.known.contains_key(&key) && self.known.len() >= MAX_REMEMBERED_CLIENTS {
            self.known.clear();
        }
        self.known.insert(key, identity);
        assert(self.known@.dom() =~= if !old(self).known@.contains_key(key) && old(
            self,
        ).known@.dom().len() >= MAX_REMEMBERED_CLIENTS {
            Set::empty().insert(key)
        } else {
            old(self).known@.dom().insert(key)
        });
    }
}

/// The identities in force once a client's is recorded: where a client that is not known is one
/// too many, all the others are dropped.
pub open spec fn remembering(known: Map<u64, u64>, key: u64, identity: u64) -> Map<u64, u64> {
    if !known.contains_key(key) && known.dom().len() >= MAX_REMEMBERED_CLIENTS {
        Map::empty().insert(key, identity)
    } else {
        known.insert(key, identity)
    }
}

/// What issuing an identity to a client, or finding the one in force, does to a registry.
pub open spec fn issued(
    before: Identities,
    key: u64,
    identity: u64,
    after: Identities,
) -> bool {
    &&& before.wf() && after.wf()
    &&& before.next <= after.next
    &&& identity < after.next
    &&& identity >= before.next || (before.known@.contains_key(key) && identity
        == before.known@[key])
    &&& after.known@.contains_key(key) && after.known@[key] == identity
    &&& forall|other: u64| #[trigger]
        after.known@.contains_key(other) && other != key ==> before.known@.contains_key(other)
            && after.known@[other] == before.known@[other]
}

/// What is issued is newer than everything before it, so a client that was forgotten or let its
/// target go never gets an earlier identity back: two identities of one client are one only where
/// nothing was reissued between them.
pub proof fn identities_never_return(
    first: Identities,
    key: u64,
    identity: u64,
    second: Identities,
    reissued: u64,
    third: Identities,
    later: u64,
    fourth: Identities,
)
    requires
        issued(first, key, identity, second),
        issued(second, key, reissued, third),
        reissued >= second.next,
        issued(third, key, later, fourth),
    ensures
        later != identity,
        later >= reissued,
{
}

/// Two clients never hold one identity at a time.
pub open spec fn distinct(registry: Identities) -> bool {
    forall|left: u64, right: u64|
        #![trigger registry.known@[left], registry.known@[right]]
        registry.known@.contains_key(left) && registry.known@.contains_key(right) && left != right
            ==> registry.known@[left] != registry.known@[right]
}

/// Issuing keeps the identities of different clients apart.
pub proof fn clients_stay_apart(
    before: Identities,
    key: u64,
    identity: u64,
    after: Identities,
)
    requires
        distinct(before),
        issued(before, key, identity, after),
    ensures
        distinct(after),
{
    assert forall|left: u64, right: u64|
        #![trigger after.known@[left], after.known@[right]]
        after.known@.contains_key(left) && after.known@.contains_key(right) && left
            != right implies after.known@[left] != after.known@[right] by {
        if left != key {
            assert(after.known@.contains_key(left));
            assert(before.known@.contains_key(left) && after.known@[left] == before.known@[left]);
        }
        if right != key {
            assert(before.known@.contains_key(right) && after.known@[right]
                == before.known@[right]);
        }
    }
}

/// A client that is remembered is remembered under what it was given. While there is room, or
/// where it was remembered before, no other is forgotten; and where there is none all are.
pub proof fn nobody_is_forgotten_while_there_is_room(
    known: Map<u64, u64>,
    key: u64,
    identity: u64,
    other: u64,
)
    requires
        other != key,
    ensures
        remembering(known, key, identity).contains_key(key),
        remembering(known, key, identity)[key] == identity,
        known.contains_key(key) || known.dom().len() < 64 ==> (remembering(
            known,
            key,
            identity,
        ).contains_key(other) <==> known.contains_key(other)),
        remembering(known, key, identity).contains_key(other) ==> known.contains_key(other)
            && remembering(known, key, identity)[other] == known[other],
        !known.contains_key(key) && known.dom().len() >= 64 ==> !remembering(
            known,
            key,
            identity,
        ).contains_key(other),
{
}

} // verus!
