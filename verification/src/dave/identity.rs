//! The keys by which users are known.

use crate::bytes::{copy_vec, same_bytes};
use std::collections::HashMap;
use vstd::prelude::*;
use vstd::std_specs::hash::group_hash_axioms;

verus! {

broadcast use group_hash_axioms;

/// Whether a key outlives its session.
#[derive(Clone, Copy, Debug, PartialEq, Eq, Structural)]
pub enum IdentityKeyPersistence {
    Ephemeral,
    Persistent,
}

/// The public part of a key, and whether it is kept.
#[derive(Clone, Debug, PartialEq, Eq)]
pub struct DaveIdentityKey {
    pub public_key: Vec<u8>,
    pub persistence: IdentityKeyPersistence,
}

impl View for DaveIdentityKey {
    type V = (Seq<u8>, IdentityKeyPersistence);

    open spec fn view(&self) -> (Seq<u8>, IdentityKeyPersistence) {
        (self.public_key@, self.persistence)
    }
}

/// A key that may be missing.
pub open spec fn identity_view(key: Option<DaveIdentityKey>) -> Option<
    (Seq<u8>, IdentityKeyPersistence),
> {
    match key {
        Some(key) => Some(key@),
        None => None,
    }
}

impl DaveIdentityKey {
    pub fn new(public_key: Vec<u8>, persistence: IdentityKeyPersistence) -> (key: Self)
        ensures
            key@ == (public_key@, persistence),
    {
        DaveIdentityKey { public_key, persistence }
    }

    pub fn public_key(&self) -> (key: &[u8])
        ensures
            key@ == self@.0,
    {
        self.public_key.as_slice()
    }

    pub fn persistence(&self) -> (persistence: IdentityKeyPersistence)
        ensures
            persistence == self@.1,
    {
        self.persistence
    }

    pub fn copy(&self) -> (copy: Self)
        ensures
            copy@ == self@,
    {
        DaveIdentityKey { public_key: copy_vec(&self.public_key), persistence: self.persistence }
    }

    pub fn same_as(&self, other: &DaveIdentityKey) -> (same: bool)
        ensures
            same == (self@ == other@),
    {
        self.persistence == other.persistence && same_bytes(
            self.public_key.as_slice(),
            other.public_key.as_slice(),
        )
    }
}

/// A key that connections of one user share, and how many of them do.
pub struct SharedIdentity {
    pub key: DaveIdentityKey,
    pub holders: u64,
}

/// The keys of the users that have connections.
pub struct DaveIdentityCache {
    keys: HashMap<u64, SharedIdentity>,
}

impl View for DaveIdentityCache {
    type V = Map<u64, SharedIdentity>;

    closed spec fn view(&self) -> Map<u64, SharedIdentity> {
        self.keys@
    }
}

/// One connection more, as far as a number can say.
pub open spec fn one_more(holders: u64) -> u64 {
    if holders == u64::MAX {
        u64::MAX
    } else {
        (holders + 1) as u64
    }
}

/// Whether giving a connection of a user a key turned `before` into `after`: the key that
/// their other connections have, and the fresh one where they have none. What others have
/// stays.
pub open spec fn key_shared(
    before: Map<u64, SharedIdentity>,
    after: Map<u64, SharedIdentity>,
    user_id: u64,
    fresh: DaveIdentityKey,
    key: DaveIdentityKey,
) -> bool {
    let known = before.dom().contains(user_id);
    &&& key@ == (if known {
        before[user_id].key@
    } else {
        fresh@
    })
    &&& after.dom() == before.dom().insert(user_id)
    &&& after[user_id].key@ == key@
    &&& after[user_id].holders == (if known {
        one_more(before[user_id].holders)
    } else {
        1
    })
    &&& forall|other: u64|
        #![trigger after[other]]
        other != user_id ==> after[other] == before[other]
}

/// Whether the end of a connection of a user turned `before` into `after`: with the last
/// one their key is forgotten. What others have stays.
pub open spec fn key_released(
    before: Map<u64, SharedIdentity>,
    after: Map<u64, SharedIdentity>,
    user_id: u64,
) -> bool {
    let shared = before.dom().contains(user_id) && before[user_id].holders > 1;
    &&& after.dom() == (if shared {
        before.dom()
    } else {
        before.dom().remove(user_id)
    })
    &&& shared ==> after[user_id] == (SharedIdentity {
        key: before[user_id].key,
        holders: (before[user_id].holders - 1) as u64,
    })
    &&& forall|other: u64|
        #![trigger after[other]]
        other != user_id ==> after[other] == before[other]
}

impl DaveIdentityCache {
    pub fn new() -> (cache: Self)
        ensures
            cache@ == Map::<u64, SharedIdentity>::empty(),
    {
        DaveIdentityCache { keys: HashMap::new() }
    }

    /// The key for a connection of a user: the one that their other connections have, and
    /// the fresh one where they have none.
    pub fn shared_ephemeral(&mut self, user_id: u64, fresh: DaveIdentityKey) -> (key:
        DaveIdentityKey)
        ensures
            key_shared(old(self)@, final(self)@, user_id, fresh, key),
    {
        let shared = match self.keys.remove(&user_id) {
            Some(shared) => SharedIdentity {
                key: shared.key,
                holders: if shared.holders == u64::MAX {
                    u64::MAX
                } else {
                    shared.holders + 1
                },
            },
            None => SharedIdentity { key: fresh, holders: 1 },
        };
        let key = shared.key.copy();
        let _ = self.keys.insert(user_id, shared);
        assert(self@.dom() =~= old(self)@.dom().insert(user_id));
        key
    }

    /// A connection of a user has ended. With the last one their key is forgotten.
    pub fn release(&mut self, user_id: u64)
        ensures
            key_released(old(self)@, final(self)@, user_id),
    {
        if let Some(shared) = self.keys.remove(&user_id) {
            if shared.holders > 1 {
                let _ = self.keys.insert(
                    user_id,
                    SharedIdentity { key: shared.key, holders: shared.holders - 1 },
                );
                assert(self@.dom() =~= old(self)@.dom());
            }
        }
        assert(!old(self)@.dom().contains(user_id) ==> self@ =~= old(self)@);
        assert(!old(self)@.dom().contains(user_id) ==> old(self)@.dom() =~= old(self)@.dom().remove(
            user_id,
        ));
    }
}

/// The connections that a user has at the same time share one key, whatever fresh keys are
/// at hand.
pub proof fn law_connections_of_a_user_share_a_key(
    before: Map<u64, SharedIdentity>,
    between: Map<u64, SharedIdentity>,
    after: Map<u64, SharedIdentity>,
    user_id: u64,
    fresh: DaveIdentityKey,
    key: DaveIdentityKey,
    next_fresh: DaveIdentityKey,
    next_key: DaveIdentityKey,
)
    requires
        key_shared(before, between, user_id, fresh, key),
        key_shared(between, after, user_id, next_fresh, next_key),
    ensures
        next_key@ == key@,
{
}

/// A user who has no connection yet gets the fresh key, and a user who has one keeps theirs.
/// So the keys of two users differ where the fresh ones do.
pub proof fn law_every_user_has_their_own_key(
    before: Map<u64, SharedIdentity>,
    between: Map<u64, SharedIdentity>,
    after: Map<u64, SharedIdentity>,
    user_id: u64,
    fresh: DaveIdentityKey,
    key: DaveIdentityKey,
    other_id: u64,
    other_fresh: DaveIdentityKey,
    other_key: DaveIdentityKey,
)
    requires
        user_id != other_id,
        !before.dom().contains(user_id),
        !before.dom().contains(other_id),
        key_shared(before, between, user_id, fresh, key),
        key_shared(between, after, other_id, other_fresh, other_key),
    ensures
        key@ == fresh@,
        other_key@ == other_fresh@,
        after[user_id].key@ == key@,
        fresh@ != other_fresh@ ==> key@ != other_key@,
{
    assert(after[user_id] == between[user_id]);
}

/// A key is forgotten with the connection that it was made for, where that was the only one.
pub proof fn law_last_connection_takes_the_key_along(
    before: Map<u64, SharedIdentity>,
    between: Map<u64, SharedIdentity>,
    after: Map<u64, SharedIdentity>,
    user_id: u64,
    fresh: DaveIdentityKey,
    key: DaveIdentityKey,
)
    requires
        !before.dom().contains(user_id),
        key_shared(before, between, user_id, fresh, key),
        key_released(between, after, user_id),
    ensures
        after.dom() =~= before.dom(),
        forall|other: u64|
            #![trigger after[other]]
            before.dom().contains(other) ==> after[other] == before[other],
{
    assert forall|other: u64| before.dom().contains(other) implies #[trigger] after[other]
        == before[other] by {
        assert(between[other] == before[other]);
    }
}

/// A user who has two connections keeps the key when one of them ends, and loses it when the
/// other one ends too.
pub proof fn law_a_key_lasts_as_long_as_a_connection(
    before: Map<u64, SharedIdentity>,
    one: Map<u64, SharedIdentity>,
    two: Map<u64, SharedIdentity>,
    left: Map<u64, SharedIdentity>,
    none: Map<u64, SharedIdentity>,
    user_id: u64,
    fresh: DaveIdentityKey,
    other_fresh: DaveIdentityKey,
    key: DaveIdentityKey,
    other_key: DaveIdentityKey,
)
    requires
        !before.dom().contains(user_id),
        key_shared(before, one, user_id, fresh, key),
        key_shared(one, two, user_id, other_fresh, other_key),
        key_released(two, left, user_id),
        key_released(left, none, user_id),
    ensures
        key@ == fresh@,
        other_key@ == key@,
        left.dom().contains(user_id),
        left[user_id].key@ == key@,
        !none.dom().contains(user_id),
{
}

} // verus!
