//! Media that waits for the end-to-end encryption, by what it waits for.

use crate::observer::DavePendingMediaReason;
use vstd::prelude::*;

verus! {

/// What media can wait for.
#[derive(Clone, Copy, Debug, PartialEq, Eq, Hash, Structural)]
pub enum DavePendingMediaBucket {
    MissingUser,
    SessionNotReady,
    GatewayPending,
    DecryptStatePending,
}

impl DavePendingMediaBucket {
    pub open spec fn number(self) -> nat {
        match self {
            DavePendingMediaBucket::MissingUser => 0,
            DavePendingMediaBucket::SessionNotReady => 1,
            DavePendingMediaBucket::GatewayPending => 2,
            DavePendingMediaBucket::DecryptStatePending => 3,
        }
    }

    /// The bucket of a reason; a reason that ends the waiting has none.
    pub open spec fn of_reason(reason: DavePendingMediaReason) -> Option<DavePendingMediaBucket> {
        match reason {
            DavePendingMediaReason::MissingUser => Some(DavePendingMediaBucket::MissingUser),
            DavePendingMediaReason::SessionNotReady => Some(
                DavePendingMediaBucket::SessionNotReady,
            ),
            DavePendingMediaReason::GatewayPending => Some(DavePendingMediaBucket::GatewayPending),
            DavePendingMediaReason::DecryptStatePending => Some(
                DavePendingMediaBucket::DecryptStatePending,
            ),
            DavePendingMediaReason::NoValidCryptorPending => Some(
                DavePendingMediaBucket::DecryptStatePending,
            ),
            DavePendingMediaReason::StableDecryptFailure => None,
            DavePendingMediaReason::Expired => None,
        }
    }

    pub fn from_reason(reason: DavePendingMediaReason) -> (bucket: Option<Self>)
        ensures
            bucket == Self::of_reason(reason),
    {
        match reason {
            DavePendingMediaReason::MissingUser => Some(DavePendingMediaBucket::MissingUser),
            DavePendingMediaReason::SessionNotReady => Some(
                DavePendingMediaBucket::SessionNotReady,
            ),
            DavePendingMediaReason::GatewayPending => Some(DavePendingMediaBucket::GatewayPending),
            DavePendingMediaReason::DecryptStatePending => Some(
                DavePendingMediaBucket::DecryptStatePending,
            ),
            DavePendingMediaReason::NoValidCryptorPending => Some(
                DavePendingMediaBucket::DecryptStatePending,
            ),
            DavePendingMediaReason::StableDecryptFailure => None,
            DavePendingMediaReason::Expired => None,
        }
    }
}

/// Which of the waiting media is tried again.
#[derive(Clone, Copy, Debug, PartialEq, Eq, Structural)]
pub struct DavePendingMediaRetry {
    users_known: bool,
    state_changed: bool,
}

impl DavePendingMediaRetry {
    /// Whether media in a bucket is tried again.
    pub closed spec fn takes(self, bucket: DavePendingMediaBucket) -> bool {
        match bucket {
            DavePendingMediaBucket::MissingUser => self.users_known,
            _ => self.state_changed,
        }
    }

    /// None.
    pub fn none() -> (retry: Self)
        ensures
            forall|bucket: DavePendingMediaBucket| !#[trigger] retry.takes(bucket),
    {
        DavePendingMediaRetry { users_known: false, state_changed: false }
    }

    /// What waits for the encryption's own state.
    pub fn dave_state() -> (retry: Self)
        ensures
            forall|bucket: DavePendingMediaBucket| #[trigger]
                retry.takes(bucket) == (bucket != DavePendingMediaBucket::MissingUser),
    {
        DavePendingMediaRetry { users_known: false, state_changed: true }
    }

    /// What waits for its user to be known.
    pub fn missing_user() -> (retry: Self)
        ensures
            forall|bucket: DavePendingMediaBucket| #[trigger]
                retry.takes(bucket) == (bucket == DavePendingMediaBucket::MissingUser),
    {
        DavePendingMediaRetry { users_known: true, state_changed: false }
    }

    pub fn is_empty(self) -> (empty: bool)
        ensures
            empty == (forall|bucket: DavePendingMediaBucket| !#[trigger] self.takes(bucket)),
    {
        proof {
            assert(self.takes(DavePendingMediaBucket::MissingUser) == self.users_known);
            assert(self.takes(DavePendingMediaBucket::SessionNotReady) == self.state_changed);
        }
        !self.users_known && !self.state_changed
    }

    /// Takes in what another retry takes.
    pub fn include_retry(&mut self, retry: Self)
        ensures
            forall|bucket: DavePendingMediaBucket| #[trigger]
                final(self).takes(bucket) == (old(self).takes(bucket) || retry.takes(bucket)),
    {
        self.users_known = self.users_known || retry.users_known;
        self.state_changed = self.state_changed || retry.state_changed;
    }

    pub fn includes(self, bucket: DavePendingMediaBucket) -> (answer: bool)
        ensures
            answer == self.takes(bucket),
    {
        match bucket {
            DavePendingMediaBucket::MissingUser => self.users_known,
            _ => self.state_changed,
        }
    }
}

/// Media that waits for the session, for the gateway or for a key is tried again together:
/// where one of these kinds is, the others are.
pub proof fn law_a_change_of_state_retries_all_that_wait_for_it(retry: DavePendingMediaRetry)
    ensures
        retry.takes(DavePendingMediaBucket::GatewayPending) == retry.takes(
            DavePendingMediaBucket::SessionNotReady,
        ),
        retry.takes(DavePendingMediaBucket::DecryptStatePending) == retry.takes(
            DavePendingMediaBucket::SessionNotReady,
        ),
{
}

/// Media waits with what waits for the same: for its user, for the session, for the gateway,
/// or for a key, whichever the fault with the keys was; and what has failed for good or waited
/// too long waits no more. What waits for its user is not tried again for anything else.
pub proof fn law_media_waits_with_its_like(reason: DavePendingMediaReason)
    ensures
        ({
            let bucket = DavePendingMediaBucket::of_reason(reason);
            &&& bucket is None <==> reason is StableDecryptFailure || reason is Expired
            &&& bucket == Some(DavePendingMediaBucket::MissingUser) <==> reason is MissingUser
            &&& bucket == Some(DavePendingMediaBucket::SessionNotReady) <==> reason
                is SessionNotReady
            &&& bucket == Some(DavePendingMediaBucket::GatewayPending) <==> reason
                is GatewayPending
        }),
{
}

} // verus!
