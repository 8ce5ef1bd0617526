//! Media that waits for the end-to-end encryption.

use super::pending::PendingMediaFrame;
use super::retry::{DavePendingMediaBucket, DavePendingMediaRetry};
use crate::queue::{by_deadline, due_by, DeadlineQueue};
use crate::time::{earlier_deadline, earlier_of, Duration, Instant};
use std::collections::HashSet;
use vstd::prelude::*;
use vstd::std_specs::hash::group_hash_axioms;

verus! {

broadcast use group_hash_axioms;

/// Media that waits, by what it waits for, each kind in the order in which it is dropped.
pub struct PendingDaveMediaQueues<Raw> {
    ttl: Duration,
    missing_user: DeadlineQueue<PendingMediaFrame<Raw>>,
    session_not_ready: DeadlineQueue<PendingMediaFrame<Raw>>,
    gateway_pending: DeadlineQueue<PendingMediaFrame<Raw>>,
    decrypt_state: DeadlineQueue<PendingMediaFrame<Raw>>,
}

/// When the first of some items is due.
pub open spec fn head_deadline<T>(items: Seq<(Instant, T)>) -> Option<Instant> {
    if items.len() == 0 {
        None
    } else {
        Some(items[0].0)
    }
}

/// The items whose source is not among `removed`.
pub open spec fn kept<Raw>(
    items: Seq<(Instant, PendingMediaFrame<Raw>)>,
    removed: Set<u32>,
) -> Seq<(Instant, PendingMediaFrame<Raw>)>
    decreases items.len(),
{
    if items.len() == 0 {
        seq![]
    } else if removed.contains(items.last().1.rtp.ssrc) {
        kept(items.drop_last(), removed)
    } else {
        kept(items.drop_last(), removed).push(items.last())
    }
}

proof fn lemma_kept_in_order<Raw>(
    items: Seq<(Instant, PendingMediaFrame<Raw>)>,
    removed: Set<u32>,
)
    requires
        by_deadline(items),
    ensures
        by_deadline(kept(items, removed)),
        forall|i: int|
            0 <= i < kept(items, removed).len() ==> exists|j: int|
                0 <= j < items.len() && (#[trigger] kept(items, removed)[i]) == items[j],
    decreases items.len(),
{
    if items.len() > 0 {
        let before = items.drop_last();
        assert forall|i: int, j: int| 0 <= i < j < before.len() implies (
        #[trigger] before[i]).0.nanos <= (#[trigger] before[j]).0.nanos by {
            assert(items[i].0.nanos <= items[j].0.nanos);
        }
        lemma_kept_in_order(before, removed);
        let rest = kept(before, removed);
        let all = kept(items, removed);
        assert forall|i: int| 0 <= i < all.len() implies exists|j: int|
            0 <= j < items.len() && (#[trigger] all[i]) == items[j] by {
            if i < rest.len() {
                assert(rest[i] == all[i]);
                let j = choose|j: int| 0 <= j < before.len() && rest[i] == before[j];
                assert(items[j] == all[i]);
            } else {
                assert(all[i] == items[items.len() - 1]);
            }
        }
        assert forall|i: int, j: int| 0 <= i < j < all.len() implies (#[trigger] all[i]).0.nanos
            <= (#[trigger] all[j]).0.nanos by {
            if j < rest.len() {
                assert(rest[i].0.nanos <= rest[j].0.nanos);
            } else {
                assert(rest[i] == all[i]);
                let k = choose|k: int| 0 <= k < before.len() && rest[i] == before[k];
                assert(items[k].0.nanos <= items[items.len() - 1].0.nanos);
            }
        }
    }
}

fn prune_queue<Raw>(
    queue: &mut DeadlineQueue<PendingMediaFrame<Raw>>,
    removed_ssrcs: &HashSet<u32>,
)
    ensures
        final(queue)@ == kept(old(queue)@, removed_ssrcs@),
{
    let _ = queue.next_deadline();
    let ghost all = queue@;
    let mut left: DeadlineQueue<PendingMediaFrame<Raw>> = DeadlineQueue::new();
    let ghost mut seen: int = 0;
    assert(queue@ =~= all.skip(0));
    assert(left@ =~= kept(all.take(0), removed_ssrcs@));
    loop
        invariant_except_break
            queue@ == all.skip(seen),
        invariant
            by_deadline(all),
            0 <= seen <= all.len(),
            left@ == kept(all.take(seen), removed_ssrcs@),
        ensures
            seen == all.len(),
        decreases all.len() - seen,
    {
        match queue.pop_entry() {
            None => {
                break;
            },
            Some((deadline, media)) => {
                proof {
                    assert(all.take(seen + 1).drop_last() =~= all.take(seen));
                    assert(queue@ =~= all.skip(seen + 1));
                    assert forall|i: int, j: int| 0 <= i < j < seen + 1 implies (
                    #[trigger] all.take(seen + 1)[i]).0.nanos <= (#[trigger] all.take(
                        seen + 1,
                    )[j]).0.nanos by {
                        assert(all[i].0.nanos <= all[j].0.nanos);
                    }
                    assert forall|i: int, j: int| 0 <= i < j < seen implies (#[trigger] all.take(
                        seen,
                    )[i]).0.nanos <= (#[trigger] all.take(seen)[j]).0.nanos by {
                        assert(all[i].0.nanos <= all[j].0.nanos);
                    }
                    lemma_kept_in_order(all.take(seen), removed_ssrcs@);
                }
                if !removed_ssrcs.contains(&media.rtp.ssrc) {
                    proof {
                        let before = left@;
                        assert(before.len() > 0 ==> before.last().0.nanos <= deadline.nanos) by {
                            if before.len() > 0 {
                                let i = before.len() - 1;
                                assert(kept(all.take(seen), removed_ssrcs@)[i] == before[i]);
                                let j = choose|j: int|
                                    0 <= j < all.take(seen).len() && before[i] == all.take(
                                        seen,
                                    )[j];
                                assert(all[j].0.nanos <= all[seen].0.nanos);
                            }
                        }
                        assert(due_by(before, deadline) == before.len());
                        assert(before.insert(before.len() as int, (deadline, media))
                            =~= before.push((deadline, media)));
                    }
                    left.push(media, deadline);
                }
                proof {
                    seen = seen + 1;
                }
            },
        }
    }
    assert(all.take(seen) =~= all);
    *queue = left;
}

impl<Raw> PendingDaveMediaQueues<Raw> {
    /// The media of one kind, with the times at which it is dropped.
    pub closed spec fn bucket(self, bucket: DavePendingMediaBucket) -> Seq<
        (Instant, PendingMediaFrame<Raw>),
    > {
        match bucket {
            DavePendingMediaBucket::MissingUser => self.missing_user@,
            DavePendingMediaBucket::SessionNotReady => self.session_not_ready@,
            DavePendingMediaBucket::GatewayPending => self.gateway_pending@,
            DavePendingMediaBucket::DecryptStatePending => self.decrypt_state@,
        }
    }

    pub closed spec fn patience(self) -> Duration {
        self.ttl
    }

    /// How much media waits.
    pub open spec fn total(self) -> nat {
        self.bucket(DavePendingMediaBucket::MissingUser).len() + self.bucket(
            DavePendingMediaBucket::SessionNotReady,
        ).len() + self.bucket(DavePendingMediaBucket::GatewayPending).len() + self.bucket(
            DavePendingMediaBucket::DecryptStatePending,
        ).len()
    }

    /// Whether only one kind differs from `before`, and is `items` now.
    pub open spec fn changed(
        self,
        before: Self,
        bucket: DavePendingMediaBucket,
        items: Seq<(Instant, PendingMediaFrame<Raw>)>,
    ) -> bool {
        &&& self.patience() == before.patience()
        &&& self.bucket(bucket) == items
        &&& forall|other: DavePendingMediaBucket|
            other != bucket ==> #[trigger] self.bucket(other) == before.bucket(other)
    }

    pub open spec fn same(self, before: Self) -> bool {
        &&& self.patience() == before.patience()
        &&& forall|bucket: DavePendingMediaBucket| #[trigger]
            self.bucket(bucket) == before.bucket(bucket)
    }

    pub fn new(ttl: Duration) -> (queues: Self)
        ensures
            queues.patience() == ttl,
            forall|bucket: DavePendingMediaBucket| #[trigger] queues.bucket(bucket).len() == 0,
    {
        PendingDaveMediaQueues {
            ttl,
            missing_user: DeadlineQueue::new(),
            session_not_ready: DeadlineQueue::new(),
            gateway_pending: DeadlineQueue::new(),
            decrypt_state: DeadlineQueue::new(),
        }
    }

    /// How much media waits, as far as a number can say.
    pub fn len(&self) -> (len: usize)
        ensures
            len == (if self.total() > usize::MAX {
                usize::MAX as nat
            } else {
                self.total()
            }),
    {
        self.missing_user.len().saturating_add(self.session_not_ready.len()).saturating_add(
            self.gateway_pending.len(),
        ).saturating_add(self.decrypt_state.len())
    }

    /// Adds media that waits, for as long as the patience lasts, and says how much waits.
    pub fn push(&mut self, media: PendingMediaFrame<Raw>) -> (len: usize)
        requires
            DavePendingMediaBucket::of_reason(media.reason) is Some,
        ensures
            ({
                let bucket = DavePendingMediaBucket::of_reason(media.reason)->0;
                let deadline = media.enqueued_at.later(old(self).patience());
                let items = old(self).bucket(bucket);
                &&& 0 <= due_by(items, deadline) <= items.len()
                &&& final(self).changed(
                    *old(self),
                    bucket,
                    items.insert(due_by(items, deadline), (deadline, media)),
                )
            }),
            len == (if final(self).total() > usize::MAX {
                usize::MAX as nat
            } else {
                final(self).total()
            }),
    {
        let deadline = media.enqueued_at.plus(self.ttl);
        match DavePendingMediaBucket::from_reason(media.reason) {
            Some(DavePendingMediaBucket::MissingUser) => self.missing_user.push(media, deadline),
            Some(DavePendingMediaBucket::SessionNotReady) => {
                self.session_not_ready.push(media, deadline)
            },
            Some(DavePendingMediaBucket::GatewayPending) => {
                self.gateway_pending.push(media, deadline)
            },
            Some(DavePendingMediaBucket::DecryptStatePending) => {
                self.decrypt_state.push(media, deadline)
            },
            None => {},
        }
        self.len()
    }

    /// The first kind that a retry takes and that has media.
    pub open spec fn retried(self, retry: DavePendingMediaRetry) -> Option<
        DavePendingMediaBucket,
    > {
        if retry.takes(DavePendingMediaBucket::MissingUser) && self.bucket(
            DavePendingMediaBucket::MissingUser,
        ).len() > 0 {
            Some(DavePendingMediaBucket::MissingUser)
        } else if retry.takes(DavePendingMediaBucket::SessionNotReady) && self.bucket(
            DavePendingMediaBucket::SessionNotReady,
        ).len() > 0 {
            Some(DavePendingMediaBucket::SessionNotReady)
        } else if retry.takes(DavePendingMediaBucket::GatewayPending) && self.bucket(
            DavePendingMediaBucket::GatewayPending,
        ).len() > 0 {
            Some(DavePendingMediaBucket::GatewayPending)
        } else if retry.takes(DavePendingMediaBucket::DecryptStatePending) && self.bucket(
            DavePendingMediaBucket::DecryptStatePending,
        ).len() > 0 {
            Some(DavePendingMediaBucket::DecryptStatePending)
        } else {
            None
        }
    }

    /// Takes the first media of the first kind that is tried again.
    pub fn pop_retry(&mut self, retry: DavePendingMediaRetry) -> (media: Option<
        PendingMediaFrame<Raw>,
    >)
        ensures
            match old(self).retried(retry) {
                Some(bucket) => {
                    &&& media == Some(old(self).bucket(bucket)[0].1)
                    &&& final(self).changed(
                        *old(self),
                        bucket,
                        old(self).bucket(bucket).drop_first(),
                    )
                },
                None => media is None && final(self).same(*old(self)),
            },
    {
        if retry.includes(DavePendingMediaBucket::MissingUser) && self.missing_user.len() > 0 {
            return self.missing_user.pop_front();
        }
        if retry.includes(DavePendingMediaBucket::SessionNotReady) && self.session_not_ready.len()
            > 0 {
            return self.session_not_ready.pop_front();
        }
        if retry.includes(DavePendingMediaBucket::GatewayPending) && self.gateway_pending.len()
            > 0 {
            return self.gateway_pending.pop_front();
        }
        if retry.includes(DavePendingMediaBucket::DecryptStatePending) && self.decrypt_state.len()
            > 0 {
            return self.decrypt_state.pop_front();
        }
        None
    }

    /// When the first media is dropped.
    pub open spec fn first_deadline(self) -> Option<Instant> {
        earlier_of(
            earlier_of(
                earlier_of(
                    head_deadline(self.bucket(DavePendingMediaBucket::MissingUser)),
                    head_deadline(self.bucket(DavePendingMediaBucket::SessionNotReady)),
                ),
                head_deadline(self.bucket(DavePendingMediaBucket::GatewayPending)),
            ),
            head_deadline(self.bucket(DavePendingMediaBucket::DecryptStatePending)),
        )
    }

    pub fn deadline(&self) -> (deadline: Option<Instant>)
        ensures
            deadline == self.first_deadline(),
    {
        earlier_deadline(
            earlier_deadline(
                earlier_deadline(
                    self.missing_user.next_deadline(),
                    self.session_not_ready.next_deadline(),
                ),
                self.gateway_pending.next_deadline(),
            ),
            self.decrypt_state.next_deadline(),
        )
    }

    /// The kind whose first media is dropped first.
    pub open spec fn first_kind(self) -> Option<DavePendingMediaBucket> {
        let first = self.first_deadline();
        if first is None {
            None
        } else if head_deadline(self.bucket(DavePendingMediaBucket::MissingUser)) == first {
            Some(DavePendingMediaBucket::MissingUser)
        } else if head_deadline(self.bucket(DavePendingMediaBucket::SessionNotReady)) == first {
            Some(DavePendingMediaBucket::SessionNotReady)
        } else if head_deadline(self.bucket(DavePendingMediaBucket::GatewayPending)) == first {
            Some(DavePendingMediaBucket::GatewayPending)
        } else {
            Some(DavePendingMediaBucket::DecryptStatePending)
        }
    }

    /// Takes the media that is dropped first, if its time is up.
    pub fn pop_expired(&mut self, now: Instant) -> (media: Option<PendingMediaFrame<Raw>>)
        ensures
            match old(self).first_deadline() {
                Some(deadline) if deadline.nanos <= now.nanos => {
                    let bucket = old(self).first_kind()->0;
                    &&& old(self).bucket(bucket).len() > 0
                    &&& media == Some(old(self).bucket(bucket)[0].1)
                    &&& final(self).changed(
                        *old(self),
                        bucket,
                        old(self).bucket(bucket).drop_first(),
                    )
                },
                _ => media is None && final(self).same(*old(self)),
            },
    {
        let first = match self.deadline() {
            Some(first) => first,
            None => {
                return None;
            },
        };
        if !now.reached(first) {
            return None;
        }
        if self.missing_user.next_deadline() == Some(first) {
            return self.missing_user.pop_front();
        }
        if self.session_not_ready.next_deadline() == Some(first) {
            return self.session_not_ready.pop_front();
        }
        if self.gateway_pending.next_deadline() == Some(first) {
            return self.gateway_pending.pop_front();
        }
        self.decrypt_state.pop_front()
    }

    /// Forgets the media of some sources.
    pub fn prune_ssrcs(&mut self, removed_ssrcs: &HashSet<u32>)
        ensures
            final(self).patience() == old(self).patience(),
            forall|bucket: DavePendingMediaBucket| #[trigger]
                final(self).bucket(bucket) == kept(old(self).bucket(bucket), removed_ssrcs@),
    {
        prune_queue(&mut self.missing_user, removed_ssrcs);
        prune_queue(&mut self.session_not_ready, removed_ssrcs);
        prune_queue(&mut self.gateway_pending, removed_ssrcs);
        prune_queue(&mut self.decrypt_state, removed_ssrcs);
    }

    /// The media of one kind at a place in the order.
    pub fn get(&self, bucket: DavePendingMediaBucket, index: usize) -> (media: Option<
        &PendingMediaFrame<Raw>,
    >)
        ensures
            match media {
                Some(media) => index < self.bucket(bucket).len() && *media == self.bucket(
                    bucket,
                )[index as int].1,
                None => index >= self.bucket(bucket).len(),
            },
    {
        match bucket {
            DavePendingMediaBucket::MissingUser => self.missing_user.get(index),
            DavePendingMediaBucket::SessionNotReady => self.session_not_ready.get(index),
            DavePendingMediaBucket::GatewayPending => self.gateway_pending.get(index),
            DavePendingMediaBucket::DecryptStatePending => self.decrypt_state.get(index),
        }
    }
}

/// Forgetting the media of some sources leaves the other media in its order.
pub proof fn law_other_sources_keep_waiting<Raw>(
    items: Seq<(Instant, PendingMediaFrame<Raw>)>,
    removed: Set<u32>,
)
    ensures
        kept(items, removed) == items.filter(
            |item: (Instant, PendingMediaFrame<Raw>)| !removed.contains(item.1.rtp.ssrc),
        ),
    decreases items.len(),
{
    reveal(Seq::filter);
    if items.len() > 0 {
        law_other_sources_keep_waiting(items.drop_last(), removed);
    }
}

/// What is tried again is of a kind that the retry takes, and something is as long as any
/// such media waits.
pub proof fn law_retries_take_what_they_may<Raw>(
    queues: PendingDaveMediaQueues<Raw>,
    retry: DavePendingMediaRetry,
    bucket: DavePendingMediaBucket,
)
    ensures
        queues.retried(retry) matches Some(first) ==> retry.takes(first) && queues.bucket(
            first,
        ).len() > 0,
        retry.takes(bucket) && queues.bucket(bucket).len() > 0 ==> queues.retried(retry) is Some,
{
}

/// The media that is dropped first is the first of its kind, and no first media of any kind
/// is due before it.
pub proof fn law_the_first_due_is_dropped_first<Raw>(
    queues: PendingDaveMediaQueues<Raw>,
    bucket: DavePendingMediaBucket,
)
    ensures
        queues.bucket(bucket).len() > 0 ==> {
            &&& queues.first_deadline() matches Some(first)
            &&& first.nanos <= queues.bucket(bucket)[0].0.nanos
            &&& queues.first_kind() matches Some(kind)
            &&& queues.bucket(kind).len() > 0
            &&& queues.bucket(kind)[0].0 == first
        },
        queues.first_deadline() is Some == (queues.total() > 0),
        queues.first_kind() is Some == (queues.total() > 0),
{
}

} // verus!
