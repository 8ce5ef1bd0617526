//! Callers that wait for frames.

use super::receive::{limit_voice_frame_result, ReadyFrameQueue};
use crate::errors::{Error, PayloadKind};
use crate::media::ReceivedFrame;
use crate::queue::{none_before, without, PendingRequestQueue};
use crate::time::{Duration, Instant};
use std::collections::HashMap;
use vstd::prelude::*;
use vstd::std_specs::hash::group_hash_axioms;

verus! {

broadcast use group_hash_axioms;

/// What a caller takes, and how long it waits.
#[derive(Clone, Copy, Debug, PartialEq, Eq, Structural)]
pub struct FrameReceive {
    pub max_len: usize,
    pub max_wait: Option<Duration>,
}

/// Callers that wait for frames, by their ids, in the order in which they are served.
pub struct FrameReceives {
    queue: PendingRequestQueue,
    receives: HashMap<u64, FrameReceive>,
}

/// What a caller gets of a frame.
pub open spec fn frame_for<Raw>(
    max_len: usize,
    result: Result<ReceivedFrame<Raw>, Error>,
) -> Result<ReceivedFrame<Raw>, Error> {
    match result {
        Ok(frame) => if frame.frame@.len() > max_len {
            Err(
                Error::PayloadTooLarge {
                    kind: PayloadKind::Frame,
                    len: frame.frame@.len() as usize,
                    max_len,
                },
            )
        } else {
            Ok(frame)
        },
        Err(error) => Err(error),
    }
}

impl FrameReceives {
    /// Those who wait, in turn.
    pub closed spec fn waiting(self) -> Seq<u64> {
        self.queue.waiting()
    }

    /// Until when they wait, where there is such a time.
    pub closed spec fn times(self) -> Map<u64, Instant> {
        self.queue.times()
    }

    /// What each of them takes.
    pub closed spec fn wishes(self) -> Map<u64, FrameReceive> {
        self.receives@
    }

    /// Whether nobody waits twice, and it is known what each of them takes.
    pub open spec fn well_formed(self) -> bool {
        &&& self.waiting().no_duplicates()
        &&& forall|i: int|
            0 <= i < self.waiting().len() ==> self.wishes().dom().contains(
                #[trigger] self.waiting()[i],
            )
        &&& forall|id: u64|
            self.times().dom().contains(id) ==> #[trigger] self.wishes().dom().contains(id)
    }

    pub fn new() -> (receives: Self)
        ensures
            receives.well_formed(),
            receives.waiting().len() == 0,
            receives.times() == Map::<u64, Instant>::empty(),
            receives.wishes() == Map::<u64, FrameReceive>::empty(),
    {
        FrameReceives { queue: PendingRequestQueue::new(), receives: HashMap::new() }
    }

    /// Adds a caller behind the others. One who waits already goes to the end.
    pub fn push(&mut self, id: u64, max_len: usize, max_wait: Option<Duration>, now: Instant)
        requires
            old(self).well_formed(),
        ensures
            final(self).well_formed(),
            final(self).waiting() == without(old(self).waiting(), id).push(id),
            final(self).wishes() == old(self).wishes().insert(
                id,
                (FrameReceive { max_len, max_wait }),
            ),
            final(self).times() == (match max_wait {
                Some(max_wait) => old(self).times().insert(id, now.later(max_wait)),
                None => old(self).times().remove(id),
            }),
    {
        proof {
            lemma_without(self.waiting(), id);
        }
        self.queue.discard(id);
        let deadline = match max_wait {
            Some(max_wait) => Some(now.plus(max_wait)),
            None => None,
        };
        self.queue.push_back(id, deadline);
        self.receives.insert(id, FrameReceive { max_len, max_wait });
        proof {
            assert(self.times() =~= (match max_wait {
                Some(max_wait) => old(self).times().insert(id, now.later(max_wait)),
                None => old(self).times().remove(id),
            }));
            let rest = without(old(self).waiting(), id);
            assert forall|i: int| 0 <= i < self.waiting().len() implies self.wishes().dom().contains(
                #[trigger] self.waiting()[i],
            ) by {
                if i < rest.len() {
                    assert(rest.contains(rest[i]));
                }
            }
            assert(self.waiting().no_duplicates()) by {
                assert(!rest.contains(id));
                assert(self.waiting() =~= rest.push(id));
            }
        }
    }

    pub fn is_empty(&self) -> (empty: bool)
        ensures
            empty == (self.waiting().len() == 0),
    {
        self.queue.is_empty()
    }

    /// Gives the frame that is ready first to the caller who is served next. Says who gets
    /// what; nothing happens where there is no frame, or nobody waits.
    pub fn give<Raw>(&mut self, ready: &mut ReadyFrameQueue<Raw>) -> (given: Option<
        (u64, Result<ReceivedFrame<Raw>, Error>),
    >)
        requires
            old(self).well_formed(),
        ensures
            final(self).well_formed(),
            final(ready).room() == old(ready).room(),
            if old(self).waiting().len() > 0 && old(ready)@.len() > 0 {
                let id = old(self).waiting()[0];
                &&& given == Some(
                    (id, frame_for(old(self).wishes()[id].max_len, old(ready)@[0])),
                )
                &&& final(ready)@ == old(ready)@.drop_first()
                &&& final(self).waiting() == old(self).waiting().drop_first()
                &&& final(self).times() == old(self).times().remove(id)
                &&& final(self).wishes() == old(self).wishes().remove(id)
            } else {
                &&& given is None
                &&& final(ready)@ == old(ready)@
                &&& *final(self) == *old(self)
            },
    {
        if self.queue.is_empty() || ready.len() == 0 {
            return None;
        }
        let result = match ready.pop_front() {
            Some(result) => result,
            None => {
                return None;
            },
        };
        let id = match self.queue.pop_front() {
            Some(id) => id,
            None => {
                return None;
            },
        };
        let max_len: usize = match self.receives.get(&id) {
            Some(receive) => receive.max_len,
            None => 0,
        };
        self.receives.remove(&id);
        proof {
            let before = old(self).waiting();
            assert forall|i: int| 0 <= i < self.waiting().len() implies self.wishes().dom().contains(
                #[trigger] self.waiting()[i],
            ) by {
                assert(self.waiting()[i] == before[i + 1]);
                assert(before[i + 1] != before[0]);
            }
        }
        Some((id, limit_voice_frame_result(result, max_len)))
    }

    /// Takes a caller whose time is over, one of those whose time was over first. It is told
    /// so.
    pub fn pop_expired(&mut self, now: Instant) -> (expired: Option<(u64, Error)>)
        requires
            old(self).well_formed(),
        ensures
            final(self).well_formed(),
            match expired {
                Some((id, error)) => {
                    &&& old(self).times().dom().contains(id)
                    &&& old(self).times()[id].nanos <= now.nanos
                    &&& none_before(old(self).times(), old(self).times()[id])
                    &&& error == (match old(self).wishes()[id].max_wait {
                        Some(duration) => Error::Timeout { stage: None, duration },
                        None => Error::Closed,
                    })
                    &&& final(self).waiting() == without(old(self).waiting(), id)
                    &&& final(self).times() == old(self).times().remove(id)
                    &&& final(self).wishes() == old(self).wishes().remove(id)
                },
                None => {
                    &&& forall|id: u64|
                        old(self).times().dom().contains(id) ==> (
                        #[trigger] old(self).times()[id]).nanos > now.nanos
                    &&& final(self).waiting() == old(self).waiting()
                    &&& final(self).times() == old(self).times()
                    &&& final(self).wishes() == old(self).wishes()
                },
            },
    {
        match self.queue.pop_expired(now) {
            Some(id) => {
                let max_wait = match self.receives.get(&id) {
                    Some(receive) => receive.max_wait,
                    None => None,
                };
                self.receives.remove(&id);
                proof {
                    lemma_without(old(self).waiting(), id);
                    assert(self.well_formed()) by {
                        lemma_still_wished(*old(self), *self, id);
                    }
                }
                let error = match max_wait {
                    Some(duration) => Error::Timeout { stage: None, duration },
                    None => Error::Closed,
                };
                Some((id, error))
            },
            None => None,
        }
    }

    /// Forgets a caller that no longer waits.
    pub fn discard(&mut self, id: u64)
        requires
            old(self).well_formed(),
        ensures
            final(self).well_formed(),
            final(self).waiting() == without(old(self).waiting(), id),
            final(self).times() == old(self).times().remove(id),
            final(self).wishes() == old(self).wishes().remove(id),
    {
        self.queue.discard(id);
        self.receives.remove(&id);
        proof {
            lemma_still_wished(*old(self), *self, id);
        }
    }

    /// The connection is closed: the callers who are to be told.
    pub fn take_closed(&mut self) -> (ids: Vec<u64>)
        ensures
            ids@ == old(self).waiting(),
            final(self).well_formed(),
            final(self).waiting().len() == 0,
            final(self).times() == Map::<u64, Instant>::empty(),
            final(self).wishes() == Map::<u64, FrameReceive>::empty(),
    {
        self.receives.clear();
        self.queue.take_all()
    }

    /// Whether that is when the first caller waits no longer: nobody's time is over before,
    /// and somebody's is then.
    pub open spec fn waits_until(self, deadline: Option<Instant>) -> bool {
        match deadline {
            None => self.times() == Map::<u64, Instant>::empty(),
            Some(deadline) => none_before(self.times(), deadline) && exists|id: u64|
                self.times().dom().contains(id) && #[trigger] self.times()[id] == deadline,
        }
    }

    pub fn next_deadline(&self) -> (deadline: Option<Instant>)
        ensures
            self.waits_until(deadline),
    {
        let deadline = self.queue.next_deadline();
        assert(self.times() == self.queue.times());
        deadline
    }
}

/// What is left of a row without an id.
proof fn lemma_without(ids: Seq<u64>, id: u64)
    requires
        ids.no_duplicates(),
    ensures
        without(ids, id).no_duplicates(),
        forall|other: u64| #[trigger]
            without(ids, id).contains(other) == (ids.contains(other) && other != id),
    decreases ids.len(),
{
    if ids.len() > 0 {
        let rest = ids.drop_last();
        lemma_without(rest, id);
        let kept = without(rest, id);
        assert forall|other: u64| #[trigger] without(ids, id).contains(other) == (ids.contains(
            other,
        ) && other != id) by {
            if ids.contains(other) {
                let at = choose|at: int| 0 <= at < ids.len() && ids[at] == other;
                if at < rest.len() {
                    assert(rest[at] == other);
                }
            }
            if rest.contains(other) {
                let at = choose|at: int| 0 <= at < rest.len() && rest[at] == other;
                assert(ids[at] == other);
            }
            if ids.last() != id {
                assert(without(ids, id) == kept.push(ids.last()));
                if kept.contains(other) {
                    let at = choose|at: int| 0 <= at < kept.len() && kept[at] == other;
                    assert(kept.push(ids.last())[at] == other);
                }
                assert(kept.push(ids.last())[kept.len() as int] == ids.last());
                if kept.push(ids.last()).contains(other) {
                    let at = choose|at: int|
                        0 <= at < kept.len() + 1 && kept.push(ids.last())[at] == other;
                    if at < kept.len() {
                        assert(kept[at] == other);
                    }
                }
            }
        }
        if ids.last() != id {
            assert(!rest.contains(ids.last())) by {
                if rest.contains(ids.last()) {
                    let at = choose|at: int| 0 <= at < rest.len() && rest[at] == ids.last();
                    assert(ids[at] == ids[ids.len() - 1]);
                }
            }
            assert(!kept.contains(ids.last()));
        }
    }
}

proof fn lemma_still_wished(before: FrameReceives, after: FrameReceives, id: u64)
    requires
        before.well_formed(),
        after.waiting() == without(before.waiting(), id),
        after.times() == before.times().remove(id),
        after.wishes() == before.wishes().remove(id),
    ensures
        after.well_formed(),
{
    lemma_without(before.waiting(), id);
    assert forall|i: int| 0 <= i < after.waiting().len() implies after.wishes().dom().contains(
        #[trigger] after.waiting()[i],
    ) by {
        assert(after.waiting().contains(after.waiting()[i]));
        let at = choose|at: int|
            0 <= at < before.waiting().len() && before.waiting()[at] == after.waiting()[i];
        assert(before.wishes().dom().contains(before.waiting()[at]));
    }
}

} // verus!
