//! Callers that wait until media can be sent.

use crate::dave::status::DaveMediaStatus;
use crate::errors::Error;
use crate::queue::{due_by, DeadlineQueue};
use crate::time::{Duration, Instant};
use vstd::prelude::*;

verus! {

/// A caller that waits, by its id, and for how long.
#[derive(Clone, Copy, Debug, PartialEq, Eq, Structural)]
pub struct MediaReadyWait {
    pub id: u64,
    pub max_wait: Duration,
}

/// Callers that wait, those first who wait no longer first.
pub struct MediaReadyWaits {
    waits: DeadlineQueue<MediaReadyWait>,
}

impl View for MediaReadyWaits {
    type V = Seq<(Instant, MediaReadyWait)>;

    closed spec fn view(&self) -> Seq<(Instant, MediaReadyWait)> {
        self.waits@
    }
}

/// What a caller is told.
pub type MediaReadyAnswer = (u64, Result<DaveMediaStatus, Error>);

/// What is told to callers when media can be sent.
pub open spec fn told_ready(waits: Seq<(Instant, MediaReadyWait)>, status: DaveMediaStatus) -> Seq<
    MediaReadyAnswer,
> {
    waits.map_values(|wait: (Instant, MediaReadyWait)| (wait.1.id, Ok(status)))
}

/// What is told to callers whose time is over.
pub open spec fn told_expired(waits: Seq<(Instant, MediaReadyWait)>) -> Seq<MediaReadyAnswer> {
    waits.map_values(
        |wait: (Instant, MediaReadyWait)|
            (wait.1.id, Err(Error::Timeout { stage: None, duration: wait.1.max_wait })),
    )
}

impl MediaReadyWaits {
    pub fn new() -> (waits: Self)
        ensures
            waits@.len() == 0,
    {
        MediaReadyWaits { waits: DeadlineQueue::new() }
    }

    pub fn push(&mut self, id: u64, max_wait: Duration, now: Instant)
        ensures
            final(self)@ == old(self)@.insert(
                due_by(old(self)@, now.later(max_wait)),
                (now.later(max_wait), MediaReadyWait { id, max_wait }),
            ),
    {
        self.waits.push(MediaReadyWait { id, max_wait }, now.plus(max_wait));
    }

    /// Tells callers: all of them where media can be sent, otherwise those whose time is
    /// over.
    pub fn resolve(&mut self, status: DaveMediaStatus, now: Instant) -> (answers: Vec<
        MediaReadyAnswer,
    >)
        ensures
            ({
                let due = due_by(old(self)@, now);
                if status.media_ready {
                    &&& answers@ == told_ready(old(self)@, status)
                    &&& final(self)@.len() == 0
                } else {
                    &&& 0 <= due <= old(self)@.len()
                    &&& answers@ == told_expired(old(self)@.take(due))
                    &&& final(self)@ == old(self)@.skip(due)
                }
            }),
    {
        let mut answers: Vec<MediaReadyAnswer> = Vec::new();
        let ghost before = self@;
        if status.media_ready {
            let waits = self.waits.drain_all();
            let len = waits.len();
            let mut i: usize = 0;
            while i < len
                invariant
                    len == waits@.len(),
                    waits@ == before.map_values(|wait: (Instant, MediaReadyWait)| wait.1),
                    i <= len,
                    answers@ == told_ready(before.take(i as int), status),
                decreases len - i,
            {
                answers.push((waits[i].id, Ok(status)));
                i = i + 1;
                assert(answers@ =~= told_ready(before.take(i as int), status));
            }
            assert(before.take(len as int) =~= before);
            return answers;
        }
        let waits = self.waits.drain_expired(now);
        let ghost expired = before.take(due_by(before, now));
        let len = waits.len();
        let mut i: usize = 0;
        while i < len
            invariant
                len == waits@.len(),
                waits@ == expired.map_values(|wait: (Instant, MediaReadyWait)| wait.1),
                i <= len,
                answers@ == told_expired(expired.take(i as int)),
            decreases len - i,
        {
            let wait = waits[i];
            answers.push((wait.id, Err(Error::Timeout { stage: None, duration: wait.max_wait })));
            i = i + 1;
            assert(answers@ =~= told_expired(expired.take(i as int)));
        }
        assert(expired.take(len as int) =~= expired);
        answers
    }

    pub fn next_deadline(&self) -> (deadline: Option<Instant>)
        ensures
            deadline == (if self@.len() > 0 {
                Some(self@[0].0)
            } else {
                None
            }),
    {
        self.waits.next_deadline()
    }

    /// The connection is closed: the callers who are to be told.
    pub fn take_closed(&mut self) -> (ids: Vec<u64>)
        ensures
            ids@ == old(self)@.map_values(|wait: (Instant, MediaReadyWait)| wait.1.id),
            final(self)@.len() == 0,
    {
        let ghost before = self@;
        let waits = self.waits.drain_all();
        let len = waits.len();
        let mut ids: Vec<u64> = Vec::new();
        let mut i: usize = 0;
        while i < len
            invariant
                len == waits@.len(),
                waits@ == before.map_values(|wait: (Instant, MediaReadyWait)| wait.1),
                i <= len,
                ids@.len() == i,
                forall|k: int| 0 <= k < i ==> ids@[k] == #[trigger] before[k].1.id,
            decreases len - i,
        {
            ids.push(waits[i].id);
            i = i + 1;
        }
        assert(ids@ =~= before.map_values(|wait: (Instant, MediaReadyWait)| wait.1.id));
        ids
    }
}

/// Nobody waits longer than they said: a caller who is left after a look has time left.
pub proof fn law_nobody_waits_too_long(
    waits: Seq<(Instant, MediaReadyWait)>,
    now: Instant,
    index: int,
)
    requires
        crate::queue::by_deadline(waits),
        0 <= index < waits.skip(due_by(waits, now)).len(),
    ensures
        waits.skip(due_by(waits, now))[index].0.nanos > now.nanos,
{
    crate::queue::lemma_due_by_splits(waits, now);
}

/// Everyone who waited is answered, in their order: with how things stand where media can be
/// sent, and with how long they waited where their time is over.
pub proof fn law_everyone_is_answered(
    waits: Seq<(Instant, MediaReadyWait)>,
    status: DaveMediaStatus,
    i: int,
)
    requires
        0 <= i < waits.len(),
    ensures
        told_ready(waits, status).len() == waits.len(),
        told_ready(waits, status)[i].0 == waits[i].1.id,
        told_ready(waits, status)[i].1 matches Ok(told) && told == status,
        told_expired(waits).len() == waits.len(),
        told_expired(waits)[i].0 == waits[i].1.id,
        told_expired(waits)[i].1 matches Err(Error::Timeout { stage, duration }) && stage is None
            && duration == waits[i].1.max_wait,
{
}

} // verus!
