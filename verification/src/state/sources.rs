//! The packets of every source, and when each of them has something to give out.

use super::config::ConnectionTuning;
use super::pending::{PendingMediaFrame, PendingMediaPacket};
use super::receive::{kept, PendingDaveMediaQueues};
use super::retry::DavePendingMediaBucket;
use super::ssrc::{
    first_known, loss_run, next_number, overdue, popped, reported, took, MissingRtpPacket,
    ReceiveSsrcState, SsrcView,
};
use crate::errors::Error;
use crate::media::FrameRaw;
use crate::observer::ReceiveRtpEvent;
use crate::queue::DeadlineSet;
use crate::roster::lemma_grown_set;
use crate::time::{Duration, Instant};
use std::collections::{HashMap, HashSet, VecDeque};
use vstd::prelude::*;
use vstd::std_specs::hash::group_hash_axioms;

verus! {

broadcast use group_hash_axioms;

/// Received media.
pub struct ReceiveState<Raw> where Raw: FrameRaw {
    tuning: ConnectionTuning,
    pending_dave_media: PendingDaveMediaQueues<Raw>,
    ssrc: HashMap<u32, ReceiveSsrcState<Raw>>,
    ready_ssrcs: VecDeque<u32>,
    queued_ready_ssrcs: HashSet<u32>,
    rtp_reorder_deadlines: DeadlineSet,
}

/// How much there is to give out or to give up, over all sources.
spec fn total_weight<Raw: FrameRaw>(sources: Map<u32, ReceiveSsrcState<Raw>>) -> nat
    decreases sources.dom().len(),
    when sources.dom().finite()
{
    if sources.dom().len() == 0 {
        0
    } else {
        let ssrc = sources.dom().choose();
        sources[ssrc]@.weight() + total_weight(sources.remove(ssrc))
    }
}

proof fn lemma_weight_of_one<Raw: FrameRaw>(sources: Map<u32, ReceiveSsrcState<Raw>>, ssrc: u32)
    requires
        sources.dom().finite(),
        sources.dom().contains(ssrc),
    ensures
        total_weight(sources) == sources[ssrc]@.weight() + total_weight(sources.remove(ssrc)),
    decreases sources.dom().len(),
{
    let first = sources.dom().choose();
    if first != ssrc {
        let less = sources.remove(first);
        lemma_weight_of_one(less, ssrc);
        let other = sources.remove(ssrc);
        lemma_weight_of_one(other, first);
        assert(less.remove(ssrc) =~= other.remove(first));
    }
}

proof fn lemma_weight_changes<Raw: FrameRaw>(
    before: Map<u32, ReceiveSsrcState<Raw>>,
    ssrc: u32,
    state: ReceiveSsrcState<Raw>,
)
    requires
        before.dom().finite(),
        before.dom().contains(ssrc),
    ensures
        total_weight(before.insert(ssrc, state)) + before[ssrc]@.weight() == total_weight(before)
            + state@.weight(),
{
    let after = before.insert(ssrc, state);
    lemma_weight_of_one(before, ssrc);
    lemma_weight_of_one(after, ssrc);
    assert(after.remove(ssrc) =~= before.remove(ssrc));
}

proof fn lemma_run_is_taken(
    missing: Map<u16, MissingRtpPacket>,
    seq: u16,
    now: Instant,
    ttl: Duration,
    force: bool,
    user_id: Option<u64>,
)
    requires
        missing.dom().finite(),
    ensures
        ({
            let run = loss_run(missing, seq, now, ttl, force, user_id);
            &&& run.left.dom().finite()
            &&& run.left.dom().len() + run.count == missing.dom().len()
        }),
    decreases missing.dom().len(),
{
    if missing.dom().contains(seq) && (force || overdue(missing[seq], now, ttl)) {
        lemma_run_is_taken(
            missing.remove(seq),
            next_number(seq),
            now,
            ttl,
            force,
            first_known(user_id, missing[seq].user_id),
        );
    }
}

/// What the sources hold.
pub open spec fn views<Raw: FrameRaw>(sources: Map<u32, ReceiveSsrcState<Raw>>) -> Map<
    u32,
    SsrcView<Raw>,
> {
    sources.map_values(|state: ReceiveSsrcState<Raw>| state@)
}

/// Whether some source can give something out without waiting.
pub open spec fn any_ready<Raw: FrameRaw>(sources: Map<u32, SsrcView<Raw>>) -> bool {
    exists|ssrc: u32| sources.dom().contains(ssrc) && (#[trigger] sources[ssrc]).ready()
}

/// Whether some source has waited long enough for a packet.
pub open spec fn any_overdue<Raw: FrameRaw>(
    sources: Map<u32, SsrcView<Raw>>,
    now: Instant,
    ttl: Duration,
) -> bool {
    exists|ssrc: u32|
        sources.dom().contains(ssrc) && ((#[trigger] sources[ssrc]).deadline(ttl) matches Some(
            deadline,
        ) && deadline.nanos <= now.nanos)
}

/// Where in the line the first source stands that can give something out; behind the line
/// where none can.
pub open spec fn first_ready<Raw: FrameRaw>(
    line: Seq<u32>,
    sources: Map<u32, SsrcView<Raw>>,
) -> int
    decreases line.len(),
{
    if line.len() == 0 || sources.dom().contains(line[0]) && sources[line[0]].ready() {
        0
    } else {
        1 + first_ready(line.drop_first(), sources)
    }
}

/// The line once a source is looked at: where the source can give something out and does
/// not stand in the line yet, it goes to the end.
pub open spec fn lined_up<Raw: FrameRaw>(
    line: Seq<u32>,
    ssrc: u32,
    source: SsrcView<Raw>,
) -> Seq<u32> {
    if source.ready() && !line.contains(ssrc) {
        line.push(ssrc)
    } else {
        line
    }
}

/// The line without some sources.
pub open spec fn line_without(line: Seq<u32>, gone: Set<u32>) -> Seq<u32>
    decreases line.len(),
{
    if line.len() == 0 {
        line
    } else {
        let rest = line_without(line.drop_last(), gone);
        if gone.contains(line.last()) {
            rest
        } else {
            rest.push(line.last())
        }
    }
}

/// Whether no source gives a packet up before that one does.
pub open spec fn first_overdue<Raw: FrameRaw>(
    sources: Map<u32, SsrcView<Raw>>,
    ssrc: u32,
    ttl: Duration,
) -> bool {
    &&& sources[ssrc].deadline(ttl) is Some
    &&& forall|other: u32|
        sources.dom().contains(other) && ((#[trigger] sources[other]).deadline(ttl) is Some)
            ==> sources[ssrc].deadline(ttl)->0.nanos <= sources[other].deadline(ttl)->0.nanos
}

/// The sources and the line of those that can give something out, with what was reported.
pub struct DrainView<Raw> where Raw: FrameRaw {
    pub sources: Map<u32, SsrcView<Raw>>,
    pub line: Seq<u32>,
    pub events: Seq<ReceiveRtpEvent>,
}

/// One step of the source `ssrc` that gives nothing out. Where some source has something
/// ready, it is the first in the line that has; those before it leave the line with it, its
/// next packet is taken and completes no frame. Where no source has, it is one that gives
/// up first, and the packets that are overdue at its head are given up and reported.
pub open spec fn silent_step<Raw: FrameRaw>(
    before: DrainView<Raw>,
    after: DrainView<Raw>,
    ssrc: u32,
    now: Instant,
    ttl: Duration,
    telemetry: bool,
) -> bool {
    let source = before.sources[ssrc];
    let next = after.sources[ssrc];
    &&& before.sources.dom().contains(ssrc)
    &&& after.sources == before.sources.insert(ssrc, next)
    &&& if first_ready(before.line, before.sources) < before.line.len() {
        let first = first_ready(before.line, before.sources);
        &&& ssrc == before.line[first]
        &&& source.ready()
        &&& after.line == lined_up(before.line.skip(first + 1), ssrc, next)
        &&& popped(source, next, now, Ok::<Option<PendingMediaFrame<Raw>>, Error>(None))
        &&& after.events == before.events
    } else {
        &&& !any_ready(before.sources)
        &&& first_overdue(before.sources, ssrc, ttl)
        &&& source.run(now, ttl, false).count > 0
        &&& after.line == lined_up(seq![], ssrc, next)
        &&& next == source.given_up(now, ttl, false)
        &&& after.events == reported(
            before.events,
            telemetry,
            source.loss(ssrc, now, ttl, false),
        )
    }
}

/// Whether these are silent steps, one after the other: what there was before each, which
/// source it was of, and what there is in the end.
pub open spec fn silent_run<Raw: FrameRaw>(
    states: Seq<DrainView<Raw>>,
    steps: Seq<u32>,
    now: Instant,
    ttl: Duration,
    telemetry: bool,
) -> bool {
    &&& states.len() == steps.len() + 1
    &&& forall|i: int|
        0 <= i < steps.len() ==> silent_step(
            states[i],
            states[i + 1],
            #[trigger] steps[i],
            now,
            ttl,
            telemetry,
        )
}

/// Whether giving a result out turned `before` into `after`: some source has something
/// ready, and the result comes of the first in the line that has. Those before it leave the
/// line with it, and it goes to the end where it has more.
pub open spec fn gave<Raw: FrameRaw>(
    before: DrainView<Raw>,
    after: DrainView<Raw>,
    now: Instant,
    result: Result<Option<PendingMediaFrame<Raw>>, Error>,
) -> bool {
    let first = first_ready(before.line, before.sources);
    let ssrc = before.line[first];
    &&& first < before.line.len()
    &&& before.sources.dom().contains(ssrc)
    &&& before.sources[ssrc].ready()
    &&& after.sources == before.sources.insert(ssrc, after.sources[ssrc])
    &&& after.line == lined_up(before.line.skip(first + 1), ssrc, after.sources[ssrc])
    &&& after.events == before.events
    &&& popped(before.sources[ssrc], after.sources[ssrc], now, result)
}

/// Whether draining turned `before` into `after` with this result: a frame, or what was
/// wrong with one, once the silent steps were taken; nothing, once no source has anything
/// ready and none has waited long enough.
pub open spec fn drained<Raw: FrameRaw>(
    before: DrainView<Raw>,
    after: DrainView<Raw>,
    now: Instant,
    ttl: Duration,
    telemetry: bool,
    result: Result<Option<PendingMediaFrame<Raw>>, Error>,
) -> bool {
    match result {
        Ok(None) => {
            &&& exists|states: Seq<DrainView<Raw>>, steps: Seq<u32>|
                {
                    &&& #[trigger] silent_run(states, steps, now, ttl, telemetry)
                    &&& states[0] == before
                    &&& states.last().sources == after.sources
                    &&& states.last().events == after.events
                }
            &&& after.line.len() == 0
            &&& !any_ready(after.sources)
            &&& !any_overdue(after.sources, now, ttl)
        },
        _ => exists|states: Seq<DrainView<Raw>>, steps: Seq<u32>|
            {
                &&& #[trigger] silent_run(states, steps, now, ttl, telemetry)
                &&& states[0] == before
                &&& gave(states.last(), after, now, result)
            },
    }
}

/// Whether draining the sources turned `before` into `after` with this result. When the
/// packets came is remembered as before, and so is the media that waits.
pub open spec fn state_drained<Raw: FrameRaw>(
    before: ReceiveState<Raw>,
    after: ReceiveState<Raw>,
    now: Instant,
    telemetry: bool,
    old_events: Seq<ReceiveRtpEvent>,
    new_events: Seq<ReceiveRtpEvent>,
    result: Result<Option<PendingMediaFrame<Raw>>, Error>,
) -> bool {
    &&& after.limits() == before.limits()
    &&& after.waiting_media() == before.waiting_media()
    &&& after.sources().dom() == before.sources().dom()
    &&& forall|ssrc: u32|
        #![trigger after.sources()[ssrc]]
        before.sources().dom().contains(ssrc) ==> after.sources()[ssrc].same_times(
            before.sources()[ssrc],
        )
    &&& drained(
        before.drain_view(old_events),
        after.drain_view(new_events),
        now,
        before.limits().rtp_reorder_ttl,
        telemetry,
        result,
    )
}

/// Whether a source is queued exactly as its state asks for.
spec fn scheduled_in<Raw: FrameRaw>(
    sources: Map<u32, ReceiveSsrcState<Raw>>,
    tuning: ConnectionTuning,
    queued: Set<u32>,
    deadlines: Map<u64, Instant>,
    ssrc: u32,
) -> bool {
    let known = sources.dom().contains(ssrc);
    let deadline = if known {
        sources[ssrc]@.deadline(tuning.rtp_reorder_ttl)
    } else {
        None
    };
    &&& known ==> sources[ssrc].limits() == tuning
    &&& known && sources[ssrc]@.ready() ==> queued.contains(ssrc)
    &&& match deadline {
        Some(deadline) => deadlines.dom().contains(ssrc as u64) && deadlines[ssrc as u64]
            == deadline,
        None => !deadlines.dom().contains(ssrc as u64),
    }
}

/// Whether the sources are queued as their states ask for, all of them but one.
spec fn formed<Raw: FrameRaw>(
    sources: Map<u32, ReceiveSsrcState<Raw>>,
    tuning: ConnectionTuning,
    ready: Seq<u32>,
    queued: Set<u32>,
    deadlines: Map<u64, Instant>,
    but: Option<u32>,
) -> bool {
    &&& forall|ssrc: u32| #[trigger] queued.contains(ssrc) == ready.contains(ssrc)
    &&& ready.no_duplicates()
    &&& forall|key: u64| #[trigger] deadlines.dom().contains(key) ==> key <= 0xffff_ffff
    &&& forall|ssrc: u32|
        Some(ssrc) != but ==> #[trigger] scheduled_in(sources, tuning, queued, deadlines, ssrc)
    &&& match but {
        Some(ssrc) => sources.dom().contains(ssrc) ==> sources[ssrc].limits() == tuning,
        None => true,
    }
}

/// The sources in a set, each once.
fn listed(set: &HashSet<u32>) -> (sources: Vec<u32>)
    ensures
        sources@.to_set() == set@,
{
    let mut sources: Vec<u32> = Vec::new();
    for ssrc in iter: set.iter()
        invariant
            sources@ == iter.seq().unref().take(iter.index() as int),
            iter.seq().unref().to_set() == set@,
            iter.index() == iter.seq().len() ==> sources@ == iter.seq().unref(),
    {
        sources.push(*ssrc);
        assert(sources@ =~= iter.seq().unref().take(iter.index() + 1));
    }
    sources
}

impl<Raw> ReceiveState<Raw> where Raw: FrameRaw {
    /// The sources by their numbers.
    pub closed spec fn sources(self) -> Map<u32, ReceiveSsrcState<Raw>> {
        self.ssrc@
    }

    pub closed spec fn limits(self) -> ConnectionTuning {
        self.tuning
    }

    /// The media that waits for the end-to-end encryption.
    pub closed spec fn waiting_media(self) -> PendingDaveMediaQueues<Raw> {
        self.pending_dave_media
    }

    /// The sources that stand in line to give something out, first come, first served.
    pub closed spec fn line(self) -> Seq<u32> {
        self.ready_ssrcs@
    }

    #[verifier::inline]
    spec fn scheduled(self, ssrc: u32) -> bool {
        scheduled_in(
            self.ssrc@,
            self.tuning,
            self.queued_ready_ssrcs@,
            self.rtp_reorder_deadlines@,
            ssrc,
        )
    }

    /// Whether every source that has something to give out, or to wait for, is known to.
    pub closed spec fn well_formed(self) -> bool {
        self.formed_but(None)
    }

    /// The same for all sources but one.
    closed spec fn formed_but(self, but: Option<u32>) -> bool {
        formed(
            self.ssrc@,
            self.tuning,
            self.ready_ssrcs@,
            self.queued_ready_ssrcs@,
            self.rtp_reorder_deadlines@,
            but,
        )
    }

    pub fn new(tuning: ConnectionTuning) -> (state: Self)
        ensures
            state.well_formed(),
            state.sources() == Map::<u32, ReceiveSsrcState<Raw>>::empty(),
            state.line().len() == 0,
            state.limits() == tuning,
            state.waiting_media().total() == 0,
            state.waiting_media().patience() == tuning.dave_pending_media_ttl,
    {
        let state = ReceiveState {
            tuning,
            pending_dave_media: PendingDaveMediaQueues::new(tuning.dave_pending_media_ttl),
            ssrc: HashMap::new(),
            ready_ssrcs: VecDeque::new(),
            queued_ready_ssrcs: HashSet::new(),
            rtp_reorder_deadlines: DeadlineSet::new(),
        };
        assert(state.ssrc@ =~= Map::<u32, ReceiveSsrcState<Raw>>::empty());
        assert forall|ssrc: u32| #[trigger] state.scheduled(ssrc) by {}
        state
    }

    /// The sources and their line, with those reports.
    pub open spec fn drain_view(self, events: Seq<ReceiveRtpEvent>) -> DrainView<Raw> {
        DrainView { sources: views(self.sources()), line: self.line(), events }
    }

    pub fn tuning(&self) -> (tuning: ConnectionTuning)
        ensures
            tuning == self.limits(),
    {
        self.tuning
    }

    pub fn pending_dave_media(&self) -> (media: &PendingDaveMediaQueues<Raw>)
        ensures
            *media == self.waiting_media(),
    {
        &self.pending_dave_media
    }

    /// The media that waits, to be changed.
    pub fn pending_dave_media_mut(&mut self) -> (media: &mut PendingDaveMediaQueues<Raw>)
        ensures
            *media == old(self).waiting_media(),
            final(self).waiting_media() == *final(media),
            final(self).sources() == old(self).sources(),
            final(self).line() == old(self).line(),
            final(self).limits() == old(self).limits(),
            old(self).well_formed() ==> final(self).well_formed(),
    {
        &mut self.pending_dave_media
    }

    pub fn pending_dave_media_deadline(&self) -> (deadline: Option<Instant>)
        ensures
            deadline == self.waiting_media().first_deadline(),
    {
        self.pending_dave_media.deadline()
    }

    /// Whether that is when the first missing packet is given up: no source gives one up
    /// before, and one does then.
    pub open spec fn gives_up_at(self, deadline: Option<Instant>) -> bool {
        match deadline {
            None => forall|ssrc: u32|
                #![trigger self.sources()[ssrc]]
                self.sources().dom().contains(ssrc) ==> self.sources()[ssrc]@.deadline(
                    self.limits().rtp_reorder_ttl,
                ) is None,
            Some(deadline) => {
                &&& forall|ssrc: u32|
                    #![trigger self.sources()[ssrc]]
                    self.sources().dom().contains(ssrc) ==> (match self.sources()[ssrc]@.deadline(
                        self.limits().rtp_reorder_ttl,
                    ) {
                        Some(other) => deadline.nanos <= other.nanos,
                        None => true,
                    })
                &&& exists|ssrc: u32|
                    #![trigger self.sources()[ssrc]]
                    self.sources().dom().contains(ssrc) && self.sources()[ssrc]@.deadline(
                        self.limits().rtp_reorder_ttl,
                    ) == Some(deadline)
            },
        }
    }

    /// When the first missing packet is given up.
    pub fn pending_rtp_reorder_deadline(&self) -> (deadline: Option<Instant>)
        requires
            self.well_formed(),
        ensures
            self.gives_up_at(deadline),
    {
        let deadline = self.rtp_reorder_deadlines.next_deadline();
        proof {
            let deadlines = self.rtp_reorder_deadlines@;
            assert forall|ssrc: u32| self.sources().dom().contains(ssrc) implies (match (
            #[trigger] self.sources()[ssrc])@.deadline(self.limits().rtp_reorder_ttl) {
                Some(other) => deadlines.dom().contains(ssrc as u64) && deadlines[ssrc as u64]
                    == other,
                None => true,
            }) by {
                assert(self.scheduled(ssrc));
            }
            if let Some(first) = deadline {
                let key = choose|key: u64|
                    deadlines.dom().contains(key) && #[trigger] deadlines[key] == first;
                assert(key <= 0xffff_ffff);
                let ssrc = key as u32;
                assert(self.scheduled(ssrc));
                assert(self.sources()[ssrc]@.deadline(self.limits().rtp_reorder_ttl) == Some(
                    first,
                ));
            }
        }
        deadline
    }

    /// Queues a source as its state asks for.
    fn refresh_ssrc_schedules(&mut self, ssrc: u32)
        requires
            old(self).formed_but(Some(ssrc)),
            old(self).sources().dom().contains(ssrc),
        ensures
            final(self).well_formed(),
            final(self).sources() == old(self).sources(),
            final(self).line() == lined_up(old(self).line(), ssrc, old(self).sources()[ssrc]@),
            final(self).limits() == old(self).limits(),
            final(self).waiting_media() == old(self).waiting_media(),
    {
        let (ready, deadline) = match self.ssrc.get(&ssrc) {
            Some(state) => (state.has_ready_buffered_media(), state.pending_reorder_deadline()),
            None => {
                return;
            },
        };
        let ghost before = *self;
        if ready && !self.queued_ready_ssrcs.contains(&ssrc) {
            let _ = self.queued_ready_ssrcs.insert(ssrc);
            self.ready_ssrcs.push_back(ssrc);
            proof {
                let queue = self.ready_ssrcs@;
                assert forall|other: u32| #[trigger]
                    self.queued_ready_ssrcs@.contains(other) == queue.contains(other) by {
                    if before.ready_ssrcs@.contains(other) {
                        let i = choose|i: int|
                            0 <= i < before.ready_ssrcs@.len() && before.ready_ssrcs@[i] == other;
                        assert(queue[i] == other);
                    }
                    if other == ssrc {
                        assert(queue[before.ready_ssrcs@.len() as int] == other);
                    }
                    if queue.contains(other) && other != ssrc {
                        let i = choose|i: int| 0 <= i < queue.len() && queue[i] == other;
                        assert(before.ready_ssrcs@[i] == other);
                    }
                    assert(before.queued_ready_ssrcs@.contains(other)
                        == before.ready_ssrcs@.contains(other));
                }
            }
        }
        match deadline {
            Some(deadline) => {
                self.rtp_reorder_deadlines.insert(ssrc as u64, deadline);
            },
            None => {
                let _ = self.rtp_reorder_deadlines.remove(ssrc as u64);
            },
        }
        proof {
            assert forall|other: u32| #[trigger] self.scheduled(other) by {
                if other != ssrc {
                    assert(before.scheduled(other));
                }
            }
        }
    }

    /// Takes a packet in: its source takes it, and no other source changes. A source that
    /// is new begins with it.
    pub fn push_media_packet(
        &mut self,
        packet: PendingMediaPacket<Raw>,
        now: Instant,
        telemetry: bool,
        events: &mut Vec<ReceiveRtpEvent>,
    ) -> (frame: Result<Option<PendingMediaFrame<Raw>>, Error>)
        requires
            old(self).well_formed(),
        ensures
            final(self).well_formed(),
            packet_taken(
                *old(self),
                *final(self),
                packet,
                now,
                telemetry,
                old(events)@,
                final(events)@,
                frame,
            ),
    {
        let ssrc: u32 = packet.rtp.ssrc;
        let ghost before = *self;
        assert(self.scheduled(ssrc));
        let mut state = match self.ssrc.remove(&ssrc) {
            Some(state) => state,
            None => ReceiveSsrcState::new(self.tuning),
        };
        let ghost start = state;
        let frame = state.push_media_packet(packet, now, telemetry, events);
        let _ = self.ssrc.insert(ssrc, state);
        proof {
            assert forall|other: u32| other != ssrc implies #[trigger] self.scheduled(other) by {
                assert(before.scheduled(other));
            }
            assert(self.ssrc@.dom() =~= before.ssrc@.dom().insert(ssrc));
            assert(took(
                start,
                self.sources()[ssrc],
                packet,
                now,
                telemetry,
                old(events)@,
                events@,
                frame,
            ));
        }
        self.refresh_ssrc_schedules(ssrc);
        proof {
            reveal(packet_taken);
        }
        frame
    }

    /// The first source in the queue that has something to give out; those before it
    /// leave the queue.
    fn pop_ready_buffered_ssrc(&mut self) -> (ssrc: Option<u32>)
        requires
            old(self).well_formed(),
        ensures
            final(self).sources() == old(self).sources(),
            final(self).limits() == old(self).limits(),
            final(self).waiting_media() == old(self).waiting_media(),
            final(self).rtp_reorder_deadlines == old(self).rtp_reorder_deadlines,
            match ssrc {
                Some(ssrc) => {
                    let first = first_ready(old(self).line(), views(old(self).sources()));
                    &&& first < old(self).line().len()
                    &&& ssrc == old(self).line()[first]
                    &&& final(self).line() == old(self).line().skip(first + 1)
                    &&& final(self).formed_but(Some(ssrc))
                    &&& final(self).sources().dom().contains(ssrc)
                    &&& final(self).sources()[ssrc]@.ready()
                },
                None => {
                    &&& first_ready(old(self).line(), views(old(self).sources()))
                        >= old(self).line().len()
                    &&& final(self).line().len() == 0
                    &&& final(self).well_formed()
                    &&& forall|ssrc: u32|
                        #![trigger final(self).sources()[ssrc]]
                        final(self).sources().dom().contains(ssrc)
                            ==> !final(self).sources()[ssrc]@.ready()
                },
            },
    {
        let ghost shown = views(self.sources());
        let ghost line = self.line();
        let ghost mut passed: int = 0;
        assert(line.skip(0) =~= line);
        loop
            invariant
                self.well_formed(),
                self.sources() == old(self).sources(),
                self.limits() == old(self).limits(),
                self.waiting_media() == old(self).waiting_media(),
                self.rtp_reorder_deadlines == old(self).rtp_reorder_deadlines,
                shown == views(self.sources()),
                line == old(self).line(),
                0 <= passed <= line.len(),
                self.line() == line.skip(passed),
                first_ready(line, shown) == passed + first_ready(self.line(), shown),
            decreases self.ready_ssrcs@.len(),
        {
            let ghost before = *self;
            let ghost queue = self.ready_ssrcs@;
            let ssrc: u32 = match self.ready_ssrcs.pop_front() {
                Some(ssrc) => ssrc,
                None => {
                    proof {
                        assert forall|ssrc: u32| self.sources().dom().contains(ssrc) implies !(
                        #[trigger] self.sources()[ssrc])@.ready() by {
                            assert(before.scheduled(ssrc));
                            assert(!before.ready_ssrcs@.contains(ssrc));
                        }
                    }
                    return None;
                },
            };
            let _ = self.queued_ready_ssrcs.remove(&ssrc);
            proof {
                assert(self.ready_ssrcs@ =~= queue.drop_first());
                assert(queue.drop_first() =~= line.skip(passed + 1));
                assert(!self.ready_ssrcs@.contains(ssrc)) by {
                    if self.ready_ssrcs@.contains(ssrc) {
                        let i = choose|i: int|
                            0 <= i < self.ready_ssrcs@.len() && self.ready_ssrcs@[i] == ssrc;
                        assert(queue[i + 1] == queue[0]);
                    }
                }
                assert forall|other: u32| other != ssrc implies #[trigger]
                    self.queued_ready_ssrcs@.contains(other) == self.ready_ssrcs@.contains(other)
                    by {
                    assert(before.queued_ready_ssrcs@.contains(other)
                        == before.ready_ssrcs@.contains(other));
                    if before.ready_ssrcs@.contains(other) {
                        let i = choose|i: int|
                            0 <= i < before.ready_ssrcs@.len() && before.ready_ssrcs@[i] == other;
                        assert(self.ready_ssrcs@[i - 1] == other);
                    }
                    if self.ready_ssrcs@.contains(other) {
                        let i = choose|i: int|
                            0 <= i < self.ready_ssrcs@.len() && self.ready_ssrcs@[i] == other;
                        assert(before.ready_ssrcs@[i + 1] == other);
                    }
                }
            }
            let ready = match self.ssrc.get(&ssrc) {
                Some(state) => state.has_ready_buffered_media(),
                None => false,
            };
            proof {
                assert forall|other: u32| other != ssrc implies #[trigger] self.scheduled(other) by {
                    assert(before.scheduled(other));
                }
                assert(before.scheduled(ssrc));
            }
            if ready {
                return Some(ssrc);
            }
            assert(self.scheduled(ssrc));
            proof {
                passed = passed + 1;
            }
        }
    }

    /// Takes the state of a source out, to be put back changed.
    fn take_source(&mut self, ssrc: u32) -> (state: ReceiveSsrcState<Raw>)
        requires
            old(self).formed_but(Some(ssrc)),
            old(self).sources().dom().contains(ssrc),
        ensures
            final(self).formed_but(Some(ssrc)),
            final(self).sources() == old(self).sources().remove(ssrc),
            final(self).line() == old(self).line(),
            final(self).limits() == old(self).limits(),
            final(self).waiting_media() == old(self).waiting_media(),
            state == old(self).sources()[ssrc],
            state.limits() == old(self).limits(),
    {
        let ghost before = *self;
        let state = match self.ssrc.remove(&ssrc) {
            Some(state) => state,
            None => ReceiveSsrcState::new(self.tuning),
        };
        proof {
            assert forall|other: u32| other != ssrc implies #[trigger] self.scheduled(other) by {
                assert(before.scheduled(other));
            }
        }
        state
    }

    /// Puts the state of a source back, and queues the source as it asks for.
    fn put_source(&mut self, ssrc: u32, state: ReceiveSsrcState<Raw>)
        requires
            old(self).formed_but(Some(ssrc)),
            state.limits() == old(self).limits(),
        ensures
            final(self).well_formed(),
            final(self).sources() == old(self).sources().insert(ssrc, state),
            final(self).line() == lined_up(old(self).line(), ssrc, state@),
            final(self).limits() == old(self).limits(),
            final(self).waiting_media() == old(self).waiting_media(),
    {
        let ghost before = *self;
        let _ = self.ssrc.insert(ssrc, state);
        proof {
            assert forall|other: u32| other != ssrc implies #[trigger] self.scheduled(other) by {
                assert(before.scheduled(other));
            }
        }
        self.refresh_ssrc_schedules(ssrc);
    }

    /// A source that has waited long enough for a packet, one of those that have first.
    fn expired_missing_ssrc(&mut self, now: Instant) -> (ssrc: Option<u32>)
        requires
            old(self).well_formed(),
        ensures
            final(self).sources() == old(self).sources(),
            final(self).line() == old(self).line(),
            final(self).limits() == old(self).limits(),
            final(self).waiting_media() == old(self).waiting_media(),
            match ssrc {
                Some(ssrc) => {
                    &&& final(self).formed_but(Some(ssrc))
                    &&& final(self).sources().dom().contains(ssrc)
                    &&& first_overdue(
                        views(final(self).sources()),
                        ssrc,
                        final(self).limits().rtp_reorder_ttl,
                    )
                    &&& final(self).sources()[ssrc]@.run(
                        now,
                        final(self).limits().rtp_reorder_ttl,
                        false,
                    ).count > 0
                },
                None => {
                    &&& final(self).well_formed()
                    &&& !any_overdue(
                        views(final(self).sources()),
                        now,
                        final(self).limits().rtp_reorder_ttl,
                    )
                },
            },
    {
        let ghost before = *self;
        match self.rtp_reorder_deadlines.pop_expired(now) {
            Some(key) => {
                let ssrc: u32 = key as u32;
                proof {
                    assert(before.rtp_reorder_deadlines@.dom().contains(key));
                    assert(before.scheduled(ssrc));
                    assert forall|other: u32| other != ssrc implies #[trigger] self.scheduled(
                        other,
                    ) by {
                        assert(before.scheduled(other));
                    }
                    self.ssrc@[ssrc].lemma_finite();
                    let source = self.ssrc@[ssrc]@;
                    let seq = source.next_seq->0;
                    assert(overdue(source.missing[seq], now, self.tuning.rtp_reorder_ttl));
                    let shown = views(self.sources());
                    let ttl = self.tuning.rtp_reorder_ttl;
                    assert forall|other: u32|
                        shown.dom().contains(other) && ((#[trigger] shown[other]).deadline(
                            ttl,
                        ) is Some) implies shown[ssrc].deadline(ttl)->0.nanos
                        <= shown[other].deadline(ttl)->0.nanos by {
                        assert(before.scheduled(other));
                        assert(before.rtp_reorder_deadlines@.dom().contains(other as u64));
                        assert(before.rtp_reorder_deadlines@[other as u64] == shown[other].deadline(
                            ttl,
                        )->0);
                    }
                }
                Some(ssrc)
            },
            None => {
                proof {
                    assert forall|ssrc: u32| #[trigger] self.scheduled(ssrc) by {
                        assert(before.scheduled(ssrc));
                    }
                    let shown = views(self.sources());
                    assert forall|ssrc: u32|
                        shown.dom().contains(ssrc) && ((#[trigger] shown[ssrc]).deadline(
                            self.tuning.rtp_reorder_ttl,
                        ) is Some) implies shown[ssrc].deadline(
                        self.tuning.rtp_reorder_ttl,
                    )->0.nanos > now.nanos by {
                        assert(before.scheduled(ssrc));
                        assert(before.rtp_reorder_deadlines@[ssrc as u64] == shown[ssrc].deadline(
                            self.tuning.rtp_reorder_ttl,
                        )->0);
                    }
                }
                None
            },
        }
    }

    /// Gives out the next frame of any source. A source gives out what it has ready; where
    /// none has, packets that were waited for long enough are given up.
    pub fn drain_ordered_media(
        &mut self,
        now: Instant,
        telemetry: bool,
        events: &mut Vec<ReceiveRtpEvent>,
    ) -> (frame: Result<Option<PendingMediaFrame<Raw>>, Error>)
        requires
            old(self).well_formed(),
        ensures
            final(self).well_formed(),
            state_drained(
                *old(self),
                *final(self),
                now,
                telemetry,
                old(events)@,
                final(events)@,
                frame,
            ),
    {
        let ghost ttl = self.tuning.rtp_reorder_ttl;
        let ghost first = self.drain_view(events@);
        let ghost mut steps: Seq<u32> = seq![];
        let ghost mut states: Seq<DrainView<Raw>> = seq![first];
        loop
            invariant
                self.well_formed(),
                self.limits() == old(self).limits(),
                ttl == self.limits().rtp_reorder_ttl,
                self.waiting_media() == old(self).waiting_media(),
                self.sources().dom() == old(self).sources().dom(),
                forall|ssrc: u32|
                    #![trigger self.sources()[ssrc]]
                    old(self).sources().dom().contains(ssrc) ==> self.sources()[ssrc].same_times(
                        old(self).sources()[ssrc],
                    ),
                first == old(self).drain_view(old(events)@),
                silent_run(states, steps, now, ttl, telemetry),
                states[0] == first,
                states.last() == self.drain_view(events@),
            decreases total_weight(self.sources()),
        {
            let ghost start = self.drain_view(events@);
            let ghost before = self.sources();
            if let Some(ssrc) = self.pop_ready_buffered_ssrc() {
                let mut state = self.take_source(ssrc);
                let frame = state.pop_ready_buffered_frame(now);
                let ghost state_after = state;
                self.put_source(ssrc, state);
                let ghost after = self.drain_view(events@);
                proof {
                    before[ssrc].lemma_finite();
                    assert(self.sources() =~= before.insert(ssrc, state_after));
                    assert(after.sources =~= start.sources.insert(ssrc, after.sources[ssrc]));
                    lemma_weight_changes(before, ssrc, state_after);
                }
                match frame {
                    Ok(None) => {
                        proof {
                            assert(silent_step(start, after, ssrc, now, ttl, telemetry));
                            states = states.push(after);
                            steps = steps.push(ssrc);
                        }
                    },
                    frame => {
                        assert(gave(start, after, now, frame));
                        return frame;
                    },
                }
            } else {
                proof {
                    assert forall|ssrc: u32| start.sources.dom().contains(ssrc) implies !(
                    #[trigger] start.sources[ssrc]).ready() by {
                        assert(start.sources[ssrc] == self.sources()[ssrc]@);
                    }
                    assert(!any_ready(start.sources));
                    assert(self.line() =~= seq![]);
                }
                if let Some(ssrc) = self.expired_missing_ssrc(now) {
                    let mut state = self.take_source(ssrc);
                    let _ = state.expire_missing_head(ssrc, now, false, telemetry, events);
                    let ghost state_after = state;
                    self.put_source(ssrc, state);
                    proof {
                        let after = self.drain_view(events@);
                        assert(self.sources() =~= before.insert(ssrc, state_after));
                        assert(after.sources =~= start.sources.insert(ssrc, after.sources[ssrc]));
                        assert(start.sources[ssrc] == before[ssrc]@);
                        lemma_weight_changes(before, ssrc, state_after);
                        before[ssrc].lemma_finite();
                        lemma_run_is_taken(
                            before[ssrc]@.missing,
                            before[ssrc]@.next_seq->0,
                            now,
                            ttl,
                            false,
                            None,
                        );
                        assert(silent_step(start, after, ssrc, now, ttl, telemetry));
                        states = states.push(after);
                        steps = steps.push(ssrc);
                    }
                } else {
                    return Ok(None);
                }
            }
        }
    }

    /// Forgets some sources and the media of theirs that waits.
    pub fn prune_ssrcs(&mut self, removed_ssrcs: &HashSet<u32>)
        requires
            old(self).well_formed(),
        ensures
            final(self).well_formed(),
            final(self).limits() == old(self).limits(),
            final(self).sources() == old(self).sources().remove_keys(removed_ssrcs@),
            final(self).line() == line_without(old(self).line(), removed_ssrcs@),
            final(self).waiting_media().patience() == old(self).waiting_media().patience(),
            forall|bucket: DavePendingMediaBucket| #[trigger]
                final(self).waiting_media().bucket(bucket) == kept(
                    old(self).waiting_media().bucket(bucket),
                    removed_ssrcs@,
                ),
    {
        let removed = listed(removed_ssrcs);
        let len = removed.len();
        let mut i: usize = 0;
        proof {
            assert(removed@.take(0).to_set() =~= Set::<u32>::empty());
            assert(self.sources() =~= old(self).sources().remove_keys(Set::<u32>::empty()));
            lemma_none_gone(self.line(), Set::<u32>::empty());
        }
        while i < len
            invariant
                len == removed@.len(),
                i <= len,
                self.well_formed(),
                self.limits() == old(self).limits(),
                self.waiting_media() == old(self).waiting_media(),
                self.sources() == old(self).sources().remove_keys(
                    removed@.take(i as int).to_set(),
                ),
                self.line() == line_without(old(self).line(), removed@.take(i as int).to_set()),
            decreases len - i,
        {
            let ghost before = self.sources();
            self.forget_source(removed[i]);
            proof {
                lemma_grown_set(removed@, i as int);
                lemma_gone_in_turn(old(self).line(), removed@.take(i as int).to_set(), set![
                    removed@[i as int],
                ]);
                assert(removed@.take(i as int).to_set().union(set![removed@[i as int]])
                    =~= removed@.take(i + 1).to_set());
                assert(before.remove(removed@[i as int]) =~= old(self).sources().remove_keys(
                    removed@.take(i + 1).to_set(),
                ));
            }
            i = i + 1;
        }
        assert(removed@.take(i as int) =~= removed@);
        let ghost before = *self;
        self.pending_dave_media.prune_ssrcs(removed_ssrcs);
        proof {
            assert forall|ssrc: u32| #[trigger] self.scheduled(ssrc) by {
                assert(before.scheduled(ssrc));
            }
        }
    }

    fn forget_source(&mut self, ssrc: u32)
        requires
            old(self).well_formed(),
        ensures
            final(self).well_formed(),
            final(self).limits() == old(self).limits(),
            final(self).sources() == old(self).sources().remove(ssrc),
            final(self).line() == line_without(old(self).line(), set![ssrc]),
            final(self).waiting_media() == old(self).waiting_media(),
    {
        let ghost before = *self;
        let _ = self.ssrc.remove(&ssrc);
        let _ = self.rtp_reorder_deadlines.remove(ssrc as u64);
        let _ = self.queued_ready_ssrcs.remove(&ssrc);
        let len = self.ready_ssrcs.len();
        let mut at: usize = 0;
        while at < len && self.ready_ssrcs[at] != ssrc
            invariant
                len == self.ready_ssrcs@.len(),
                at <= len,
                forall|i: int| 0 <= i < at ==> self.ready_ssrcs@[i] != ssrc,
            decreases len - at,
        {
            at = at + 1;
        }
        if at < len {
            let _ = self.ready_ssrcs.remove(at);
        }
        proof {
            lemma_taken_out(before.ready_ssrcs@, self.ready_ssrcs@, at as int, ssrc);
            lemma_one_gone(before.ready_ssrcs@, at as int, ssrc);
            assert forall|other: u32| #[trigger]
                self.queued_ready_ssrcs@.contains(other) == self.ready_ssrcs@.contains(other) by {
                assert(before.queued_ready_ssrcs@.contains(other)
                    == before.ready_ssrcs@.contains(other));
            }
            assert forall|other: u32| #[trigger] self.scheduled(other) by {
                assert(before.scheduled(other));
            }
        }
    }
}

/// A source that can give something out stands in the line, and none stands in it twice.
pub proof fn law_ready_sources_stand_in_line<Raw: FrameRaw>(state: ReceiveState<Raw>, ssrc: u32)
    requires
        state.well_formed(),
    ensures
        state.line().no_duplicates(),
        state.sources().dom().contains(ssrc) && state.sources()[ssrc]@.ready()
            ==> state.line().contains(ssrc),
{
    assert(state.scheduled(ssrc));
    assert(state.queued_ready_ssrcs@.contains(ssrc) == state.ready_ssrcs@.contains(ssrc));
}

proof fn lemma_none_gone(line: Seq<u32>, gone: Set<u32>)
    requires
        forall|i: int| 0 <= i < line.len() ==> !gone.contains(#[trigger] line[i]),
    ensures
        line_without(line, gone) == line,
    decreases line.len(),
{
    if line.len() > 0 {
        let rest = line.drop_last();
        assert forall|i: int| 0 <= i < rest.len() implies !gone.contains(#[trigger] rest[i]) by {
            assert(rest[i] == line[i]);
        }
        assert(!gone.contains(line[line.len() - 1]));
        lemma_none_gone(rest, gone);
        assert(rest.push(line.last()) =~= line);
    }
}

proof fn lemma_one_gone(line: Seq<u32>, at: int, ssrc: u32)
    requires
        line.no_duplicates(),
        0 <= at <= line.len(),
        forall|i: int| 0 <= i < at ==> line[i] != ssrc,
        at < line.len() ==> line[at] == ssrc,
    ensures
        line_without(line, set![ssrc]) == if at < line.len() {
            line.remove(at)
        } else {
            line
        },
    decreases line.len(),
{
    if at == line.len() {
        lemma_none_gone(line, set![ssrc]);
    } else {
        let rest = line.drop_last();
        if at == rest.len() {
            lemma_none_gone(rest, set![ssrc]);
            assert(line.remove(at) =~= rest);
        } else {
            lemma_one_gone(rest, at, ssrc);
            assert(line.last() != ssrc);
            assert(rest.remove(at).push(line.last()) =~= line.remove(at));
        }
    }
}

proof fn lemma_gone_in_turn(line: Seq<u32>, first: Set<u32>, second: Set<u32>)
    ensures
        line_without(line_without(line, first), second) == line_without(line, first.union(second)),
    decreases line.len(),
{
    if line.len() > 0 {
        let rest = line.drop_last();
        lemma_gone_in_turn(rest, first, second);
        if !first.contains(line.last()) {
            let left = line_without(rest, first);
            assert(left.push(line.last()).drop_last() =~= left);
        }
    }
}

proof fn lemma_taken_out(before: Seq<u32>, after: Seq<u32>, at: int, ssrc: u32)
    requires
        before.no_duplicates(),
        0 <= at <= before.len(),
        forall|i: int| 0 <= i < at ==> before[i] != ssrc,
        if at < before.len() {
            before[at] == ssrc && after == before.remove(at)
        } else {
            after == before
        },
    ensures
        after.no_duplicates(),
        forall|other: u32| #[trigger]
            after.contains(other) == (before.contains(other) && other != ssrc),
{
    assert forall|other: u32| #[trigger]
        after.contains(other) == (before.contains(other) && other != ssrc) by {
        if before.contains(other) && other != ssrc {
            let i = choose|i: int| 0 <= i < before.len() && before[i] == other;
            if i < at || at == before.len() {
                assert(after[i] == other);
            } else {
                assert(after[i - 1] == other);
            }
        }
        if after.contains(other) {
            let i = choose|i: int| 0 <= i < after.len() && after[i] == other;
            if i < at {
                assert(before[i] == other);
            } else {
                assert(before[i + 1] == other);
                assert(before[at] == ssrc);
            }
        }
    }
}

/// Whether taking a packet in turned `before` into `after`: its source takes it, a source
/// that is new begins with it, and nothing else changes.
#[verifier::opaque]
pub open spec fn packet_taken<Raw: FrameRaw>(
    before: ReceiveState<Raw>,
    after: ReceiveState<Raw>,
    packet: PendingMediaPacket<Raw>,
    now: Instant,
    telemetry: bool,
    old_events: Seq<ReceiveRtpEvent>,
    new_events: Seq<ReceiveRtpEvent>,
    frame: Result<Option<PendingMediaFrame<Raw>>, Error>,
) -> bool {
    let ssrc = packet.rtp.ssrc;
    &&& after.limits() == before.limits()
    &&& after.waiting_media() == before.waiting_media()
    &&& after.line() == lined_up(before.line(), ssrc, after.sources()[ssrc]@)
    &&& after.sources().dom() == before.sources().dom().insert(ssrc)
    &&& forall|other: u32|
        #![trigger after.sources()[other]]
        other != ssrc && before.sources().dom().contains(other) ==> after.sources()[other]
            == before.sources()[other]
    &&& exists|source: ReceiveSsrcState<Raw>|
        {
            &&& if before.sources().dom().contains(ssrc) {
                source == before.sources()[ssrc]
            } else {
                is_new(source, before.limits())
            }
            &&& #[trigger] took(
                source,
                after.sources()[ssrc],
                packet,
                now,
                telemetry,
                old_events,
                new_events,
                frame,
            )
        }
}

/// Whether a source is one that nothing was heard of.
pub open spec fn is_new<Raw: FrameRaw>(
    state: ReceiveSsrcState<Raw>,
    tuning: ConnectionTuning,
) -> bool {
    &&& state@ == (SsrcView::<Raw> {
        next_seq: None,
        missing: Map::empty(),
        buffered: Map::empty(),
        under_way: None,
        waiting: seq![],
    })
    &&& state.limits() == tuning
    &&& state.times().len() == 0
    &&& state.times_kept() == tuning.receive_interarrival_window
    &&& state.arrived_at() is None
}

/// The first in the line that can give something out is served, and none before it can.
pub proof fn law_the_first_that_can_is_served<Raw: FrameRaw>(
    line: Seq<u32>,
    sources: Map<u32, SsrcView<Raw>>,
    i: int,
)
    requires
        0 <= i < line.len(),
    ensures
        0 <= first_ready(line, sources) <= line.len(),
        i < first_ready(line, sources) ==> !(sources.dom().contains(line[i])
            && sources[line[i]].ready()),
        i == first_ready(line, sources) ==> sources.dom().contains(line[i])
            && sources[line[i]].ready(),
    decreases line.len(),
{
    if !(sources.dom().contains(line[0]) && sources[line[0]].ready()) {
        let rest = line.drop_first();
        if i > 0 {
            law_the_first_that_can_is_served(rest, sources, i - 1);
            assert(rest[i - 1] == line[i]);
        } else if rest.len() > 0 {
            law_the_first_that_can_is_served(rest, sources, 0);
        }
    }
}

/// A source that has something is put at the end of the line, and never twice; one that has
/// nothing leaves the line as it is.
pub proof fn law_newcomers_go_to_the_end<Raw: FrameRaw>(
    line: Seq<u32>,
    ssrc: u32,
    source: SsrcView<Raw>,
)
    requires
        line.no_duplicates(),
    ensures
        lined_up(line, ssrc, source).no_duplicates(),
        lined_up(line, ssrc, source).take(line.len() as int) == line,
        source.ready() ==> lined_up(line, ssrc, source).contains(ssrc),
        !source.ready() ==> lined_up(line, ssrc, source) == line,
        source.ready() && !line.contains(ssrc) ==> lined_up(line, ssrc, source).last() == ssrc,
{
    let after = lined_up(line, ssrc, source);
    assert(after.take(line.len() as int) =~= line);
    if source.ready() && !line.contains(ssrc) {
        assert(after[line.len() as int] == ssrc);
    }
}

/// Sources that are gone leave the line, and the others keep their order.
pub proof fn law_the_line_closes_up(line: Seq<u32>, gone: Set<u32>)
    ensures
        line_without(line, gone) == line.filter(|ssrc: u32| !gone.contains(ssrc)),
    decreases line.len(),
{
    reveal(Seq::filter);
    if line.len() > 0 {
        law_the_line_closes_up(line.drop_last(), gone);
    }
}

/// Sources take turns: one that gave something out stands behind all that stood behind it,
/// or not in the line at all.
pub proof fn law_sources_take_turns<Raw: FrameRaw>(
    before: DrainView<Raw>,
    after: DrainView<Raw>,
    now: Instant,
    result: Result<Option<PendingMediaFrame<Raw>>, Error>,
    i: int,
)
    requires
        before.line.no_duplicates(),
        gave(before, after, now, result),
        first_ready(before.line, before.sources) < i < before.line.len(),
    ensures
        ({
            let first = first_ready(before.line, before.sources);
            let served = before.line[first];
            &&& after.line.len() > i - first - 1
            &&& after.line[i - first - 1] == before.line[i]
            &&& forall|j: int|
                0 <= j < after.line.len() && after.line[j] == served ==> j > i - first - 1
            &&& after.sources[served].ready() ==> after.line.last() == served
        }),
{
    let first = first_ready(before.line, before.sources);
    let served = before.line[first];
    let rest = before.line.skip(first + 1);
    if 0 < before.line.len() {
        law_the_first_that_can_is_served(before.line, before.sources, 0);
    }
    assert forall|j: int| 0 <= j < rest.len() implies rest[j] != served by {
        assert(rest[j] == before.line[first + 1 + j]);
    }
    assert(!rest.contains(served));
}

} // verus!
