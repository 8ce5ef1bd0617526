//! What holds of the packets of one source: which are missing, which wait for them, and
//! which are given up.

use super::pending::{PendingMediaFrame, PendingMediaPacket};
use super::ssrc::{
    arrival, jump_loss, loss_run, next_number, overdue, placement, popped, took, with_missing,
    with_time, MissingRtpPacket, ReceiveSsrcState, SsrcView,
};
use crate::errors::Error;
use crate::media::FrameRaw;
use crate::observer::ReceiveRtpEvent;
use crate::stats::law_percentiles_are_samples;
use crate::time::{Duration, Instant};
use vstd::prelude::*;

verus! {

/// The number that comes so many after another; after the last comes the first.
pub open spec fn number(from: u16, steps: int) -> u16 {
    ((from + steps) % 0x1_0000) as u16
}

proof fn lemma_numbers_differ(from: u16, a: int, b: int)
    requires
        0 <= a < 0x1_0000,
        0 <= b < 0x1_0000,
        a != b,
    ensures
        number(from, a) != number(from, b),
{
}

proof fn lemma_number_sum(from: u16, a: int, b: int)
    requires
        0 <= a,
        0 <= b,
    ensures
        number(number(from, a), b) == number(from, a + b),
{
}

/// Where a packet belongs depends on how far its number is ahead of the one that is next:
/// nothing ahead is next; up to half of all numbers ahead is early where it lies in the
/// window, and a jump where it lies beyond it; all others are late.
pub proof fn law_packets_have_their_place(next: u16, steps: int, window: usize)
    requires
        0 <= steps < 0x1_0000,
    ensures
        ({
            let place = placement(Some(next), number(next, steps), window);
            &&& place is Next == (steps == 0)
            &&& place is Early == (0 < steps < 0x8000 && steps <= window)
            &&& place is Jump == (0 < steps < 0x8000 && steps > window)
            &&& place is Late == (0x8000 <= steps)
        }),
        placement(None, number(next, steps), window) is Next,
{
}

proof fn lemma_gap(
    missing: Map<u16, MissingRtpPacket>,
    expected: u16,
    forward: int,
    packet: MissingRtpPacket,
    seq: u16,
)
    requires
        0 <= forward <= 0x1_0000,
    ensures
        ({
            let after = with_missing(missing, expected, forward, packet);
            let inside = (seq - expected) % 0x1_0000 < forward;
            &&& after.dom().contains(seq) == (missing.dom().contains(seq) || inside)
            &&& missing.dom().contains(seq) ==> after[seq] == missing[seq]
            &&& !missing.dom().contains(seq) && inside ==> after[seq] == packet
        }),
    decreases forward,
{
    if forward > 0 {
        lemma_gap(missing, expected, forward - 1, packet, seq);
        let last = number(expected, forward - 1);
        lemma_gap(missing, expected, forward - 1, packet, last);
        if (seq - expected) % 0x1_0000 == forward - 1 {
            assert(seq == last);
        }
    }
}

/// Once a packet is set aside, every number from the one that is next up to its own is
/// missing: those that were missing before since then, and the others as of now. No other
/// number becomes missing or ceases to be. The packet is kept under its number, unless one
/// was there; the number that is next stays, and so does all else that was set aside.
pub proof fn law_the_gap_is_missing<Raw: FrameRaw>(
    state: SsrcView<Raw>,
    packet: PendingMediaPacket<Raw>,
    now: Instant,
    next: u16,
    forward: int,
    steps: int,
)
    requires
        state.next_seq == Some(next),
        packet.rtp.seq == number(next, forward),
        0 < forward < 0x1_0000,
        0 <= steps < 0x1_0000,
    ensures
        ({
            let aside = state.set_aside(packet, now);
            let seq = number(next, steps);
            &&& steps < forward ==> aside.missing.dom().contains(seq)
            &&& steps < forward && !state.missing.dom().contains(seq) ==> aside.missing[seq] == (
            MissingRtpPacket { user_id: packet.user_id, detected_at: now })
            &&& state.missing.dom().contains(seq) ==> aside.missing.dom().contains(seq)
                && aside.missing[seq] == state.missing[seq]
            &&& steps >= forward && !state.missing.dom().contains(seq)
                ==> !aside.missing.dom().contains(seq)
            &&& aside.next_seq == Some(next)
            &&& aside.waiting == state.waiting && aside.under_way == state.under_way
            &&& state.buffered.dom().contains(seq) ==> aside.buffered.dom().contains(seq)
                && aside.buffered[seq] == state.buffered[seq]
            &&& !state.buffered.dom().contains(seq) ==> aside.buffered.dom().contains(seq) == (
            steps == forward)
            &&& steps == forward && !state.buffered.dom().contains(seq) ==> aside.buffered[seq]
                == packet
        }),
{
    let seq = number(next, steps);
    lemma_gap(
        state.missing,
        next,
        forward,
        MissingRtpPacket { user_id: packet.user_id, detected_at: now },
        seq,
    );
    if steps != forward {
        lemma_numbers_differ(next, steps, forward);
    }
}

proof fn lemma_run(
    missing: Map<u16, MissingRtpPacket>,
    from: u16,
    now: Instant,
    ttl: Duration,
    force: bool,
    user_id: Option<u64>,
)
    requires
        missing.dom().finite(),
    ensures
        ({
            let run = loss_run(missing, from, now, ttl, force, user_id);
            &&& run.count <= 0x1_0000
            &&& forall|k: int|
                0 <= k < run.count ==> missing.dom().contains(#[trigger] number(from, k)) && (force
                    || overdue(missing[number(from, k)], now, ttl)) && !run.left.dom().contains(
                    number(from, k),
                )
            &&& forall|k: int|
                run.count <= k < 0x1_0000 ==> run.left.dom().contains(#[trigger] number(from, k))
                    == missing.dom().contains(number(from, k))
            &&& forall|seq: u16|
                #[trigger] run.left.dom().contains(seq) ==> missing.dom().contains(seq)
                    && run.left[seq] == missing[seq]
            &&& run.count < 0x1_0000 ==> !(missing.dom().contains(number(from, run.count as int))
                && (force || overdue(missing[number(from, run.count as int)], now, ttl)))
            &&& user_id is Some ==> run.user_id == user_id
            &&& run.user_id is Some && user_id is None ==> exists|k: int|
                0 <= k < run.count && missing[#[trigger] number(from, k)].user_id == run.user_id
                    && forall|j: int|
                    0 <= j < k ==> missing[#[trigger] number(from, j)].user_id is None
            &&& run.user_id is None ==> forall|k: int|
                0 <= k < run.count ==> missing[#[trigger] number(from, k)].user_id is None
        }),
    decreases missing.dom().len(),
{
    let run = loss_run(missing, from, now, ttl, force, user_id);
    assert(number(from, 0) == from);
    if missing.dom().contains(from) && (force || overdue(missing[from], now, ttl)) {
        let rest = missing.remove(from);
        let next = number(from, 1);
        let known = match user_id {
            Some(id) => Some(id),
            None => missing[from].user_id,
        };
        lemma_run(rest, next, now, ttl, force, known);
        let after = loss_run(rest, next, now, ttl, force, known);
        assert(run.count == after.count + 1 && run.left == after.left && run.user_id
            == after.user_id);
        assert forall|k: int| 0 <= k implies #[trigger] number(from, k + 1) == number(next, k) by {
        }
        if after.count >= 0x1_0000 {
            assert(number(next, 0xffff) == from);
            assert(false);
        }
        assert forall|k: int| 0 <= k < run.count implies missing.dom().contains(
            #[trigger] number(from, k),
        ) && (force || overdue(missing[number(from, k)], now, ttl)) && !run.left.dom().contains(
            number(from, k),
        ) by {
            if k > 0 {
                assert(number(from, k - 1 + 1) == number(next, k - 1));
                assert(rest.dom().contains(number(next, k - 1)));
            } else if run.left.dom().contains(from) {
                assert(after.left.dom().contains(from));
            }
        }
        assert forall|k: int| run.count <= k < 0x1_0000 implies run.left.dom().contains(
            #[trigger] number(from, k),
        ) == missing.dom().contains(number(from, k)) by {
            assert(number(from, k - 1 + 1) == number(next, k - 1));
            lemma_numbers_differ(from, 0, k);
        }
        assert forall|seq: u16| #[trigger] run.left.dom().contains(seq) implies
            missing.dom().contains(seq) && run.left[seq] == missing[seq] by {
            assert(after.left.dom().contains(seq));
        }
        if run.count < 0x1_0000 {
            assert(number(from, (after.count + 1) as int) == number(next, after.count as int));
            lemma_numbers_differ(from, 0, run.count as int);
        }
        if run.user_id is Some && user_id is None {
            if missing[from].user_id is Some {
                assert(missing[number(from, 0)].user_id == run.user_id);
            } else {
                let k = choose|k: int|
                    0 <= k < after.count && rest[#[trigger] number(next, k)].user_id
                        == after.user_id && forall|j: int|
                        0 <= j < k ==> rest[#[trigger] number(next, j)].user_id is None;
                assert(number(from, k + 1) == number(next, k));
                assert forall|j: int| 0 <= j < k + 1 implies missing[#[trigger] number(
                    from,
                    j,
                )].user_id is None by {
                    if j > 0 {
                        assert(number(from, j - 1 + 1) == number(next, j - 1));
                        assert(rest[number(next, j - 1)].user_id is None);
                        assert(rest.dom().contains(number(next, j - 1)));
                    }
                }
                assert(rest.dom().contains(number(next, k)));
                assert(missing[number(from, k + 1)].user_id == run.user_id);
            }
        }
        if run.user_id is None {
            assert forall|k: int| 0 <= k < run.count implies missing[#[trigger] number(
                from,
                k,
            )].user_id is None by {
                if k > 0 {
                    assert(number(from, k - 1 + 1) == number(next, k - 1));
                    assert(rest.dom().contains(number(next, k - 1)));
                }
            }
        }
    }
}

/// Giving up takes the missing numbers at the head, one after the other, as long as they are
/// overdue, or by force as long as they are missing; it stops at the first that is not. The
/// numbers behind stay as they were. What is set aside, and what waits, stays too. The loss
/// that is told of names the first and the last, counts them, tells how long the first has
/// been missing, and names the first user that is known of any of them.
pub proof fn law_giving_up_takes_the_head<Raw: FrameRaw>(
    state: SsrcView<Raw>,
    next: u16,
    count: int,
    ssrc: u32,
    now: Instant,
    ttl: Duration,
    force: bool,
)
    requires
        state.missing.dom().finite(),
        state.next_seq == Some(next),
        0 <= count < 0x1_0000,
        forall|k: int|
            0 <= k < count ==> state.missing.dom().contains(#[trigger] number(next, k)) && (force
                || overdue(state.missing[number(next, k)], now, ttl)),
        !(state.missing.dom().contains(number(next, count)) && (force || overdue(
            state.missing[number(next, count)],
            now,
            ttl,
        ))),
    ensures
        ({
            let after = state.given_up(now, ttl, force);
            let loss = state.loss(ssrc, now, ttl, force);
            &&& after.next_seq == Some(number(next, count))
            &&& after.buffered == state.buffered
            &&& after.waiting == state.waiting && after.under_way == state.under_way
            &&& forall|k: int|
                0 <= k < 0x1_0000 ==> after.missing.dom().contains(#[trigger] number(next, k)) == (
                k >= count && state.missing.dom().contains(number(next, k)))
            &&& forall|seq: u16|
                after.missing.dom().contains(seq) ==> #[trigger] after.missing[seq]
                    == state.missing[seq]
            &&& loss is None == (count == 0)
            &&& loss matches Some(loss) ==> {
                &&& loss.ssrc == ssrc
                &&& loss.first_seq == next
                &&& loss.last_seq == number(next, count - 1)
                &&& loss.missing_packets == count
                &&& loss.age_ms == now.elapsed_since(state.missing[next].detected_at).in_ms()
                &&& loss.user_id is None ==> forall|k: int|
                    0 <= k < count ==> state.missing[#[trigger] number(next, k)].user_id is None
                &&& loss.user_id is Some ==> exists|k: int|
                    0 <= k < count && state.missing[#[trigger] number(next, k)].user_id
                        == loss.user_id && forall|j: int|
                        0 <= j < k ==> state.missing[#[trigger] number(next, j)].user_id is None
            }
        }),
{
    let run = state.run(now, ttl, force);
    lemma_run(state.missing, next, now, ttl, force, None);
    assert(number(next, 0) == next);
    if run.count < count {
        assert(state.missing.dom().contains(number(next, run.count as int)));
    }
    if run.count > count {
        assert(state.missing.dom().contains(number(next, count)));
    }
    assert(run.count == count);
}

/// Where nothing was missing and nothing set aside, a packet that is ahead comes next once
/// its gap has been waited for: not before, and then at once, with a loss of the whole gap.
pub proof fn law_a_gap_is_waited_for_and_passed<Raw: FrameRaw>(
    state: SsrcView<Raw>,
    packet: PendingMediaPacket<Raw>,
    now: Instant,
    later: Instant,
    ttl: Duration,
    next: u16,
    forward: int,
)
    requires
        state.next_seq == Some(next),
        state.missing == Map::<u16, MissingRtpPacket>::empty(),
        state.buffered == Map::<u16, PendingMediaPacket<Raw>>::empty(),
        packet.rtp.seq == number(next, forward),
        0 < forward < 0x8000,
    ensures
        ({
            let aside = state.set_aside(packet, now);
            let after = aside.given_up(later, ttl, false);
            &&& aside.deadline(ttl) == Some(now.later(ttl))
            &&& later.nanos < now.later(ttl).nanos ==> after == aside
            &&& later.nanos >= now.later(ttl).nanos ==> {
                &&& after.next_seq == Some(packet.rtp.seq)
                &&& after.ready()
                &&& after.buffered[packet.rtp.seq] == packet
                &&& after.missing == Map::<u16, MissingRtpPacket>::empty()
                &&& aside.loss(packet.rtp.ssrc, later, ttl, false) matches Some(loss)
                &&& loss.missing_packets == forward
                &&& loss.first_seq == next && loss.last_seq == number(next, forward - 1)
                &&& loss.user_id == packet.user_id
            }
        }),
{
    let aside = state.set_aside(packet, now);
    let entry = MissingRtpPacket { user_id: packet.user_id, detected_at: now };
    assert forall|k: int| 0 <= k < 0x1_0000 implies aside.missing.dom().contains(
        #[trigger] number(next, k),
    ) == (k < forward) && (k < forward ==> aside.missing[number(next, k)] == entry) by {
        law_the_gap_is_missing(state, packet, now, next, forward, k);
    }
    law_the_gap_is_missing(state, packet, now, next, forward, forward);
    lemma_gap_is_finite(state.missing, next, forward, entry);
    assert(number(next, 0) == next);
    if later.nanos >= now.later(ttl).nanos {
        law_giving_up_takes_the_head(
            aside,
            next,
            forward,
            packet.rtp.ssrc,
            later,
            ttl,
            false,
        );
        let after = aside.given_up(later, ttl, false);
        assert forall|seq: u16| !after.missing.dom().contains(seq) by {
            assert(seq == number(next, (seq - next) % 0x1_0000));
        }
        assert(after.missing =~= Map::<u16, MissingRtpPacket>::empty());
        let loss = aside.loss(packet.rtp.ssrc, later, ttl, false)->0;
        assert(aside.missing[number(next, 0)] == entry);
    } else {
        law_giving_up_takes_the_head(aside, next, 0, packet.rtp.ssrc, later, ttl, false);
        assert(aside.run(later, ttl, false).count == 0);
    }
}

proof fn lemma_gap_is_finite(
    missing: Map<u16, MissingRtpPacket>,
    expected: u16,
    forward: int,
    packet: MissingRtpPacket,
)
    requires
        missing.dom().finite(),
    ensures
        with_missing(missing, expected, forward, packet).dom().finite(),
    decreases forward,
{
    if forward > 0 {
        lemma_gap_is_finite(missing, expected, forward - 1, packet);
    }
}

/// Whether a packet that was set aside is waited for: every number before it, from the one
/// that is next, is missing or set aside as well.
pub open spec fn waited_for<Raw: FrameRaw>(state: SsrcView<Raw>, steps: int) -> bool {
    &&& 0 <= steps < 0x8000
    &&& state.next_seq matches Some(next)
    &&& state.buffered.dom().contains(number(next, steps))
    &&& forall|k: int|
        0 <= k < steps ==> state.missing.dom().contains(#[trigger] number(next, k))
            || state.buffered.dom().contains(number(next, k))
}

/// Nobody waits for ever: while a packet is waited for, something is ready, or there is a
/// time at which something is given up.
pub proof fn law_who_waits_has_a_deadline<Raw: FrameRaw>(
    state: SsrcView<Raw>,
    steps: int,
    ttl: Duration,
)
    requires
        waited_for(state, steps),
    ensures
        state.ready() || state.deadline(ttl) is Some,
{
    assert(number(state.next_seq->0, 0) == state.next_seq->0);
}

/// A packet that is set aside is waited for, and so is every one that was.
pub proof fn law_what_is_set_aside_is_waited_for<Raw: FrameRaw>(
    state: SsrcView<Raw>,
    packet: PendingMediaPacket<Raw>,
    now: Instant,
    next: u16,
    forward: int,
    steps: int,
)
    requires
        state.next_seq == Some(next),
        packet.rtp.seq == number(next, forward),
        0 < forward < 0x8000,
    ensures
        waited_for(state.set_aside(packet, now), forward),
        waited_for(state, steps) ==> waited_for(state.set_aside(packet, now), steps),
{
    let aside = state.set_aside(packet, now);
    assert forall|k: int| 0 <= k < 0x1_0000 implies ({
        let seq = #[trigger] number(next, k);
        &&& k < forward || state.missing.dom().contains(seq) ==> aside.missing.dom().contains(seq)
        &&& k == forward || state.buffered.dom().contains(seq)
            ==> aside.buffered.dom().contains(seq)
    }) by {
        law_the_gap_is_missing(state, packet, now, next, forward, k);
    }
    assert(aside.buffered.dom().contains(number(next, forward)));
}

/// A packet that is waited for stays so when missing ones before it are given up, as long as
/// that does not go beyond it.
#[verifier::rlimit(40)]
pub proof fn law_giving_up_leaves_who_waits<Raw: FrameRaw>(
    state: SsrcView<Raw>,
    next: u16,
    count: int,
    steps: int,
    now: Instant,
    ttl: Duration,
    force: bool,
)
    requires
        state.missing.dom().finite(),
        state.next_seq == Some(next),
        waited_for(state, steps),
        0 <= count <= steps,
        forall|k: int|
            0 <= k < count ==> state.missing.dom().contains(#[trigger] number(next, k)) && (force
                || overdue(state.missing[number(next, k)], now, ttl)),
        !(state.missing.dom().contains(number(next, count)) && (force || overdue(
            state.missing[number(next, count)],
            now,
            ttl,
        ))),
    ensures
        waited_for(state.given_up(now, ttl, force), steps - count),
        state.given_up(now, ttl, force).next_seq == Some(number(next, count)),
{
    law_giving_up_takes_the_head(state, next, count, 0, now, ttl, force);
    let after = state.given_up(now, ttl, force);
    let from = number(next, count);
    assert forall|k: int| 0 <= k < steps - count implies after.missing.dom().contains(
        #[trigger] number(from, k),
    ) || after.buffered.dom().contains(number(from, k)) by {
        lemma_number_sum(next, count, k);
        let seq = number(next, count + k);
        assert(number(from, k) == seq);
        assert(state.missing.dom().contains(seq) || state.buffered.dom().contains(seq));
        assert(after.missing.dom().contains(seq) == state.missing.dom().contains(seq));
    }
    lemma_number_sum(next, count, steps - count);
}

proof fn lemma_one_on<Raw: FrameRaw>(
    before: SsrcView<Raw>,
    after: SsrcView<Raw>,
    next: u16,
    steps: int,
)
    requires
        before.next_seq == Some(next),
        waited_for(before, steps),
        steps > 0,
        after.next_seq == Some(number(next, 1)),
        after.missing == before.missing.remove(next),
        after.buffered == before.buffered.remove(next),
    ensures
        waited_for(after, steps - 1),
{
    let from = number(next, 1);
    assert(number(next, 0) == next);
    assert forall|k: int| 0 <= k < steps implies #[trigger] number(from, k) == number(next, k + 1)
        && number(from, k) != next by {
        lemma_numbers_differ(next, 0, k + 1);
    }
    assert forall|k: int| 0 <= k < steps - 1 implies after.missing.dom().contains(
        #[trigger] number(from, k),
    ) || after.buffered.dom().contains(number(from, k)) by {
        assert(number(from, k) == number(next, k + 1));
        assert(before.missing.dom().contains(number(next, k + 1))
            || before.buffered.dom().contains(number(next, k + 1)));
    }
    assert(number(from, steps - 1) == number(next, steps));
}

/// Giving out what is ready takes frames that wait first, one at a time, and then the packet
/// that is next, and no other: a packet that is waited for is one step nearer then.
pub proof fn law_giving_out_goes_step_by_step<Raw: FrameRaw>(
    before: SsrcView<Raw>,
    after: SsrcView<Raw>,
    now: Instant,
    result: Result<Option<PendingMediaFrame<Raw>>, Error>,
    next: u16,
    steps: int,
)
    requires
        before.next_seq == Some(next),
        popped(before, after, now, result),
        waited_for(before, steps),
    ensures
        before.waiting.len() > 0 ==> waited_for(after, steps) && after.next_seq == Some(next)
            && result == Ok::<Option<PendingMediaFrame<Raw>>, Error>(Some(before.waiting[0]))
            && after.waiting == before.waiting.drop_first(),
        before.waiting.len() == 0 && before.buffered.dom().contains(next) ==> {
            &&& after.next_seq == Some(number(next, 1))
            &&& !after.buffered.dom().contains(next)
            &&& !after.missing.dom().contains(next)
            &&& steps > 0 ==> waited_for(after, steps - 1)
        },
        before.waiting.len() == 0 && !before.buffered.dom().contains(next) ==> after == before
            && result == Ok::<Option<PendingMediaFrame<Raw>>, Error>(None),
{
    if before.waiting.len() == 0 && before.ready() && steps > 0 {
        lemma_one_on(before, after, next, steps);
    }
}

/// Taking a packet in: the one that is next goes on and the one after it is next; one that is
/// beyond the window goes on too, and nothing is missing or set aside then; one that is late
/// changes nothing. Packets that are waited for stay so while the window holds.
pub proof fn law_each_packet_is_taken_once<Raw: FrameRaw>(
    old_state: ReceiveSsrcState<Raw>,
    new_state: ReceiveSsrcState<Raw>,
    packet: PendingMediaPacket<Raw>,
    now: Instant,
    telemetry: bool,
    old_events: Seq<ReceiveRtpEvent>,
    new_events: Seq<ReceiveRtpEvent>,
    frame: Result<Option<PendingMediaFrame<Raw>>, Error>,
    next: u16,
    forward: int,
    steps: int,
)
    requires
        took(
            old_state,
            new_state,
            packet,
            now,
            telemetry,
            old_events,
            new_events,
            frame,
        ),
        old_state@.next_seq == Some(next),
        0 <= forward < 0x1_0000,
        packet.rtp.seq == number(next, forward),
    ensures
        forward == 0 ==> {
            &&& new_state@.next_seq == Some(number(next, 1))
            &&& !new_state@.missing.dom().contains(next)
            &&& !new_state@.buffered.dom().contains(next)
            &&& steps > 0 && waited_for(old_state@, steps) ==> waited_for(new_state@, steps - 1)
        },
        forward > old_state.limits().rtp_reorder_buffer_max_frames && 0 < forward < 0x8000 ==> {
            &&& new_state@.next_seq == Some(number(next, forward + 1))
            &&& new_state@.missing.dom() == Set::<u16>::empty()
            &&& new_state@.buffered.dom() == Set::<u16>::empty()
            &&& telemetry ==> (new_events.last() matches ReceiveRtpEvent::Loss(loss)
                && loss.first_seq == next && loss.last_seq == number(next, forward - 1)
                && loss.missing_packets == forward)
        },
        forward >= 0x8000 ==> new_state@ == old_state@ && frame == Ok::<
            Option<PendingMediaFrame<Raw>>,
            Error,
        >(None),
{
    law_packets_have_their_place(
        next,
        forward,
        old_state.limits().rtp_reorder_buffer_max_frames,
    );
    if forward == 0 {
        assert(packet.rtp.seq == next);
        if steps > 0 && waited_for(old_state@, steps) {
            lemma_one_on(old_state@, new_state@, next, steps);
        }
    } else {
        assert(number(next, forward + 1) == ((packet.rtp.seq + 1) % 0x1_0000) as u16);
        assert(number(next, forward - 1) == ((packet.rtp.seq - 1) % 0x1_0000) as u16);
    }
}

/// Every packet that comes is told of, where that is wanted, with what its header says, and
/// before anything that comes of it; nothing that was told before is changed.
pub proof fn law_each_packet_is_told<Raw: FrameRaw>(
    old_state: ReceiveSsrcState<Raw>,
    new_state: ReceiveSsrcState<Raw>,
    packet: PendingMediaPacket<Raw>,
    now: Instant,
    telemetry: bool,
    old_events: Seq<ReceiveRtpEvent>,
    new_events: Seq<ReceiveRtpEvent>,
    frame: Result<Option<PendingMediaFrame<Raw>>, Error>,
)
    requires
        took(
            old_state,
            new_state,
            packet,
            now,
            telemetry,
            old_events,
            new_events,
            frame,
        ),
    ensures
        !telemetry ==> new_events == old_events,
        telemetry ==> {
            &&& old_events.len() < new_events.len() <= old_events.len() + 2
            &&& new_events.take(old_events.len() as int) == old_events
            &&& new_events[old_events.len() as int] matches ReceiveRtpEvent::Packet(told)
            &&& told.seq == packet.rtp.seq
            &&& told.ssrc == packet.rtp.ssrc
            &&& told.timestamp == packet.rtp.timestamp
            &&& told.user_id == packet.user_id
            &&& told.payload_bytes == packet.encrypted_payload@.len() as usize
            &&& told.interarrival_us is Some == old_state.arrived_at() is Some
        },
{
    if telemetry {
        let told = new_events[old_events.len() as int];
        assert(new_events.take(old_events.len() as int) =~= old_events);
    }
}

/// Of the times between arrivals the latest are kept, in order, and never more than may be.
pub proof fn law_latest_times_are_kept(times: Seq<u64>, kept: usize, time: u64)
    requires
        0 < kept,
        times.len() <= kept,
    ensures
        ({
            let after = with_time(times, kept, Some(time));
            &&& 0 < after.len() <= kept
            &&& after.last() == time
            &&& times.len() < kept ==> after.len() == times.len() + 1
            &&& times.len() == kept ==> after.len() == kept
            &&& after.drop_last() == times.skip(times.len() + 1 - after.len())
        }),
{
    let after = with_time(times, kept, Some(time));
    assert(after.drop_last() =~= times.skip(times.len() + 1 - after.len()));
}

/// What is told of a jump is all that lies between: from the packet that was waited for up to
/// the one right before the packet that came.
pub proof fn law_jumps_are_told<Raw: FrameRaw>(expected: u16, packet: PendingMediaPacket<Raw>)
    requires
        packet.rtp.seq != expected,
    ensures
        ({
            let loss = jump_loss(expected, packet);
            &&& loss.first_seq == expected
            &&& next_number(loss.last_seq) == packet.rtp.seq
            &&& loss.missing_packets > 0
            &&& (loss.first_seq + loss.missing_packets) % 0x1_0000 == packet.rtp.seq
            &&& loss.ssrc == packet.rtp.ssrc
            &&& loss.user_id == packet.user_id
        }),
{
}

/// What is told of packets that are given up are those at the head: as many as the place
/// moves on by, the last of them right before the packet that is waited for next, and as old
/// as the first of them.
pub proof fn law_losses_are_told<Raw: FrameRaw>(
    view: SsrcView<Raw>,
    ssrc: u32,
    now: Instant,
    ttl: Duration,
    force: bool,
)
    requires
        view.run(now, ttl, force).count <= 0xffff,
    ensures
        view.loss(ssrc, now, ttl, force) is None ==> view.given_up(now, ttl, force) == view,
        view.loss(ssrc, now, ttl, force) matches Some(loss) ==> {
            &&& view.next_seq == Some(loss.first_seq)
            &&& view.given_up(now, ttl, force).next_seq == Some(next_number(loss.last_seq))
            &&& (loss.first_seq + loss.missing_packets) % 0x1_0000 == next_number(loss.last_seq)
            &&& loss.missing_packets > 0
            &&& loss.ssrc == ssrc
            &&& loss.age_ms == now.elapsed_since(
                view.missing[loss.first_seq].detected_at,
            ).in_ms()
        },
{
}

/// What is told of the times between packets is among them: no time is longer than the
/// longest that is told, and the share of them is no longer than that.
pub proof fn law_times_are_told<Raw: FrameRaw>(
    packet: PendingMediaPacket<Raw>,
    time: Option<u64>,
    window: Seq<u64>,
    i: int,
)
    requires
        0 <= i < window.len(),
    ensures
        ({
            let told = arrival(packet, time, window);
            &&& told.interarrival_us == time
            &&& told.interarrival_max_us matches Some(longest)
            &&& window.contains(longest)
            &&& window[i] <= longest
            &&& told.interarrival_p95_us matches Some(share)
            &&& window.contains(share)
            &&& share <= longest
        }),
        arrival(packet, time, seq![]).interarrival_max_us is None,
        arrival(packet, time, seq![]).interarrival_p95_us is None,
{
    law_percentiles_are_samples(window, 95);
    law_percentiles_are_samples(window, 100);
}

} // verus!
