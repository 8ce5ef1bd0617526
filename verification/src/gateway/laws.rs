//! What holds of what the gateway tells, one event after the other.

use super::event::{
    binary_handled, handled, replayed, GatewayTextEvent, Handled, PendingGatewayEvent,
};
use crate::roster::id_numbers;
use crate::state::connection::StateView;
use crate::state::{DaveMlsMessageIdentity, DaveMlsMessageKind};
use vstd::prelude::*;

verus! {

/// Whether an event names a user as one who connects.
pub open spec fn says_connected(event: GatewayTextEvent, user: u64) -> bool {
    match event {
        GatewayTextEvent::ClientsConnect { user_ids } => exists|i: int|
            0 <= i < user_ids@.len() && #[trigger] user_ids@[i]@ == user,
        GatewayTextEvent::ClientConnect { user_id, .. } => user_id@ == user,
        _ => false,
    }
}

/// Whether an event names a user as one who leaves.
pub open spec fn says_gone(event: GatewayTextEvent, user: u64) -> bool {
    event matches GatewayTextEvent::ClientDisconnect { user_id } && user_id@ == user
}

/// A user who is connected stays so over every event but their own departure; whoever an
/// event names as connecting is connected then; and nobody else is who was not before. No
/// event of these is refused.
pub proof fn law_the_roster_follows_the_events(
    state: StateView,
    event: GatewayTextEvent,
    user: u64,
)
    ensures
        handled(state, event) matches Handled::Done(after, _) ==> {
            &&& state.connected.contains(user) && !says_gone(event, user)
                ==> after.connected.contains(user)
            &&& says_connected(event, user) ==> after.connected.contains(user)
            &&& after.connected.contains(user) ==> !says_gone(event, user) && (
            state.connected.contains(user) || says_connected(event, user))
            &&& says_connected(event, user) || says_gone(event, user)
                ==> after.roster_authoritative
            &&& state.roster_authoritative ==> after.roster_authoritative
        },
        says_connected(event, user) || says_gone(event, user) ==> handled(state, event) is Done,
        event is ClientsConnect ==> handled(state, event) is Done,
{
    if let GatewayTextEvent::ClientsConnect { user_ids } = event {
        let numbers = id_numbers(user_ids@);
        if numbers.contains(user) {
            let i = choose|i: int| 0 <= i < numbers.len() && numbers[i] == user;
            assert(user_ids@[i]@ == user);
        }
        if says_connected(event, user) {
            let i = choose|i: int| 0 <= i < user_ids@.len() && #[trigger] user_ids@[i]@ == user;
            assert(numbers[i] == user);
        }
    }
}

/// Whether an event says whose source it is.
pub open spec fn says_source(event: GatewayTextEvent, source: u32, user: u64) -> bool {
    match event {
        GatewayTextEvent::Speaking(update) => update.ssrc == source && (
        update.user_id matches Some(id) && id@ == user),
        GatewayTextEvent::ClientConnect { user_id, audio_ssrc, ssrc } => user_id@ == user && (
        audio_ssrc == Some(source) || (audio_ssrc is None && ssrc == Some(source))),
        _ => false,
    }
}

/// A source is its user's from the event that says so, until another event says otherwise
/// or the user leaves; nothing else gives a source to anybody. The sources of a user who
/// leaves are those that are told to be removed.
pub proof fn law_sources_follow_the_events(
    state: StateView,
    event: GatewayTextEvent,
    source: u32,
    user: u64,
)
    ensures
        handled(state, event) matches Handled::Done(after, effects) ==> {
            let owned = state.users.dom().contains(source) && state.users[source] == user;
            let owns = after.users.dom().contains(source) && after.users[source] == user;
            &&& says_source(event, source, user) ==> owns
            &&& owns ==> owned || says_source(event, source, user)
            &&& owned && !says_gone(event, user) && (forall|other: u64|
                other != user ==> !says_source(event, source, other)) ==> owns
            &&& owned && says_gone(event, user) ==> !after.users.dom().contains(source)
                && effects.removed.contains(source)
            &&& effects.removed.contains(source) ==> event is ClientDisconnect
                && state.users.dom().contains(source) && says_gone(event, state.users[source])
            &&& effects.disconnected.contains(user) == says_gone(event, user)
        },
        says_source(event, source, user) || says_gone(event, user) ==> handled(state, event)
            is Done,
{
    if let GatewayTextEvent::ClientDisconnect { user_id } = event {
        assert(seq![user_id@].contains(user_id@)) by {
            assert(seq![user_id@][0] == user_id@);
        }
    }
    if let GatewayTextEvent::Speaking(update) = event {
        if let Some(id) = update.user_id {
            if update.ssrc == source && id@ != user {
                assert(says_source(event, source, id@));
            }
        }
    }
    if let GatewayTextEvent::ClientConnect { user_id, audio_ssrc, ssrc } = event {
        if user_id@ != user && (audio_ssrc == Some(source) || (audio_ssrc is None && ssrc == Some(
            source,
        ))) {
            assert(says_source(event, source, user_id@));
        }
    }
}

/// What a source said last of its speaking is kept until it says something else.
pub proof fn law_speaking_is_kept(state: StateView, event: GatewayTextEvent, source: u32)
    ensures
        handled(state, event) matches Handled::Done(after, _) ==> {
            if event matches GatewayTextEvent::Speaking(update) && update.ssrc == source {
                after.speaking.dom().contains(source) && event == GatewayTextEvent::Speaking(
                    after.speaking[source],
                )
            } else {
                &&& after.speaking.dom().contains(source) == state.speaking.dom().contains(source)
                &&& state.speaking.dom().contains(source) ==> after.speaking[source]
                    == state.speaking[source]
            }
        },
{
}

/// A session is what it was last described as: a description takes the place of the one
/// before, key included, and an update changes the names of the codecs that it gives, and
/// nothing else. Without a description there is nothing that could be updated, and an update
/// that names no codec does nothing. No other event touches the session.
pub proof fn law_the_session_is_what_was_described(state: StateView, event: GatewayTextEvent)
    ensures
        handled(state, event) matches Handled::Done(after, effects) ==> {
            &&& event matches GatewayTextEvent::SessionDescription(description) ==> {
                &&& after.session_description == Some(description)
                &&& effects.crypto == Some(description.transport_crypto)
            }
            &&& !(event is SessionDescription) ==> {
                &&& effects.crypto is None
                &&& after.session_description is Some == state.session_description is Some
                &&& state.session_description matches Some(before) ==> {
                    let now = after.session_description->0;
                    &&& now.mode == before.mode
                    &&& now.secret_key == before.secret_key
                    &&& now.transport_crypto == before.transport_crypto
                    &&& now.dave_protocol_version == before.dave_protocol_version
                    &&& now.audio_codec == (
                    if event is SessionUpdate && event->SessionUpdate_audio_codec is Some {
                        event->SessionUpdate_audio_codec
                    } else {
                        before.audio_codec
                    })
                    &&& now.video_codec == (
                    if event is SessionUpdate && event->SessionUpdate_video_codec is Some {
                        event->SessionUpdate_video_codec
                    } else {
                        before.video_codec
                    })
                }
            }
            &&& effects.media_updated == (event is SessionDescription || (event is SessionUpdate
                && (event->SessionUpdate_audio_codec is Some
                || event->SessionUpdate_video_codec is Some)))
            &&& !effects.media_updated ==> after.codecs == state.codecs
        },
        handled(state, event) is NoSession == (event is SessionUpdate
            && state.session_description is None && (event->SessionUpdate_audio_codec is Some
            || event->SessionUpdate_video_codec is Some)),
        handled(state, event) is Refused ==> event is SessionDescription || event is SessionUpdate,
{
}

/// Media that waits for its user is tried again when an event can name the user, and media
/// that waits for the encryption when an event can change it; and nothing that waits is left
/// untried where an event changed what it waits for. Encryption changes by events about it
/// alone.
pub proof fn law_waiting_media_is_tried_again(state: StateView, event: GatewayTextEvent)
    ensures
        handled(state, event) matches Handled::Done(after, effects) ==> {
            &&& (exists|source: u32|
                #![trigger after.users.dom().contains(source)]
                after.users.dom().contains(source) && !state.users.dom().contains(source))
                ==> effects.retry_users
            &&& after.dave != state.dave || after.connected != state.connected
                ==> effects.retry_state
            &&& after.dave != state.dave ==> event is SessionDescription
                || event is DavePrepareTransition || event is DaveExecuteTransition
                || event is DavePrepareEpoch
            &&& after.resumed == (state.resumed || event is Resumed)
            &&& effects.clients is Some ==> event is ClientsConnect
        },
        event matches GatewayTextEvent::ClientsConnect { user_ids } ==> (handled(
            state,
            event,
        ) matches Handled::Done(_, effects) && (effects.clients is None) == (user_ids@.len() == 0)
            && (effects.clients matches Some(count) ==> count == user_ids@.len() as usize)),
{
}

/// Media in the clear is still taken for a while exactly where a transition is executed
/// that was prepared, that makes received media encrypted, and before which it was not.
pub proof fn law_grace_begins_with_encryption(state: StateView, event: GatewayTextEvent)
    ensures
        handled(state, event) matches Handled::Done(after, effects) ==> (effects.grace <==> {
            &&& event matches GatewayTextEvent::DaveExecuteTransition { transition_id }
            &&& state.dave.transition_id == Some(transition_id)
            &&& !(state.dave.active_receive matches Some(version) && version > 0)
            &&& after.dave.active_receive matches Some(version)
            &&& version > 0
        }),
{
}

/// A binary frame as the gateway writes it: its number in two bytes, its opcode, and what it
/// brings.
pub open spec fn binary_frame(number: u16, opcode: u8, payload: Seq<u8>) -> Seq<u8> {
    seq![(number / 256) as u8, (number % 256) as u8, opcode] + payload
}

/// A frame with the external sender sets it, and one with proposals puts them behind those
/// that wait; each is counted, and nothing else changes.
pub proof fn law_binary_frames_are_kept(state: StateView, number: u16, payload: Seq<u8>)
    ensures
        ({
            let (after, retried, fault) = binary_handled(state, binary_frame(number, 25, payload));
            &&& fault is None && retried
            &&& after.last_seq == Some(number as i64)
            &&& after.dave.external_sender == Some(payload)
            &&& after.dave.proposals == state.dave.proposals
            &&& after.dave.pending == state.dave.pending
            &&& after.connected == state.connected && after.users == state.users
        }),
        ({
            let (after, retried, fault) = binary_handled(state, binary_frame(number, 27, payload));
            &&& fault is None && retried
            &&& after.last_seq == Some(number as i64)
            &&& after.dave.proposals.len() == state.dave.proposals.len() + 1
            &&& after.dave.proposals.last() == payload
            &&& after.dave.proposals.drop_last() == state.dave.proposals
            &&& after.dave.external_sender == state.dave.external_sender
            &&& after.dave.pending == state.dave.pending
            &&& after.connected == state.connected && after.users == state.users
        }),
{
    let sender = binary_frame(number, 25, payload);
    let proposals = binary_frame(number, 27, payload);
    assert(sender.skip(3) =~= payload);
    assert(proposals.skip(3) =~= payload);
    let (after, _, _) = binary_handled(state, proposals);
    assert(after.dave.proposals.drop_last() =~= state.dave.proposals);
}

/// A commit or a welcome waits in the place of its kind, with the transition that it
/// belongs to, in place of an earlier one; the other kind stays. One that is too short to
/// name a transition is refused, though counted.
pub proof fn law_group_messages_wait_by_kind(
    state: StateView,
    number: u16,
    transition: u16,
    message: Seq<u8>,
    welcome: bool,
)
    ensures
        ({
            let opcode: u8 = if welcome {
                30
            } else {
                29
            };
            let payload = seq![(transition / 256) as u8, (transition % 256) as u8] + message;
            let (after, retried, fault) = binary_handled(
                state,
                binary_frame(number, opcode, payload),
            );
            let kept = |kind: DaveMlsMessageKind|
                Some(
                    (
                        DaveMlsMessageIdentity {
                            kind,
                            seq: number as i64,
                            transition_id: transition,
                        },
                        message,
                    ),
                );
            &&& fault is None && retried
            &&& after.last_seq == Some(number as i64)
            &&& after.dave.pending.welcome == (if welcome {
                kept(DaveMlsMessageKind::Welcome)
            } else {
                state.dave.pending.welcome
            })
            &&& after.dave.pending.commit == (if welcome {
                state.dave.pending.commit
            } else {
                kept(DaveMlsMessageKind::Commit)
            })
            &&& after.dave.proposals == state.dave.proposals
            &&& after.dave.external_sender == state.dave.external_sender
        }),
        message.len() < 2 ==> ({
            let opcode: u8 = if welcome {
                30
            } else {
                29
            };
            let (after, retried, fault) = binary_handled(
                state,
                binary_frame(number, opcode, message),
            );
            &&& fault is Some && !retried
            &&& after.last_seq == Some(number as i64)
            &&& after.dave == state.dave
        }),
{
    let opcode: u8 = if welcome {
        30
    } else {
        29
    };
    let payload = seq![(transition / 256) as u8, (transition % 256) as u8] + message;
    let whole = binary_frame(number, opcode, payload);
    assert(whole.skip(3) =~= payload);
    assert(payload.skip(2) =~= message);
    assert(binary_frame(number, opcode, message).skip(3) =~= message);
}

/// Events that came before the connection was up are taken in as they would have been one
/// after the other: what comes of a row of them is what comes of its first part and then of
/// the rest, unless the first part is refused, which ends it.
pub proof fn law_replay_goes_event_by_event(
    state: StateView,
    clients: Seq<usize>,
    first: Seq<PendingGatewayEvent>,
    rest: Seq<PendingGatewayEvent>,
)
    ensures
        ({
            let (between, told, fault) = replayed(state, clients, first);
            let whole = replayed(state, clients, first + rest);
            if fault is None {
                whole == replayed(between, told, rest)
            } else {
                whole == (between, told, fault)
            }
        }),
    decreases first.len(),
{
    if first.len() == 0 {
        assert(first + rest =~= rest);
    } else {
        assert((first + rest).drop_first() =~= first.drop_first() + rest);
        match first[0] {
            PendingGatewayEvent::Text { seq, event } => {
                let counted = StateView {
                    last_seq: match seq {
                        Some(seq) => Some(seq),
                        None => state.last_seq,
                    },
                    ..state
                };
                if let Handled::Done(after, effects) = handled(counted, event) {
                    law_replay_goes_event_by_event(
                        after,
                        match effects.clients {
                            Some(count) => clients.push(count),
                            None => clients,
                        },
                        first.drop_first(),
                        rest,
                    );
                }
            },
            PendingGatewayEvent::Binary(bytes) => {
                law_replay_goes_event_by_event(
                    binary_handled(state, bytes@).0,
                    clients,
                    first.drop_first(),
                    rest,
                );
            },
        }
    }
}

/// One event that came before the connection was up does what it does once it is up, and
/// its number is the last one; where it has none, the number before stays.
pub proof fn law_replayed_events_are_handled(
    state: StateView,
    clients: Seq<usize>,
    seq: Option<i64>,
    event: GatewayTextEvent,
)
    ensures
        ({
            let (after, told, fault) = replayed(
                state,
                clients,
                seq![PendingGatewayEvent::Text { seq, event }],
            );
            &&& after.last_seq == (if seq is Some {
                seq
            } else {
                state.last_seq
            })
            &&& fault is None == handled(state, event) is Done
            &&& handled(state, event) matches Handled::Done(done, effects) ==> {
                &&& after.connected == done.connected
                &&& after.users == done.users
                &&& after.speaking == done.speaking
                &&& after.dave == done.dave
                &&& after.session_description == done.session_description
                &&& told.len() == clients.len() + if effects.clients is Some {
                    1int
                } else {
                    0
                }
            }
        }),
{
    let events = seq![PendingGatewayEvent::Text { seq, event }];
    assert(events.drop_first() =~= seq![]);
    reveal_with_fuel(replayed, 2);
}

} // verus!
