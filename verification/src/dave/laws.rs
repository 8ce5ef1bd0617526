//! What holds of every look at the gateway's state.

use super::coordinator::{CoordinatorView, PassthroughMode, PumpState};
use super::epoch::DaveKeyPackageEvent;
use super::pump::{
    activated, from_commit, from_epoch, from_external_sender, from_key_package, from_messages,
    from_passthrough, from_proposals, from_second_sender, from_sender, from_start, from_welcome,
    from_zero_sender, key_package_made, noted, proposals_seen, resumed, slot, DaveAnswer,
    DaveEvent, DavePumpStage, Next, RequestView,
};
use crate::state::dave::{encrypting, DaveMlsMessageIdentity, DaveMlsMessageKind, DaveView};
use vstd::prelude::*;

verus! {

pub open spec fn asks_proposals(next: Next) -> bool {
    next matches Next::Ask { request, .. } && request is ProcessProposals
}

pub open spec fn asks_message(next: Next) -> bool {
    next matches Next::Ask { request, .. } && request is ProcessMls
}

/// Proposals are not handed to the session while the roster is not known.
pub proof fn law_proposals_wait_for_the_roster(
    dave: DaveView,
    session_ready: bool,
    stage: DavePumpStage,
    answer: DaveAnswer,
    state: PumpState,
)
    ensures
        !asks_proposals(from_start(dave, session_ready, false, state)),
        stage !is Proposals ==> !asks_proposals(resumed(dave, false, stage, answer, state)),
{
}

/// Without an external sender the session is handed neither proposals nor messages.
pub proof fn law_group_waits_for_the_external_sender(
    dave: DaveView,
    session_ready: bool,
    roster: bool,
    state: PumpState,
)
    requires
        dave.external_sender is None,
        !state.memory.external_sender_set,
    ensures
        !asks_proposals(from_start(dave, session_ready, roster, state)),
        !asks_message(from_start(dave, session_ready, roster, state)),
{
}

/// A message that was handed to the session is noted, and a message that was noted is not
/// handed over again.
pub proof fn law_messages_are_handed_over_once(
    dave: DaveView,
    kind: DaveMlsMessageKind,
    state: PumpState,
)
    requires
        slot(dave, kind) is Some,
        slot(dave, kind) matches Some(message) && message.0.kind == kind,
    ensures
        ({
            let after = noted(dave, kind, state);
            &&& after.memory.processed_mls.of_kind(kind) == slot(dave, kind)
            &&& match kind {
                DaveMlsMessageKind::Welcome => from_welcome(dave, after) == from_commit(
                    dave,
                    after,
                ),
                DaveMlsMessageKind::Commit => !asks_message(from_commit(dave, after)),
            }
        }),
{
}

/// Where nothing is to be encrypted, plain media is let through from then on.
pub proof fn law_plain_media_is_let_through(dave: DaveView, roster: bool, state: PumpState)
    requires
        !encrypting(dave.protocol_version),
    ensures
        match from_sender(dave, roster, state) {
            Next::Ask { request, state, .. } => {
                &&& request == RequestView::SetPassthrough(PassthroughMode::Enabled)
                &&& state.memory.passthrough == Some(PassthroughMode::Enabled)
            },
            Next::Finished { state } => state.memory.passthrough == Some(PassthroughMode::Enabled),
            Next::Failed { .. } => false,
        },
{
}

/// How much can still be asked.
pub open spec fn left_to_ask(dave: DaveView, stage: DavePumpStage, state: PumpState) -> int {
    let proposals = dave.proposals.len() as int;
    match stage {
        DavePumpStage::Idle => 0,
        DavePumpStage::RecoveryPassthrough { .. } => 1,
        DavePumpStage::RecoveryKeyPackage { .. } => 2,
        DavePumpStage::RecoverySender { .. } => 3,
        DavePumpStage::RecoverySession { .. } => 4,
        DavePumpStage::LastSender => 5,
        DavePumpStage::ZeroSender => 6,
        DavePumpStage::MlsGrace(DaveMlsMessageKind::Commit) => 7,
        DavePumpStage::Mls(DaveMlsMessageKind::Commit) => 8,
        DavePumpStage::MlsGrace(DaveMlsMessageKind::Welcome) => 9,
        DavePumpStage::Mls(DaveMlsMessageKind::Welcome) => 10,
        DavePumpStage::Proposals { .. } => 10 + proposals - state.memory.processed_proposals,
        DavePumpStage::SecondSender => 11 + proposals,
        DavePumpStage::KeyPackage(_) => 12 + proposals,
        DavePumpStage::ExternalSender => 13 + proposals,
        DavePumpStage::PlainPassthrough => 14 + proposals,
        DavePumpStage::GracePassthrough => 14 + proposals,
        DavePumpStage::FirstSender => 15 + proposals,
        DavePumpStage::EpochSession(_) => 16 + proposals,
    }
}

/// Proposals that were asked about are among those that there are.
pub open spec fn in_order(dave: DaveView, stage: DavePumpStage, state: PumpState) -> bool {
    stage is Proposals ==> state.memory.processed_proposals < dave.proposals.len()
}

/// Whether less than `limit` is left to ask.
spec fn below(dave: DaveView, next: Next, limit: int) -> bool {
    match next {
        Next::Ask { stage, state, .. } => in_order(dave, stage, state) && 0 <= left_to_ask(
            dave,
            stage,
            state,
        ) < limit,
        _ => true,
    }
}

proof fn lemma_after_messages(dave: DaveView, state: PumpState)
    ensures
        below(dave, from_zero_sender(dave, state), 6),
        below(dave, from_messages(dave, state), 7),
        below(dave, from_commit(dave, state), 9),
        below(dave, from_welcome(dave, state), 11),
{
}

proof fn lemma_after_key_package(dave: DaveView, roster: bool, state: PumpState)
    requires
        dave.proposals.len() <= usize::MAX,
    ensures
        below(
            dave,
            from_proposals(dave, state),
            if state.memory.processed_proposals < dave.proposals.len() {
                11 + dave.proposals.len() - state.memory.processed_proposals
            } else {
                11
            },
        ),
        below(dave, from_second_sender(dave, roster, state), 11 + dave.proposals.len() as int),
        below(dave, from_key_package(dave, roster, state), 12 + dave.proposals.len() as int),
{
    lemma_after_messages(dave, state);
    let zero = state.with_memory(CoordinatorView { processed_proposals: 0, ..state.memory });
    lemma_after_messages(dave, zero);
}

proof fn lemma_after_sender(dave: DaveView, roster: bool, state: PumpState)
    requires
        dave.proposals.len() <= usize::MAX,
    ensures
        below(dave, from_external_sender(dave, roster, state), 13 + dave.proposals.len() as int),
        below(dave, from_passthrough(dave, roster, state), 14 + dave.proposals.len() as int),
        below(dave, from_sender(dave, roster, state), 15 + dave.proposals.len() as int),
        below(dave, from_epoch(dave, roster, state), 16 + dave.proposals.len() as int),
{
    lemma_after_key_package(dave, roster, state);
}

/// A look at the gateway's state ends: with every answer there is less left to ask.
pub proof fn law_every_look_ends(
    dave: DaveView,
    roster: bool,
    stage: DavePumpStage,
    answer: DaveAnswer,
    state: PumpState,
)
    requires
        stage.takes(answer),
        in_order(dave, stage, state),
        dave.proposals.len() <= usize::MAX,
    ensures
        match resumed(dave, roster, stage, answer, state) {
            Next::Ask { stage: next, state: after, .. } => {
                &&& in_order(dave, next, after)
                &&& 0 <= left_to_ask(dave, next, after) < left_to_ask(dave, stage, state)
            },
            _ => true,
        },
{
    let next = resumed(dave, roster, stage, answer, state);
    match stage {
        DavePumpStage::EpochSession(epoch) => {
            lemma_after_sender(
                dave,
                roster,
                state.with_memory(
                    CoordinatorView {
                        prepared_epoch: Some(epoch),
                        ..state.memory.session_replaced()
                    },
                ),
            );
        },
        DavePumpStage::FirstSender => {
            lemma_after_sender(
                dave,
                roster,
                activated(answer == DaveAnswer::Activated(true), state),
            );
        },
        DavePumpStage::PlainPassthrough => {},
        DavePumpStage::GracePassthrough => {
            lemma_after_sender(dave, roster, state);
        },
        DavePumpStage::ExternalSender => {
            lemma_after_sender(
                dave,
                roster,
                state.with_memory(
                    CoordinatorView { external_sender_set: true, ..state.memory },
                ).with_event(
                    DaveEvent::ExternalSenderSet(
                        DaveKeyPackageEvent { protocol_version: dave.protocol_version },
                    ),
                ),
            );
        },
        DavePumpStage::KeyPackage(scope) => {
            if let DaveAnswer::KeyPackage(key_package) = answer {
                lemma_after_key_package(
                    dave,
                    roster,
                    key_package_made(key_package, scope, state).with_event(
                        DaveEvent::KeyPackageSent(
                            DaveKeyPackageEvent { protocol_version: Some(scope.version()) },
                        ),
                    ),
                );
            }
        },
        DavePumpStage::SecondSender => {
            lemma_after_key_package(
                dave,
                roster,
                activated(answer == DaveAnswer::Activated(true), state),
            );
        },
        DavePumpStage::Proposals { operation, proposal_bytes } => {
            let after = proposals_seen(operation, proposal_bytes, answer, state);
            lemma_after_key_package(dave, roster, after);
        },
        DavePumpStage::Mls(kind) => {
            let seen = noted(dave, kind, state);
            lemma_after_messages(
                dave,
                seen.marked_ready(dave.transition_id, dave.protocol_version),
            );
        },
        DavePumpStage::MlsGrace(_) | DavePumpStage::ZeroSender | DavePumpStage::LastSender => {
            lemma_after_messages(dave, state);
        },
        _ => {},
    }
}

/// An epoch that was prepared anew is taken over once: the first epoch of a group with a new
/// session of its version, where the session is not ready, and what was seen of the old group
/// counts no longer. An epoch that was taken over is not taken over again.
pub proof fn law_new_epochs_begin_afresh(
    dave: DaveView,
    session_ready: bool,
    roster: bool,
    state: PumpState,
)
    ensures
        ({
            let next = from_start(dave, session_ready, roster, state);
            let fresh = dave.epoch == Some(1u64) && (dave.protocol_version matches Some(version)
                && version > 0) && !(state.memory.prepared_epoch matches Some(before)
                && before.epoch == 1 && Some(before.protocol_version) == dave.protocol_version
                && before.seq == dave.prepare_epoch_seq);
            &&& fresh && !session_ready ==> {
                &&& next matches Next::Ask { request, state: after, .. }
                &&& request matches RequestView::ReplaceSession {
                    user_id,
                    channel_id,
                    protocol_version,
                }
                &&& Some(protocol_version) == dave.protocol_version
                &&& user_id == state.memory.user_id && channel_id == state.memory.channel_id
                &&& after.memory.sent_key_package_for is None
                &&& after.memory.processed_proposals == 0
                &&& after.memory.processed_mls.commit is None
                &&& after.memory.processed_mls.welcome is None
                &&& after.memory.transition_ready is None
            }
            &&& !fresh || session_ready ==> !(next matches Next::Ask { request, .. } && request
                is ReplaceSession)
        }),
{
}

/// A new session knows neither the external sender nor how plain media is to be treated; the
/// epoch that it was made for is taken over.
pub proof fn law_new_sessions_know_nothing(
    dave: DaveView,
    roster: bool,
    epoch: super::epoch::DavePreparedEpoch,
    state: PumpState,
)
    requires
        dave.external_sender is Some,
        encrypting(dave.protocol_version),
        !(dave.transition_id is None && encrypting(dave.active_send)),
    ensures
        resumed(
            dave,
            roster,
            DavePumpStage::EpochSession(epoch),
            DaveAnswer::Done,
            state,
        ) matches Next::Ask { request, state: after, .. } && request is SetPassthrough
            && !after.memory.external_sender_set && after.memory.prepared_epoch == Some(epoch),
{
}

/// The external sender that the gateway told is set as it was told, once.
pub proof fn law_the_external_sender_is_set_once(
    dave: DaveView,
    roster: bool,
    sender: Seq<u8>,
    state: PumpState,
)
    requires
        dave.external_sender == Some(sender),
    ensures
        !state.memory.external_sender_set ==> (from_passthrough(dave, roster, state) matches
            Next::Ask { request, .. } && request == RequestView::SetExternalSender(sender)),
        state.memory.external_sender_set ==> !(from_passthrough(dave, roster, state) matches
            Next::Ask { request, .. } && request is SetExternalSender),
        !(resumed(
            dave,
            roster,
            DavePumpStage::ExternalSender,
            DaveAnswer::Done,
            state,
        ) matches Next::Ask { request, .. } && request is SetExternalSender),
{
}

/// A key package is made for every scope that wants one, and told to the gateway as it was
/// made, once: what follows does not ask for another.
pub proof fn law_key_packages_are_sent_once(
    dave: DaveView,
    roster: bool,
    key_package: Vec<u8>,
    scope: super::epoch::DaveKeyPackageScope,
    state: PumpState,
)
    requires
        super::epoch::DaveKeyPackageScope::wanted(dave, state.memory.prepared_epoch) == Some(scope),
    ensures
        (from_external_sender(dave, roster, state) matches Next::Ask { request, .. } && request
            is CreateKeyPackage) == (state.memory.sent_key_package_for != Some(scope)),
        ({
            let after = key_package_made(key_package, scope, state);
            &&& after.commands.len() == state.commands.len() + 1
            &&& after.commands.drop_last() == state.commands
            &&& after.commands.last() == (crate::gateway::GatewayCommand::DaveMlsKeyPackage {
                key_package,
            })
            &&& after.memory.prepared_epoch == state.memory.prepared_epoch
            &&& !(from_external_sender(dave, roster, after) matches Next::Ask { request, .. }
                && request is CreateKeyPackage)
        }),
{
    let after = key_package_made(key_package, scope, state);
    assert(after.commands.drop_last() =~= state.commands);
}

/// Proposals are handed over in the order in which they came, each once: the one whose turn
/// it is, with what its first byte asks for; and the next one after the answer, whatever
/// that is.
pub proof fn law_proposals_go_in_turn(
    dave: DaveView,
    content: Seq<u8>,
    revoke: bool,
    answer: DaveAnswer,
    operation: &'static str,
    bytes: usize,
    state: PumpState,
)
    requires
        state.memory.processed_proposals < dave.proposals.len() <= usize::MAX,
        dave.proposals[state.memory.processed_proposals as int] == seq![
            if revoke {
                1u8
            } else {
                0u8
            },
        ] + content,
    ensures
        from_proposals(dave, state) matches Next::Ask { request, state: after, .. } && after
            == state && request == (RequestView::ProcessProposals {
            operation: if revoke {
                super::status::ProposalsOperation::Revoke
            } else {
                super::status::ProposalsOperation::Append
            },
            proposals: content,
        }),
        proposals_seen(operation, bytes, answer, state).memory.processed_proposals
            == state.memory.processed_proposals + 1,
{
    let payload = dave.proposals[state.memory.processed_proposals as int];
    assert(payload.skip(1) =~= content);
}

/// A commit that comes of proposals is told to the gateway, with its welcome if there is one;
/// other answers tell it nothing. Every answer is reported once.
pub proof fn law_commits_are_told(
    operation: &'static str,
    bytes: usize,
    answer: DaveAnswer,
    state: PumpState,
)
    ensures
        ({
            let after = proposals_seen(operation, bytes, answer, state);
            &&& answer matches DaveAnswer::CommitWelcome { commit, welcome } ==> {
                &&& after.commands.len() == state.commands.len() + 1
                &&& after.commands.drop_last() == state.commands
                &&& after.commands.last() == (
                crate::gateway::GatewayCommand::DaveMlsCommitWelcome { commit, welcome })
            }
            &&& !(answer is CommitWelcome) ==> after.commands == state.commands
            &&& after.events.len() == state.events.len() + 1
            &&& after.events.drop_last() == state.events
            &&& answer is Failed == after.events.last() is ProposalsIgnored
            &&& after.events.last() matches DaveEvent::ProposalsProcessed(event)
                ==> event.commit_sent == answer is CommitWelcome
        }),
{
    let after = proposals_seen(operation, bytes, answer, state);
    assert(after.commands =~= state.commands || after.commands.drop_last() =~= state.commands);
    assert(after.events.drop_last() =~= state.events);
}

/// Of the messages that wait, the welcome goes before the commit; each as it came, and none
/// that was handed over before.
pub proof fn law_the_welcome_goes_first(dave: DaveView, state: PumpState)
    requires
        dave.pending.welcome matches Some(message) ==> message.0.kind
            == DaveMlsMessageKind::Welcome,
        dave.pending.commit matches Some(message) ==> message.0.kind == DaveMlsMessageKind::Commit,
    ensures
        ({
            let next = from_welcome(dave, state);
            let brought = |message: Option<(DaveMlsMessageIdentity, Seq<u8>)>|
                match message {
                    Some((_, payload)) => payload,
                    None => seq![],
                };
            let new_welcome = dave.pending.welcome is Some && state.memory.processed_mls.welcome
                != dave.pending.welcome;
            let new_commit = dave.pending.commit is Some && state.memory.processed_mls.commit
                != dave.pending.commit;
            &&& new_welcome ==> (next matches Next::Ask { request, .. } && request == (
            RequestView::ProcessMls {
                kind: DaveMlsMessageKind::Welcome,
                payload: brought(dave.pending.welcome),
            }))
            &&& !new_welcome && new_commit ==> (next matches Next::Ask { request, .. } && request
                == (RequestView::ProcessMls {
                kind: DaveMlsMessageKind::Commit,
                payload: brought(dave.pending.commit),
            }))
            &&& !new_welcome && !new_commit ==> !asks_message(next)
        }),
{
}

/// A message that the session refuses is not handed over again; the gateway is told, where a
/// transition is under way, and told which; and where there is encryption the session is
/// replaced by one of the same version.
pub proof fn law_refused_messages_are_told(
    dave: DaveView,
    roster: bool,
    kind: DaveMlsMessageKind,
    reason: String,
    state: PumpState,
)
    requires
        slot(dave, kind) matches Some(message) && message.0.kind == kind,
    ensures
        ({
            let next = resumed(
                dave,
                roster,
                DavePumpStage::Mls(kind),
                DaveAnswer::Failed(reason),
                state,
            );
            let after = match next {
                Next::Ask { state, .. } => state,
                Next::Finished { state } => state,
                Next::Failed { state, .. } => state,
            };
            &&& !(next is Finished)
            &&& after.memory.processed_mls.of_kind(kind) == slot(dave, kind)
            &&& after.commands == (match dave.transition_id {
                Some(transition_id) => state.commands.push(
                    crate::gateway::GatewayCommand::DaveMlsInvalidCommitWelcome(
                        crate::gateway::DaveInvalidCommitWelcomeCommand { transition_id },
                    ),
                ),
                None => state.commands,
            })
            &&& dave.protocol_version matches Some(version) ==> (version > 0 ==> (next matches
                Next::Ask { request, .. } && request == (RequestView::ReplaceSession {
                user_id: state.memory.user_id,
                channel_id: state.memory.channel_id,
                protocol_version: version,
            })))
        }),
{
}

/// Readiness for a transition is told to the gateway with its number, once, and never for
/// transition zero or where there is none.
pub proof fn law_readiness_names_the_transition(
    state: PumpState,
    transition_id: Option<u16>,
    version: Option<u16>,
)
    ensures
        ({
            let after = state.marked_ready(transition_id, version);
            let told = transition_id matches Some(id) && id != 0 && state.memory.transition_ready
                != Some(id);
            &&& told ==> after.commands == state.commands.push(
                crate::gateway::GatewayCommand::DaveProtocolTransitionReady(
                    crate::gateway::DaveTransitionReadyCommand {
                        transition_id: transition_id->0,
                    },
                ),
            ) && after.events.len() == state.events.len() + 1
            &&& !told ==> after.commands == state.commands && after.events == state.events
            &&& transition_id is Some ==> after.memory.transition_ready == transition_id
            &&& transition_id is None ==> after == state
        }),
{
}

/// Where the gateway stands is reported when it changes, and only then.
pub proof fn law_changes_are_reported_once(state: PumpState, dave: DaveView)
    ensures
        state.observed(dave).observed(dave) == state.observed(dave),
        state.observed(dave).commands == state.commands,
        state.observed(dave).events == state.events || (state.observed(dave).events.len()
            == state.events.len() + 1 && (state.observed(dave).events.last() matches
            DaveEvent::GatewayState(told) && told.protocol_version == dave.protocol_version
            && told.transition_id == dave.transition_id && told.epoch == dave.epoch
            && told.prepare_epoch_seq == dave.prepare_epoch_seq && told.passthrough
            == dave.passthrough)),
        state.memory.last_gateway_state is None ==> state.observed(dave).events.len()
            == state.events.len() + 1,
        state.memory.last_gateway_state matches Some(last) ==> (last.protocol_version
            != dave.protocol_version || last.transition_id != dave.transition_id || last.epoch
            != dave.epoch || last.prepare_epoch_seq != dave.prepare_epoch_seq
            || last.mls.external_sender != dave.external_sender is Some ==> state.observed(
            dave,
        ).events.len() == state.events.len() + 1),
{
}

/// Once a transition to encryption was executed, the keys that wait are used, before
/// anything else is asked.
pub proof fn law_executed_transitions_use_the_new_keys(
    dave: DaveView,
    roster: bool,
    state: PumpState,
)
    requires
        dave.transition_id is None,
        dave.active_send matches Some(version) && version > 0,
    ensures
        from_epoch(dave, roster, state) matches Next::Ask { request, .. } && request
            is ActivateStagedSender,
        from_zero_sender(dave, state) matches Next::Ask { request, .. } && request
            is ActivateStagedSender,
{
}

/// While the protocol encrypts, plain media is still let through for ten seconds, and no
/// longer.
pub proof fn law_grace_lasts_ten_seconds(dave: DaveView, roster: bool, state: PumpState)
    requires
        encrypting(dave.protocol_version),
        state.memory.passthrough is None,
    ensures
        from_sender(dave, roster, state) matches Next::Ask { request, .. } && (request matches
            RequestView::SetPassthrough(PassthroughMode::DisabledAfter(grace)) && grace.nanos
            == 10 * 1_000_000_000),
{
}

/// The keys of a transition are not used before their time: while one is under way that is
/// not the very first, or that is not ready, nothing asks for them; and those of the very
/// first are used once it is ready.
pub proof fn law_keys_wait_for_their_transition(dave: DaveView, roster: bool, state: PumpState)
    requires
        dave.transition_id is Some,
    ensures
        dave.transition_id != Some(0u16) || state.memory.transition_ready != Some(0u16)
            ==> from_messages(dave, state) is Finished,
        dave.transition_id == Some(0u16) && state.memory.transition_ready == Some(0u16) ==> (
        from_messages(dave, state) matches Next::Ask { request, .. } && request
            is ActivateStagedSender),
        dave.transition_id != Some(0u16) || state.memory.transition_ready != Some(0u16) ==> !(
        from_epoch(dave, roster, state) matches Next::Ask { request, .. } && request
            is ActivateStagedSender),
        from_zero_sender(dave, state) is Finished,
{
}

} // verus!
