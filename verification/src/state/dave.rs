//! Where the end-to-end encryption protocol (DAVE) stands, as far as the gateway tells.

use crate::bytes::{copy_vec, same_bytes};
use vstd::prelude::*;

verus! {

/// The two messages that end a change of the group.
#[derive(Clone, Copy, Debug, PartialEq, Eq, Structural)]
pub enum DaveMlsMessageKind {
    Commit,
    Welcome,
}

impl DaveMlsMessageKind {
    pub open spec fn label(self) -> &'static str {
        match self {
            DaveMlsMessageKind::Commit => "commit",
            DaveMlsMessageKind::Welcome => "welcome",
        }
    }

    pub fn operation_label(self) -> (label: &'static str)
        ensures
            label == self.label(),
    {
        match self {
            DaveMlsMessageKind::Commit => "commit",
            DaveMlsMessageKind::Welcome => "welcome",
        }
    }
}

/// Which message it is.
#[derive(Clone, Copy, Debug, PartialEq, Eq, Structural)]
pub struct DaveMlsMessageIdentity {
    pub kind: DaveMlsMessageKind,
    pub seq: i64,
    pub transition_id: u16,
}

/// A message that the gateway has sent and that the session has not seen.
#[derive(Clone, Debug, PartialEq, Eq)]
pub struct PendingDaveMlsMessage {
    pub identity: DaveMlsMessageIdentity,
    pub payload: Vec<u8>,
}

impl View for PendingDaveMlsMessage {
    type V = (DaveMlsMessageIdentity, Seq<u8>);

    open spec fn view(&self) -> (DaveMlsMessageIdentity, Seq<u8>) {
        (self.identity, self.payload@)
    }
}

impl PendingDaveMlsMessage {
    pub fn new(identity: DaveMlsMessageIdentity, payload: Vec<u8>) -> (message: Self)
        ensures
            message == (PendingDaveMlsMessage { identity, payload }),
    {
        PendingDaveMlsMessage { identity, payload }
    }

    /// A second message of the same content.
    pub fn copy(&self) -> (copy: Self)
        ensures
            copy@ == self@,
    {
        PendingDaveMlsMessage { identity: self.identity, payload: copy_vec(&self.payload) }
    }

    /// Whether it is the same message, with the same content.
    pub fn same_as(&self, other: &PendingDaveMlsMessage) -> (same: bool)
        ensures
            same == (self@ == other@),
    {
        self.identity == other.identity && same_bytes(
            self.payload.as_slice(),
            other.payload.as_slice(),
        )
    }
}

pub open spec fn message_view(message: Option<PendingDaveMlsMessage>) -> Option<
    (DaveMlsMessageIdentity, Seq<u8>),
> {
    match message {
        Some(message) => Some(message@),
        None => None,
    }
}

/// At most one message of each kind.
#[derive(Debug, PartialEq, Eq)]
pub struct DaveMlsSlots {
    pub commit: Option<PendingDaveMlsMessage>,
    pub welcome: Option<PendingDaveMlsMessage>,
}

/// The messages by kind.
pub struct SlotsView {
    pub commit: Option<(DaveMlsMessageIdentity, Seq<u8>)>,
    pub welcome: Option<(DaveMlsMessageIdentity, Seq<u8>)>,
}

impl SlotsView {
    pub open spec fn empty() -> SlotsView {
        SlotsView { commit: None, welcome: None }
    }

    pub open spec fn of_kind(self, kind: DaveMlsMessageKind) -> Option<
        (DaveMlsMessageIdentity, Seq<u8>),
    > {
        match kind {
            DaveMlsMessageKind::Commit => self.commit,
            DaveMlsMessageKind::Welcome => self.welcome,
        }
    }

    /// With a message in the slot of its kind.
    pub open spec fn with(self, message: (DaveMlsMessageIdentity, Seq<u8>)) -> SlotsView {
        match message.0.kind {
            DaveMlsMessageKind::Commit => SlotsView { commit: Some(message), ..self },
            DaveMlsMessageKind::Welcome => SlotsView { welcome: Some(message), ..self },
        }
    }
}

impl View for DaveMlsSlots {
    type V = SlotsView;

    open spec fn view(&self) -> SlotsView {
        SlotsView { commit: message_view(self.commit), welcome: message_view(self.welcome) }
    }
}

impl DaveMlsSlots {
    pub fn new() -> (slots: Self)
        ensures
            slots@ == SlotsView::empty(),
    {
        DaveMlsSlots { commit: None, welcome: None }
    }

    /// Puts a message in the slot of its kind, in place of what was there.
    pub fn set_message(&mut self, message: PendingDaveMlsMessage)
        ensures
            final(self)@ == old(self)@.with(message@),
    {
        match message.identity.kind {
            DaveMlsMessageKind::Commit => {
                self.commit = Some(message);
            },
            DaveMlsMessageKind::Welcome => {
                self.welcome = Some(message);
            },
        }
    }

    pub fn get(&self, kind: DaveMlsMessageKind) -> (message: Option<&PendingDaveMlsMessage>)
        ensures
            match message {
                Some(message) => self@.of_kind(kind) == Some(message@),
                None => self@.of_kind(kind) is None,
            },
    {
        match kind {
            DaveMlsMessageKind::Commit => self.commit.as_ref(),
            DaveMlsMessageKind::Welcome => self.welcome.as_ref(),
        }
    }

    pub fn commit(&self) -> (message: Option<&PendingDaveMlsMessage>)
        ensures
            match message {
                Some(message) => self@.commit == Some(message@),
                None => self@.commit is None,
            },
    {
        self.commit.as_ref()
    }

    pub fn welcome(&self) -> (message: Option<&PendingDaveMlsMessage>)
        ensures
            match message {
                Some(message) => self@.welcome == Some(message@),
                None => self@.welcome is None,
            },
    {
        self.welcome.as_ref()
    }

    pub fn is_empty(&self) -> (empty: bool)
        ensures
            empty == (self@ == SlotsView::empty()),
    {
        self.commit.is_none() && self.welcome.is_none()
    }

    pub fn clear(&mut self)
        ensures
            final(self)@ == SlotsView::empty(),
    {
        self.commit = None;
        self.welcome = None;
    }
}

/// What is shown of the protocol.
#[derive(Clone, Copy, Debug, PartialEq, Eq, Structural)]
pub struct DaveState {
    pub protocol_version: Option<u16>,
    pub active_send_protocol_version: Option<u16>,
    pub active_receive_protocol_version: Option<u16>,
    pub transition_id: Option<u16>,
    pub epoch: Option<u64>,
    pub prepare_epoch_seq: u64,
    pub passthrough: bool,
    pub mls: DaveMlsState,
}

#[derive(Clone, Copy, Debug, PartialEq, Eq, Structural)]
pub struct DaveMlsState {
    pub external_sender: bool,
    pub pending: DavePendingMlsState,
}

#[derive(Clone, Copy, Debug, PartialEq, Eq, Structural)]
pub struct DavePendingMlsState {
    pub proposals: usize,
    pub commit: bool,
    pub welcome: bool,
}

/// Whether a version means encryption at all.
pub open spec fn encrypting(version: Option<u16>) -> bool {
    version matches Some(version) && version > 0
}

pub fn is_encrypting(version: Option<u16>) -> (answer: bool)
    ensures
        answer == encrypting(version),
{
    match version {
        Some(version) => version > 0,
        None => false,
    }
}

impl DaveState {
    /// Whether media that is sent has to be encrypted.
    pub open spec fn requires_dave(self) -> bool {
        ||| encrypting(self.active_send_protocol_version)
        ||| self.active_send_protocol_version is None && encrypting(self.protocol_version)
        ||| self.transition_id == Some(0u16) && encrypting(self.protocol_version)
    }

    pub fn send_requires_dave(&self) -> (answer: bool)
        ensures
            answer == self.requires_dave(),
    {
        is_encrypting(self.active_send_protocol_version) || (
        self.active_send_protocol_version.is_none() && is_encrypting(self.protocol_version)) || (
        self.transition_id == Some(0) && is_encrypting(self.protocol_version))
    }
}

/// Where the protocol stands.
#[derive(Debug, PartialEq, Eq)]
pub struct DaveInternalState {
    pub protocol_version: Option<u16>,
    pub active_send_protocol_version: Option<u16>,
    pub active_receive_protocol_version: Option<u16>,
    pub transition_id: Option<u16>,
    pub epoch: Option<u64>,
    pub prepare_epoch_seq: u64,
    pub passthrough: bool,
    pub external_sender: Option<Vec<u8>>,
    pub proposals: Vec<Vec<u8>>,
    pub pending_mls: DaveMlsSlots,
}

/// The same as a mathematical value.
pub struct DaveView {
    pub protocol_version: Option<u16>,
    pub active_send: Option<u16>,
    pub active_receive: Option<u16>,
    pub transition_id: Option<u16>,
    pub epoch: Option<u64>,
    pub prepare_epoch_seq: u64,
    pub passthrough: bool,
    pub external_sender: Option<Seq<u8>>,
    pub proposals: Seq<Seq<u8>>,
    pub pending: SlotsView,
}

impl DaveView {
    /// Nothing said yet.
    pub open spec fn initial() -> DaveView {
        DaveView {
            protocol_version: None,
            active_send: None,
            active_receive: None,
            transition_id: None,
            epoch: None,
            prepare_epoch_seq: 0,
            passthrough: false,
            external_sender: None,
            proposals: seq![],
            pending: SlotsView::empty(),
        }
    }

    /// Without proposals and messages that wait.
    pub open spec fn pending_cleared(self) -> DaveView {
        DaveView { proposals: seq![], pending: SlotsView::empty(), ..self }
    }

    pub open spec fn cleared_if(self, clear: bool) -> DaveView {
        if clear {
            self.pending_cleared()
        } else {
            self
        }
    }

    /// After a session description. Without encryption the version is in force at once.
    pub open spec fn session_protocol_set(self, version: Option<u16>) -> DaveView {
        let base = self.cleared_if(self.protocol_version != version);
        let plain = !encrypting(version);
        DaveView {
            protocol_version: version,
            passthrough: plain,
            active_send: if plain {
                version
            } else {
                base.active_send
            },
            active_receive: if plain {
                version
            } else {
                base.active_receive
            },
            ..base
        }
    }

    /// After a transition is executed: where it is the one that was prepared, the version
    /// is in force.
    pub open spec fn transition_executed(self, transition_id: u16) -> DaveView {
        let base = if self.transition_id == Some(transition_id) {
            DaveView {
                active_send: self.protocol_version,
                active_receive: self.protocol_version,
                transition_id: None,
                ..self
            }
        } else {
            self
        };
        base.pending_cleared()
    }

    /// After a transition is prepared. The first one of a group's first epoch is executed
    /// at once.
    pub open spec fn transition_prepared(self, transition_id: u16, version: u16) -> DaveView {
        let base = self.cleared_if(self.transition_id != Some(transition_id));
        let prepared = DaveView {
            transition_id: Some(transition_id),
            protocol_version: Some(version),
            passthrough: version == 0,
            ..base
        };
        if self.epoch == Some(1u64) && transition_id == 0 && version > 0 {
            prepared.transition_executed(transition_id)
        } else {
            prepared
        }
    }

    /// After an epoch is prepared.
    pub open spec fn epoch_prepared(self, version: u16, epoch: u64) -> DaveView {
        let base = self.cleared_if(epoch == 1 || self.epoch != Some(epoch));
        DaveView {
            prepare_epoch_seq: if self.prepare_epoch_seq == u64::MAX {
                u64::MAX
            } else {
                (self.prepare_epoch_seq + 1) as u64
            },
            epoch: Some(epoch),
            protocol_version: Some(version),
            passthrough: version == 0,
            ..base
        }
    }

    /// Whether the gateway has nothing under way.
    pub open spec fn settled(self) -> bool {
        self.transition_id is None && self.pending == SlotsView::empty() && self.proposals.len()
            == 0
    }

    pub open spec fn zero_transition_pending(self) -> bool {
        self.transition_id == Some(0u16) && encrypting(self.protocol_version)
    }

    pub open spec fn first_negotiation_pending(self) -> bool {
        self.active_send is None && encrypting(self.protocol_version)
    }

    /// Whether media that is sent has to be encrypted.
    pub open spec fn requires_dave(self) -> bool {
        encrypting(self.active_send) || self.zero_transition_pending()
            || self.first_negotiation_pending()
    }

    /// Whether media that is received may be encrypted.
    pub open spec fn transforms_received(self) -> bool {
        encrypting(self.active_receive) || self.zero_transition_pending()
            || self.first_negotiation_pending()
    }

    /// What is shown of it.
    pub open spec fn shown(self) -> DaveState {
        DaveState {
            protocol_version: self.protocol_version,
            active_send_protocol_version: self.active_send,
            active_receive_protocol_version: self.active_receive,
            transition_id: self.transition_id,
            epoch: self.epoch,
            prepare_epoch_seq: self.prepare_epoch_seq,
            passthrough: self.passthrough,
            mls: self.shown_mls(),
        }
    }

    pub open spec fn shown_mls(self) -> DaveMlsState {
        DaveMlsState {
            external_sender: self.external_sender is Some,
            pending: DavePendingMlsState {
                proposals: self.proposals.len() as usize,
                commit: self.pending.commit is Some,
                welcome: self.pending.welcome is Some,
            },
        }
    }
}

pub open spec fn bytes_of(bytes: Option<Vec<u8>>) -> Option<Seq<u8>> {
    match bytes {
        Some(bytes) => Some(bytes@),
        None => None,
    }
}

pub open spec fn rows_of(rows: Seq<Vec<u8>>) -> Seq<Seq<u8>> {
    rows.map_values(|row: Vec<u8>| row@)
}

impl View for DaveInternalState {
    type V = DaveView;

    open spec fn view(&self) -> DaveView {
        DaveView {
            protocol_version: self.protocol_version,
            active_send: self.active_send_protocol_version,
            active_receive: self.active_receive_protocol_version,
            transition_id: self.transition_id,
            epoch: self.epoch,
            prepare_epoch_seq: self.prepare_epoch_seq,
            passthrough: self.passthrough,
            external_sender: bytes_of(self.external_sender),
            proposals: rows_of(self.proposals@),
            pending: self.pending_mls@,
        }
    }
}

impl Default for DaveInternalState {
    fn default() -> (state: Self)
        ensures
            state@ == DaveView::initial(),
    {
        let state = DaveInternalState {
            protocol_version: None,
            active_send_protocol_version: None,
            active_receive_protocol_version: None,
            transition_id: None,
            epoch: None,
            prepare_epoch_seq: 0,
            passthrough: false,
            external_sender: None,
            proposals: Vec::new(),
            pending_mls: DaveMlsSlots::new(),
        };
        assert(rows_of(state.proposals@) =~= seq![]);
        state
    }
}

impl DaveInternalState {
    pub fn protocol_version(&self) -> (version: Option<u16>)
        ensures
            version == self@.protocol_version,
    {
        self.protocol_version
    }

    pub fn active_send_protocol_version(&self) -> (version: Option<u16>)
        ensures
            version == self@.active_send,
    {
        self.active_send_protocol_version
    }

    pub fn active_receive_protocol_version(&self) -> (version: Option<u16>)
        ensures
            version == self@.active_receive,
    {
        self.active_receive_protocol_version
    }

    pub fn transition_id(&self) -> (id: Option<u16>)
        ensures
            id == self@.transition_id,
    {
        self.transition_id
    }

    pub fn epoch(&self) -> (epoch: Option<u64>)
        ensures
            epoch == self@.epoch,
    {
        self.epoch
    }

    pub fn prepare_epoch_seq(&self) -> (seq: u64)
        ensures
            seq == self@.prepare_epoch_seq,
    {
        self.prepare_epoch_seq
    }

    pub fn passthrough(&self) -> (answer: bool)
        ensures
            answer == self@.passthrough,
    {
        self.passthrough
    }

    pub fn mls_state(&self) -> (state: DaveMlsState)
        ensures
            state == self@.shown_mls(),
    {
        DaveMlsState {
            external_sender: self.external_sender.is_some(),
            pending: DavePendingMlsState {
                proposals: self.proposals.len(),
                commit: self.pending_mls.commit.is_some(),
                welcome: self.pending_mls.welcome.is_some(),
            },
        }
    }

    pub fn public_state(&self) -> (state: DaveState)
        ensures
            state == self@.shown(),
    {
        DaveState {
            protocol_version: self.protocol_version,
            active_send_protocol_version: self.active_send_protocol_version,
            active_receive_protocol_version: self.active_receive_protocol_version,
            transition_id: self.transition_id,
            epoch: self.epoch,
            prepare_epoch_seq: self.prepare_epoch_seq,
            passthrough: self.passthrough,
            mls: self.mls_state(),
        }
    }

    pub fn set_session_protocol(&mut self, protocol_version: Option<u16>)
        ensures
            final(self)@ == old(self)@.session_protocol_set(protocol_version),
    {
        if self.protocol_version != protocol_version {
            self.clear_pending_mls();
        }
        self.protocol_version = protocol_version;
        self.passthrough = !is_encrypting(protocol_version);
        if self.passthrough {
            self.active_send_protocol_version = protocol_version;
            self.active_receive_protocol_version = protocol_version;
        }
    }

    pub fn prepare_transition(&mut self, transition_id: u16, protocol_version: u16)
        ensures
            final(self)@ == old(self)@.transition_prepared(transition_id, protocol_version),
    {
        if self.transition_id != Some(transition_id) {
            self.clear_pending_mls();
        }
        self.transition_id = Some(transition_id);
        self.protocol_version = Some(protocol_version);
        self.passthrough = protocol_version == 0;
        if self.epoch == Some(1) && transition_id == 0 && protocol_version > 0 {
            self.execute_transition(transition_id);
        }
    }

    pub fn prepare_epoch(&mut self, protocol_version: u16, epoch: u64)
        ensures
            final(self)@ == old(self)@.epoch_prepared(protocol_version, epoch),
    {
        self.prepare_epoch_seq = self.prepare_epoch_seq.saturating_add(1);
        if epoch == 1 || self.epoch != Some(epoch) {
            self.clear_pending_mls();
        }
        self.epoch = Some(epoch);
        self.protocol_version = Some(protocol_version);
        self.passthrough = protocol_version == 0;
    }

    pub fn execute_transition(&mut self, transition_id: u16)
        ensures
            final(self)@ == old(self)@.transition_executed(transition_id),
    {
        if self.transition_id == Some(transition_id) {
            self.active_send_protocol_version = self.protocol_version;
            self.active_receive_protocol_version = self.protocol_version;
            self.transition_id = None;
        }
        self.clear_pending_mls();
    }

    pub fn clear_pending_mls(&mut self)
        ensures
            final(self)@ == old(self)@.pending_cleared(),
    {
        self.proposals.clear();
        self.pending_mls.clear();
        assert(rows_of(self.proposals@) =~= seq![]);
    }

    pub fn set_pending_mls_message(&mut self, message: PendingDaveMlsMessage)
        ensures
            final(self)@ == (DaveView {
                pending: old(self)@.pending.with(message@),
                ..old(self)@
            }),
    {
        self.pending_mls.set_message(message);
    }

    pub fn set_external_sender(&mut self, external_sender: Vec<u8>)
        ensures
            final(self)@ == (DaveView {
                external_sender: Some(external_sender@),
                ..old(self)@
            }),
    {
        self.external_sender = Some(external_sender);
    }

    pub fn push_proposals(&mut self, proposals: Vec<u8>)
        ensures
            final(self)@ == (DaveView {
                proposals: old(self)@.proposals.push(proposals@),
                ..old(self)@
            }),
    {
        self.proposals.push(proposals);
        assert(rows_of(self.proposals@) =~= old(self)@.proposals.push(proposals@));
    }

    /// Whether the gateway has nothing under way.
    pub fn gateway_media_ready(&self) -> (ready: bool)
        ensures
            ready == self@.settled(),
    {
        self.transition_id.is_none() && self.pending_mls.is_empty() && self.proposals.len() == 0
    }

    pub fn send_requires_dave(&self) -> (answer: bool)
        ensures
            answer == self@.requires_dave(),
    {
        is_encrypting(self.active_send_protocol_version) || self.transition_zero_dave_pending()
            || self.initial_dave_negotiation_pending()
    }

    pub fn receive_transform_active(&self) -> (answer: bool)
        ensures
            answer == self@.transforms_received(),
    {
        is_encrypting(self.active_receive_protocol_version) || self.transition_zero_dave_pending()
            || self.initial_dave_negotiation_pending()
    }

    /// Whether the first transition is ready here, too.
    pub fn transition_zero_media_ready(&self, transition_ready: Option<u16>) -> (ready: bool)
        ensures
            ready == (self@.transition_id == Some(0u16) && transition_ready == Some(0u16)),
    {
        self.transition_id == Some(0) && transition_ready == Some(0)
    }

    fn transition_zero_dave_pending(&self) -> (answer: bool)
        ensures
            answer == self@.zero_transition_pending(),
    {
        self.transition_id == Some(0) && is_encrypting(self.protocol_version)
    }

    fn initial_dave_negotiation_pending(&self) -> (answer: bool)
        ensures
            answer == self@.first_negotiation_pending(),
    {
        self.active_send_protocol_version.is_none() && is_encrypting(self.protocol_version)
    }

    /// A second state of the same content.
    pub fn copy(&self) -> (copy: Self)
        ensures
            copy@ == self@,
    {
        let mut proposals: Vec<Vec<u8>> = Vec::new();
        let len = self.proposals.len();
        let mut i: usize = 0;
        while i < len
            invariant
                len == self.proposals@.len(),
                i <= len,
                rows_of(proposals@) == rows_of(self.proposals@.take(i as int)),
            decreases len - i,
        {
            let ghost before = proposals@;
            proposals.push(copy_vec(&self.proposals[i]));
            i = i + 1;
            assert(rows_of(proposals@) =~= rows_of(before).push(self.proposals@[i - 1]@));
            assert(rows_of(self.proposals@.take(i as int)) =~= rows_of(
                self.proposals@.take(i - 1),
            ).push(self.proposals@[i - 1]@));
        }
        assert(self.proposals@.take(i as int) =~= self.proposals@);
        DaveInternalState {
            protocol_version: self.protocol_version,
            active_send_protocol_version: self.active_send_protocol_version,
            active_receive_protocol_version: self.active_receive_protocol_version,
            transition_id: self.transition_id,
            epoch: self.epoch,
            prepare_epoch_seq: self.prepare_epoch_seq,
            passthrough: self.passthrough,
            external_sender: match &self.external_sender {
                Some(sender) => Some(copy_vec(sender)),
                None => None,
            },
            proposals,
            pending_mls: DaveMlsSlots {
                commit: match &self.pending_mls.commit {
                    Some(message) => Some(message.copy()),
                    None => None,
                },
                welcome: match &self.pending_mls.welcome {
                    Some(message) => Some(message.copy()),
                    None => None,
                },
            },
        }
    }
}

/// The versions in force change only when a transition is executed: preparing an epoch
/// leaves them, and so does preparing a transition, but for the first one of a group's
/// first epoch, which is executed at once.
pub proof fn law_versions_in_force_change_on_execute(
    state: DaveView,
    transition_id: u16,
    version: u16,
    epoch: u64,
)
    ensures
        state.epoch_prepared(version, epoch).active_send == state.active_send,
        state.epoch_prepared(version, epoch).active_receive == state.active_receive,
        state.epoch != Some(1u64) || transition_id != 0 || version == 0 ==> {
            &&& state.transition_prepared(transition_id, version).active_send == state.active_send
            &&& state.transition_prepared(transition_id, version).active_receive
                == state.active_receive
        },
        state.transition_id != Some(transition_id) ==> {
            &&& state.transition_executed(transition_id).active_send == state.active_send
            &&& state.transition_executed(transition_id).active_receive == state.active_receive
            &&& state.transition_executed(transition_id).transition_id == state.transition_id
        },
{
}

/// A transition that is prepared and executed is in force, both ways, and is no longer
/// pending; nothing waits.
pub proof fn law_executed_transition_is_in_force(
    state: DaveView,
    transition_id: u16,
    version: u16,
)
    ensures
        ({
            let after = state.transition_prepared(transition_id, version).transition_executed(
                transition_id,
            );
            &&& after.active_send == Some(version)
            &&& after.active_receive == Some(version)
            &&& after.protocol_version == Some(version)
            &&& after.transition_id is None
            &&& after.settled()
            &&& after.requires_dave() == (version > 0)
            &&& after.transforms_received() == (version > 0)
        }),
{
}

/// A connection in the clear stays so until a transition to encryption is executed; the
/// first transition of all is the exception.
pub proof fn law_plain_media_waits_for_execute(state: DaveView, transition_id: u16, version: u16)
    requires
        state.active_send == Some(0u16),
        state.active_receive == Some(0u16),
        transition_id != 0,
    ensures
        !state.transition_prepared(transition_id, version).requires_dave(),
        !state.transition_prepared(transition_id, version).transforms_received(),
{
}

/// What is shown says the same of sending as the state itself.
pub proof fn law_shown_state_agrees(state: DaveView)
    ensures
        state.shown().requires_dave() == state.requires_dave(),
{
}

/// Two events that prepare an epoch can be told apart, as long as they can be counted.
pub proof fn law_prepared_epochs_are_counted(
    state: DaveView,
    version: u16,
    epoch: u64,
)
    requires
        state.prepare_epoch_seq < u64::MAX,
    ensures
        state.epoch_prepared(version, epoch).prepare_epoch_seq == state.prepare_epoch_seq + 1,
{
}

/// After a session without encryption nothing is encrypted, and after one with encryption
/// everything is, unless a version in the clear is in force.
pub proof fn law_session_protocol_decides(state: DaveView, version: Option<u16>)
    ensures
        !encrypting(version) ==> !state.session_protocol_set(version).requires_dave()
            && !state.session_protocol_set(version).transforms_received(),
        encrypting(version) && state.active_send is None ==> state.session_protocol_set(
            version,
        ).requires_dave(),
{
}

/// Messages and proposals belong to one version, one transition and one epoch: they are
/// dropped when another one comes, when a group begins anew, and when a transition is
/// executed; and they are kept as long as the gateway says the same again. What the external
/// sender is stays over all of that.
pub proof fn law_messages_belong_to_their_time(
    state: DaveView,
    version: Option<u16>,
    transition_id: u16,
    number: u16,
    epoch: u64,
)
    ensures
        ({
            let dropped = |after: DaveView|
                after.proposals.len() == 0 && after.pending.commit is None && after.pending.welcome
                    is None;
            let kept = |after: DaveView|
                after.proposals == state.proposals && after.pending == state.pending;
            let described = state.session_protocol_set(version);
            let prepared = state.transition_prepared(transition_id, number);
            let executed = state.transition_executed(transition_id);
            let begun = state.epoch_prepared(number, epoch);
            &&& if version == state.protocol_version {
                kept(described)
            } else {
                dropped(described)
            }
            &&& if state.transition_id != Some(transition_id) {
                dropped(prepared)
            } else {
                dropped(prepared) || kept(prepared)
            }
            &&& state.transition_id == Some(transition_id) && transition_id != 0 ==> kept(prepared)
            &&& dropped(executed)
            &&& if epoch == 1 || state.epoch != Some(epoch) {
                dropped(begun)
            } else {
                kept(begun)
            }
            &&& described.external_sender == state.external_sender
            &&& prepared.external_sender == state.external_sender
            &&& executed.external_sender == state.external_sender
            &&& begun.external_sender == state.external_sender
        }),
{
}

/// Media passes in the clear exactly where the version that was told last means no
/// encryption; executing a transition does not change that. The version, the transition and
/// the epoch are those that were told last.
pub proof fn law_passing_goes_by_the_version(
    state: DaveView,
    version: Option<u16>,
    transition_id: u16,
    number: u16,
    epoch: u64,
)
    ensures
        ({
            let described = state.session_protocol_set(version);
            &&& described.protocol_version == version
            &&& described.passthrough == !(version matches Some(number) && number > 0)
            &&& described.transition_id == state.transition_id && described.epoch == state.epoch
        }),
        ({
            let prepared = state.transition_prepared(transition_id, number);
            &&& prepared.protocol_version == Some(number)
            &&& prepared.passthrough == (number == 0)
            &&& prepared.epoch == state.epoch
            &&& prepared.transition_id == Some(transition_id) || (prepared.transition_id is None
                && transition_id == 0 && number > 0 && state.epoch == Some(1u64))
        }),
        ({
            let executed = state.transition_executed(transition_id);
            &&& executed.protocol_version == state.protocol_version
            &&& executed.passthrough == state.passthrough
            &&& executed.epoch == state.epoch
        }),
        ({
            let begun = state.epoch_prepared(number, epoch);
            &&& begun.protocol_version == Some(number)
            &&& begun.passthrough == (number == 0)
            &&& begun.epoch == Some(epoch)
            &&& begun.transition_id == state.transition_id
        }),
{
}

/// Each slot holds the last message of its kind, and a message of one kind leaves the other
/// slot alone.
pub proof fn law_slots_hold_the_last_of_their_kind(
    slots: SlotsView,
    message: (DaveMlsMessageIdentity, Seq<u8>),
    kind: DaveMlsMessageKind,
)
    ensures
        slots.with(message).of_kind(kind) == (if message.0.kind == kind {
            Some(message)
        } else {
            slots.of_kind(kind)
        }),
{
}

/// What is received may be encrypted from the moment on in which it could be: while a session
/// that encrypts has not begun, while its first transition is prepared, and once a transition
/// to it is executed; and no longer once one away from it is.
pub proof fn law_received_media_may_be_encrypted(state: DaveView, transition_id: u16, version: u16)
    ensures
        state.active_send is None && version > 0 ==> state.session_protocol_set(
            Some(version),
        ).transforms_received(),
        version > 0 ==> state.transition_prepared(0, version).transforms_received(),
        state.transition_id == Some(transition_id) && state.active_send is Some
            ==> state.transition_executed(transition_id).transforms_received() == encrypting(
            state.protocol_version,
        ),
        encrypting(state.active_receive) && transition_id != 0 ==> state.transition_prepared(
            transition_id,
            version,
        ).transforms_received(),
{
}

} // verus!
