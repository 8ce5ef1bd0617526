//! What the gateway has prepared, and what it was told.

use crate::state::dave::{DaveInternalState, DaveMlsState, DaveView};
use vstd::prelude::*;

verus! {

/// An epoch that the gateway has prepared.
#[derive(Clone, Copy, Debug, PartialEq, Eq, Structural)]
pub struct DavePreparedEpoch {
    pub epoch: u64,
    pub protocol_version: u16,
    pub seq: u64,
}

impl DavePreparedEpoch {
    /// The epoch that was prepared last, unless nothing is to be encrypted.
    pub open spec fn prepared(state: DaveView) -> Option<DavePreparedEpoch> {
        match state.protocol_version {
            Some(version) if version > 0 => match state.epoch {
                Some(epoch) => Some(
                    DavePreparedEpoch {
                        epoch,
                        protocol_version: version,
                        seq: state.prepare_epoch_seq,
                    },
                ),
                None => None,
            },
            _ => None,
        }
    }

    pub fn from_state(dave: &DaveInternalState) -> (epoch: Option<Self>)
        ensures
            epoch == Self::prepared(dave@),
    {
        let protocol_version: u16 = match dave.protocol_version() {
            Some(version) => version,
            None => {
                return None;
            },
        };
        if protocol_version == 0 {
            return None;
        }
        match dave.epoch() {
            Some(epoch) => Some(
                DavePreparedEpoch { epoch, protocol_version, seq: dave.prepare_epoch_seq() },
            ),
            None => None,
        }
    }
}

/// What a key package is for: a session, or the first epoch of a group.
#[derive(Clone, Copy, Debug, PartialEq, Eq, Structural)]
pub enum DaveKeyPackageScope {
    Session { protocol_version: u16 },
    Epoch(DavePreparedEpoch),
}

impl DaveKeyPackageScope {
    pub open spec fn wanted(state: DaveView, prepared_epoch: Option<DavePreparedEpoch>) -> Option<
        DaveKeyPackageScope,
    > {
        match prepared_epoch {
            Some(prepared) if prepared.epoch == 1 => Some(DaveKeyPackageScope::Epoch(prepared)),
            _ => match state.protocol_version {
                Some(version) if version > 0 => Some(
                    DaveKeyPackageScope::Session { protocol_version: version },
                ),
                _ => None,
            },
        }
    }

    pub fn from_state(dave: &DaveInternalState, prepared_epoch: Option<DavePreparedEpoch>) -> (scope:
        Option<Self>)
        ensures
            scope == Self::wanted(dave@, prepared_epoch),
    {
        if let Some(prepared) = prepared_epoch {
            if prepared.epoch == 1 {
                return Some(DaveKeyPackageScope::Epoch(prepared));
            }
        }
        match dave.protocol_version() {
            Some(protocol_version) => if protocol_version > 0 {
                Some(DaveKeyPackageScope::Session { protocol_version })
            } else {
                None
            },
            None => None,
        }
    }

    pub open spec fn version(self) -> u16 {
        match self {
            DaveKeyPackageScope::Session { protocol_version } => protocol_version,
            DaveKeyPackageScope::Epoch(prepared) => prepared.protocol_version,
        }
    }

    pub fn protocol_version(&self) -> (version: u16)
        ensures
            version == self.version(),
    {
        match self {
            DaveKeyPackageScope::Session { protocol_version } => *protocol_version,
            DaveKeyPackageScope::Epoch(prepared) => prepared.protocol_version,
        }
    }
}

/// Where the gateway stands.
#[derive(Clone, Copy, Debug, PartialEq, Eq, Structural)]
pub struct DaveGatewayStateEvent {
    pub protocol_version: Option<u16>,
    pub transition_id: Option<u16>,
    pub epoch: Option<u64>,
    pub prepare_epoch_seq: u64,
    pub passthrough: bool,
    pub mls: DaveMlsState,
}

impl DaveGatewayStateEvent {
    pub open spec fn of(state: DaveView) -> DaveGatewayStateEvent {
        DaveGatewayStateEvent {
            protocol_version: state.protocol_version,
            transition_id: state.transition_id,
            epoch: state.epoch,
            prepare_epoch_seq: state.prepare_epoch_seq,
            passthrough: state.passthrough,
            mls: state.shown_mls(),
        }
    }

    pub fn from_state(dave: &DaveInternalState) -> (event: Self)
        ensures
            event == Self::of(dave@),
    {
        DaveGatewayStateEvent {
            protocol_version: dave.protocol_version(),
            transition_id: dave.transition_id(),
            epoch: dave.epoch(),
            prepare_epoch_seq: dave.prepare_epoch_seq(),
            passthrough: dave.passthrough(),
            mls: dave.mls_state(),
        }
    }
}

#[derive(Clone, Copy, Debug, PartialEq, Eq, Structural)]
pub struct DaveKeyPackageEvent {
    pub protocol_version: Option<u16>,
}

#[derive(Clone, Copy, Debug, PartialEq, Eq, Structural)]
pub struct DaveTransitionEvent {
    pub transition_id: u16,
    pub protocol_version: u16,
}

#[derive(Clone, Copy, Debug, PartialEq, Eq)]
pub struct DaveProposalsEvent {
    pub operation: &'static str,
    pub proposal_bytes: usize,
    pub commit_sent: bool,
    pub welcome_sent: bool,
}

/// Proposals that the session refused, in these words.
#[derive(Clone, Debug, PartialEq, Eq)]
pub struct DaveIgnoredProposalsEvent {
    pub operation: &'static str,
    pub proposal_bytes: usize,
    pub error: String,
}

/// Two preparations of one epoch, with the same version, are not the same prepared epoch.
pub proof fn law_each_preparation_counts(state: DaveView, version: u16, epoch: u64)
    requires
        version > 0,
        state.prepare_epoch_seq < u64::MAX - 1,
    ensures
        ({
            let once = state.epoch_prepared(version, epoch);
            let twice = once.epoch_prepared(version, epoch);
            &&& DavePreparedEpoch::prepared(once) is Some
            &&& DavePreparedEpoch::prepared(twice) is Some
            &&& DavePreparedEpoch::prepared(once) != DavePreparedEpoch::prepared(twice)
        }),
{
}

/// Every preparation of a first epoch asks for a key package of its own; epochs after the
/// first ask for no other than the session does, and without encryption there is none.
pub proof fn law_first_epochs_need_key_packages(
    state: DaveView,
    one: DavePreparedEpoch,
    other: DavePreparedEpoch,
)
    ensures
        one.epoch == 1 && other.epoch == 1 && one != other ==> DaveKeyPackageScope::wanted(
            state,
            Some(one),
        ) != DaveKeyPackageScope::wanted(state, Some(other)),
        one.epoch == 1 ==> (DaveKeyPackageScope::wanted(state, Some(one)) matches Some(scope)
            && scope.version() == one.protocol_version && scope is Epoch),
        one.epoch != 1 ==> DaveKeyPackageScope::wanted(state, Some(one))
            == DaveKeyPackageScope::wanted(state, None),
        DaveKeyPackageScope::wanted(state, None) matches Some(scope) ==> scope is Session
            && state.protocol_version == Some(scope.version()) && scope.version() > 0,
        DaveKeyPackageScope::wanted(state, None) is None ==> !(state.protocol_version matches Some(
            version,
        ) && version > 0),
{
}

} // verus!
