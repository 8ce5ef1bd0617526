//! Whether media can be sent, and what proposals ask for.

use crate::errors::{DaveError, DaveProposalsPayloadError};
use crate::state::connection::ConnectionState;
use crate::state::dave::DaveMlsState;
use vstd::prelude::*;
use vstd::slice::slice_subrange;

verus! {

/// Whether media can be sent and received.
#[derive(Clone, Copy, Debug, PartialEq, Eq, Structural)]
pub struct DaveMediaStatus {
    pub requires_dave: bool,
    pub active_send_protocol_version: Option<u16>,
    pub active_receive_protocol_version: Option<u16>,
    pub media_ready: bool,
    pub session_ready: bool,
    pub send_ready: bool,
    pub transition_ready: Option<u16>,
    pub protocol_version: Option<u16>,
    pub transition_id: Option<u16>,
    pub mls: DaveMlsState,
}

impl DaveMediaStatus {
    /// As far as it can be told where there is no session.
    pub fn from_public_state(state: &ConnectionState) -> (status: Self)
        ensures
            status == (DaveMediaStatus {
                requires_dave: state.dave.requires_dave(),
                active_send_protocol_version: state.dave.active_send_protocol_version,
                active_receive_protocol_version: state.dave.active_receive_protocol_version,
                media_ready: !state.dave.requires_dave(),
                session_ready: false,
                send_ready: false,
                transition_ready: None,
                protocol_version: state.dave.protocol_version,
                transition_id: state.dave.transition_id,
                mls: state.dave.mls,
            }),
    {
        let requires_dave = state.dave.send_requires_dave();
        DaveMediaStatus {
            requires_dave,
            active_send_protocol_version: state.dave.active_send_protocol_version,
            active_receive_protocol_version: state.dave.active_receive_protocol_version,
            media_ready: !requires_dave,
            session_ready: false,
            send_ready: false,
            transition_ready: None,
            protocol_version: state.dave.protocol_version,
            transition_id: state.dave.transition_id,
            mls: state.dave.mls,
        }
    }

    /// Media that needs no encryption is ready; other media is once the session can
    /// decrypt and encrypt and the gateway has nothing under way.
    pub fn ready_from(
        requires_dave: bool,
        session_ready: bool,
        send_ready: bool,
        gateway_ready: bool,
    ) -> (ready: bool)
        ensures
            ready == (requires_dave ==> session_ready && send_ready && gateway_ready),
    {
        !requires_dave || (session_ready && send_ready && gateway_ready)
    }
}

/// What is done with proposals.
#[derive(Clone, Copy, Debug, PartialEq, Eq, Structural)]
pub enum ProposalsOperation {
    Append,
    Revoke,
}

/// What is done with proposals, and how that is called.
#[derive(Clone, Copy, Debug, PartialEq, Eq)]
pub struct DaveProposalsOperation {
    pub kind: ProposalsOperation,
    pub label: &'static str,
}

impl DaveProposalsOperation {
    pub open spec fn of_kind(kind: ProposalsOperation) -> DaveProposalsOperation {
        match kind {
            ProposalsOperation::Append => DaveProposalsOperation { kind, label: "append" },
            ProposalsOperation::Revoke => DaveProposalsOperation { kind, label: "revoke" },
        }
    }

    /// What a payload asks for: its first byte says what is done, the rest are the
    /// proposals.
    pub open spec fn read(payload: Seq<u8>) -> Result<(DaveProposalsOperation, Seq<u8>), DaveError> {
        if payload.len() == 0 {
            Err(DaveError::InvalidProposalsPayload(DaveProposalsPayloadError::MissingOperation))
        } else if payload[0] == 0 {
            Ok((Self::of_kind(ProposalsOperation::Append), payload.skip(1)))
        } else if payload[0] == 1 {
            Ok((Self::of_kind(ProposalsOperation::Revoke), payload.skip(1)))
        } else {
            Err(
                DaveError::InvalidProposalsPayload(
                    DaveProposalsPayloadError::InvalidOperation { operation: payload[0] },
                ),
            )
        }
    }

    pub fn parse(payload: &[u8]) -> (parsed: Result<(Self, &[u8]), DaveError>)
        ensures
            match parsed {
                Ok((operation, proposals)) => Self::read(payload@) == Ok::<
                    (DaveProposalsOperation, Seq<u8>),
                    DaveError,
                >((operation, proposals@)),
                Err(error) => Self::read(payload@) == Err::<
                    (DaveProposalsOperation, Seq<u8>),
                    DaveError,
                >(error),
            },
    {
        if payload.len() == 0 {
            return Err(
                DaveError::InvalidProposalsPayload(DaveProposalsPayloadError::MissingOperation),
            );
        }
        let operation: u8 = payload[0];
        let proposals = slice_subrange(payload, 1, payload.len());
        assert(proposals@ =~= payload@.skip(1));
        if operation == 0 {
            return Ok(
                (
                    DaveProposalsOperation { kind: ProposalsOperation::Append, label: "append" },
                    proposals,
                ),
            );
        }
        if operation == 1 {
            return Ok(
                (
                    DaveProposalsOperation { kind: ProposalsOperation::Revoke, label: "revoke" },
                    proposals,
                ),
            );
        }
        Err(
            DaveError::InvalidProposalsPayload(
                DaveProposalsPayloadError::InvalidOperation { operation },
            ),
        )
    }
}

/// The first byte of a payload says whether proposals are added or taken back, and all that
/// is behind it are the proposals; any other byte, and no byte at all, is refused.
pub proof fn law_proposals_say_what_is_done(operation: u8, proposals: Seq<u8>)
    ensures
        ({
            let read = DaveProposalsOperation::read(seq![operation] + proposals);
            &&& read is Ok == (operation < 2)
            &&& read matches Ok((done, rest)) ==> {
                &&& rest == proposals
                &&& operation == 0 <==> done.kind is Append
                &&& operation == 1 <==> done.kind is Revoke
            }
        }),
        DaveProposalsOperation::read(Seq::empty()) is Err,
{
    assert((seq![operation] + proposals).skip(1) =~= proposals);
}

} // verus!
