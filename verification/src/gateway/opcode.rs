//! The opcodes of the voice gateway.

use crate::state::DaveMlsMessageKind;
use vstd::prelude::*;

verus! {

#[derive(Clone, Copy, Debug, PartialEq, Eq, Structural)]
pub enum Opcode {
    Identify,
    SelectProtocol,
    Ready,
    Heartbeat,
    SessionDescription,
    Speaking,
    HeartbeatAck,
    Resume,
    Hello,
    Resumed,
    ClientsConnect,
    ClientConnect,
    ClientDisconnect,
    SessionUpdate,
    DavePrepareTransition,
    DaveExecuteTransition,
    DaveTransitionReady,
    DavePrepareEpoch,
    DaveMlsExternalSender,
    DaveMlsKeyPackage,
    DaveMlsProposals,
    DaveMlsCommitWelcome,
    DaveMlsAnnounceCommitTransition,
    DaveMlsWelcome,
    DaveMlsInvalidCommitWelcome,
}

impl Opcode {
    pub open spec fn number(self) -> u8 {
        match self {
            Opcode::Identify => 0,
            Opcode::SelectProtocol => 1,
            Opcode::Ready => 2,
            Opcode::Heartbeat => 3,
            Opcode::SessionDescription => 4,
            Opcode::Speaking => 5,
            Opcode::HeartbeatAck => 6,
            Opcode::Resume => 7,
            Opcode::Hello => 8,
            Opcode::Resumed => 9,
            Opcode::ClientsConnect => 11,
            Opcode::ClientConnect => 12,
            Opcode::ClientDisconnect => 13,
            Opcode::SessionUpdate => 14,
            Opcode::DavePrepareTransition => 21,
            Opcode::DaveExecuteTransition => 22,
            Opcode::DaveTransitionReady => 23,
            Opcode::DavePrepareEpoch => 24,
            Opcode::DaveMlsExternalSender => 25,
            Opcode::DaveMlsKeyPackage => 26,
            Opcode::DaveMlsProposals => 27,
            Opcode::DaveMlsCommitWelcome => 28,
            Opcode::DaveMlsAnnounceCommitTransition => 29,
            Opcode::DaveMlsWelcome => 30,
            Opcode::DaveMlsInvalidCommitWelcome => 31,
        }
    }

    /// The opcode with that number.
    pub open spec fn numbered(number: int) -> Option<Opcode> {
        if number == 0 {
            Some(Opcode::Identify)
        } else if number == 1 {
            Some(Opcode::SelectProtocol)
        } else if number == 2 {
            Some(Opcode::Ready)
        } else if number == 3 {
            Some(Opcode::Heartbeat)
        } else if number == 4 {
            Some(Opcode::SessionDescription)
        } else if number == 5 {
            Some(Opcode::Speaking)
        } else if number == 6 {
            Some(Opcode::HeartbeatAck)
        } else if number == 7 {
            Some(Opcode::Resume)
        } else if number == 8 {
            Some(Opcode::Hello)
        } else if number == 9 {
            Some(Opcode::Resumed)
        } else if number == 11 {
            Some(Opcode::ClientsConnect)
        } else if number == 12 {
            Some(Opcode::ClientConnect)
        } else if number == 13 {
            Some(Opcode::ClientDisconnect)
        } else if number == 14 {
            Some(Opcode::SessionUpdate)
        } else if number == 21 {
            Some(Opcode::DavePrepareTransition)
        } else if number == 22 {
            Some(Opcode::DaveExecuteTransition)
        } else if number == 23 {
            Some(Opcode::DaveTransitionReady)
        } else if number == 24 {
            Some(Opcode::DavePrepareEpoch)
        } else if number == 25 {
            Some(Opcode::DaveMlsExternalSender)
        } else if number == 26 {
            Some(Opcode::DaveMlsKeyPackage)
        } else if number == 27 {
            Some(Opcode::DaveMlsProposals)
        } else if number == 28 {
            Some(Opcode::DaveMlsCommitWelcome)
        } else if number == 29 {
            Some(Opcode::DaveMlsAnnounceCommitTransition)
        } else if number == 30 {
            Some(Opcode::DaveMlsWelcome)
        } else if number == 31 {
            Some(Opcode::DaveMlsInvalidCommitWelcome)
        } else {
            None
        }
    }

    pub fn byte(self) -> (byte: u8)
        ensures
            byte == self.number(),
    {
        match self {
            Opcode::Identify => 0,
            Opcode::SelectProtocol => 1,
            Opcode::Ready => 2,
            Opcode::Heartbeat => 3,
            Opcode::SessionDescription => 4,
            Opcode::Speaking => 5,
            Opcode::HeartbeatAck => 6,
            Opcode::Resume => 7,
            Opcode::Hello => 8,
            Opcode::Resumed => 9,
            Opcode::ClientsConnect => 11,
            Opcode::ClientConnect => 12,
            Opcode::ClientDisconnect => 13,
            Opcode::SessionUpdate => 14,
            Opcode::DavePrepareTransition => 21,
            Opcode::DaveExecuteTransition => 22,
            Opcode::DaveTransitionReady => 23,
            Opcode::DavePrepareEpoch => 24,
            Opcode::DaveMlsExternalSender => 25,
            Opcode::DaveMlsKeyPackage => 26,
            Opcode::DaveMlsProposals => 27,
            Opcode::DaveMlsCommitWelcome => 28,
            Opcode::DaveMlsAnnounceCommitTransition => 29,
            Opcode::DaveMlsWelcome => 30,
            Opcode::DaveMlsInvalidCommitWelcome => 31,
        }
    }

    pub fn code(self) -> (code: u64)
        ensures
            code == self.number(),
    {
        self.byte() as u64
    }

    pub fn from_byte(byte: u8) -> (opcode: Option<Self>)
        ensures
            opcode == Opcode::numbered(byte as int),
    {
        match byte {
            0 => Some(Opcode::Identify),
            1 => Some(Opcode::SelectProtocol),
            2 => Some(Opcode::Ready),
            3 => Some(Opcode::Heartbeat),
            4 => Some(Opcode::SessionDescription),
            5 => Some(Opcode::Speaking),
            6 => Some(Opcode::HeartbeatAck),
            7 => Some(Opcode::Resume),
            8 => Some(Opcode::Hello),
            9 => Some(Opcode::Resumed),
            11 => Some(Opcode::ClientsConnect),
            12 => Some(Opcode::ClientConnect),
            13 => Some(Opcode::ClientDisconnect),
            14 => Some(Opcode::SessionUpdate),
            21 => Some(Opcode::DavePrepareTransition),
            22 => Some(Opcode::DaveExecuteTransition),
            23 => Some(Opcode::DaveTransitionReady),
            24 => Some(Opcode::DavePrepareEpoch),
            25 => Some(Opcode::DaveMlsExternalSender),
            26 => Some(Opcode::DaveMlsKeyPackage),
            27 => Some(Opcode::DaveMlsProposals),
            28 => Some(Opcode::DaveMlsCommitWelcome),
            29 => Some(Opcode::DaveMlsAnnounceCommitTransition),
            30 => Some(Opcode::DaveMlsWelcome),
            31 => Some(Opcode::DaveMlsInvalidCommitWelcome),
            _ => None,
        }
    }

    pub fn from_code(code: u64) -> (opcode: Option<Self>)
        ensures
            opcode == Opcode::numbered(code as int),
    {
        if code > 255 {
            return None;
        }
        Self::from_byte(code as u8)
    }

    /// Whether a server sends it in binary frames.
    pub open spec fn server_binary(self) -> bool {
        self is DaveMlsExternalSender || self is DaveMlsProposals
            || self is DaveMlsAnnounceCommitTransition || self is DaveMlsWelcome
    }

    pub fn is_server_binary(self) -> (answer: bool)
        ensures
            answer == self.server_binary(),
    {
        matches!(
            self,
            Opcode::DaveMlsExternalSender
                | Opcode::DaveMlsProposals
                | Opcode::DaveMlsAnnounceCommitTransition
                | Opcode::DaveMlsWelcome
        )
    }

    /// The opcode of a binary frame from a server.
    pub fn from_server_binary(byte: u8) -> (opcode: Option<Self>)
        ensures
            opcode == (match Opcode::numbered(byte as int) {
                Some(opcode) if opcode.server_binary() => Some(opcode),
                _ => None,
            }),
    {
        match Self::from_byte(byte) {
            Some(opcode) => if opcode.is_server_binary() {
                Some(opcode)
            } else {
                None
            },
            None => None,
        }
    }

    pub open spec fn message_kind(self) -> Option<DaveMlsMessageKind> {
        match self {
            Opcode::DaveMlsAnnounceCommitTransition => Some(DaveMlsMessageKind::Commit),
            Opcode::DaveMlsWelcome => Some(DaveMlsMessageKind::Welcome),
            _ => None,
        }
    }

    pub fn dave_mls_message_kind(self) -> (kind: Option<DaveMlsMessageKind>)
        ensures
            kind == self.message_kind(),
    {
        match self {
            Opcode::DaveMlsAnnounceCommitTransition => Some(DaveMlsMessageKind::Commit),
            Opcode::DaveMlsWelcome => Some(DaveMlsMessageKind::Welcome),
            _ => None,
        }
    }
}

/// The number of an opcode finds the opcode, and no other has it.
pub proof fn law_opcodes_are_distinct(opcode: Opcode, number: int)
    ensures
        Opcode::numbered(opcode.number() as int) == Some(opcode),
        Opcode::numbered(number) == Some(opcode) ==> number == opcode.number(),
{
}

/// The server sends external senders, proposals, commits and welcomes in binary frames, and
/// nothing else; of these only commits and welcomes belong to a transition.
pub proof fn law_binary_opcodes(opcode: Opcode)
    ensures
        opcode.server_binary() == (opcode.number() == 25 || opcode.number() == 27
            || opcode.number() == 29 || opcode.number() == 30),
        opcode.message_kind() == Some(DaveMlsMessageKind::Commit) <==> opcode.number() == 29,
        opcode.message_kind() == Some(DaveMlsMessageKind::Welcome) <==> opcode.number() == 30,
        opcode.message_kind() is Some ==> opcode.server_binary(),
{
}

} // verus!
