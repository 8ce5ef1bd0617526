//! Binary frames from the gateway.

use super::opcode::Opcode;
use crate::bytes::{be16, read_be16, to_vec};
use crate::errors::{DaveError, DaveGatewayPayloadError, Error};
use crate::state::{DaveMlsMessageIdentity, DaveMlsMessageKind, PendingDaveMlsMessage};
use vstd::prelude::*;

verus! {

/// A binary frame: a sequence number, an opcode, and what it brings.
pub struct BinaryEvent<'a> {
    pub seq: i64,
    pub opcode: Opcode,
    pub payload: &'a [u8],
}

/// What a binary frame says; nothing where it is too short, or has an opcode that no
/// server sends so.
pub open spec fn read_binary(bytes: Seq<u8>) -> Option<(i64, Opcode, Seq<u8>)> {
    if bytes.len() < 3 {
        None
    } else {
        match Opcode::numbered(bytes[2] as int) {
            Some(opcode) if opcode.server_binary() => Some(
                (be16(bytes[0], bytes[1]) as i64, opcode, bytes.skip(3)),
            ),
            _ => None,
        }
    }
}

impl<'a> BinaryEvent<'a> {
    pub fn parse(bytes: &'a [u8]) -> (event: Option<Self>)
        ensures
            match event {
                Some(event) => read_binary(bytes@) == Some(
                    (event.seq, event.opcode, event.payload@),
                ),
                None => read_binary(bytes@) is None,
            },
    {
        let len = bytes.len();
        if len < 3 {
            return None;
        }
        match Opcode::from_server_binary(bytes[2]) {
            Some(opcode) => {
                let payload = vstd::slice::slice_subrange(bytes, 3, len);
                assert(payload@ =~= bytes@.skip(3));
                Some(BinaryEvent { seq: read_be16(bytes[0], bytes[1]) as i64, opcode, payload })
            },
            None => None,
        }
    }
}

/// What a commit or a welcome brings: the transition that it belongs to, and the message.
pub struct DaveTransitionBinaryPayload<'a> {
    pub seq: i64,
    pub transition_id: u16,
    pub body: &'a [u8],
}

/// The refusal of a payload that is too short for a transition id.
pub open spec fn too_short(opcode: Opcode, len: int) -> Error {
    Error::Dave(
        DaveError::InvalidGatewayPayload(
            DaveGatewayPayloadError::PayloadTooShort {
                opcode: opcode.number(),
                len: len as usize,
                min_len: 2,
            },
        ),
    )
}

impl<'a> DaveTransitionBinaryPayload<'a> {
    /// The transition id and the message; a payload of less than two bytes is refused.
    pub fn parse(event: BinaryEvent<'a>) -> (payload: Result<Self, Error>)
        ensures
            if event.payload@.len() < 2 {
                payload == Err::<Self, Error>(
                    too_short(event.opcode, event.payload@.len() as int),
                )
            } else {
                &&& payload matches Ok(payload)
                &&& payload.seq == event.seq
                &&& payload.transition_id == be16(event.payload@[0], event.payload@[1])
                &&& payload.body@ == event.payload@.skip(2)
            },
    {
        let len = event.payload.len();
        if len < 2 {
            return Err(
                Error::Dave(
                    DaveError::InvalidGatewayPayload(
                        DaveGatewayPayloadError::PayloadTooShort {
                            opcode: event.opcode.byte(),
                            len,
                            min_len: 2,
                        },
                    ),
                ),
            );
        }
        let body = vstd::slice::slice_subrange(event.payload, 2, len);
        assert(body@ =~= event.payload@.skip(2));
        Ok(
            DaveTransitionBinaryPayload {
                seq: event.seq,
                transition_id: read_be16(event.payload[0], event.payload[1]),
                body,
            },
        )
    }

    pub fn pending_message(self, kind: DaveMlsMessageKind) -> (message: PendingDaveMlsMessage)
        ensures
            message@ == (
                DaveMlsMessageIdentity { kind, seq: self.seq, transition_id: self.transition_id },
                self.body@,
            ),
    {
        PendingDaveMlsMessage::new(
            DaveMlsMessageIdentity { kind, seq: self.seq, transition_id: self.transition_id },
            to_vec(self.body),
        )
    }
}

/// A binary frame with a number, an opcode that the server sends so, and a payload, is read
/// back; one with any other opcode, and one that is too short, is not.
pub proof fn law_binary_frames_are_read(seq: u16, number: u8, payload: Seq<u8>)
    ensures
        ({
            let bytes = seq![(seq / 256) as u8, (seq % 256) as u8, number] + payload;
            &&& read_binary(bytes) is Some == (number == 25 || number == 27 || number == 29
                || number == 30)
            &&& read_binary(bytes) matches Some((counted, opcode, content)) ==> {
                &&& counted == seq
                &&& opcode.number() == number
                &&& content == payload
            }
            &&& forall|len: int|
                0 <= len < 3 ==> (#[trigger] read_binary(bytes.take(len))) is None
        }),
{
    let bytes = seq![(seq / 256) as u8, (seq % 256) as u8, number] + payload;
    assert(bytes.skip(3) =~= payload);
    assert((seq / 256) * 256 + seq % 256 == seq);
}

} // verus!
