//! Numbers that are used once: packet nonces and heartbeat nonces.

use crate::bytes::{be32, be32_bytes, be64, read_be32, read_be64};
use crate::errors::{Error, TransportCryptoError};
use vstd::prelude::*;

verus! {

/// Heartbeat nonces stay below this, so that a JavaScript peer reads them exactly.
pub const JS_MAX_SAFE_INTEGER: u64 = 0x1f_ffff_ffff_ffff;

/// `getrandom::fill`: that many random bytes, or nothing where the system has none.
/// Nothing is claimed of the bytes but their number.
#[verifier::external_body]
fn random_bytes(len: usize) -> (bytes: Option<Vec<u8>>)
    ensures
        bytes matches Some(bytes) ==> bytes@.len() == len,
{
    let mut bytes = vec![0u8; len];
    getrandom::fill(&mut bytes).ok().map(|()| bytes)
}

/// The part of a packet's nonce that is sent with it.
#[derive(Clone, Copy, Debug, PartialEq, Eq, Structural)]
pub struct RtpSizeNonceSuffix {
    value: u32,
}

impl View for RtpSizeNonceSuffix {
    type V = u32;

    closed spec fn view(&self) -> u32 {
        self.value
    }
}

impl RtpSizeNonceSuffix {
    pub fn from_be_bytes(bytes: [u8; 4]) -> (suffix: Self)
        ensures
            suffix@ == be32(bytes@[0], bytes@[1], bytes@[2], bytes@[3]),
    {
        RtpSizeNonceSuffix { value: read_be32(bytes[0], bytes[1], bytes[2], bytes[3]) }
    }

    pub fn to_be_bytes(self) -> (bytes: [u8; 4])
        ensures
            bytes@ == be32_bytes(self@),
    {
        let bytes: [u8; 4] = [
            (self.value / 0x100_0000) as u8,
            (self.value / 0x1_0000 % 256) as u8,
            (self.value / 256 % 256) as u8,
            (self.value % 256) as u8,
        ];
        assert(bytes@ =~= be32_bytes(self.value));
        bytes
    }

    /// A nonce to begin with, if there is randomness.
    pub fn initial() -> (suffix: Result<Self, Error>)
        ensures
            suffix is Err ==> suffix == Err::<Self, Error>(
                Error::TransportCrypto(TransportCryptoError::NonceRandomnessUnavailable),
            ),
    {
        match random_bytes(4) {
            Some(bytes) => Self::from_random(Some([bytes[0], bytes[1], bytes[2], bytes[3]])),
            None => Self::from_random(None),
        }
    }

    /// The nonce to begin with, from randomness if there is any.
    pub fn from_random(bytes: Option<[u8; 4]>) -> (suffix: Result<Self, Error>)
        ensures
            match bytes {
                Some(bytes) => suffix matches Ok(suffix) && suffix@ == be32(
                    bytes@[0],
                    bytes@[1],
                    bytes@[2],
                    bytes@[3],
                ),
                None => suffix == Err::<Self, Error>(
                    Error::TransportCrypto(TransportCryptoError::NonceRandomnessUnavailable),
                ),
            },
    {
        match bytes {
            Some(bytes) => Ok(Self::from_be_bytes(bytes)),
            None => Err(Error::TransportCrypto(TransportCryptoError::NonceRandomnessUnavailable)),
        }
    }

    /// The next nonce; after the last comes the first.
    pub fn increment(&mut self)
        ensures
            final(self)@ == (if old(self)@ == u32::MAX {
                0
            } else {
                (old(self)@ + 1) as u32
            }),
    {
        self.value = if self.value == u32::MAX {
            0
        } else {
            self.value + 1
        };
    }
}

/// The bytes of a nonce are read back as the nonce.
pub proof fn law_nonce_bytes_round_trip(suffix: RtpSizeNonceSuffix)
    ensures
        ({
            let bytes = be32_bytes(suffix@);
            be32(bytes[0], bytes[1], bytes[2], bytes[3]) == suffix@
        }),
{
    crate::bytes::lemma_be32_round_trip(suffix@);
}

/// The nonce of the last heartbeat.
#[derive(Clone, Copy, Debug, PartialEq, Eq, Structural)]
pub struct HeartbeatNonce {
    value: u64,
}

impl View for HeartbeatNonce {
    type V = u64;

    closed spec fn view(&self) -> u64 {
        self.value
    }
}

impl HeartbeatNonce {
    #[verifier::type_invariant]
    spec fn safe(self) -> bool {
        self.value < 0x1f_ffff_ffff_ffff
    }

    /// A nonce to begin with, if there is randomness.
    pub fn initial() -> (nonce: Result<Self, Error>)
        ensures
            match nonce {
                Ok(nonce) => nonce@ < JS_MAX_SAFE_INTEGER,
                Err(error) => error == Error::TransportCrypto(
                    TransportCryptoError::NonceRandomnessUnavailable,
                ),
            },
    {
        match random_bytes(8) {
            Some(bytes) => Self::from_random(
                Some(
                    [
                        bytes[0],
                        bytes[1],
                        bytes[2],
                        bytes[3],
                        bytes[4],
                        bytes[5],
                        bytes[6],
                        bytes[7],
                    ],
                ),
            ),
            None => Self::from_random(None),
        }
    }

    /// The nonce to begin with, from randomness if there is any.
    pub fn from_random(bytes: Option<[u8; 8]>) -> (nonce: Result<Self, Error>)
        ensures
            match bytes {
                Some(bytes) => nonce matches Ok(nonce) && nonce@ == be64(bytes@)
                    % JS_MAX_SAFE_INTEGER,
                None => nonce == Err::<Self, Error>(
                    Error::TransportCrypto(TransportCryptoError::NonceRandomnessUnavailable),
                ),
            },
    {
        match bytes {
            Some(bytes) => Ok(
                HeartbeatNonce { value: read_be64(&bytes) % JS_MAX_SAFE_INTEGER },
            ),
            None => Err(Error::TransportCrypto(TransportCryptoError::NonceRandomnessUnavailable)),
        }
    }

    /// Moves on to the next nonce and returns it. It differs from the one before, and a
    /// JavaScript peer reads it exactly.
    pub fn next(&mut self) -> (value: u64)
        ensures
            value == (old(self)@ + 1) % JS_MAX_SAFE_INTEGER as int,
            final(self)@ == value,
            value < JS_MAX_SAFE_INTEGER,
            value != old(self)@,
    {
        proof {
            use_type_invariant(&*self);
        }
        self.value = (self.value + 1) % JS_MAX_SAFE_INTEGER;
        self.value
    }
}

} // verus!
