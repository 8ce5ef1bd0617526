//! What a server says of a session.

use super::mode::EncryptionMode;
use crate::errors::Error;
use crate::media::crypto::TransportCryptoConfig;
use crate::secrets::SecretKey;
use vstd::prelude::*;

verus! {

/// The parts of a session description, as they come.
pub struct SessionDescriptionParts {
    pub mode: EncryptionMode,
    pub secret_key: SecretKey,
    pub audio_codec: Option<String>,
    pub video_codec: Option<String>,
    pub dave_protocol_version: Option<u16>,
}

/// A session description whose key fits its encryption mode.
#[derive(PartialEq, Eq)]
pub struct SessionDescription {
    pub mode: EncryptionMode,
    pub secret_key: SecretKey,
    pub transport_crypto: TransportCryptoConfig,
    pub audio_codec: Option<String>,
    pub video_codec: Option<String>,
    pub dave_protocol_version: Option<u16>,
}

impl SessionDescription {
    /// Refuses a key that is not 32 bytes long.
    pub fn new(parts: SessionDescriptionParts) -> (description: Result<Self, Error>)
        ensures
            match TransportCryptoConfig::key_fault(parts.secret_key@) {
                Some(error) => description == Err::<Self, Error>(error),
                None => {
                    &&& description matches Ok(description)
                    &&& description.mode == parts.mode
                    &&& description.secret_key == parts.secret_key
                    &&& description.transport_crypto.mode() == parts.mode
                    &&& description.transport_crypto.key() == parts.secret_key@
                    &&& description.audio_codec == parts.audio_codec
                    &&& description.video_codec == parts.video_codec
                    &&& description.dave_protocol_version == parts.dave_protocol_version
                },
            },
    {
        let transport_crypto = match TransportCryptoConfig::new(
            parts.mode,
            parts.secret_key.as_slice(),
        ) {
            Ok(config) => config,
            Err(error) => {
                return Err(error);
            },
        };
        Ok(
            SessionDescription {
                mode: parts.mode,
                secret_key: parts.secret_key,
                transport_crypto,
                audio_codec: parts.audio_codec,
                video_codec: parts.video_codec,
                dave_protocol_version: parts.dave_protocol_version,
            },
        )
    }
}

/// What is shown of a session.
#[derive(Debug, PartialEq, Eq)]
pub struct SessionState {
    pub mode: EncryptionMode,
    pub audio_codec: Option<String>,
    pub video_codec: Option<String>,
    pub dave_protocol_version: Option<u16>,
}

pub fn copy_name(name: &Option<String>) -> (copy: Option<String>)
    ensures
        copy == *name,
{
    match name {
        Some(name) => Some(name.clone()),
        None => None,
    }
}

impl SessionState {
    /// All of a session description but its key.
    pub fn of(description: &SessionDescription) -> (state: Self)
        ensures
            state == (SessionState {
                mode: description.mode,
                audio_codec: description.audio_codec,
                video_codec: description.video_codec,
                dave_protocol_version: description.dave_protocol_version,
            }),
    {
        SessionState {
            mode: description.mode,
            audio_codec: copy_name(&description.audio_codec),
            video_codec: copy_name(&description.video_codec),
            dave_protocol_version: description.dave_protocol_version,
        }
    }
}

} // verus!
