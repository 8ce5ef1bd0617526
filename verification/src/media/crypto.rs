//! Transport encryption: every RTP packet is sealed under the session's key, with its
//! header in the clear and its nonce at its end.

use super::header::{RtpHeader, RtpHeaderBuilder, RtpHeaderFields};
use super::nonce::RtpSizeNonceSuffix;
use crate::bytes::{be32_bytes, push_range};
use crate::errors::{Error, RtpError, TransportCryptoError};
use crate::secrets::TransportSecretKey;
use crate::state::EncryptionMode;
use aes_gcm::aead::{AeadInPlace, KeyInit};
use aes_gcm::Aes256Gcm;
use chacha20poly1305::XChaCha20Poly1305;
use vstd::prelude::*;

verus! {

pub const AEAD_TAG_LEN: usize = 16;

pub const RTPSIZE_NONCE_LEN: usize = 4;

/// The longest text, in bytes, that AES-GCM takes.
pub const AES_GCM_MAX_TEXT: u64 = 0x10_0000_0000;

/// The longest text, in bytes, for which XChaCha20 has keystream.
pub const XCHACHA20_MAX_TEXT: u64 = 0x3f_ffff_ff80;

/// What AES-256-GCM makes of a text: the ciphertext and the tag.
pub uninterp spec fn aes256_gcm_sealed(
    key: Seq<u8>,
    nonce: Seq<u8>,
    aad: Seq<u8>,
    text: Seq<u8>,
) -> (Seq<u8>, Seq<u8>);

/// The text that AES-256-GCM finds in a ciphertext, if the tag is right.
pub uninterp spec fn aes256_gcm_opened(
    key: Seq<u8>,
    nonce: Seq<u8>,
    aad: Seq<u8>,
    sealed: Seq<u8>,
    tag: Seq<u8>,
) -> Option<Seq<u8>>;

/// What XChaCha20-Poly1305 makes of a text: the ciphertext and the tag.
pub uninterp spec fn xchacha20_poly1305_sealed(
    key: Seq<u8>,
    nonce: Seq<u8>,
    aad: Seq<u8>,
    text: Seq<u8>,
) -> (Seq<u8>, Seq<u8>);

/// The text that XChaCha20-Poly1305 finds in a ciphertext, if the tag is right.
pub uninterp spec fn xchacha20_poly1305_opened(
    key: Seq<u8>,
    nonce: Seq<u8>,
    aad: Seq<u8>,
    sealed: Seq<u8>,
    tag: Seq<u8>,
) -> Option<Seq<u8>>;

/// `AeadInPlace::encrypt_in_place_detached` of `aes_gcm::Aes256Gcm`: refuses a text of
/// more than 2^36 bytes, or as much associated data. Otherwise the buffer becomes the
/// ciphertext, which is as long as the text, and the tag is returned; under the same
/// key, nonce and associated data the ciphertext opens to the text.
#[verifier::external_body]
fn aes256_gcm_encrypt(
    key: &[u8; 32],
    nonce: &[u8; 12],
    aad: &[u8],
    buffer: &mut Vec<u8>,
) -> (tag: Option<[u8; 16]>)
    ensures
        tag is Some == (old(buffer)@.len() <= AES_GCM_MAX_TEXT && aad@.len() <= AES_GCM_MAX_TEXT),
        tag matches Some(tag) ==> (final(buffer)@, tag@) == aes256_gcm_sealed(
            key@,
            nonce@,
            aad@,
            old(buffer)@,
        ),
        tag matches Some(tag) ==> aes256_gcm_opened(key@, nonce@, aad@, final(buffer)@, tag@)
            == Some(old(buffer)@),
        final(buffer)@.len() == old(buffer)@.len(),
{
    let cipher = Aes256Gcm::new(key.into());
    let sealed = cipher.encrypt_in_place_detached(nonce.into(), aad, buffer);
    sealed.ok().map(|tag| tag.into())
}

/// `AeadInPlace::decrypt_in_place_detached` of `aes_gcm::Aes256Gcm`: where the tag is
/// right the buffer becomes the text, which is as long; where it is not, or where the
/// ciphertext or the associated data is too long, the buffer stays as it was.
#[verifier::external_body]
fn aes256_gcm_decrypt(
    key: &[u8; 32],
    nonce: &[u8; 12],
    aad: &[u8],
    buffer: &mut Vec<u8>,
    tag: &[u8; 16],
) -> (opened: bool)
    ensures
        opened == (aes256_gcm_opened(key@, nonce@, aad@, old(buffer)@, tag@) is Some),
        opened ==> Some(final(buffer)@) == aes256_gcm_opened(
            key@,
            nonce@,
            aad@,
            old(buffer)@,
            tag@,
        ),
        !opened ==> final(buffer)@ == old(buffer)@,
        final(buffer)@.len() == old(buffer)@.len(),
{
    let cipher = Aes256Gcm::new(key.into());
    cipher.decrypt_in_place_detached(nonce.into(), aad, buffer, tag.into()).is_ok()
}

/// `AeadInPlace::encrypt_in_place_detached` of `chacha20poly1305::XChaCha20Poly1305`, on
/// a text that its keystream covers: the buffer becomes the ciphertext, which is as long
/// as the text, and the tag is returned; under the same key, nonce and associated data
/// the ciphertext opens to the text.
#[verifier::external_body]
fn xchacha20_poly1305_encrypt(
    key: &[u8; 32],
    nonce: &[u8; 24],
    aad: &[u8],
    buffer: &mut Vec<u8>,
) -> (tag: Option<[u8; 16]>)
    requires
        old(buffer)@.len() <= XCHACHA20_MAX_TEXT,
    ensures
        tag is Some,
        tag matches Some(tag) ==> (final(buffer)@, tag@) == xchacha20_poly1305_sealed(
            key@,
            nonce@,
            aad@,
            old(buffer)@,
        ),
        tag matches Some(tag) ==> xchacha20_poly1305_opened(
            key@,
            nonce@,
            aad@,
            final(buffer)@,
            tag@,
        ) == Some(old(buffer)@),
        final(buffer)@.len() == old(buffer)@.len(),
{
    let cipher = XChaCha20Poly1305::new(key.into());
    let sealed = cipher.encrypt_in_place_detached(nonce.into(), aad, buffer);
    sealed.ok().map(|tag| tag.into())
}

/// `AeadInPlace::decrypt_in_place_detached` of `chacha20poly1305::XChaCha20Poly1305`, on
/// a ciphertext that its keystream covers: where the tag is right the buffer becomes the
/// text, which is as long; where it is not, the buffer stays as it was.
#[verifier::external_body]
fn xchacha20_poly1305_decrypt(
    key: &[u8; 32],
    nonce: &[u8; 24],
    aad: &[u8],
    buffer: &mut Vec<u8>,
    tag: &[u8; 16],
) -> (opened: bool)
    requires
        old(buffer)@.len() <= XCHACHA20_MAX_TEXT,
    ensures
        opened == (xchacha20_poly1305_opened(key@, nonce@, aad@, old(buffer)@, tag@) is Some),
        opened ==> Some(final(buffer)@) == xchacha20_poly1305_opened(
            key@,
            nonce@,
            aad@,
            old(buffer)@,
            tag@,
        ),
        !opened ==> final(buffer)@ == old(buffer)@,
        final(buffer)@.len() == old(buffer)@.len(),
{
    let cipher = XChaCha20Poly1305::new(key.into());
    cipher.decrypt_in_place_detached(nonce.into(), aad, buffer, tag.into()).is_ok()
}

/// The whole nonce of a packet: the bytes that are sent, then zeros.
pub open spec fn full_nonce(suffix: u32, len: nat) -> Seq<u8> {
    be32_bytes(suffix) + Seq::new((len - 4) as nat, |i: int| 0u8)
}

fn nonce_12(suffix: RtpSizeNonceSuffix) -> (nonce: [u8; 12])
    ensures
        nonce@ == full_nonce(suffix@, 12),
{
    let b = suffix.to_be_bytes();
    let nonce: [u8; 12] = [b[0], b[1], b[2], b[3], 0, 0, 0, 0, 0, 0, 0, 0];
    assert(nonce@ =~= full_nonce(suffix@, 12));
    nonce
}

fn nonce_24(suffix: RtpSizeNonceSuffix) -> (nonce: [u8; 24])
    ensures
        nonce@ == full_nonce(suffix@, 24),
{
    let b = suffix.to_be_bytes();
    let nonce: [u8; 24] = [
        b[0],
        b[1],
        b[2],
        b[3],
        0,
        0,
        0,
        0,
        0,
        0,
        0,
        0,
        0,
        0,
        0,
        0,
        0,
        0,
        0,
        0,
        0,
        0,
        0,
        0,
    ];
    assert(nonce@ =~= full_nonce(suffix@, 24));
    nonce
}

/// A transport key and the mode that it is for.
#[derive(PartialEq, Eq)]
pub struct TransportCryptoConfig {
    mode: EncryptionMode,
    secret_key: TransportSecretKey,
}

impl Clone for TransportCryptoConfig {
    fn clone(&self) -> (copy: Self)
        ensures
            copy == *self,
    {
        TransportCryptoConfig { mode: self.mode, secret_key: self.secret_key.clone() }
    }
}

impl TransportCryptoConfig {
    pub closed spec fn mode(self) -> EncryptionMode {
        self.mode
    }

    pub closed spec fn key(self) -> Seq<u8> {
        self.secret_key@
    }

    /// What is wrong with a key, if something is.
    pub open spec fn key_fault(secret_key: Seq<u8>) -> Option<Error> {
        if secret_key.len() == 32 {
            None
        } else {
            Some(
                Error::TransportCrypto(
                    TransportCryptoError::InvalidSecretKeyLen { len: secret_key.len() as usize },
                ),
            )
        }
    }

    /// Refuses a key that is not 32 bytes long.
    pub fn new(mode: EncryptionMode, secret_key: &[u8]) -> (config: Result<Self, Error>)
        ensures
            match Self::key_fault(secret_key@) {
                Some(error) => config == Err::<Self, Error>(error),
                None => config matches Ok(config) && config.mode() == mode && config.key()
                    == secret_key@,
            },
    {
        match transport_secret_key_from_slice(secret_key) {
            Ok(secret_key) => Ok(TransportCryptoConfig { mode, secret_key }),
            Err(error) => Err(error),
        }
    }
}

fn transport_secret_key_from_slice(secret_key: &[u8]) -> (key: Result<TransportSecretKey, Error>)
    ensures
        match TransportCryptoConfig::key_fault(secret_key@) {
            Some(error) => key == Err::<TransportSecretKey, Error>(error),
            None => key matches Ok(key) && key@ == secret_key@,
        },
{
    let len = secret_key.len();
    if len != 32 {
        return Err(Error::TransportCrypto(TransportCryptoError::InvalidSecretKeyLen { len }));
    }
    let mut key: [u8; 32] = [0; 32];
    let mut i: usize = 0;
    while i < 32
        invariant
            i <= 32,
            secret_key@.len() == 32,
            forall|j: int| 0 <= j < i ==> key@[j] == secret_key@[j],
        decreases 32 - i,
    {
        key[i] = secret_key[i];
        i = i + 1;
    }
    assert(key@ =~= secret_key@);
    Ok(TransportSecretKey::new(key))
}

/// What a mode makes of a text.
pub open spec fn sealed(
    mode: EncryptionMode,
    key: Seq<u8>,
    suffix: u32,
    aad: Seq<u8>,
    text: Seq<u8>,
) -> (Seq<u8>, Seq<u8>) {
    match mode {
        EncryptionMode::AeadAes256GcmRtpSize => aes256_gcm_sealed(
            key,
            full_nonce(suffix, 12),
            aad,
            text,
        ),
        EncryptionMode::AeadXChaCha20Poly1305RtpSize => xchacha20_poly1305_sealed(
            key,
            full_nonce(suffix, 24),
            aad,
            text,
        ),
    }
}

/// The text that a mode finds in a ciphertext, if the tag is right.
pub open spec fn opened(
    mode: EncryptionMode,
    key: Seq<u8>,
    suffix: u32,
    aad: Seq<u8>,
    body: Seq<u8>,
    tag: Seq<u8>,
) -> Option<Seq<u8>> {
    match mode {
        EncryptionMode::AeadAes256GcmRtpSize => aes256_gcm_opened(
            key,
            full_nonce(suffix, 12),
            aad,
            body,
            tag,
        ),
        EncryptionMode::AeadXChaCha20Poly1305RtpSize => xchacha20_poly1305_opened(
            key,
            full_nonce(suffix, 24),
            aad,
            body,
            tag,
        ),
    }
}

pub open spec fn seal_failure(mode: EncryptionMode) -> TransportCryptoError {
    match mode {
        EncryptionMode::AeadAes256GcmRtpSize => TransportCryptoError::AesGcmEncryptFailed,
        EncryptionMode::AeadXChaCha20Poly1305RtpSize => {
            TransportCryptoError::XChaCha20Poly1305EncryptFailed
        },
    }
}

pub open spec fn open_failure(mode: EncryptionMode) -> TransportCryptoError {
    match mode {
        EncryptionMode::AeadAes256GcmRtpSize => TransportCryptoError::AesGcmDecryptFailed,
        EncryptionMode::AeadXChaCha20Poly1305RtpSize => {
            TransportCryptoError::XChaCha20Poly1305DecryptFailed
        },
    }
}

/// Whether a text of that length can be handed to a mode at all.
pub open spec fn within_keystream(mode: EncryptionMode, len: int) -> bool {
    mode == EncryptionMode::AeadXChaCha20Poly1305RtpSize ==> len <= XCHACHA20_MAX_TEXT
}

/// Whether a mode refuses a text of that length.
pub open spec fn too_long_to_seal(mode: EncryptionMode, len: int) -> bool {
    mode == EncryptionMode::AeadAes256GcmRtpSize && len > AES_GCM_MAX_TEXT
}

/// What a sealed packet looks like: the header, the ciphertext, the tag, the nonce.
pub open spec fn sealed_packet(
    mode: EncryptionMode,
    key: Seq<u8>,
    params: OutboundEncryptParams,
    frame: Seq<u8>,
) -> Seq<u8> {
    let header = params.header.bytes(params.marker);
    let (body, tag) = sealed(mode, key, params.nonce_suffix@, header, frame);
    header + body + tag + be32_bytes(params.nonce_suffix@)
}

/// A decrypted body without the extension in front of it and the padding behind it: what
/// is left of it, and what was wrong with it.
pub open spec fn stripped(body: Seq<u8>, skip: int, padded: bool) -> (Seq<u8>, Result<
    (),
    RtpError,
>) {
    if skip > body.len() {
        (body, Err(RtpError::TruncatedEncryptedExtension))
    } else {
        let payload = body.skip(skip);
        if !padded {
            (payload, Ok(()))
        } else if payload.len() == 0 {
            (payload, Err(RtpError::EmptyPaddedPayload))
        } else if payload.last() == 0 || payload.last() > payload.len() {
            (
                payload,
                Err(
                    RtpError::InvalidPadding {
                        padding: payload.last() as usize,
                        payload_len: payload.len() as usize,
                    },
                ),
            )
        } else {
            (payload.take(payload.len() - payload.last()), Ok(()))
        }
    }
}

/// The number in the last four bytes of a packet.
pub open spec fn packet_nonce(packet: Seq<u8>) -> u32 {
    let at = packet.len() - 4;
    crate::bytes::be32(packet[at], packet[at + 1], packet[at + 2], packet[at + 3])
}

/// The text in a sealed packet whose header is `rtp`, if its tag is right.
pub open spec fn opened_packet(
    mode: EncryptionMode,
    key: Seq<u8>,
    packet: Seq<u8>,
    rtp: RtpHeader,
) -> Option<Seq<u8>> {
    let body_at = rtp.encrypted_body_offset as int;
    opened(
        mode,
        key,
        packet_nonce(packet),
        packet.take(body_at),
        packet.subrange(body_at, packet.len() - 20),
        packet.subrange(packet.len() - 20, packet.len() - 4),
    )
}

/// What a sender chooses for one packet.
#[derive(Clone, Copy, Debug, PartialEq, Eq, Structural)]
pub struct OutboundEncryptParams {
    pub header: RtpHeaderFields,
    pub marker: bool,
    pub nonce_suffix: RtpSizeNonceSuffix,
}

/// The header of a packet that was made so, as it is read.
pub open spec fn header_read(params: OutboundEncryptParams) -> Result<RtpHeader, RtpError> {
    Ok(params.header.header(params.marker))
}

/// Seals and opens the packets of one session.
pub struct TransportCrypto {
    config: TransportCryptoConfig,
}

impl TransportCrypto {
    pub closed spec fn mode(self) -> EncryptionMode {
        self.config.mode()
    }

    pub closed spec fn key(self) -> Seq<u8> {
        self.config.key()
    }

    pub fn from_config(config: &TransportCryptoConfig) -> (crypto: Result<Self, Error>)
        ensures
            crypto matches Ok(crypto) && crypto.mode() == config.mode() && crypto.key()
                == config.key(),
    {
        Ok(TransportCrypto { config: config.clone() })
    }

    fn encrypt_in_place_detached(
        &self,
        nonce_suffix: RtpSizeNonceSuffix,
        aad: &[u8],
        payload: &mut Vec<u8>,
    ) -> (tag: Result<[u8; 16], TransportCryptoError>)
        requires
            within_keystream(self.mode(), old(payload)@.len() as int),
            aad@.len() == 12,
        ensures
            if too_long_to_seal(self.mode(), old(payload)@.len() as int) {
                tag == Err::<[u8; 16], TransportCryptoError>(seal_failure(self.mode()))
            } else {
                &&& tag matches Ok(tag)
                &&& (final(payload)@, tag@) == sealed(
                    self.mode(),
                    self.key(),
                    nonce_suffix@,
                    aad@,
                    old(payload)@,
                )
                &&& opened(
                    self.mode(),
                    self.key(),
                    nonce_suffix@,
                    aad@,
                    final(payload)@,
                    tag@,
                ) == Some(old(payload)@)
            },
            final(payload)@.len() == old(payload)@.len(),
    {
        let key = self.config.secret_key.expose();
        match self.config.mode {
            EncryptionMode::AeadAes256GcmRtpSize => {
                match aes256_gcm_encrypt(key, &nonce_12(nonce_suffix), aad, payload) {
                    Some(tag) => Ok(tag),
                    None => Err(TransportCryptoError::AesGcmEncryptFailed),
                }
            },
            EncryptionMode::AeadXChaCha20Poly1305RtpSize => {
                match xchacha20_poly1305_encrypt(key, &nonce_24(nonce_suffix), aad, payload) {
                    Some(tag) => Ok(tag),
                    None => Err(TransportCryptoError::XChaCha20Poly1305EncryptFailed),
                }
            },
        }
    }

    fn decrypt_in_place_detached(
        &self,
        nonce_suffix: RtpSizeNonceSuffix,
        aad: &[u8],
        payload: &mut Vec<u8>,
        tag: &[u8; 16],
    ) -> (result: Result<(), TransportCryptoError>)
        requires
            within_keystream(self.mode(), old(payload)@.len() as int),
        ensures
            match opened(
                self.mode(),
                self.key(),
                nonce_suffix@,
                aad@,
                old(payload)@,
                tag@,
            ) {
                Some(text) => {
                    result == Ok::<(), TransportCryptoError>(()) && final(payload)@ == text
                },
                None => {
                    result == Err::<(), TransportCryptoError>(open_failure(self.mode()))
                        && final(payload)@ == old(payload)@
                },
            },
    {
        let key = self.config.secret_key.expose();
        let opened = match self.config.mode {
            EncryptionMode::AeadAes256GcmRtpSize => {
                aes256_gcm_decrypt(key, &nonce_12(nonce_suffix), aad, payload, tag)
            },
            EncryptionMode::AeadXChaCha20Poly1305RtpSize => {
                xchacha20_poly1305_decrypt(key, &nonce_24(nonce_suffix), aad, payload, tag)
            },
        };
        if opened {
            return Ok(());
        }
        match self.config.mode {
            EncryptionMode::AeadAes256GcmRtpSize => Err(TransportCryptoError::AesGcmDecryptFailed),
            EncryptionMode::AeadXChaCha20Poly1305RtpSize => {
                Err(TransportCryptoError::XChaCha20Poly1305DecryptFailed)
            },
        }
    }

    /// The payload of a packet, or why it has none.
    pub open spec fn payload_of(self, packet: Seq<u8>, rtp: RtpHeader) -> Result<Seq<u8>, Error> {
        if packet.len() < rtp.encrypted_body_offset + 20 {
            Err(
                Error::TransportCrypto(
                    TransportCryptoError::MissingRtpSizeNonce {
                        packet_len: packet.len() as usize,
                        min_len: (rtp.encrypted_body_offset + 20) as usize,
                    },
                ),
            )
        } else {
            match opened_packet(self.mode(), self.key(), packet, rtp) {
                None => Err(Error::TransportCrypto(open_failure(self.mode()))),
                Some(body) => {
                    let (payload, verdict) = stripped(
                        body,
                        rtp.header_len - rtp.encrypted_body_offset,
                        rtp.padding,
                    );
                    match verdict {
                        Ok(()) => Ok(payload),
                        Err(error) => Err(Error::Rtp(error)),
                    }
                },
            }
        }
    }

    /// The payload of a packet.
    pub fn open_payload(&self, packet: &[u8], rtp: &RtpHeader) -> (payload: Result<Vec<u8>, Error>)
        requires
            rtp.encrypted_body_offset <= rtp.header_len,
            rtp.encrypted_body_offset + 20 <= usize::MAX,
            within_keystream(self.mode(), packet@.len() - rtp.encrypted_body_offset - 20),
        ensures
            match self.payload_of(packet@, *rtp) {
                Ok(wanted) => payload matches Ok(got) && got@ == wanted,
                Err(error) => payload == Err::<Vec<u8>, Error>(error),
            },
    {
        let mut payload: Vec<u8> = Vec::new();
        match self.decrypt_payload_into(packet, rtp, &mut payload) {
            Ok(()) => Ok(payload),
            Err(error) => Err(error),
        }
    }

    /// Opens a packet and leaves its payload in `output`: without an extension that was
    /// encrypted with it, and without padding.
    pub fn decrypt_payload_into(
        &self,
        packet: &[u8],
        rtp: &RtpHeader,
        output: &mut Vec<u8>,
    ) -> (result: Result<(), Error>)
        requires
            rtp.encrypted_body_offset <= rtp.header_len,
            rtp.encrypted_body_offset + 20 <= usize::MAX,
            within_keystream(self.mode(), packet@.len() - rtp.encrypted_body_offset - 20),
        ensures
            if packet@.len() < rtp.encrypted_body_offset + 20 {
                result == Err::<(), Error>(
                    Error::TransportCrypto(
                        TransportCryptoError::MissingRtpSizeNonce {
                            packet_len: packet@.len() as usize,
                            min_len: (rtp.encrypted_body_offset + 20) as usize,
                        },
                    ),
                ) && final(output)@ == old(output)@
            } else {
                match opened_packet(self.mode(), self.key(), packet@, *rtp) {
                    None => result == Err::<(), Error>(
                        Error::TransportCrypto(open_failure(self.mode())),
                    ) && final(output)@ == packet@.subrange(
                        rtp.encrypted_body_offset as int,
                        packet@.len() - 20,
                    ),
                    Some(body) => {
                        let (payload, verdict) = stripped(
                            body,
                            rtp.header_len - rtp.encrypted_body_offset,
                            rtp.padding,
                        );
                        &&& final(output)@ == payload
                        &&& result == (match verdict {
                            Ok(()) => Ok::<(), Error>(()),
                            Err(error) => Err::<(), Error>(Error::Rtp(error)),
                        })
                    },
                }
            },
    {
        let packet_len = packet.len();
        let body_at: usize = rtp.encrypted_body_offset;
        if packet_len < body_at + AEAD_TAG_LEN + RTPSIZE_NONCE_LEN {
            return Err(
                Error::TransportCrypto(
                    TransportCryptoError::MissingRtpSizeNonce {
                        packet_len,
                        min_len: body_at + AEAD_TAG_LEN + RTPSIZE_NONCE_LEN,
                    },
                ),
            );
        }
        let nonce_at: usize = packet_len - RTPSIZE_NONCE_LEN;
        let tag_at: usize = nonce_at - AEAD_TAG_LEN;
        let nonce_suffix = RtpSizeNonceSuffix::from_be_bytes(
            [packet[nonce_at], packet[nonce_at + 1], packet[nonce_at + 2], packet[nonce_at + 3]],
        );
        let tag = tag_of(packet, tag_at);
        let aad = vstd::slice::slice_subrange(packet, 0, body_at);
        output.clear();
        push_range(output, packet, body_at, tag_at);
        assert(output@ =~= packet@.subrange(body_at as int, packet_len - 20));
        assert(aad@ =~= packet@.take(body_at as int));
        match self.decrypt_in_place_detached(nonce_suffix, aad, output, &tag) {
            Ok(()) => {},
            Err(error) => {
                return Err(Error::TransportCrypto(error));
            },
        }
        match strip_decrypted_rtp_payload(output, rtp.header_len - body_at, rtp) {
            Ok(()) => Ok(()),
            Err(error) => Err(Error::Rtp(error)),
        }
    }

    /// Makes a sealed packet of a frame; a text that the mode cannot take is refused.
    /// What is sealed is opened again as it was: the header is read off the packet, the
    /// packet opens to the frame under the same key, and nothing is stripped off it.
    pub fn encrypt_payload(
        &self,
        params: OutboundEncryptParams,
        frame: &[u8],
        packet: &mut Vec<u8>,
    ) -> (header: Result<RtpHeader, Error>)
        requires
            within_keystream(self.mode(), frame@.len() as int),
        ensures
            if too_long_to_seal(self.mode(), frame@.len() as int) {
                header == Err::<RtpHeader, Error>(Error::TransportCrypto(seal_failure(self.mode())))
            } else {
                &&& header == Ok::<RtpHeader, Error>(params.header.header(params.marker))
                &&& final(packet)@ == sealed_packet(self.mode(), self.key(), params, frame@)
                &&& final(packet)@.len() == frame@.len() + 32
                &&& opened_packet(
                    self.mode(),
                    self.key(),
                    final(packet)@,
                    params.header.header(params.marker),
                ) == Some(frame@)
                &&& RtpHeader::read(final(packet)@) == header_read(params)
                &&& stripped(frame@, 0, params.header.header(params.marker).padding) == (
                    frame@,
                    Ok::<(), RtpError>(()),
                )
                &&& params.header.payload_type@ <= 0x7f
            },
    {
        packet.clear();
        let rtp = RtpHeaderBuilder::new(params.header).marker(params.marker).write_to(packet);
        let ghost header = params.header.bytes(params.marker);
        assert(packet@ =~= header);
        let mut body = crate::bytes::to_vec(frame);
        let tag = match self.encrypt_in_place_detached(
            params.nonce_suffix,
            packet.as_slice(),
            &mut body,
        ) {
            Ok(tag) => tag,
            Err(error) => {
                return Err(Error::TransportCrypto(error));
            },
        };
        packet.extend_from_slice(body.as_slice());
        packet.extend_from_slice(tag.as_slice());
        packet.extend_from_slice(params.nonce_suffix.to_be_bytes().as_slice());
        proof {
            let suffix = be32_bytes(params.nonce_suffix@);
            let whole = header + body@ + tag@ + suffix;
            assert(packet@ =~= whole);
            assert(whole.take(12) =~= header);
            assert(whole.subrange(12, whole.len() - 20) =~= body@);
            assert(whole.subrange(whole.len() - 20, whole.len() - 4) =~= tag@);
            assert(whole.subrange(whole.len() - 4, whole.len() as int) =~= suffix);
            crate::bytes::lemma_be32_round_trip(params.nonce_suffix@);
            assert(packet_nonce(whole) == params.nonce_suffix@);
            lemma_sealed_packet_reads_back(self.mode(), self.key(), params, frame@);
        }
        Ok(rtp)
    }
}

fn tag_of(packet: &[u8], at: usize) -> (tag: [u8; 16])
    requires
        at + 16 <= packet@.len(),
    ensures
        tag@ == packet@.subrange(at as int, at + 16),
{
    let len = packet.len();
    let mut tag: [u8; 16] = [0; 16];
    let mut i: usize = 0;
    while i < 16
        invariant
            i <= 16,
            len == packet@.len(),
            at + 16 <= len,
            forall|j: int| 0 <= j < i ==> tag@[j] == packet@[at + j],
        decreases 16 - i,
    {
        tag[i] = packet[at + i];
        i = i + 1;
    }
    assert(tag@ =~= packet@.subrange(at as int, at + 16));
    tag
}

/// Takes off what is not payload: `skip` bytes in front, and the padding behind.
fn strip_decrypted_rtp_payload(payload: &mut Vec<u8>, skip: usize, rtp: &RtpHeader) -> (result:
    Result<(), RtpError>)
    ensures
        (final(payload)@, result) == stripped(old(payload)@, skip as int, rtp.padding),
{
    if skip > payload.len() {
        return Err(RtpError::TruncatedEncryptedExtension);
    }
    if skip > 0 {
        let rest = payload.split_off(skip);
        *payload = rest;
    }
    assert(payload@ =~= old(payload)@.skip(skip as int));
    if rtp.padding {
        let payload_len = payload.len();
        if payload_len == 0 {
            return Err(RtpError::EmptyPaddedPayload);
        }
        let padding: usize = payload[payload_len - 1] as usize;
        if padding == 0 || padding > payload_len {
            return Err(RtpError::InvalidPadding { padding, payload_len });
        }
        payload.truncate(payload_len - padding);
    }
    Ok(())
}

proof fn lemma_sealed_packet_reads_back(
    mode: EncryptionMode,
    key: Seq<u8>,
    params: OutboundEncryptParams,
    frame: Seq<u8>,
)
    requires
        params.header.payload_type@ <= 0x7f,
    ensures
        RtpHeader::read(sealed_packet(mode, key, params, frame)) == Ok::<RtpHeader, RtpError>(
            params.header.header(params.marker),
        ),
        stripped(frame, 0, false) == (frame, Ok::<(), RtpError>(())),
{
    let header = params.header.bytes(params.marker);
    let (body, tag) = sealed(mode, key, params.nonce_suffix@, header, frame);
    let rest = body + tag + be32_bytes(params.nonce_suffix@);
    assert(sealed_packet(mode, key, params, frame) =~= header + rest);
    super::header::law_headers_round_trip(params.header, params.marker, rest);
    assert(frame.skip(0) =~= frame);
}

} // verus!
