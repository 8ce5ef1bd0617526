//! Transport encryption modes, known ones and offered ones.

use crate::text::{copy_text, same_text};
use vstd::prelude::*;

verus! {

/// The transport encryption modes that this library speaks, the preferred one first.
#[derive(Clone, Copy, Debug, PartialEq, Eq, Structural)]
pub enum EncryptionMode {
    AeadAes256GcmRtpSize,
    AeadXChaCha20Poly1305RtpSize,
}

/// An encryption mode as a server names it, known here or not.
#[derive(Debug, PartialEq, Eq)]
pub struct OfferedEncryptionMode {
    name: String,
}

impl EncryptionMode {
    pub open spec fn name(self) -> Seq<char> {
        match self {
            EncryptionMode::AeadAes256GcmRtpSize => "aead_aes256_gcm_rtpsize"@,
            EncryptionMode::AeadXChaCha20Poly1305RtpSize => "aead_xchacha20_poly1305_rtpsize"@,
        }
    }

    /// The mode of that name, if this library speaks it.
    pub open spec fn named(name: Seq<char>) -> Option<EncryptionMode> {
        if name == "aead_aes256_gcm_rtpsize"@ {
            Some(EncryptionMode::AeadAes256GcmRtpSize)
        } else if name == "aead_xchacha20_poly1305_rtpsize"@ {
            Some(EncryptionMode::AeadXChaCha20Poly1305RtpSize)
        } else {
            None
        }
    }

    /// Every mode, the preferred one first.
    pub fn all() -> (modes: [EncryptionMode; 2])
        ensures
            modes@ == seq![
                EncryptionMode::AeadAes256GcmRtpSize,
                EncryptionMode::AeadXChaCha20Poly1305RtpSize,
            ],
    {
        [EncryptionMode::AeadAes256GcmRtpSize, EncryptionMode::AeadXChaCha20Poly1305RtpSize]
    }

    pub fn aead_aes256_gcm_rtpsize() -> (mode: Self)
        ensures
            mode == EncryptionMode::AeadAes256GcmRtpSize,
    {
        EncryptionMode::AeadAes256GcmRtpSize
    }

    pub fn aead_xchacha20_poly1305_rtpsize() -> (mode: Self)
        ensures
            mode == EncryptionMode::AeadXChaCha20Poly1305RtpSize,
    {
        EncryptionMode::AeadXChaCha20Poly1305RtpSize
    }

    pub fn as_str(self) -> (text: &'static str)
        ensures
            text@ == self.name(),
    {
        match self {
            EncryptionMode::AeadAes256GcmRtpSize => "aead_aes256_gcm_rtpsize",
            EncryptionMode::AeadXChaCha20Poly1305RtpSize => "aead_xchacha20_poly1305_rtpsize",
        }
    }
}

impl View for OfferedEncryptionMode {
    type V = Seq<char>;

    closed spec fn view(&self) -> Seq<char> {
        self.name@
    }
}

impl Clone for OfferedEncryptionMode {
    fn clone(&self) -> (copy: Self)
        ensures
            copy == *self,
    {
        OfferedEncryptionMode { name: self.name.clone() }
    }
}

impl OfferedEncryptionMode {
    pub fn new(name: &str) -> (mode: Self)
        ensures
            mode@ == name@,
    {
        OfferedEncryptionMode { name: copy_text(name) }
    }

    /// The offer of a mode that this library speaks.
    pub fn of(mode: EncryptionMode) -> (offered: Self)
        ensures
            offered@ == mode.name(),
    {
        OfferedEncryptionMode { name: copy_text(mode.as_str()) }
    }

    pub fn as_str(&self) -> (name: &str)
        ensures
            name@ == self@,
    {
        self.name.as_str()
    }

    /// The mode, if this library speaks it.
    pub fn supported(&self) -> (mode: Option<EncryptionMode>)
        ensures
            mode == EncryptionMode::named(self@),
    {
        if same_text(self.name.as_str(), "aead_aes256_gcm_rtpsize") {
            Some(EncryptionMode::AeadAes256GcmRtpSize)
        } else if same_text(self.name.as_str(), "aead_xchacha20_poly1305_rtpsize") {
            Some(EncryptionMode::AeadXChaCha20Poly1305RtpSize)
        } else {
            None
        }
    }
}

/// The name of a mode finds the mode.
pub proof fn law_mode_names_are_distinct(mode: EncryptionMode)
    ensures
        EncryptionMode::named(mode.name()) == Some(mode),
{
    reveal_strlit("aead_aes256_gcm_rtpsize");
    reveal_strlit("aead_xchacha20_poly1305_rtpsize");
    assert("aead_aes256_gcm_rtpsize"@.len() != "aead_xchacha20_poly1305_rtpsize"@.len());
}

} // verus!
