//! Secrets: kept out of what is shown, and wiped when they are done with.

use vstd::prelude::*;
use zeroize::Zeroize;

verus! {

/// `Zeroize::zeroize` on a `String`: overwrites the text with zeros and leaves it empty. It
/// does not unwind.
#[verifier::external_body]
pub(crate) fn wipe_text(text: &mut String)
    ensures
        final(text)@.len() == 0,
    opens_invariants none
    no_unwind
{
    text.zeroize();
}

/// `Zeroize::zeroize` on a `Vec<u8>`: overwrites the bytes with zeros and leaves it empty. It
/// does not unwind.
#[verifier::external_body]
fn wipe_bytes(bytes: &mut Vec<u8>)
    ensures
        final(bytes)@.len() == 0,
    opens_invariants none
    no_unwind
{
    bytes.zeroize();
}

/// `Zeroize::zeroize` on a key of 32 bytes: sets every byte to zero. It does not
/// unwind.
#[verifier::external_body]
fn wipe_key(key: &mut [u8; 32])
    ensures
        forall|i: int| 0 <= i < 32 ==> final(key)@[i] == 0,
    opens_invariants none
    no_unwind
{
    key.zeroize();
}

/// The id of a voice session, which is never shown.
#[derive(PartialEq, Eq)]
pub struct SessionId {
    text: String,
}

/// The token of a voice session, which is never shown.
#[derive(PartialEq, Eq)]
pub struct Token {
    text: String,
}

/// Bytes that are never shown.
#[derive(PartialEq, Eq)]
pub struct SecretKey {
    bytes: Vec<u8>,
}

/// A transport key: 32 bytes that are never shown.
#[derive(PartialEq, Eq)]
pub struct TransportSecretKey {
    bytes: [u8; 32],
}

impl View for SessionId {
    type V = Seq<char>;

    closed spec fn view(&self) -> Seq<char> {
        self.text@
    }
}

impl View for Token {
    type V = Seq<char>;

    closed spec fn view(&self) -> Seq<char> {
        self.text@
    }
}

impl View for SecretKey {
    type V = Seq<u8>;

    closed spec fn view(&self) -> Seq<u8> {
        self.bytes@
    }
}

impl View for TransportSecretKey {
    type V = Seq<u8>;

    closed spec fn view(&self) -> Seq<u8> {
        self.bytes@
    }
}

impl Clone for SessionId {
    fn clone(&self) -> (copy: Self)
        ensures
            copy == *self,
    {
        SessionId { text: self.text.clone() }
    }
}

impl Clone for Token {
    fn clone(&self) -> (copy: Self)
        ensures
            copy == *self,
    {
        Token { text: self.text.clone() }
    }
}

impl Clone for SecretKey {
    fn clone(&self) -> (copy: Self)
        ensures
            copy@ == self@,
    {
        SecretKey { bytes: crate::bytes::copy_vec(&self.bytes) }
    }
}

impl Clone for TransportSecretKey {
    fn clone(&self) -> (copy: Self)
        ensures
            copy == *self,
    {
        TransportSecretKey { bytes: self.bytes }
    }
}

impl SessionId {
    pub fn new(text: String) -> (secret: Self)
        ensures
            secret@ == text@,
    {
        SessionId { text }
    }

    pub fn as_str(&self) -> (text: &str)
        ensures
            text@ == self@,
    {
        self.text.as_str()
    }

    /// Wipes the secret.
    pub fn erase(&mut self)
        ensures
            final(self)@.len() == 0,
        opens_invariants none
        no_unwind
    {
        wipe_text(&mut self.text);
    }
}

impl Token {
    pub fn new(text: String) -> (secret: Self)
        ensures
            secret@ == text@,
    {
        Token { text }
    }

    pub fn as_str(&self) -> (text: &str)
        ensures
            text@ == self@,
    {
        self.text.as_str()
    }

    /// Wipes the secret.
    pub fn erase(&mut self)
        ensures
            final(self)@.len() == 0,
        opens_invariants none
        no_unwind
    {
        wipe_text(&mut self.text);
    }
}

impl SecretKey {
    pub fn new(bytes: Vec<u8>) -> (secret: Self)
        ensures
            secret@ == bytes@,
    {
        SecretKey { bytes }
    }

    pub fn as_slice(&self) -> (bytes: &[u8])
        ensures
            bytes@ == self@,
    {
        self.bytes.as_slice()
    }

    /// Wipes the secret.
    pub fn erase(&mut self)
        ensures
            final(self)@.len() == 0,
        opens_invariants none
        no_unwind
    {
        wipe_bytes(&mut self.bytes);
    }
}

impl TransportSecretKey {
    pub fn new(bytes: [u8; 32]) -> (secret: Self)
        ensures
            secret@ == bytes@,
    {
        TransportSecretKey { bytes }
    }

    pub fn expose(&self) -> (bytes: &[u8; 32])
        ensures
            bytes@ == self@,
    {
        &self.bytes
    }

    /// Wipes the key.
    pub fn erase(&mut self)
        ensures
            forall|i: int| 0 <= i < 32 ==> final(self)@[i] == 0,
        opens_invariants none
        no_unwind
    {
        wipe_key(&mut self.bytes);
    }
}

/// What is dropped is wiped.
impl Drop for SessionId {
    fn drop(&mut self)
        opens_invariants none
        no_unwind
    {
        self.erase();
    }
}

/// What is dropped is wiped.
impl Drop for Token {
    fn drop(&mut self)
        opens_invariants none
        no_unwind
    {
        self.erase();
    }
}

/// What is dropped is wiped.
impl Drop for SecretKey {
    fn drop(&mut self)
        opens_invariants none
        no_unwind
    {
        self.erase();
    }
}

/// What is dropped is wiped.
impl Drop for TransportSecretKey {
    fn drop(&mut self)
        opens_invariants none
        no_unwind
    {
        self.erase();
    }
}

} // verus!
