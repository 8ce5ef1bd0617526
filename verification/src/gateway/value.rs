//! Small values of the gateway's protocol.

use vstd::prelude::*;

verus! {

/// How a user speaks.
#[derive(Clone, Copy, Debug, PartialEq, Eq, Structural)]
pub struct SpeakingFlags {
    bits: u8,
}

impl View for SpeakingFlags {
    type V = u8;

    closed spec fn view(&self) -> u8 {
        self.bits
    }
}

impl SpeakingFlags {
    pub fn from_bits(bits: u8) -> (flags: Self)
        ensures
            flags@ == bits,
    {
        SpeakingFlags { bits }
    }

    pub fn none() -> (flags: Self)
        ensures
            flags@ == 0,
    {
        SpeakingFlags { bits: 0 }
    }

    /// Normal transmission of voice audio.
    pub fn microphone() -> (flags: Self)
        ensures
            flags@ == 1,
    {
        SpeakingFlags { bits: 1 }
    }

    /// Context audio for video without a speaking indicator.
    pub fn soundshare() -> (flags: Self)
        ensures
            flags@ == 2,
    {
        SpeakingFlags { bits: 2 }
    }

    /// Priority speaker audio.
    pub fn priority() -> (flags: Self)
        ensures
            flags@ == 4,
    {
        SpeakingFlags { bits: 4 }
    }

    pub fn bits(self) -> (bits: u8)
        ensures
            bits == self@,
    {
        self.bits
    }

    pub fn is_empty(self) -> (empty: bool)
        ensures
            empty == (self@ == 0),
    {
        self.bits == 0
    }

    /// Whether every flag of `other` is set.
    pub fn contains(self, other: Self) -> (answer: bool)
        ensures
            answer == (self@ & other@ == other@),
    {
        self.bits & other.bits == other.bits
    }
}

/// The flags that are set in either.
impl core::ops::BitOr for SpeakingFlags {
    type Output = SpeakingFlags;

    fn bitor(self, rhs: SpeakingFlags) -> (flags: SpeakingFlags)
        ensures
            flags@ == self@ | rhs@,
    {
        SpeakingFlags { bits: self.bits | rhs.bits }
    }
}

impl vstd::std_specs::ops::BitOrSpecImpl for SpeakingFlags {
    open spec fn obeys_bitor_spec() -> bool {
        true
    }

    open spec fn bitor_req(self, rhs: SpeakingFlags) -> bool {
        true
    }

    closed spec fn bitor_spec(self, rhs: SpeakingFlags) -> SpeakingFlags {
        SpeakingFlags { bits: self.bits | rhs.bits }
    }
}

impl core::ops::BitOrAssign for SpeakingFlags {
    fn bitor_assign(&mut self, rhs: SpeakingFlags)
        ensures
            final(self)@ == old(self)@ | rhs@,
    {
        self.bits = self.bits | rhs.bits;
    }
}

/// The flags that are set in both.
impl core::ops::BitAnd for SpeakingFlags {
    type Output = SpeakingFlags;

    fn bitand(self, rhs: SpeakingFlags) -> (flags: SpeakingFlags)
        ensures
            flags@ == self@ & rhs@,
    {
        SpeakingFlags { bits: self.bits & rhs.bits }
    }
}

impl vstd::std_specs::ops::BitAndSpecImpl for SpeakingFlags {
    open spec fn obeys_bitand_spec() -> bool {
        true
    }

    open spec fn bitand_req(self, rhs: SpeakingFlags) -> bool {
        true
    }

    closed spec fn bitand_spec(self, rhs: SpeakingFlags) -> SpeakingFlags {
        SpeakingFlags { bits: self.bits & rhs.bits }
    }
}

impl core::ops::BitAndAssign for SpeakingFlags {
    fn bitand_assign(&mut self, rhs: SpeakingFlags)
        ensures
            final(self)@ == old(self)@ & rhs@,
    {
        self.bits = self.bits & rhs.bits;
    }
}

/// No flag.
impl Default for SpeakingFlags {
    fn default() -> (flags: Self)
        ensures
            flags@ == 0,
    {
        Self::none()
    }
}

/// The flags of a union contain those of both; what both contain, the intersection
/// contains.
pub proof fn law_flags_are_sets(a: u8, b: u8, c: u8)
    ensures
        (a | b) & a == a,
        (a | b) & b == b,
        a & c == c && b & c == c ==> (a & b) & c == c,
{
    assert((a | b) & a == a && (a | b) & b == b && (a & c == c && b & c == c ==> (a & b) & c == c))
        by (bit_vector);
}

/// A snowflake.
#[derive(Clone, Copy, Debug, PartialEq, Eq, Structural)]
pub struct DiscordId {
    id: u64,
}

impl View for DiscordId {
    type V = u64;

    closed spec fn view(&self) -> u64 {
        self.id
    }
}

impl DiscordId {
    pub fn new(id: u64) -> (snowflake: Self)
        ensures
            snowflake@ == id,
    {
        DiscordId { id }
    }

    pub fn get(&self) -> (id: u64)
        ensures
            id == self@,
    {
        self.id
    }
}

/// That a user started or stopped speaking.
#[derive(Clone, Copy, Debug, PartialEq, Eq, Structural)]
pub struct SpeakingUpdate {
    pub speaking: u64,
    pub ssrc: u32,
    pub user_id: Option<DiscordId>,
}

} // verus!
