//! Numbers that are not zero.

use vstd::prelude::*;

verus! {

/// A number of 32 bits that is not zero.
#[derive(Clone, Copy, Debug, PartialEq, Eq, Structural)]
pub struct NonZeroU32 {
    value: u32,
}

impl View for NonZeroU32 {
    type V = u32;

    closed spec fn view(&self) -> u32 {
        self.value
    }
}

impl NonZeroU32 {
    #[verifier::type_invariant]
    spec fn not_zero(self) -> bool {
        self.value != 0
    }

    pub fn new(value: u32) -> (number: Option<Self>)
        ensures
            match number {
                Some(number) => value != 0 && number@ == value,
                None => value == 0,
            },
    {
        if value == 0 {
            None
        } else {
            Some(NonZeroU32 { value })
        }
    }

    /// One.
    pub fn one() -> (number: Self)
        ensures
            number@ == 1,
    {
        NonZeroU32 { value: 1 }
    }

    pub fn get(self) -> (value: u32)
        ensures
            value == self@,
            value != 0,
    {
        proof {
            use_type_invariant(&self);
        }
        self.value
    }
}

/// A length or a count that is not zero.
#[derive(Clone, Copy, Debug, PartialEq, Eq, Structural)]
pub struct NonZeroUsize {
    value: usize,
}

impl View for NonZeroUsize {
    type V = usize;

    closed spec fn view(&self) -> usize {
        self.value
    }
}

impl NonZeroUsize {
    #[verifier::type_invariant]
    spec fn not_zero(self) -> bool {
        self.value != 0
    }

    pub fn new(value: usize) -> (number: Option<Self>)
        ensures
            match number {
                Some(number) => value != 0 && number@ == value,
                None => value == 0,
            },
    {
        if value == 0 {
            None
        } else {
            Some(NonZeroUsize { value })
        }
    }

    /// One.
    pub fn one() -> (number: Self)
        ensures
            number@ == 1,
    {
        NonZeroUsize { value: 1 }
    }

    pub fn get(self) -> (value: usize)
        ensures
            value == self@,
            value != 0,
    {
        proof {
            use_type_invariant(&self);
        }
        self.value
    }
}

/// Numbers that read the same are the same.
pub proof fn law_numbers_are_their_values(a: NonZeroU32, b: NonZeroU32, c: NonZeroUsize, d: NonZeroUsize)
    ensures
        a@ == b@ ==> a == b,
        c@ == d@ ==> c == d,
{
}

} // verus!
