//! Unsigned LEB128 numbers: seven bits to a byte, least significant first, the top
//! bit of a byte saying that another one follows.

use vstd::prelude::*;

verus! {

/// The longest encoding of a 64-bit number.
pub const MAX_ULEB128_BYTES: usize = 10;

/// The number that starts at `at`, and its length, in as many bytes as `budget` allows.
pub open spec fn uleb128_at(bytes: Seq<u8>, at: int, budget: nat) -> Option<(nat, nat)>
    decreases budget,
{
    if budget == 0 || at < 0 || at >= bytes.len() {
        None
    } else if bytes[at] < 128 {
        Some((bytes[at] as nat, 1))
    } else {
        match uleb128_at(bytes, at + 1, (budget - 1) as nat) {
            Some((rest, len)) => Some(((bytes[at] - 128) as nat + 128 * rest, len + 1)),
            None => None,
        }
    }
}

/// The number at the start of `bytes` and the length of its encoding, if there is
/// one that ends and that fits in 64 bits.
pub open spec fn uleb128(bytes: Seq<u8>) -> Option<(nat, nat)> {
    match uleb128_at(bytes, 0, 10) {
        Some((value, len)) => if value <= u64::MAX {
            Some((value, len))
        } else {
            None
        },
        None => None,
    }
}

/// A number that was read, and how many bytes it took.
#[derive(Clone, Copy, Debug, PartialEq, Eq, Structural)]
pub struct DecodedUleb128 {
    pub value: u64,
    pub encoded_len: usize,
}

/// An encoding lies within its bytes and takes at most as many as it may.
pub proof fn lemma_uleb128_len(bytes: Seq<u8>, at: int, budget: nat)
    ensures
        uleb128_at(bytes, at, budget) matches Some((value, len)) ==> 1 <= len <= budget && at + len
            <= bytes.len(),
    decreases budget,
{
    if budget > 0 && 0 <= at < bytes.len() && bytes[at] >= 128 {
        lemma_uleb128_len(bytes, at + 1, (budget - 1) as nat);
    }
}

fn read_at(bytes: &[u8], at: usize, budget: usize) -> (decoded: Option<DecodedUleb128>)
    requires
        at <= bytes@.len(),
        budget <= 10,
    ensures
        match uleb128_at(bytes@, at as int, budget as nat) {
            Some((value, len)) => if value <= u64::MAX {
                decoded == Some(DecodedUleb128 { value: value as u64, encoded_len: len as usize })
            } else {
                decoded is None
            },
            None => decoded is None,
        },
    decreases budget,
{
    if budget == 0 || at >= bytes.len() {
        return None;
    }
    let byte = bytes[at];
    if byte < 128 {
        return Some(DecodedUleb128 { value: byte as u64, encoded_len: 1 });
    }
    proof {
        lemma_uleb128_len(bytes@, at + 1, (budget - 1) as nat);
    }
    match read_at(bytes, at + 1, budget - 1) {
        Some(rest) => {
            let low: u64 = (byte - 128) as u64;
            match rest.value.checked_mul(128) {
                Some(high) => match high.checked_add(low) {
                    Some(value) => Some(
                        DecodedUleb128 { value, encoded_len: rest.encoded_len + 1 },
                    ),
                    None => None,
                },
                None => None,
            }
        },
        None => None,
    }
}

impl DecodedUleb128 {
    /// Reads the number at the start of `bytes`. There is none where the bytes run
    /// out before it ends, or where it does not fit in 64 bits.
    pub fn read(bytes: &[u8]) -> (decoded: Option<Self>)
        ensures
            decoded == (match uleb128(bytes@) {
                Some((value, len)) => Some(
                    DecodedUleb128 { value: value as u64, encoded_len: len as usize },
                ),
                None => None,
            }),
            decoded matches Some(number) ==> uleb128(bytes@) == Some(
                (number.value as nat, number.encoded_len as nat),
            ) && 1 <= number.encoded_len <= bytes@.len(),
    {
        proof {
            lemma_uleb128_len(bytes@, 0, 10);
        }
        read_at(bytes, 0, MAX_ULEB128_BYTES)
    }
}

/// A number as it is written: seven bits to a byte, the low ones first, and the top bit set
/// in every byte but the last.
pub open spec fn uleb128_bytes(value: nat) -> Seq<u8>
    decreases value,
{
    if value < 128 {
        seq![value as u8]
    } else {
        seq![(128 + value % 128) as u8] + uleb128_bytes(value / 128)
    }
}

/// How many numbers so many bytes can hold.
pub open spec fn uleb128_reach(bytes: nat) -> nat
    decreases bytes,
{
    if bytes == 0 {
        1
    } else {
        128 * uleb128_reach((bytes - 1) as nat)
    }
}

proof fn lemma_written_number(before: Seq<u8>, value: nat, rest: Seq<u8>, budget: nat)
    requires
        value < uleb128_reach(budget),
        budget > 0,
    ensures
        uleb128_at(before + uleb128_bytes(value) + rest, before.len() as int, budget) == Some(
            (value, uleb128_bytes(value).len()),
        ),
    decreases budget,
{
    let bytes = before + uleb128_bytes(value) + rest;
    let first = bytes[before.len() as int];
    assert(first == uleb128_bytes(value)[0]);
    if value >= 128 {
        assert(uleb128_reach(1) == 128) by {
            reveal_with_fuel(uleb128_reach, 2);
        }
        assert(budget > 1);
        lemma_written_number(before.push(first), value / 128, rest, (budget - 1) as nat);
        assert(bytes =~= before.push(first) + uleb128_bytes(value / 128) + rest);
    }
}

/// A number of up to 64 bits that was written is read back, whatever comes behind it, and
/// its length is found.
pub proof fn law_uleb128_is_read_back(value: nat, rest: Seq<u8>)
    requires
        value <= u64::MAX,
    ensures
        uleb128(uleb128_bytes(value) + rest) == Some((value, uleb128_bytes(value).len())),
{
    reveal_with_fuel(uleb128_reach, 11);
    lemma_written_number(Seq::<u8>::empty(), value, rest, 10);
    assert(Seq::<u8>::empty() + uleb128_bytes(value) + rest =~= uleb128_bytes(value) + rest);
}

/// Bytes that all say that another one follows are no number, and neither is one that does
/// not end in ten bytes.
pub proof fn law_unended_numbers_are_refused(bytes: Seq<u8>)
    requires
        forall|i: int| 0 <= i < bytes.len() && i < 10 ==> #[trigger] bytes[i] >= 128,
    ensures
        uleb128(bytes) is None,
{
    lemma_unended(bytes, 0, 10);
}

proof fn lemma_unended(bytes: Seq<u8>, at: int, budget: nat)
    requires
        0 <= at,
        forall|i: int| at <= i < bytes.len() && i < at + budget ==> #[trigger] bytes[i] >= 128,
    ensures
        uleb128_at(bytes, at, budget) is None,
    decreases budget,
{
    if budget > 0 {
        lemma_unended(bytes, at + 1, (budget - 1) as nat);
    }
}

} // verus!
