//! Annex B byte streams: NAL units, each behind a start code of two or three zero
//! bytes and a one.

use vstd::prelude::*;

verus! {

/// Whether a start code's `0 0 1` stands at `at`, with something behind it.
pub open spec fn start_code_at(bytes: Seq<u8>, at: int) -> bool {
    0 <= at && at + 3 < bytes.len() && bytes[at] == 0 && bytes[at + 1] == 0 && bytes[at + 2] == 1
}

/// The first start code at `from` or later.
pub open spec fn next_start_code(bytes: Seq<u8>, from: int) -> Option<int>
    decreases bytes.len() - from,
{
    if from < 0 || from + 3 >= bytes.len() {
        None
    } else if start_code_at(bytes, from) {
        Some(from)
    } else {
        next_start_code(bytes, from + 1)
    }
}

/// Where the unit that starts at `start` ends: at the next start code, whose own
/// leading zero byte, if it has a third one, is not part of the unit.
pub open spec fn nalu_end(bytes: Seq<u8>, start: int) -> int {
    match next_start_code(bytes, start) {
        Some(code) => if code > start && bytes[code - 1] == 0 {
            code - 1
        } else {
            code
        },
        None => bytes.len() as int,
    }
}

/// The units behind the start codes at `from` or later.
pub open spec fn nalus_from(bytes: Seq<u8>, from: int) -> Seq<Seq<u8>>
    decreases bytes.len() - from,
    when 0 <= from
    via nalus_from_decreases
{
    match next_start_code(bytes, from) {
        Some(code) => seq![bytes.subrange(code + 3, nalu_end(bytes, code + 3))] + nalus_from(
            bytes,
            nalu_end(bytes, code + 3),
        ),
        None => seq![],
    }
}

#[via_fn]
proof fn nalus_from_decreases(bytes: Seq<u8>, from: int) {
    lemma_next_start_code(bytes, from);
    if let Some(code) = next_start_code(bytes, from) {
        lemma_nalu_end(bytes, code + 3);
    }
}

/// The units of a byte stream, in order.
pub open spec fn nalus(bytes: Seq<u8>) -> Seq<Seq<u8>> {
    nalus_from(bytes, 0)
}

/// A search finds a start code, and the first one.
pub proof fn lemma_next_start_code(bytes: Seq<u8>, from: int)
    requires
        0 <= from,
    ensures
        next_start_code(bytes, from) matches Some(code) ==> from <= code && start_code_at(
            bytes,
            code,
        ) && (forall|at: int| from <= at < code ==> !#[trigger] start_code_at(bytes, at)),
        next_start_code(bytes, from) is None ==> (forall|at: int|
            from <= at ==> !#[trigger] start_code_at(bytes, at)),
    decreases bytes.len() - from,
{
    if from + 3 < bytes.len() && !start_code_at(bytes, from) {
        lemma_next_start_code(bytes, from + 1);
    }
}

/// A search that starts later, but not behind the start code that it will find,
/// finds the same one.
pub proof fn lemma_next_start_code_is(bytes: Seq<u8>, from: int, code: int)
    requires
        0 <= from <= code,
        start_code_at(bytes, code),
        forall|at: int| from <= at < code ==> !#[trigger] start_code_at(bytes, at),
    ensures
        next_start_code(bytes, from) == Some(code),
    decreases code - from,
{
    if from < code {
        assert(!start_code_at(bytes, from));
        lemma_next_start_code_is(bytes, from + 1, code);
    }
}

pub proof fn lemma_no_start_code(bytes: Seq<u8>, from: int)
    requires
        0 <= from,
        forall|at: int| from <= at ==> !#[trigger] start_code_at(bytes, at),
    ensures
        next_start_code(bytes, from) is None,
    decreases bytes.len() - from,
{
    if from + 3 < bytes.len() {
        assert(!start_code_at(bytes, from));
        lemma_no_start_code(bytes, from + 1);
    }
}

/// A unit ends behind its start and within the bytes.
pub proof fn lemma_nalu_end(bytes: Seq<u8>, start: int)
    requires
        0 <= start <= bytes.len(),
    ensures
        start <= nalu_end(bytes, start) <= bytes.len(),
        next_start_code(bytes, nalu_end(bytes, start)) == next_start_code(bytes, start),
{
    lemma_next_start_code(bytes, start);
    match next_start_code(bytes, start) {
        Some(code) => {
            lemma_next_start_code_is(bytes, nalu_end(bytes, start), code);
        },
        None => {
            lemma_no_start_code(bytes, bytes.len() as int);
        },
    }
}

/// An encoded frame as an Annex B byte stream, read unit by unit.
#[derive(Clone, Copy, Debug, PartialEq, Eq)]
pub struct AnnexBNalus<'a> {
    bytes: &'a [u8],
    /// Where the next start code is, if there is one.
    code: Option<usize>,
}

fn find_start_code(bytes: &[u8], from: usize) -> (code: Option<usize>)
    requires
        from <= bytes@.len(),
    ensures
        match code {
            Some(at) => next_start_code(bytes@, from as int) == Some(at as int),
            None => next_start_code(bytes@, from as int) is None,
        },
{
    let len = bytes.len();
    let mut at: usize = from;
    while at < len && len - at > 3
        invariant
            len == bytes@.len(),
            from <= at <= len,
            next_start_code(bytes@, from as int) == next_start_code(bytes@, at as int),
        decreases len - at,
    {
        if bytes[at] == 0 && bytes[at + 1] == 0 && bytes[at + 2] == 1 {
            return Some(at);
        }
        at = at + 1;
    }
    None
}

impl<'a> AnnexBNalus<'a> {
    /// The units that are still to come.
    pub closed spec fn remaining(self) -> Seq<Seq<u8>> {
        match self.code {
            Some(code) => nalus_from(self.bytes@, code as int),
            None => seq![],
        }
    }

    #[verifier::type_invariant]
    spec fn at_start_code(self) -> bool {
        self.code matches Some(code) ==> start_code_at(self.bytes@, code as int)
    }

    pub fn new(bytes: &'a [u8]) -> (units: Self)
        ensures
            units.remaining() == nalus(bytes@),
    {
        let code = find_start_code(bytes, 0);
        proof {
            lemma_next_start_code(bytes@, 0);
            if let Some(code) = code {
                assert(nalus_from(bytes@, 0) == nalus_from(bytes@, code as int));
            }
        }
        AnnexBNalus { bytes, code }
    }

    pub fn is_empty(&self) -> (empty: bool)
        ensures
            empty == (self.remaining().len() == 0),
    {
        proof {
            use_type_invariant(self);
        }
        self.code.is_none()
    }

    /// The next unit, taken off.
    pub fn next(&mut self) -> (unit: Option<&'a [u8]>)
        ensures
            match unit {
                Some(nalu) => old(self).remaining().len() > 0 && nalu@ == old(self).remaining()[0]
                    && final(self).remaining() == old(self).remaining().drop_first(),
                None => old(self).remaining().len() == 0 && final(self).remaining() == old(
                    self,
                ).remaining(),
            },
    {
        proof {
            use_type_invariant(&*self);
        }
        let bytes = self.bytes;
        let len = bytes.len();
        match self.code {
            None => None,
            Some(code) => {
                let start: usize = code + 3;
                let next = find_start_code(bytes, start);
                let end: usize = match next {
                    Some(next_code) => {
                        proof {
                            lemma_next_start_code(bytes@, start as int);
                        }
                        if next_code > start && bytes[next_code - 1] == 0 {
                            next_code - 1
                        } else {
                            next_code
                        }
                    },
                    None => len,
                };
                proof {
                    lemma_next_start_code(bytes@, start as int);
                    lemma_nalu_end(bytes@, start as int);
                    assert(end == nalu_end(bytes@, start as int));
                    lemma_next_start_code_is(bytes@, code as int, code as int);
                    if let Some(next_code) = next {
                        assert(nalus_from(bytes@, end as int) == nalus_from(
                            bytes@,
                            next_code as int,
                        )) by {
                            lemma_next_start_code_is(
                                bytes@,
                                next_code as int,
                                next_code as int,
                            );
                        }
                    }
                    assert(nalus_from(bytes@, code as int) == seq![
                        bytes@.subrange(start as int, end as int),
                    ] + nalus_from(bytes@, end as int));
                    assert(nalus_from(bytes@, code as int).drop_first() =~= nalus_from(
                        bytes@,
                        end as int,
                    ));
                }
                *self = AnnexBNalus { bytes, code: next };
                Some(vstd::slice::slice_subrange(bytes, start, end))
            },
        }
    }
}

} // verus!
