//! The shape of one vectorised pass: the length check, the full lane groups
//! and the scalar tail that follows them.

use vstd::prelude::*;

verus! {

/// Number of single-precision lanes in one 256-bit vector register.
pub const LANES: usize = 8;

/// Why a dot product was refused before any element was read.
#[derive(Clone, Copy, Debug, PartialEq, Eq, Structural)]
pub enum DotError {
    /// The two inputs hold a different number of elements.
    LengthMismatch { left: usize, right: usize },
}

/// How `len` elements are walked: `groups` full lane groups starting at
/// offsets `0, LANES, 2 * LANES, ...`, then the elements from `tail_start`
/// to `len`, fewer than `LANES` of them, one at a time.
#[derive(Clone, Copy, Debug, PartialEq, Eq, Structural)]
pub struct LanePlan {
    pub len: usize,
    pub groups: usize,
    pub tail_start: usize,
}

impl LanePlan {
    /// The groups are all the full groups that fit, and the tail begins
    /// right after the last of them.
    pub open spec fn wf(&self) -> bool {
        &&& self.groups == self.len / LANES
        &&& self.tail_start == self.groups * LANES
    }

    /// Offset of the first element of group `g`; the whole group lies
    /// inside the input.
    pub fn group_start(&self, g: usize) -> (r: usize)
        requires
            self.wf(),
            g < self.groups,
        ensures
            r == g * LANES,
            r + LANES <= self.tail_start,
            self.tail_start <= self.len,
    {
        g * LANES
    }

    /// Number of elements left for the scalar tail.
    pub fn tail_len(&self) -> (r: usize)
        requires
            self.wf(),
        ensures
            r == self.len - self.tail_start,
            r == self.len % LANES,
            r < LANES,
    {
        self.len - self.tail_start
    }
}

/// Each index below `len` is read exactly once: an index before the tail
/// sits in exactly one lane of exactly one group, and the tail holds the
/// rest.
pub proof fn lemma_each_index_once(p: LanePlan, i: int)
    requires
        p.wf(),
        0 <= i < p.len,
    ensures
        i < p.tail_start <==> (i / LANES as int) < p.groups,
        i < p.tail_start ==> i == (i / LANES as int) * LANES + i % (LANES as int),
        forall|g: int, lane: int|
            0 <= g < p.groups && 0 <= lane < LANES && #[trigger] (g * LANES + lane) == i
                ==> g == i / LANES as int && lane == i % (LANES as int),
        p.tail_start <= p.len,
{
}

/// Plans a dot product of an input of `len_a` elements with one of `len_b`
/// elements. Inputs of different lengths are refused; any common length,
/// zero and those that are not a multiple of `LANES` included, is accepted.
pub fn plan_dot(len_a: usize, len_b: usize) -> (r: Result<LanePlan, DotError>)
    ensures
        r is Ok <==> len_a == len_b,
        r matches Ok(p) ==> p.wf() && p.len == len_a,
        r matches Err(e) ==> e == (DotError::LengthMismatch { left: len_a, right: len_b }),
{
    if len_a != len_b {
        return Err(DotError::LengthMismatch { left: len_a, right: len_b });
    }
    let groups: usize = len_a / LANES;
    Ok(LanePlan { len: len_a, groups, tail_start: groups * LANES })
}

} // verus!
