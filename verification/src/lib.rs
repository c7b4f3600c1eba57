//! Raw system-call primitives: decoding a kernel's raw return state into a
//! uniform success/error result, lowering 64-bit arguments onto machine-word
//! register lists, and the per-target register protocols that a trap layer
//! must follow.
//!
//! The trap instruction itself is inline assembly and lives outside this
//! library; everything here is the pure logic around it.

use vstd::prelude::*;

pub mod abi;
pub mod args64;

verus! {

/// The raw post-trap return state, in one of the two shapes a kernel ABI uses.
///
/// Kernels either pack an error code into the single return word (failure is
/// the word lying in the last 4095 values of the word range, holding the
/// negated errno), or report failure through a separate flag while the value
/// register carries the errno unencoded.
#[derive(Clone, Copy, Debug, PartialEq, Eq, Structural)]
pub enum RawResult {
    /// A single return word; the top of its range encodes a negated errno.
    Packed(usize),
    /// A return word plus an explicit error indicator.
    Flag(usize, bool),
}

/// What decoding a raw result yields: `Ok(value)` on success, `Err(errno)` on
/// a kernel-reported failure.
pub open spec fn spec_decode(res: RawResult) -> Result<usize, i32> {
    match res {
        RawResult::Packed(w) => if w > usize::MAX - 4095 {
            Err(((usize::MAX - w + 1) as int) as i32)
        } else {
            Ok(w)
        },
        RawResult::Flag(value, is_err) => if is_err {
            Err(value as i32)
        } else {
            Ok(value)
        },
    }
}

/// Decode a packed return word: the last 4095 values of the word range are
/// negated errnos, everything below is a success value, returned unchanged.
pub fn decode_packed(res: usize) -> (r: Result<usize, i32>)
    ensures
        res <= usize::MAX - 4095 ==> r == Ok::<usize, i32>(res),
        res > usize::MAX - 4095 ==> (r matches Err(e) && e == usize::MAX - res + 1),
        res > usize::MAX - 4095 ==> (r matches Err(e) && 1 <= e <= 4095),
        r == spec_decode(RawResult::Packed(res)),
{
    if res > usize::MAX - 4095 {
        Err((usize::MAX - res + 1) as i32)
    } else {
        Ok(res)
    }
}

/// Decode a flag-style raw result: the flag alone decides between success and
/// failure, and the value register carries the result either way.
pub fn decode_flag(value: usize, is_err: bool) -> (r: Result<usize, i32>)
    ensures
        is_err <==> (r matches Err(e) && e == value as i32),
        !is_err <==> r == Ok::<usize, i32>(value),
        r == spec_decode(RawResult::Flag(value, is_err)),
{
    if is_err {
        Err(value as i32)
    } else {
        Ok(value)
    }
}

/// A raw result of a syscall that succeeded decodes to the very value the
/// kernel returned, in either shape: the checked path and the raw path of a
/// successful call report the same number, and the checked path reports no
/// error.
pub proof fn lemma_success_decodes_to_itself(v: usize)
    requires
        v <= usize::MAX - 4095,
    ensures
        spec_decode(RawResult::Packed(v)) == Ok::<usize, i32>(v),
        spec_decode(RawResult::Flag(v, false)) == Ok::<usize, i32>(v),
{
}

/// A packed word carrying the two's-complement negation of an errno decodes
/// to exactly that errno: what a packed-style kernel encodes on failure,
/// decoding recovers.
pub proof fn lemma_negated_errno_decodes(e: i32)
    requires
        1 <= e <= 4095,
    ensures
        spec_decode(RawResult::Packed((usize::MAX - e + 1) as usize)) == Err::<usize, i32>(e),
{
}

/// Decode a raw result of either shape into the uniform `Ok`/`Err` contract.
pub fn decode_raw_result(res: RawResult) -> (r: Result<usize, i32>)
    ensures
        r == spec_decode(res),
{
    match res {
        RawResult::Packed(w) => decode_packed(w),
        RawResult::Flag(value, is_err) => decode_flag(value, is_err),
    }
}

} // verus!

