//! Comparison of a received frame with the frame that was expected, after the
//! expected frame has gone through a given number of increments.

use vstd::prelude::*;
use crate::frame::{incremented, increment_frame, Frame, FrameView};

verus! {

/// The field in which two frames first differ.
#[derive(Clone, Copy, Debug, PartialEq, Eq, Structural)]
pub enum MismatchReason {
    /// The identifiers differ.
    Identifier,
    /// The identifiers agree, but the payloads differ in length or in a byte.
    Payload,
    /// Identifier and payload agree, but one of the two flags differs.
    Flags,
}

/// The result of one comparison.
#[derive(Clone, Copy, Debug, PartialEq, Eq, Structural)]
pub enum Outcome {
    /// The received frame is the expected one.
    Match,
    /// The received frame differs from the expected one.
    Mismatch(MismatchReason),
    /// The expected frame could not be computed.
    Unavailable,
}

/// The first field in which `received` differs from `expected`, if any.
pub open spec fn difference(expected: FrameView, received: FrameView) -> Option<MismatchReason> {
    if expected.id != received.id {
        Some(MismatchReason::Identifier)
    } else if expected.data != received.data {
        Some(MismatchReason::Payload)
    } else if expected.remote != received.remote || expected.extended != received.extended {
        Some(MismatchReason::Flags)
    } else {
        None
    }
}

/// Comparison with a tolerance: with none left the two frames are compared
/// field by field; otherwise the expected frame is incremented once and
/// compared with one increment less.
pub open spec fn compared(expected: FrameView, received: FrameView, tolerance: nat) -> Outcome
    decreases tolerance,
{
    if tolerance == 0 {
        match difference(expected, received) {
            None => Outcome::Match,
            Some(reason) => Outcome::Mismatch(reason),
        }
    } else {
        match incremented(expected) {
            None => Outcome::Unavailable,
            Some(next) => compared(next, received, (tolerance - 1) as nat),
        }
    }
}

/// Says in which field `received` first differs from `expected`.
pub fn first_difference(expected: Frame, received: Frame) -> (r: Option<MismatchReason>)
    ensures
        r == difference(expected@, received@),
        r is None <==> expected@ == received@,
{
    if expected.id() != received.id() {
        return Some(MismatchReason::Identifier);
    }
    let want = expected.data();
    let got = received.data();
    if want.len() != got.len() {
        return Some(MismatchReason::Payload);
    }
    let mut i: usize = 0;
    while i < want.len()
        invariant
            i <= want.len() == got.len(),
            want@ == expected@.data,
            got@ == received@.data,
            expected@.id == received@.id,
            forall|j: int| 0 <= j < i ==> want[j] == got[j],
        decreases want.len() - i,
    {
        if want[i] != got[i] {
            assert(expected@.data[i as int] != received@.data[i as int]);
            return Some(MismatchReason::Payload);
        }
        i += 1;
    }
    assert(want@ =~= got@);
    if expected.is_rtr() != received.is_rtr() || expected.is_extended() != received.is_extended() {
        return Some(MismatchReason::Flags);
    }
    None
}

/// Compares `received` with `expected` after `tolerance` increments of `expected`.
pub fn compare(expected: Frame, received: Frame, tolerance: usize) -> (r: Outcome)
    ensures
        r == compared(expected@, received@, tolerance as nat),
{
    let mut current = expected;
    let mut left = tolerance;
    while left > 0
        invariant
            compared(current@, received@, left as nat) == compared(
                expected@,
                received@,
                tolerance as nat,
            ),
        decreases left,
    {
        match increment_frame(current) {
            None => {
                return Outcome::Unavailable;
            },
            Some(next) => {
                current = next;
            },
        }
        left -= 1;
    }
    match first_difference(current, received) {
        None => Outcome::Match,
        Some(reason) => Outcome::Mismatch(reason),
    }
}

/// With no tolerance the comparison succeeds exactly when the two frames
/// are equal in every field; with a tolerance of one, exactly when the
/// received frame is the expected one incremented once.
pub proof fn lemma_compare_zero_and_one(expected: FrameView, received: FrameView)
    ensures
        compared(expected, received, 0) == Outcome::Match <==> expected == received,
        compared(expected, received, 1) == Outcome::Match <==> incremented(expected) == Some(
            received,
        ),
{
    reveal_with_fuel(compared, 2);
}

/// A tolerance of `n + 1` on a frame is a tolerance of `n` on its increment,
/// and the comparison is unavailable where there is no increment.
pub proof fn lemma_compare_unfolds(expected: FrameView, received: FrameView, n: nat)
    ensures
        incremented(expected) matches Some(next) ==> compared(expected, received, n + 1)
            == compared(next, received, n),
        incremented(expected) is None ==> compared(expected, received, n + 1)
            == Outcome::Unavailable,
{
}

} // verus!
