//! Spans of time, counted in nanoseconds.

use std::time::Duration;
use vstd::prelude::*;

verus! {

/// The length of a span of time in nanoseconds.
pub uninterp spec fn nanos_of(d: Duration) -> nat;

/// `std::time::Duration::as_nanos` gives the whole length of the span in
/// nanoseconds; that number is what `nanos_of` names. Nothing more is
/// claimed of it.
pub assume_specification[ Duration::as_nanos ](d: &Duration) -> (n: u128)
    ensures
        n == nanos_of(*d),
;

} // verus!
