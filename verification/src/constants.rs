use vstd::prelude::*;

verus! {

/// The duration of one tick, in milliseconds.
pub const MILLISECONDS_PER_FRAME: usize = 300;

} // verus!
