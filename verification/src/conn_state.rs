//! State markers of a connection context.

use vstd::prelude::*;

verus! {

/// The paired transport is bound and may carry probe traffic.
pub struct Connected {}

/// The paired transport is not yet usable.
pub struct Disconnected {}

} // verus!
