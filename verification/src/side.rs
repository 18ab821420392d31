//! Markers for the two ends of a measurement.

use vstd::prelude::*;

verus! {

/// The end that admits measurement clients.
pub struct Server {}

/// The end that asks for a measurement.
pub struct Client {}

} // verus!
