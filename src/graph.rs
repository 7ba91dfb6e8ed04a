//! Jobs as the external feed lists them.

use vstd::prelude::*;

verus! {

/// A job as the external feed lists it: its escrow id and the time it was
/// launched.
pub struct GraphJob {
    pub id: String,
    pub timestamp: String,
}

} // verus!
