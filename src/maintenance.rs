//! The background maintenance task.

use vstd::prelude::*;

verus! {

/// The background task that removes expired jobs and takes new ones from the
/// external feed.
pub struct Maintenance;

} // verus!
