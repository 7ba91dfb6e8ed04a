//! Results of storage queries.

use vstd::prelude::*;

verus! {

/// What became of a request to revoke an API key.
#[derive(Clone, Copy, Debug, PartialEq, Eq, Structural)]
pub enum RevocationStatus {
    /// The key was found and revoked.
    Revoked,
    /// No such key was stored, so nothing was revoked.
    NotFound,
}

impl RevocationStatus {
    /// The status of a revocation that deleted `rows` stored keys.
    pub fn from_rows_affected(rows: u64) -> (r: RevocationStatus)
        ensures
            r == (if rows == 0 {
                RevocationStatus::NotFound
            } else {
                RevocationStatus::Revoked
            }),
    {
        if rows == 0 {
            RevocationStatus::NotFound
        } else {
            RevocationStatus::Revoked
        }
    }
}

/// Whether an API key counted `count` times among the stored keys is valid.
pub fn key_count_is_valid(count: u32) -> (r: bool)
    ensures
        r == (count > 0),
{
    count > 0
}

} // verus!
