//! Requests to the job service.

use crate::field::{Password, ShortCode};
use vstd::prelude::*;

verus! {

/// A request to see one job: its short code, and the password supplied with
/// the request.
pub struct GetJob {
    pub shortcode: ShortCode,
    pub password: Password,
}

impl GetJob {
    /// A request for the job with short code `shortcode`, with no password.
    pub fn from_raw(shortcode: &str) -> (r: GetJob)
        ensures
            r.shortcode@ == shortcode@,
            r.password@ == None::<Seq<char>>,
    {
        GetJob { shortcode: ShortCode::from_text(shortcode), password: Password::default() }
    }

    /// Whether the job this request names may be shown, given the password
    /// that protects it.
    pub fn may_view(&self, stored: &Password) -> (r: bool)
        ensures
            r == (stored@ is None || stored@ == self.password@),
    {
        stored.admits(&self.password)
    }
}

} // verus!
