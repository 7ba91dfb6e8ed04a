//! Validated fields of a job record.

use vstd::prelude::*;

verus! {

/// What `str::trim` leaves of a string: the string without its leading and
/// trailing Unicode white space.
pub uninterp spec fn trimmed(s: Seq<char>) -> Seq<char>;

/// True when a text holds nothing but white space.
pub open spec fn is_blank(s: Seq<char>) -> bool {
    trimmed(s).len() == 0
}

/// Relies on `str::trim`: the result is a slice of `s`, so it is never longer.
#[verifier::external_body]
fn trim_str(s: &str) -> (r: &str)
    ensures
        r@ == trimmed(s@),
        r@.len() <= s@.len(),
{
    s.trim()
}

/// Tells whether `s` holds nothing but white space.
pub fn blank(s: &str) -> (r: bool)
    ensures
        r == is_blank(s@),
        s@.len() == 0 ==> r,
{
    trim_str(s).is_empty()
}

/// The reasons a job field can be refused.
#[derive(Clone, Debug, PartialEq, Eq)]
pub enum JobError {
    /// The password does not meet the requirements.
    InvalidPassword(String),
    /// The manifest id holds unwanted data.
    InvalidManifestId(String),
    /// No escrow id was given.
    EmptyEscrowId,
    /// The date is not acceptable.
    InvalidDate(String),
}

/// A text that is kept only when it is not blank.
pub open spec fn non_blank(v: Option<Seq<char>>) -> Option<Seq<char>> {
    match v {
        Some(s) => if is_blank(s) {
            None
        } else {
            Some(s)
        },
        None => None,
    }
}

/// The view of an optional string.
pub open spec fn opt_view(v: Option<String>) -> Option<Seq<char>> {
    match v {
        Some(s) => Some(s@),
        None => None,
    }
}

fn keep_non_blank(v: Option<String>) -> (r: Option<String>)
    ensures
        opt_view(r) == non_blank(opt_view(v)),
        v matches Some(s) && s@.len() == 0 ==> r is None,
{
    match v {
        Some(s) => {
            if blank(s.as_str()) {
                None
            } else {
                Some(s)
            }
        },
        None => None,
    }
}

/// The escrow id of a job: never blank.
#[derive(Clone, Debug, PartialEq, Eq)]
pub struct EscrowId(String);

impl View for EscrowId {
    type V = Seq<char>;

    closed spec fn view(&self) -> Seq<char> {
        self.0@
    }
}

impl EscrowId {
    /// Builds an escrow id; a blank one is refused.
    pub fn new(escrow_id: &str) -> (r: Result<EscrowId, JobError>)
        ensures
            r is Ok <==> !is_blank(escrow_id@),
            r matches Ok(e) ==> e@ == escrow_id@,
            r matches Err(e) ==> e == JobError::EmptyEscrowId,
            escrow_id@.len() == 0 ==> r is Err,
    {
        if !blank(escrow_id) {
            Ok(EscrowId(escrow_id.to_owned()))
        } else {
            Err(JobError::EmptyEscrowId)
        }
    }

    /// The escrow id as an owned string.
    pub fn into_inner(self) -> (r: String)
        ensures
            r@ == self@,
    {
        self.0
    }

    /// The escrow id as a string slice.
    pub fn as_str(&self) -> (r: &str)
        ensures
            r@ == self@,
    {
        self.0.as_str()
    }
}

/// The manifest id of a job: absent, or a text that is not blank.
#[derive(Clone, Debug, PartialEq, Eq)]
pub struct ManifestId(Option<String>);

impl View for ManifestId {
    type V = Option<Seq<char>>;

    closed spec fn view(&self) -> Option<Seq<char>> {
        opt_view(self.0)
    }
}

impl ManifestId {
    /// Builds a manifest id from anything that converts into an optional
    /// string; a blank text becomes no manifest id. What comes out is stated for
    /// each conversion whose result is known; [`Self::from_option`] states it
    /// for every optional string.
    pub fn new<T: Into<Option<String>>>(manifest_id: T) -> (r: ManifestId)
        ensures
            <T as vstd::std_specs::convert::IntoSpec<Option<String>>>::obeys_into_spec() ==> r@
                == non_blank(opt_view(<T as vstd::std_specs::convert::IntoSpec<Option<String>>>::into_spec(manifest_id))),
    {
        ManifestId::from_option(manifest_id.into())
    }

    /// Builds a manifest id from an optional string; a blank text becomes no
    /// manifest id.
    pub fn from_option(manifest_id: Option<String>) -> (r: ManifestId)
        ensures
            r@ == non_blank(opt_view(manifest_id)),
            manifest_id matches Some(s) && s@.len() == 0 ==> r@ is None,
    {
        ManifestId(keep_non_blank(manifest_id))
    }

    /// The manifest id as an optional owned string.
    pub fn into_inner(self) -> (r: Option<String>)
        ensures
            opt_view(r) == self@,
    {
        self.0
    }
}

/// The manifest url of a job: absent, or a text that is not blank.
#[derive(Clone, Debug, PartialEq, Eq)]
pub struct ManifestUrl(Option<String>);

impl View for ManifestUrl {
    type V = Option<Seq<char>>;

    closed spec fn view(&self) -> Option<Seq<char>> {
        opt_view(self.0)
    }
}

impl ManifestUrl {
    /// Builds a manifest url from anything that converts into an optional
    /// string; a blank text becomes no manifest url. What comes out is stated for
    /// each conversion whose result is known; [`Self::from_option`] states it
    /// for every optional string.
    pub fn new<T: Into<Option<String>>>(manifest_url: T) -> (r: ManifestUrl)
        ensures
            <T as vstd::std_specs::convert::IntoSpec<Option<String>>>::obeys_into_spec() ==> r@
                == non_blank(
                opt_view(<T as vstd::std_specs::convert::IntoSpec<Option<String>>>::into_spec(manifest_url)),
            ),
    {
        ManifestUrl::from_option(manifest_url.into())
    }

    /// Builds a manifest url from an optional string; a blank text becomes no
    /// manifest url.
    pub fn from_option(manifest_url: Option<String>) -> (r: ManifestUrl)
        ensures
            r@ == non_blank(opt_view(manifest_url)),
            manifest_url matches Some(s) && s@.len() == 0 ==> r@ is None,
    {
        ManifestUrl(keep_non_blank(manifest_url))
    }

    /// The manifest url as an optional owned string.
    pub fn into_inner(self) -> (r: Option<String>)
        ensures
            opt_view(r) == self@,
    {
        self.0
    }
}

/// The password that protects a job: absent, or a text that is not blank.
#[derive(Clone, Debug, PartialEq, Eq)]
pub struct Password(Option<String>);

impl View for Password {
    type V = Option<Seq<char>>;

    closed spec fn view(&self) -> Option<Seq<char>> {
        opt_view(self.0)
    }
}

impl Password {
    /// Builds a password from an optional string; a blank text means that the
    /// job has no password.
    pub fn from_option(password: Option<String>) -> (r: Password)
        ensures
            r@ == non_blank(opt_view(password)),
            password matches Some(s) && s@.len() == 0 ==> r@ is None,
    {
        Password(keep_non_blank(password))
    }

    /// True when a password is set.
    pub fn has_password(&self) -> (r: bool)
        ensures
            r == self@ is Some,
    {
        self.0.is_some()
    }

    /// Whether a job protected by this password may be shown to someone who
    /// supplied `supplied`: always when no password is set, else only when the
    /// two are equal.
    pub fn admits(&self, supplied: &Password) -> (r: bool)
        ensures
            r == (self@ is None || self@ == supplied@),
    {
        match (&self.0, &supplied.0) {
            (None, _) => true,
            (Some(p), Some(q)) => *p == *q,
            (Some(_), None) => false,
        }
    }

    /// The password as an optional owned string.
    pub fn into_inner(self) -> (r: Option<String>)
        ensures
            opt_view(r) == self@,
    {
        self.0
    }
}

impl Default for Password {
    /// No password.
    fn default() -> (r: Password)
        ensures
            r@ == None::<Seq<char>>,
    {
        Password(None)
    }
}

/// The time a job was posted, as a block time.
#[derive(Clone, Copy, Debug, PartialEq, Eq)]
pub struct Posted(u64);

impl Posted {
    /// Wraps a block time.
    pub fn new(posted: u64) -> (r: Posted)
        ensures
            r.into_inner_spec() == posted,
    {
        Posted(posted)
    }

    /// The block time held.
    pub closed spec fn into_inner_spec(self) -> u64 {
        self.0
    }

    /// Returns the block time held.
    pub fn into_inner(self) -> (r: u64)
        ensures
            r == self.into_inner_spec(),
    {
        self.0
    }
}

/// The number of responses a job has received.
#[derive(Clone, Copy, Debug, PartialEq, Eq)]
pub struct Responses(u64);

impl Responses {
    /// Wraps a number of responses.
    pub fn new(responses: u64) -> (r: Responses)
        ensures
            r.into_inner_spec() == responses,
    {
        Responses(responses)
    }

    /// The number held.
    pub closed spec fn into_inner_spec(self) -> u64 {
        self.0
    }

    /// Returns the number held.
    pub fn into_inner(self) -> (r: u64)
        ensures
            r == self.into_inner_spec(),
    {
        self.0
    }
}

/// A 128-bit record identifier, held as its integer value.
#[derive(Clone, Copy, Debug, PartialEq, Eq, Structural)]
pub struct DbId {
    pub bits: u128,
}

impl DbId {
    /// The identifier whose bits are all zero.
    pub fn nil() -> (r: DbId)
        ensures
            r.bits == 0,
    {
        DbId { bits: 0 }
    }
}

/// The internal identifier of a job.
#[derive(Clone, Copy, Debug, PartialEq, Eq, Structural)]
pub struct JobId(pub DbId);

impl JobId {
    /// Wraps an identifier.
    pub fn new(id: DbId) -> (r: JobId)
        ensures
            r.0 == id,
    {
        JobId(id)
    }

    /// Returns the identifier held.
    pub fn into_inner(self) -> (r: DbId)
        ensures
            r == self.0,
    {
        self.0
    }
}

impl Default for JobId {
    /// The empty identifier.
    fn default() -> (r: JobId)
        ensures
            r.0.bits == 0,
    {
        JobId(DbId::nil())
    }
}

/// The short code by which a job is reached, and by which its views are
/// counted. Two codes are the same when their texts are.
#[derive(Clone, Debug)]
pub struct ShortCode(String);

impl View for ShortCode {
    type V = Seq<char>;

    closed spec fn view(&self) -> Seq<char> {
        self.0@
    }
}

impl ShortCode {
    /// A short code with the given text.
    pub fn from_text(code: &str) -> (r: ShortCode)
        ensures
            r@ == code@,
    {
        ShortCode(code.to_owned())
    }

    /// A short code that takes over the given string.
    pub fn from_string(code: String) -> (r: ShortCode)
        ensures
            r@ == code@,
    {
        ShortCode(code)
    }

    /// A second short code with the same text.
    pub fn duplicate(&self) -> (r: ShortCode)
        ensures
            r@ == self@,
    {
        ShortCode(self.0.clone())
    }

    /// The code as a string slice.
    pub fn as_str(&self) -> (r: &str)
        ensures
            r@ == self@,
    {
        self.0.as_str()
    }

    /// The code as an owned string.
    pub fn into_inner(self) -> (r: String)
        ensures
            r@ == self@,
    {
        self.0
    }
}

impl PartialEq for ShortCode {
    fn eq(&self, other: &ShortCode) -> (r: bool) {
        self.0 == other.0
    }
}

impl vstd::std_specs::cmp::PartialEqSpecImpl for ShortCode {
    open spec fn obeys_eq_spec() -> bool {
        true
    }

    open spec fn eq_spec(&self, other: &ShortCode) -> bool {
        self@ == other@
    }
}

} // verus!
