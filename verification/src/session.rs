//! Session-level identifiers and names (RFC 4566, sections 5.2 through
//! 5.4): session id, session version, session name and session information.

use vstd::prelude::*;
use vstd::string::StrSliceExecFns;

verus! {

/// Representation of an SDP origin's `sess-id`: a numeric value such that
/// the whole origin tuple forms a globally unique session identifier.
#[derive(Clone, Copy, Debug, Eq, PartialEq, Structural)]
pub struct Id(u64);

impl View for Id {
    type V = u64;

    closed spec fn view(&self) -> u64 {
        self.0
    }
}

impl Id {
    /// Wraps a numeric session identifier.
    pub fn new(value: u64) -> (r: Id)
        ensures
            r@ == value,
    {
        Id(value)
    }

    /// The wrapped numeric value.
    pub fn get(self) -> (r: u64)
        ensures
            r == self@,
    {
        self.0
    }
}

/// Representation of an SDP origin's `sess-version`: a version number for
/// the session description, totally ordered so that callers can detect
/// updated descriptions.
#[derive(Clone, Copy, Debug, Eq, Ord, PartialEq, PartialOrd)]
pub struct Version(u64);

impl View for Version {
    type V = u64;

    closed spec fn view(&self) -> u64 {
        self.0
    }
}

impl Version {
    /// Wraps a numeric session version.
    pub fn new(value: u64) -> (r: Version)
        ensures
            r@ == value,
    {
        Version(value)
    }

    /// The wrapped numeric value.
    pub fn get(self) -> (r: u64)
        ensures
            r == self@,
    {
        self.0
    }

    /// Whether this version precedes `other`: callers use this ordering to
    /// detect updated session descriptions.
    pub fn precedes(self, other: Version) -> (r: bool)
        ensures
            r == (self@ < other@),
    {
        self.0 < other.0
    }
}

/// Representation of an SDP session name (the `s=` field payload), which
/// must not be empty.
///
/// When a session has no meaningful name, a single space should be used,
/// which is also the default value.
#[derive(Clone, Debug, Eq, PartialEq)]
pub struct Name(String);

impl View for Name {
    type V = Seq<char>;

    closed spec fn view(&self) -> Seq<char> {
        self.0@
    }
}

impl Name {
    /// Tries to construct a new [`Name`] out of the given `value`; an empty
    /// value is rejected.
    pub fn try_new(value: &str) -> (r: Result<Name, EmptyNameError>)
        ensures
            r is Ok <==> value@.len() > 0,
            r matches Ok(n) ==> n@ == value@,
    {
        if value.unicode_len() == 0 {
            Err(EmptyNameError)
        } else {
            Ok(Name(value.to_owned()))
        }
    }

    /// The name's text.
    pub fn as_str(&self) -> (r: &str)
        ensures
            r@ == self@,
    {
        self.0.as_str()
    }
}

impl Default for Name {
    /// The RFC's default session name: a single space.
    fn default() -> (r: Self)
        ensures
            r@ == seq![' '],
    {
        let mut s = String::new();
        crate::text::push_char(&mut s, ' ');
        proof {
            assert(s@ =~= seq![' ']);
        }
        Name(s)
    }
}

/// Error of a [`Name`] value being an empty string.
#[derive(Clone, Copy, Debug, Eq, PartialEq, Structural)]
pub struct EmptyNameError;

/// Representation of SDP session information (the `i=` field payload),
/// free-form text carried as-is.
#[derive(Clone, Debug, Eq, PartialEq)]
pub struct Information(String);

impl View for Information {
    type V = Seq<char>;

    closed spec fn view(&self) -> Seq<char> {
        self.0@
    }
}

impl Information {
    /// Wraps free-form session information text.
    pub fn new(value: &str) -> (r: Information)
        ensures
            r@ == value@,
    {
        Information(value.to_owned())
    }

    /// The information text.
    pub fn as_str(&self) -> (r: &str)
        ensures
            r@ == self@,
    {
        self.0.as_str()
    }
}

} // verus!
