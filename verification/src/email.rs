//! Representation of an SDP email address (the `e=` field payload),
//! carried as-is: the RFC's address grammar is not enforced here.

use vstd::prelude::*;

verus! {

/// An email address as carried by an `e=` field.
#[derive(Clone, Debug, Eq, PartialEq)]
pub struct Address(String);

impl View for Address {
    type V = Seq<char>;

    closed spec fn view(&self) -> Seq<char> {
        self.0@
    }
}

impl Address {
    /// Wraps email address text.
    pub fn new(value: &str) -> (r: Address)
        ensures
            r@ == value@,
    {
        Address(value.to_owned())
    }

    /// The address text.
    pub fn as_str(&self) -> (r: &str)
        ensures
            r@ == self@,
    {
        self.0.as_str()
    }
}

} // verus!
