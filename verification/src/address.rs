//! Address types (RFC 4566, section 5.7): the `<addrtype>` tag and the
//! capability of telling the address type of a value.

use vstd::prelude::*;

verus! {

/// The `<addrtype>` tag of a connection address: `IP4` or `IP6`.
#[derive(Clone, Copy, Debug, Eq, PartialEq, Structural)]
pub enum Type {
    /// An IP version 4 address type, rendered as `IP4`.
    Ip4,
    /// An IP version 6 address type, rendered as `IP6`.
    Ip6,
}

impl Type {
    /// Wire text of this tag.
    pub open spec fn wire(self) -> Seq<char> {
        match self {
            Type::Ip4 => "IP4"@,
            Type::Ip6 => "IP6"@,
        }
    }

    /// Renders this tag as its wire token.
    pub fn marshal(&self) -> (r: &'static str)
        ensures
            r@ == self.wire(),
    {
        match self {
            Type::Ip4 => "IP4",
            Type::Ip6 => "IP6",
        }
    }
}

/// Capability of values that carry or imply an address type.
pub trait Typed {
    /// The address type this value carries, as a specification.
    spec fn spec_addrtype(&self) -> Type;

    /// The address type this value carries.
    fn addrtype(&self) -> (t: Type)
        ensures
            t == self.spec_addrtype(),
    ;
}

} // verus!
