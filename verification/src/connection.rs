//! Connection data (RFC 4566, section 5.7): the `<nettype> <addrtype>
//! <connection-address>` triple, polymorphic over a literal IP address and
//! a fully qualified domain name.

use vstd::prelude::*;
use vstd::string::{StrSliceExecFns, StringExecFns};

use crate::address;
use crate::address::Typed;
use crate::text::push_char;

verus! {

/// Whether `s` is acceptable as the text of an address: non-empty, with
/// neither whitespace nor control characters, so that it stays one token
/// on the wire.
pub open spec fn address_text_ok(s: Seq<char>) -> bool {
    s.len() > 0 && forall|i: int| 0 <= i < s.len() ==> #[trigger] s[i] > ' '
}

/// A literal IP address, held as its textual form plus its version tag.
/// This layer never resolves or re-renders addresses; it carries the text
/// through to the wire unchanged.
#[derive(Clone, Debug, Eq, PartialEq)]
pub struct Ip {
    kind: address::Type,
    text: String,
}

/// Error of validating a value to be a valid [`Ip`].
#[derive(Clone, Copy, Debug, Eq, PartialEq, Structural)]
pub enum InvalidIpError {
    /// The address text is empty.
    Empty,
    /// The address text holds whitespace or a control character.
    InvalidCharacters,
}

impl View for Ip {
    type V = Seq<char>;

    closed spec fn view(&self) -> Seq<char> {
        self.text@
    }
}

impl Ip {
    /// The version tag of this address, as a specification.
    pub closed spec fn spec_kind(self) -> address::Type {
        self.kind
    }

    /// Every live [`Ip`] holds acceptable address text.
    pub closed spec fn wf(self) -> bool {
        address_text_ok(self.text@)
    }

    /// Tries to wrap the textual form of an IP address of the given
    /// version. The text must be non-empty and hold neither whitespace nor
    /// control characters.
    pub fn try_new(kind: address::Type, text: &str) -> (r: Result<Ip, InvalidIpError>)
        ensures
            r is Ok <==> address_text_ok(text@),
            r matches Ok(ip) ==> ip@ == text@ && ip.spec_kind() == kind && ip.wf(),
            r matches Err(e) ==> (e == InvalidIpError::Empty <==> text@.len() == 0),
    {
        let n = text.unicode_len();
        if n == 0 {
            return Err(InvalidIpError::Empty);
        }
        let mut i: usize = 0;
        while i < n
            invariant
                0 <= i <= n,
                n == text@.len(),
                forall|j: int| 0 <= j < i ==> #[trigger] text@[j] > ' ',
            decreases n - i,
        {
            if text.get_char(i) <= ' ' {
                return Err(InvalidIpError::InvalidCharacters);
            }
            i = i + 1;
        }
        Ok(Ip { kind, text: text.to_owned() })
    }

    /// The address text.
    pub fn as_str(&self) -> (r: &str)
        ensures
            r@ == self@,
    {
        self.text.as_str()
    }
}

impl Typed for Ip {
    open spec fn spec_addrtype(&self) -> address::Type {
        self.spec_kind()
    }

    /// The address type is the version tag the address was created with.
    fn addrtype(&self) -> (t: address::Type)
        ensures
            t == self.spec_addrtype(),
    {
        self.kind
    }
}

/// Representation of the `<nettype> <addrtype> <connection-address>`
/// triple: either a fully qualified domain name with an explicit address
/// type tag, or a literal IP address.
#[derive(Clone, Debug, Eq, PartialEq)]
pub enum Data {
    /// A fully qualified domain name with the address type it was declared
    /// with; the two may legitimately disagree with what the domain
    /// eventually resolves to, which this layer does not check.
    Fqdn {
        /// The declared address type tag.
        addrtype: address::Type,
        /// The domain name.
        domain: String,
    },
    /// A literal IP address.
    Ip(Ip),
}

impl Data {
    /// Wire text of this connection data: `IN <addrtype> <address>`.
    pub open spec fn wire(self) -> Seq<char> {
        match self {
            Data::Fqdn { addrtype, domain } => "IN "@ + addrtype.wire() + seq![' '] + domain@,
            Data::Ip(ip) => "IN "@ + ip.spec_addrtype().wire() + seq![' '] + ip@,
        }
    }

    /// Renders this connection data as its wire text.
    pub fn marshal(&self) -> (r: String)
        ensures
            r@ == self.wire(),
    {
        let mut s = String::from_str("IN ");
        s.append(self.addrtype().marshal());
        push_char(&mut s, ' ');
        match self {
            Data::Fqdn { domain, .. } => {
                s.append(domain.as_str());
            },
            Data::Ip(ip) => {
                s.append(ip.as_str());
            },
        }
        proof {
            assert(s@ =~= self.wire());
        }
        s
    }
}

impl Typed for Data {
    open spec fn spec_addrtype(&self) -> address::Type {
        match *self {
            Data::Fqdn { addrtype, .. } => addrtype,
            Data::Ip(ip) => ip.spec_addrtype(),
        }
    }

    /// For a domain the declared tag, for a literal address its version.
    fn addrtype(&self) -> (t: address::Type)
        ensures
            t == self.spec_addrtype(),
    {
        match self {
            Data::Fqdn { addrtype, .. } => *addrtype,
            Data::Ip(ip) => ip.addrtype(),
        }
    }
}

} // verus!
