//! A strongly-typed model and line-oriented text codec for the Session
//! Description Protocol (SDP, RFC 4566).
//!
//! The crate offers a family of validated newtype wrappers enforcing the
//! RFC's syntactic constraints, typed field models that render themselves to
//! wire text, the generic attribute-line codec (`a=<key>[:<value>]\r\n`), and
//! the `extmap` attribute parser/serializer with its explicit error taxonomy.

use vstd::prelude::*;

pub mod address;
pub mod bandwidth;
pub mod codec;
pub mod connection;
pub mod email;
pub mod encryption;
pub mod extmap;
pub mod origin;
pub mod session;
pub mod text;
pub mod timing;
pub mod uri;

verus! {

/// Representation of an `o=` field, providing the originator of the session
/// (username and the address of the user's host) plus a session identifier
/// and version number.
#[derive(Debug, Default)]
pub struct Origin {
    username: String,
    session_id: u64,
    session_version: u64,
    network_type: String,
    address_type: String,
    unicast_address: String,
}

} // verus!
