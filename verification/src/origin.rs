//! SDP origin definitions (RFC 4566, section 5.2): the `o=` field payload
//! and the username it may carry.

use vstd::prelude::*;
use vstd::string::{StrSliceExecFns, StringExecFns};

use crate::connection;
use crate::session;
use crate::text::{dec_rep, push_char, u64_to_dec};

verus! {

/// Whether `s` is a valid username: non-empty, free of spaces, and not the
/// literal `-`, which denotes the absence of a username.
pub open spec fn valid_username(s: Seq<char>) -> bool {
    &&& s.len() > 0
    &&& s != seq!['-']
    &&& forall|i: int| 0 <= i < s.len() ==> #[trigger] s[i] != ' '
}

/// Representation of an SDP origin's `username`.
///
/// `-` (hyphen) doesn't count as a valid [`Username`], but rather as its
/// absence: use `None` where the originating host has no user identifier.
#[derive(Clone, Debug, Eq, PartialEq)]
pub struct Username(String);

impl View for Username {
    type V = Seq<char>;

    closed spec fn view(&self) -> Seq<char> {
        self.0@
    }
}

impl Username {
    /// Every live [`Username`] satisfies [`valid_username`].
    pub closed spec fn wf(self) -> bool {
        valid_username(self.0@)
    }

    /// Tries to construct a new [`Username`] out of the given `value`.
    ///
    /// Fails when the value is empty, is the literal `-`, or holds a
    /// space; each cause is reported as its own error variant.
    pub fn try_new(value: &str) -> (r: Result<Username, InvalidUsernameError>)
        ensures
            r is Ok <==> valid_username(value@),
            r matches Ok(u) ==> u@ == value@ && u.wf(),
            r matches Err(e) ==> {
                &&& e == InvalidUsernameError::Empty <==> value@.len() == 0
                &&& e == InvalidUsernameError::Hyphen <==> value@ == seq!['-']
                &&& e == InvalidUsernameError::WithSpaces <==> (value@.len() > 0 && value@
                    != seq!['-'] && value@.contains(' '))
            },
    {
        let n = value.unicode_len();
        if n == 0 {
            return Err(InvalidUsernameError::Empty);
        }
        if n == 1 && value.get_char(0) == '-' {
            proof {
                assert(value@ =~= seq!['-']);
            }
            return Err(InvalidUsernameError::Hyphen);
        }
        proof {
            assert(value@ != seq!['-']);
        }
        let mut i: usize = 0;
        while i < n
            invariant
                0 <= i <= n,
                n == value@.len(),
                forall|j: int| 0 <= j < i ==> #[trigger] value@[j] != ' ',
            decreases n - i,
        {
            if value.get_char(i) == ' ' {
                proof {
                    assert(value@.contains(' '));
                }
                return Err(InvalidUsernameError::WithSpaces);
            }
            i = i + 1;
        }
        proof {
            if value@.contains(' ') {
                let w = choose|w: int| 0 <= w < value@.len() && value@[w] == ' ';
                assert(value@[w] != ' ');
            }
        }
        Ok(Username(value.to_owned()))
    }

    /// The username's text.
    pub fn as_str(&self) -> (r: &str)
        ensures
            r@ == self@,
    {
        self.0.as_str()
    }
}

/// Error of validating a value to be a valid [`Username`].
#[derive(Clone, Copy, Debug, Eq, PartialEq, Structural)]
pub enum InvalidUsernameError {
    /// [`Username`] contains spaces, while it must not.
    WithSpaces,
    /// [`Username`] is an empty string.
    Empty,
    /// [`Username`] is a hyphen, while a hyphen describes the absence of a
    /// [`Username`]: use `None` instead.
    Hyphen,
}

/// Representation of an SDP origin (the `o=` field payload): the session's
/// originator, a session identifier and a version number, and the address
/// of the originating host.
///
/// The origin tuple is assumed globally unique per session by the RFC;
/// this layer enforces only per-field syntax, not global uniqueness.
#[derive(Clone, Debug)]
pub struct Origin {
    /// User's login on the originating host, or `None` if the originating
    /// host doesn't support the concept of user IDs.
    pub username: Option<Username>,
    /// Numeric value such that the whole origin tuple forms a globally
    /// unique identifier for the session.
    pub sess_id: session::Id,
    /// Version number for this session description.
    pub sess_version: session::Version,
    /// Address of the machine from which the session was created.
    pub unicast_address: connection::Data,
}

impl Origin {
    /// Wire text of this origin:
    /// `<username|-> <sess-id> <sess-version> <nettype> <addrtype> <unicast-address>`,
    /// with `-` standing for an absent username.
    pub open spec fn wire(self) -> Seq<char> {
        (match self.username {
            Some(u) => u@,
            None => seq!['-'],
        }) + seq![' '] + dec_rep(self.sess_id@ as nat) + seq![' ']
            + dec_rep(self.sess_version@ as nat) + seq![' '] + self.unicast_address.wire()
    }

    /// Renders this origin as the exact payload of an `o=` line.
    pub fn marshal(&self) -> (r: String)
        ensures
            r@ == self.wire(),
    {
        let mut s = match &self.username {
            Some(u) => {
                let mut s = String::new();
                s.append(u.as_str());
                s
            },
            None => {
                let mut s = String::new();
                push_char(&mut s, '-');
                s
            },
        };
        push_char(&mut s, ' ');
        s.append(u64_to_dec(self.sess_id.get()).as_str());
        push_char(&mut s, ' ');
        s.append(u64_to_dec(self.sess_version.get()).as_str());
        push_char(&mut s, ' ');
        s.append(self.unicast_address.marshal().as_str());
        proof {
            assert(s@ =~= self.wire());
        }
        s
    }
}

} // verus!
