//! Representation of an encryption key conveyed by a session (RFC 4566,
//! section 5.12): the `k=` field payload.
//!
//! The `clear` and `base64` methods carry their payload as a secret: the
//! generic debug rendering of a [`Key`] never exposes it; only the explicit
//! wire serialization [`Key::marshal`] does.

use secrecy::ExposeSecret;
use secrecy::SecretString;
use vstd::prelude::*;
use vstd::string::{StrSliceExecFns, StringExecFns};

use crate::text::{eq_str, has_prefix};
use crate::uri::{uri_text_ok, url_ok, InvalidUriError, Uri};

verus! {

/// The secret payload of a key, held behind the `secrecy` crate's
/// [`SecretString`]: its debug rendering is redacted, its memory is wiped
/// on drop, and its text is reached only through [`Key::marshal`].
///
/// The struct is opaque to the verifier; its content is named by
/// [`secret_text`] and reached only through the trusted wrappers below.
#[verifier::external_body]
#[derive(Debug)]
pub struct Secret {
    inner: SecretString,
}

/// Names the text that a [`Secret`] holds.
pub uninterp spec fn secret_text(s: Secret) -> Seq<char>;

/// Relies on `secrecy::SecretString::from`: the secret box holds exactly
/// the given text.
#[verifier::external_body]
fn secret_new(text: &str) -> (r: Secret)
    ensures
        secret_text(r) == text@,
{
    Secret { inner: SecretString::from(text) }
}

/// Relies on `secrecy::ExposeSecret::expose_secret`: it hands back a
/// borrow of exactly the text the secret box holds.
#[verifier::external_body]
fn secret_expose(s: &Secret) -> (r: &str)
    ensures
        r@ == secret_text(*s),
{
    s.inner.expose_secret()
}

impl Secret {
    /// Wraps key material as a secret.
    pub fn new(text: &str) -> (r: Secret)
        ensures
            secret_text(r) == text@,
    {
        secret_new(text)
    }
}

/// Representation of an encryption key conveyed by a session: a simple
/// key-exchange mechanism kept for compatibility with older
/// implementations; its use is not recommended by the RFC.
#[derive(Debug)]
pub enum Key {
    /// Untransformed encryption key, rendered as `clear:<key>`. The key is
    /// held as a secret.
    Clear(Secret),
    /// Base64-encoded encryption key, rendered as `base64:<key>`. The key
    /// is held as a secret.
    Base64(Secret),
    /// URI referring to the data containing the encryption key, rendered
    /// as `uri:<uri>`.
    Uri(Uri),
    /// No key: a user should be prompted for the encryption key when
    /// attempting to join the session. Rendered as `prompt`.
    Prompt,
}

/// Error of parsing a value to be a valid [`Key`].
#[derive(Clone, Copy, Debug, Eq, PartialEq, Structural)]
pub enum InvalidKeyError {
    /// The payload names none of the `clear`, `base64`, `uri` and `prompt`
    /// methods.
    UnknownMethod,
    /// The `uri` method's payload is not a valid URI token.
    InvalidUri(InvalidUriError),
}

impl Key {
    /// Wire text of this key: the one code path that exposes the secret.
    pub open spec fn wire(self) -> Seq<char> {
        match self {
            Key::Clear(s) => "clear:"@ + secret_text(s),
            Key::Base64(s) => "base64:"@ + secret_text(s),
            Key::Uri(u) => "uri:"@ + u@,
            Key::Prompt => "prompt"@,
        }
    }

    /// Renders this key as the exact payload of a `k=` line, exposing the
    /// secret payload of the `clear` and `base64` methods.
    pub fn marshal(&self) -> (r: String)
        ensures
            r@ == self.wire(),
    {
        match self {
            Key::Clear(s) => {
                let mut out = String::from_str("clear:");
                out.append(secret_expose(s));
                out
            },
            Key::Base64(s) => {
                let mut out = String::from_str("base64:");
                out.append(secret_expose(s));
                out
            },
            Key::Uri(u) => {
                let mut out = String::from_str("uri:");
                out.append(u.as_str());
                out
            },
            Key::Prompt => String::from_str("prompt"),
        }
    }

    /// Parses the payload of a `k=` line, dispatching on the method name:
    /// `prompt` alone, or one of `clear:`, `base64:` and `uri:` followed
    /// by the key material.
    pub fn parse(s: &str) -> (r: Result<Key, InvalidKeyError>)
        ensures
            s@ == "prompt"@ ==> (r matches Ok(k) && k is Prompt),
            s@.len() >= 6 && s@.take(6) == "clear:"@ ==> (r matches Ok(k) && (k matches Key::Clear(
                sec,
            ) && secret_text(sec) == s@.skip(6))),
            s@.len() >= 7 && s@.take(7) == "base64:"@ ==> (r matches Ok(k) && (k matches
                Key::Base64(sec) && secret_text(sec) == s@.skip(7))),
            s@.len() >= 4 && s@.take(4) == "uri:"@ ==> {
                if uri_text_ok(s@.skip(4)) && url_ok(s@.skip(4)) {
                    (r matches Ok(k) && (k matches Key::Uri(u) && u@ == s@.skip(4) && u.wf()))
                } else {
                    r == Err::<Key, InvalidKeyError>(InvalidKeyError::InvalidUri(InvalidUriError))
                }
            },
            !(s@ == "prompt"@ || (s@.len() >= 6 && s@.take(6) == "clear:"@) || (s@.len() >= 7
                && s@.take(7) == "base64:"@) || (s@.len() >= 4 && s@.take(4) == "uri:"@)) ==> r
                == Err::<Key, InvalidKeyError>(InvalidKeyError::UnknownMethod),
    {
        proof {
            reveal_strlit("prompt");
            reveal_strlit("clear:");
            reveal_strlit("base64:");
            reveal_strlit("uri:");
            assert("prompt"@.len() == 6 && "clear:"@.len() == 6 && "base64:"@.len() == 7 && "uri:"@.len() == 4);
            assert("prompt"@[5] == 't' && "clear:"@[5] == ':');
            assert("prompt"@[0] == 'p' && "clear:"@[0] == 'c' && "base64:"@[0] == 'b' && "uri:"@[0] == 'u');
        }
        let n = s.unicode_len();
        if eq_str(s, "prompt") {
            Ok(Key::Prompt)
        } else if has_prefix(s, "clear:") {
            let rest = s.substring_char(6, n);
            proof {
                assert(rest@ =~= s@.skip(6));
            }
            Ok(Key::Clear(secret_new(rest)))
        } else if has_prefix(s, "base64:") {
            let rest = s.substring_char(7, n);
            proof {
                assert(rest@ =~= s@.skip(7));
                assert(s@.take(6) != "clear:"@);
            }
            Ok(Key::Base64(secret_new(rest)))
        } else if has_prefix(s, "uri:") {
            let rest = s.substring_char(4, n);
            proof {
                assert(rest@ =~= s@.skip(4));
            }
            match Uri::try_new(rest) {
                Ok(u) => Ok(Key::Uri(u)),
                Err(e) => Err(InvalidKeyError::InvalidUri(e)),
            }
        } else {
            Err(InvalidKeyError::UnknownMethod)
        }
    }
}

} // verus!
