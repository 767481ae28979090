//! A validated URI token: the text of an absolute URI as it appears in an
//! attribute line, checked by the `url` crate and carried through to the
//! wire unchanged.

use vstd::prelude::*;
use vstd::string::StrSliceExecFns;

verus! {

/// Names the acceptance of the `url` crate's parser: whether `s` parses
/// as an absolute URL. The result depends on the characters alone.
pub uninterp spec fn url_ok(s: Seq<char>) -> bool;

/// Relies on `url::Url::parse`: it accepts or rejects a string solely by
/// its content, so its acceptance can be named by [`url_ok`].
#[verifier::external_body]
fn url_accepts(s: &str) -> (r: bool)
    ensures
        r == url_ok(s@),
{
    url::Url::parse(s).is_ok()
}

/// Whether `s` is acceptable as the text of a URI token: non-empty, with
/// neither whitespace nor control characters, so that it stays one token
/// on the wire.
pub open spec fn uri_text_ok(s: Seq<char>) -> bool {
    s.len() > 0 && forall|i: int| 0 <= i < s.len() ==> #[trigger] s[i] > ' '
}

/// A URI as carried by an attribute line: text that the `url` crate
/// accepts as an absolute URL, kept byte-for-byte as it was given so that
/// re-serialization is exact.
#[derive(Clone, Debug, Eq, PartialEq)]
pub struct Uri(String);

/// Error of validating a value to be a valid [`Uri`].
#[derive(Clone, Copy, Debug, Eq, PartialEq, Structural)]
pub struct InvalidUriError;

impl View for Uri {
    type V = Seq<char>;

    closed spec fn view(&self) -> Seq<char> {
        self.0@
    }
}

impl Uri {
    /// Every live [`Uri`] holds a single non-empty token that the `url`
    /// crate accepts.
    pub closed spec fn wf(self) -> bool {
        uri_text_ok(self.0@) && url_ok(self.0@)
    }

    /// Tries to wrap the given text as a URI. The text must parse as an
    /// absolute URL and must be a single clean token: attribute lines
    /// delimit URIs by whitespace, so text with whitespace or control
    /// characters in it could not have come from, nor survive on, the wire.
    pub fn try_new(value: &str) -> (r: Result<Uri, InvalidUriError>)
        ensures
            r is Ok <==> uri_text_ok(value@) && url_ok(value@),
            r matches Ok(u) ==> u@ == value@ && u.wf(),
    {
        let n = value.unicode_len();
        if n == 0 {
            return Err(InvalidUriError);
        }
        let mut i: usize = 0;
        while i < n
            invariant
                0 <= i <= n,
                n == value@.len(),
                forall|j: int| 0 <= j < i ==> #[trigger] value@[j] > ' ',
            decreases n - i,
        {
            if value.get_char(i) <= ' ' {
                return Err(InvalidUriError);
            }
            i = i + 1;
        }
        if url_accepts(value) {
            Ok(Uri(value.to_owned()))
        } else {
            Err(InvalidUriError)
        }
    }

    /// The URI's text, exactly as it was given.
    pub fn as_str(&self) -> (r: &str)
        ensures
            r@ == self@,
    {
        self.0.as_str()
    }

    /// A live [`Uri`] always satisfies its well-formedness predicate; in
    /// particular its text is a non-empty whitespace-free token.
    pub proof fn lemma_wf(self)
        requires
            self.wf(),
        ensures
            uri_text_ok(self@),
            url_ok(self@),
    {
    }
}

} // verus!
