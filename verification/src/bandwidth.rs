//! Representation of an SDP bandwidth (RFC 4566, section 5.8): the
//! proposed bandwidth to be used by the session or media, as a closed
//! tagged variant with an exact wire serializer and parser.

use vstd::prelude::*;
use vstd::string::{StrSliceExecFns, StringExecFns};

use crate::text::{
    dec_rep, dec_val, eq_str, find_char, first_ix, is_dec_string, parse_u64_dec, push_char,
    u64_to_dec,
};

verus! {

/// An ASCII letter or digit.
pub open spec fn is_alnum(c: char) -> bool {
    ('0' <= c && c <= '9') || ('a' <= c && c <= 'z') || ('A' <= c && c <= 'Z')
}

/// Whether every character of `s` from position `k` on is alphanumeric.
pub open spec fn all_alnum_from(s: Seq<char>, k: int) -> bool {
    forall|i: int| k <= i < s.len() ==> is_alnum(#[trigger] s[i])
}

/// Whether `s` is a valid bandwidth type token: one or more alphanumeric
/// characters, optionally preceded by the experimental `X-` prefix.
pub open spec fn valid_bwtype(s: Seq<char>) -> bool {
    ||| s.len() > 0 && all_alnum_from(s, 0)
    ||| s.len() > 2 && s[0] == 'X' && s[1] == '-' && all_alnum_from(s, 2)
}

/// Alphanumeric modifier giving the meaning of a custom bandwidth figure.
#[derive(Clone, Debug, Eq, PartialEq)]
pub struct Type(String);

impl View for Type {
    type V = Seq<char>;

    closed spec fn view(&self) -> Seq<char> {
        self.0@
    }
}

impl Type {
    /// Every live [`Type`] satisfies [`valid_bwtype`].
    pub closed spec fn wf(self) -> bool {
        valid_bwtype(self.0@)
    }

    /// Tries to construct a new [`Type`] out of the given `value`.
    ///
    /// Fails when the value is empty or does not match the token shape
    /// that [`valid_bwtype`] describes.
    pub fn try_new(value: &str) -> (r: Result<Type, InvalidTypeError>)
        ensures
            r is Ok <==> valid_bwtype(value@),
            r matches Ok(t) ==> t@ == value@ && t.wf(),
            r matches Err(e) ==> (e == InvalidTypeError::Empty <==> value@.len() == 0),
    {
        let n = value.unicode_len();
        if n == 0 {
            return Err(InvalidTypeError::Empty);
        }
        let prefixed = n >= 2 && value.get_char(0) == 'X' && value.get_char(1) == '-';
        let start: usize = if prefixed {
            2
        } else {
            0
        };
        if prefixed && n == 2 {
            return Err(InvalidTypeError::Invalid);
        }
        let mut i: usize = start;
        while i < n
            invariant
                start <= i <= n,
                n == value@.len(),
                start == 0 || start == 2,
                start == 2 ==> n > 2 && value@[0] == 'X' && value@[1] == '-',
                start == 0 ==> !(n >= 2 && value@[0] == 'X' && value@[1] == '-'),
                forall|j: int| start <= j < i ==> is_alnum(#[trigger] value@[j]),
            decreases n - i,
        {
            let c = value.get_char(i);
            if !(('0' <= c && c <= '9') || ('a' <= c && c <= 'z') || ('A' <= c && c <= 'Z')) {
                proof {
                    assert(!is_alnum(value@[i as int]));
                    if start == 2 {
                        assert(!all_alnum_from(value@, 0));
                        assert(!all_alnum_from(value@, 2));
                    }
                }
                return Err(InvalidTypeError::Invalid);
            }
            i = i + 1;
        }
        proof {
            if start == 2 {
                assert(all_alnum_from(value@, 2));
            } else {
                assert(all_alnum_from(value@, 0));
            }
        }
        Ok(Type(value.to_owned()))
    }

    /// The token's text.
    pub fn as_str(&self) -> (r: &str)
        ensures
            r@ == self@,
    {
        self.0.as_str()
    }
}

/// Error of validating a value to be a valid [`Type`].
#[derive(Clone, Copy, Debug, Eq, PartialEq, Structural)]
pub enum InvalidTypeError {
    /// [`Type`] is an empty string.
    Empty,
    /// [`Type`] contains characters outside the allowed token shape.
    Invalid,
}

/// Representation of an SDP bandwidth: the proposed bandwidth to be used
/// by the session or media, in kilobits per second unless a custom type
/// defines otherwise.
#[derive(Clone, Debug, Eq, PartialEq)]
pub enum Bandwidth {
    /// Application-specific maximum: bandwidth figure for a single media
    /// at a single site, rendered as `AS:<value>`.
    As(u32),
    /// Conference total: bandwidth figure for all the media at all sites,
    /// rendered as `CT:<value>`.
    Ct(u32),
    /// Transport Independent Application Specific Maximum (RFC 3890),
    /// rendered as `TIAS:<value>`.
    Tias(u32),
    /// Custom bandwidth type, not defined by RFC 4566 or RFC 3890.
    Custom {
        /// Alphanumeric modifier giving the meaning of the figure.
        bwtype: Type,
        /// The bandwidth figure.
        bandwidth: u32,
    },
}

impl Bandwidth {
    /// The wire token this variant dispatches on.
    pub open spec fn token(self) -> Seq<char> {
        match self {
            Bandwidth::As(_) => "AS"@,
            Bandwidth::Ct(_) => "CT"@,
            Bandwidth::Tias(_) => "TIAS"@,
            Bandwidth::Custom { bwtype, .. } => bwtype@,
        }
    }

    /// The bandwidth figure this variant carries.
    pub open spec fn value(self) -> u32 {
        match self {
            Bandwidth::As(v) => v,
            Bandwidth::Ct(v) => v,
            Bandwidth::Tias(v) => v,
            Bandwidth::Custom { bandwidth, .. } => bandwidth,
        }
    }

    /// Wire text of this bandwidth: `<token>:<value>`.
    pub open spec fn wire(self) -> Seq<char> {
        self.token() + seq![':'] + dec_rep(self.value() as nat)
    }

    /// Renders this bandwidth as the exact payload of a `b=` line.
    pub fn marshal(&self) -> (r: String)
        ensures
            r@ == self.wire(),
    {
        let mut s = match self {
            Bandwidth::As(_) => String::from_str("AS"),
            Bandwidth::Ct(_) => String::from_str("CT"),
            Bandwidth::Tias(_) => String::from_str("TIAS"),
            Bandwidth::Custom { bwtype, .. } => {
                let mut s = String::new();
                s.append(bwtype.as_str());
                s
            },
        };
        push_char(&mut s, ':');
        let v = match self {
            Bandwidth::As(v) => *v,
            Bandwidth::Ct(v) => *v,
            Bandwidth::Tias(v) => *v,
            Bandwidth::Custom { bandwidth, .. } => *bandwidth,
        };
        s.append(u64_to_dec(v as u64).as_str());
        proof {
            assert(s@ =~= self.wire());
        }
        s
    }

    /// Whether `s` parses as a bandwidth: a token before the first `:`
    /// that is one of `AS`, `CT`, `TIAS` or a valid custom type, and a
    /// decimal figure after it that fits the field.
    pub open spec fn spec_parse_ok(s: Seq<char>) -> bool {
        let i = first_ix(s, ':');
        &&& i >= 0
        &&& is_dec_string(s.skip(i + 1))
        &&& dec_val(s.skip(i + 1)) <= u32::MAX
        &&& (s.take(i) == "AS"@ || s.take(i) == "CT"@ || s.take(i) == "TIAS"@ || valid_bwtype(
            s.take(i),
        ))
    }

    /// The error that parsing `s` reports when [`Self::spec_parse_ok`]
    /// does not hold: the figure is checked before the token.
    pub open spec fn spec_parse_err(s: Seq<char>) -> InvalidBandwidthError {
        let i = first_ix(s, ':');
        if i < 0 {
            InvalidBandwidthError::MissingColon
        } else if !(is_dec_string(s.skip(i + 1)) && dec_val(s.skip(i + 1)) <= u32::MAX) {
            InvalidBandwidthError::InvalidValue
        } else if s.take(i).len() == 0 {
            InvalidBandwidthError::InvalidType(InvalidTypeError::Empty)
        } else {
            InvalidBandwidthError::InvalidType(InvalidTypeError::Invalid)
        }
    }

    /// Parses the payload of a `b=` line: `<token>:<value>`, dispatching
    /// on the token.
    pub fn parse(s: &str) -> (r: Result<Bandwidth, InvalidBandwidthError>)
        ensures
            r is Ok <==> Self::spec_parse_ok(s@),
            r matches Ok(b) ==> {
                let i = first_ix(s@, ':');
                &&& b.token() == s@.take(i)
                &&& b.value() as nat == dec_val(s@.skip(i + 1))
                &&& (b is As <==> s@.take(i) == "AS"@)
                &&& (b is Ct <==> s@.take(i) == "CT"@)
                &&& (b is Tias <==> s@.take(i) == "TIAS"@)
                &&& (b matches Bandwidth::Custom { bwtype, .. } ==> bwtype.wf())
            },
            r matches Err(e) ==> e == Self::spec_parse_err(s@),
    {
        let n = s.unicode_len();
        let i = match find_char(s, ':') {
            None => {
                return Err(InvalidBandwidthError::MissingColon);
            },
            Some(i) => i,
        };
        proof {
            crate::text::lemma_first_ix(s@, ':');
        }
        let tok = s.substring_char(0, i);
        let rest = s.substring_char(i + 1, n);
        proof {
            assert(tok@ =~= s@.take(i as int));
            assert(rest@ =~= s@.skip(i + 1));
        }
        let v64 = match parse_u64_dec(rest) {
            None => {
                return Err(InvalidBandwidthError::InvalidValue);
            },
            Some(v) => v,
        };
        if v64 > 0xffff_ffff {
            return Err(InvalidBandwidthError::InvalidValue);
        }
        let value = v64 as u32;
        proof {
            reveal_strlit("AS");
            reveal_strlit("CT");
            reveal_strlit("TIAS");
            assert("AS"@[0] == 'A' && "CT"@[0] == 'C' && "TIAS"@[0] == 'T');
            assert("AS"@ != "CT"@ && "AS"@ != "TIAS"@ && "CT"@ != "TIAS"@);
        }
        if eq_str(tok, "AS") {
            Ok(Bandwidth::As(value))
        } else if eq_str(tok, "CT") {
            Ok(Bandwidth::Ct(value))
        } else if eq_str(tok, "TIAS") {
            Ok(Bandwidth::Tias(value))
        } else {
            match Type::try_new(tok) {
                Ok(bwtype) => Ok(Bandwidth::Custom { bwtype, bandwidth: value }),
                Err(e) => {
                    proof {
                        if e == InvalidTypeError::Empty {
                            assert(s@.take(i as int).len() == 0);
                        }
                    }
                    Err(InvalidBandwidthError::InvalidType(e))
                },
            }
        }
    }
}

/// The round-trip law of the bandwidth grammar: the wire text of any
/// bandwidth (with a valid custom type token, which every live [`Type`]
/// carries) parses back, and the parse recovers the same token and figure.
/// Together with the contract of [`Bandwidth::parse`], parsing the output
/// of [`Bandwidth::marshal`] yields the bandwidth back.
pub proof fn lemma_bandwidth_wire_round_trip(b: Bandwidth)
    requires
        b matches Bandwidth::Custom { bwtype, .. } ==> bwtype.wf(),
    ensures
        Bandwidth::spec_parse_ok(b.wire()),
        first_ix(b.wire(), ':') == b.token().len(),
        b.wire().take(b.token().len() as int) == b.token(),
        dec_val(b.wire().skip(b.token().len() as int + 1)) == b.value() as nat,
{
    reveal_strlit("AS");
    reveal_strlit("CT");
    reveal_strlit("TIAS");
    assert("AS"@.len() == 2 && "CT"@.len() == 2 && "TIAS"@.len() == 4);
    assert("AS"@[0] == 'A' && "AS"@[1] == 'S');
    assert("CT"@[0] == 'C' && "CT"@[1] == 'T');
    assert("TIAS"@[0] == 'T' && "TIAS"@[1] == 'I' && "TIAS"@[2] == 'A' && "TIAS"@[3] == 'S');
    let w = b.wire();
    let tok = b.token();
    crate::text::lemma_dec_rep_val(b.value() as nat);
    assert(forall|j: int| 0 <= j < tok.len() ==> #[trigger] tok[j] != ':') by {
        assert forall|j: int| 0 <= j < tok.len() implies #[trigger] tok[j] != ':' by {
            match b {
                Bandwidth::Custom { bwtype, .. } => {
                    assert(valid_bwtype(tok));
                    if tok.len() > 2 && tok[0] == 'X' && tok[1] == '-' && all_alnum_from(tok, 2) {
                        if j >= 2 {
                            assert(is_alnum(tok[j]));
                        }
                    } else {
                        assert(is_alnum(tok[j]));
                    }
                },
                _ => (),
            }
        }
    }
    assert(w[tok.len() as int] == ':');
    crate::text::lemma_first_ix_is(w, ':', tok.len() as int);
    assert(w.take(tok.len() as int) =~= tok);
    assert(w.skip(tok.len() as int + 1) =~= dec_rep(b.value() as nat));
}

/// Error of parsing a value to be a valid [`Bandwidth`].
#[derive(Clone, Copy, Debug, Eq, PartialEq, Structural)]
pub enum InvalidBandwidthError {
    /// The payload holds no `:` separating the token from the figure.
    MissingColon,
    /// The figure is not a decimal number that fits the field.
    InvalidValue,
    /// The token is not `AS`, `CT`, `TIAS` or a valid custom type.
    InvalidType(InvalidTypeError),
}

} // verus!
