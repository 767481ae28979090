//! The `extmap` attribute (RFC 8285): maps a numeric RTP header-extension
//! id to a URI identifying the extension, with an optional direction and
//! free-form trailing attributes.
//!
//! Grammar: `extmap:<value>["/"<direction>] <uri> [<extension-attributes>]`.
//! This is the representative structured attribute: it demonstrates the
//! full error-handling and round-trip contract expected of every attribute
//! type built on the line codec.

use vstd::prelude::*;
use vstd::string::{StrSliceExecFns, StringExecFns};

use crate::codec::CodecError;
use crate::text::{
    dec_rep, dec_val, eq_str, find_char, first_ix, has_prefix, has_suffix, is_dec_string,
    parse_u64_dec, push_char, u64_to_dec,
};
use crate::uri::{uri_text_ok, url_ok, Uri};

verus! {

/// The direction of an RTP header extension.
///
/// Absence of a direction is a distinct valid state, carried by the
/// explicit [`Direction::DirectionUnknown`] member; a direction token that
/// is present but unrecognized is a hard parse error, never coerced to
/// this member.
#[derive(Clone, Copy, Debug, Eq, PartialEq, Structural)]
pub enum Direction {
    /// The extension is sent and received, token `sendrecv`.
    DirectionSendRecv,
    /// The extension is only sent, token `sendonly`.
    DirectionSendOnly,
    /// The extension is only received, token `recvonly`.
    DirectionRecvOnly,
    /// The extension is negotiated but inactive, token `inactive`.
    DirectionInactive,
    /// No direction was specified: the attribute carried no `/direction`
    /// suffix at all. Renders as the empty token and is never emitted
    /// inside a line.
    DirectionUnknown,
}

impl Direction {
    /// The wire token of this direction; empty for the unspecified member.
    pub open spec fn token(self) -> Seq<char> {
        match self {
            Direction::DirectionSendRecv => "sendrecv"@,
            Direction::DirectionSendOnly => "sendonly"@,
            Direction::DirectionRecvOnly => "recvonly"@,
            Direction::DirectionInactive => "inactive"@,
            Direction::DirectionUnknown => Seq::<char>::empty(),
        }
    }

    /// Which direction a token names: exactly the four members of the
    /// closed vocabulary, matched case-sensitively; anything else is none.
    pub open spec fn spec_from_token(s: Seq<char>) -> Option<Direction> {
        if s == "sendrecv"@ {
            Some(Direction::DirectionSendRecv)
        } else if s == "sendonly"@ {
            Some(Direction::DirectionSendOnly)
        } else if s == "recvonly"@ {
            Some(Direction::DirectionRecvOnly)
        } else if s == "inactive"@ {
            Some(Direction::DirectionInactive)
        } else {
            None
        }
    }

    /// Parses a direction token; an unrecognized token yields `None`,
    /// never [`Direction::DirectionUnknown`].
    pub fn from_token(s: &str) -> (r: Option<Direction>)
        ensures
            r == Self::spec_from_token(s@),
            r matches Some(d) ==> !(d is DirectionUnknown) && d.token() == s@,
    {
        if eq_str(s, "sendrecv") {
            Some(Direction::DirectionSendRecv)
        } else if eq_str(s, "sendonly") {
            Some(Direction::DirectionSendOnly)
        } else if eq_str(s, "recvonly") {
            Some(Direction::DirectionRecvOnly)
        } else if eq_str(s, "inactive") {
            Some(Direction::DirectionInactive)
        } else {
            None
        }
    }

    /// Renders this direction as its wire token.
    pub fn marshal(&self) -> (r: &'static str)
        ensures
            r@ == self.token(),
    {
        match self {
            Direction::DirectionSendRecv => "sendrecv",
            Direction::DirectionSendOnly => "sendonly",
            Direction::DirectionRecvOnly => "recvonly",
            Direction::DirectionInactive => "inactive",
            Direction::DirectionUnknown => {
                proof {
                    reveal_strlit("");
                    assert(""@ =~= Seq::<char>::empty());
                }
                ""
            },
        }
    }
}

/// The token of a specified direction is eight characters, none of which
/// is whitespace or a control character.
pub proof fn lemma_direction_token_clean(d: Direction)
    requires
        !(d is DirectionUnknown),
    ensures
        d.token().len() == 8,
        forall|j: int| 0 <= j < d.token().len() ==> #[trigger] d.token()[j] > ' ',
{
    reveal_strlit("sendrecv");
    reveal_strlit("sendonly");
    reveal_strlit("recvonly");
    reveal_strlit("inactive");
    match d {
        Direction::DirectionSendRecv => {
            assert forall|j: int| 0 <= j < d.token().len() implies #[trigger] d.token()[j]
                > ' ' by {
                assert("sendrecv"@[0] == 's' && "sendrecv"@[1] == 'e' && "sendrecv"@[2] == 'n'
                    && "sendrecv"@[3] == 'd' && "sendrecv"@[4] == 'r' && "sendrecv"@[5] == 'e'
                    && "sendrecv"@[6] == 'c' && "sendrecv"@[7] == 'v');
            }
        },
        Direction::DirectionSendOnly => {
            assert forall|j: int| 0 <= j < d.token().len() implies #[trigger] d.token()[j]
                > ' ' by {
                assert("sendonly"@[0] == 's' && "sendonly"@[1] == 'e' && "sendonly"@[2] == 'n'
                    && "sendonly"@[3] == 'd' && "sendonly"@[4] == 'o' && "sendonly"@[5] == 'n'
                    && "sendonly"@[6] == 'l' && "sendonly"@[7] == 'y');
            }
        },
        Direction::DirectionRecvOnly => {
            assert forall|j: int| 0 <= j < d.token().len() implies #[trigger] d.token()[j]
                > ' ' by {
                assert("recvonly"@[0] == 'r' && "recvonly"@[1] == 'e' && "recvonly"@[2] == 'c'
                    && "recvonly"@[3] == 'v' && "recvonly"@[4] == 'o' && "recvonly"@[5] == 'n'
                    && "recvonly"@[6] == 'l' && "recvonly"@[7] == 'y');
            }
        },
        Direction::DirectionInactive => {
            assert forall|j: int| 0 <= j < d.token().len() implies #[trigger] d.token()[j]
                > ' ' by {
                assert("inactive"@[0] == 'i' && "inactive"@[1] == 'n' && "inactive"@[2] == 'a'
                    && "inactive"@[3] == 'c' && "inactive"@[4] == 't' && "inactive"@[5] == 'i'
                    && "inactive"@[6] == 'v' && "inactive"@[7] == 'e');
            }
        },
        Direction::DirectionUnknown => {
        },
    }
}

/// Parsing back the token of a specified direction yields that direction.
pub proof fn lemma_direction_token_round_trip(d: Direction)
    requires
        !(d is DirectionUnknown),
    ensures
        Direction::spec_from_token(d.token()) == Some(d),
{
    reveal_strlit("sendrecv");
    reveal_strlit("sendonly");
    reveal_strlit("recvonly");
    reveal_strlit("inactive");
    assert("sendrecv"@[0] == 's' && "sendonly"@[0] == 's' && "recvonly"@[0] == 'r'
        && "inactive"@[0] == 'i');
    assert("sendrecv"@[4] == 'r' && "sendonly"@[4] == 'o');
    assert("sendrecv"@ != "sendonly"@ && "sendrecv"@ != "recvonly"@ && "sendrecv"@
        != "inactive"@);
    assert("sendonly"@ != "recvonly"@ && "sendonly"@ != "inactive"@);
    assert("recvonly"@ != "inactive"@);
}

/// Error of parsing a value to be a valid [`ExtMap`]. All failures are
/// reported; none are silently recovered or defaulted.
#[derive(Clone, Copy, Debug, Eq, PartialEq, Structural)]
pub enum Error {
    /// The line carried the attribute prefix but broke the line codec's
    /// contract.
    Codec(CodecError),
    /// The attribute key is not the literal `extmap`.
    InvalidKey,
    /// The attribute carries no value payload, or an empty one.
    MissingValue,
    /// The extension id is not a decimal number that fits the field's
    /// numeric width.
    InvalidExtensionId,
    /// The direction token is outside the closed direction vocabulary.
    InvalidDirection,
    /// The URI token is not an absolute URI.
    InvalidUri,
}

/// The mathematical model of an [`ExtMap`]: its fields with text as
/// character sequences.
#[verifier::ext_equal]
pub struct SpecExtMap {
    /// The numeric extension id.
    pub value: u8,
    /// The direction, or its explicit unspecified member.
    pub direction: Direction,
    /// The URI text, when one is present.
    pub uri: Option<Seq<char>>,
    /// The trailing extension attributes, when present.
    pub ext_attr: Option<Seq<char>>,
}

impl SpecExtMap {
    /// Wire text of this model: `extmap:<value>`, then `/<direction>` iff
    /// a direction is present, then ` <uri>` iff one is present, then
    /// ` <extension-attributes>` iff present.
    pub open spec fn wire(self) -> Seq<char> {
        "extmap:"@ + dec_rep(self.value as nat) + (if self.direction is DirectionUnknown {
            Seq::<char>::empty()
        } else {
            seq!['/'] + self.direction.token()
        }) + (match self.uri {
            Some(u) => seq![' '] + u,
            None => Seq::<char>::empty(),
        }) + (match self.ext_attr {
            Some(e) => seq![' '] + e,
            None => Seq::<char>::empty(),
        })
    }
}

/// Representation of one `extmap` attribute.
#[derive(Debug, Eq, PartialEq)]
pub struct ExtMap {
    /// The numeric extension id.
    pub value: u8,
    /// The URI identifying the extension, when one is present.
    pub uri: Option<Uri>,
    /// The direction, or its explicit unspecified member.
    pub direction: Direction,
    /// The trailing free-form extension attributes, when present.
    pub ext_attr: Option<String>,
}

impl View for ExtMap {
    type V = SpecExtMap;

    open spec fn view(&self) -> SpecExtMap {
        SpecExtMap {
            value: self.value,
            direction: self.direction,
            uri: match self.uri {
                Some(u) => Some(u@),
                None => None,
            },
            ext_attr: match self.ext_attr {
                Some(e) => Some(e@),
                None => None,
            },
        }
    }
}

impl ExtMap {
    /// A parsed [`ExtMap`] carries a well-formed URI when it carries one.
    pub open spec fn wf(self) -> bool {
        match self.uri {
            Some(u) => u.wf(),
            None => true,
        }
    }

    /// Wire text of this attribute, without line prefix and terminator.
    pub open spec fn wire(self) -> Seq<char> {
        self@.wire()
    }

    /// What the key and optional value of a line yield: the key must be
    /// the literal `extmap` and the value payload must be present and
    /// non-empty, and is then parsed by [`Self::spec_parse_payload`].
    pub open spec fn spec_parse_key_value(key: Seq<char>, value: Option<Seq<char>>) -> Result<
        SpecExtMap,
        Error,
    > {
        if key != "extmap"@ {
            Err(Error::InvalidKey)
        } else {
            match value {
                None => Err(Error::MissingValue),
                Some(p) => if p.len() == 0 {
                    Err(Error::MissingValue)
                } else {
                    Self::spec_parse_payload(p)
                },
            }
        }
    }

    /// What the payload after `extmap:` yields: the first token split into
    /// id and optional direction, then an optional URI token, then the
    /// rest verbatim as extension attributes.
    pub open spec fn spec_parse_payload(p: Seq<char>) -> Result<SpecExtMap, Error> {
        let isp = first_ix(p, ' ');
        let tok1 = if isp < 0 {
            p
        } else {
            p.take(isp)
        };
        let isl = first_ix(tok1, '/');
        let valstr = if isl < 0 {
            tok1
        } else {
            tok1.take(isl)
        };
        if !(is_dec_string(valstr) && dec_val(valstr) <= 255) {
            Err(Error::InvalidExtensionId)
        } else {
            let dir_opt = if isl < 0 {
                Some(Direction::DirectionUnknown)
            } else {
                Direction::spec_from_token(tok1.skip(isl + 1))
            };
            match dir_opt {
                None => Err(Error::InvalidDirection),
                Some(direction) => {
                    if isp < 0 {
                        Ok(
                            SpecExtMap {
                                value: dec_val(valstr) as u8,
                                direction,
                                uri: None,
                                ext_attr: None,
                            },
                        )
                    } else {
                        let r1 = p.skip(isp + 1);
                        let iu = first_ix(r1, ' ');
                        let uritok = if iu < 0 {
                            r1
                        } else {
                            r1.take(iu)
                        };
                        if !(uri_text_ok(uritok) && url_ok(uritok)) {
                            Err(Error::InvalidUri)
                        } else {
                            let ext = if iu < 0 {
                                None
                            } else if r1.skip(iu + 1).len() == 0 {
                                None
                            } else {
                                Some(r1.skip(iu + 1))
                            };
                            Ok(
                                SpecExtMap {
                                    value: dec_val(valstr) as u8,
                                    direction,
                                    uri: Some(uritok),
                                    ext_attr: ext,
                                },
                            )
                        }
                    }
                },
            }
        }
    }

    /// What parsing a complete line yields. A line that carries the
    /// attribute prefix goes through the line codec, which demands the
    /// terminator and strips both; a bare line may carry the terminator,
    /// which is stripped, or none, and is split on its first `:` the same
    /// way the codec splits a body.
    pub open spec fn spec_unmarshal(line: Seq<char>) -> Result<SpecExtMap, Error> {
        if line.len() >= 2 && line.take(2) == "a="@ {
            match crate::codec::spec_unmarshal(line) {
                Err(e) => Err(Error::Codec(e)),
                Ok((key, value)) => Self::spec_parse_key_value(key, value),
            }
        } else {
            let body = if line.len() >= 2 && line.skip(line.len() - 2) == "\r\n"@ {
                line.take(line.len() - 2)
            } else {
                line
            };
            let i = first_ix(body, ':');
            if i < 0 {
                Self::spec_parse_key_value(body, None)
            } else {
                Self::spec_parse_key_value(body.take(i), Some(body.skip(i + 1)))
            }
        }
    }

    /// Parses one `extmap` attribute line.
    ///
    /// The line may come with the `a=` prefix and `\r\n` terminator, which
    /// are stripped (a prefixed line missing its terminator is rejected),
    /// or bare. All failures are reported as the exact error the model
    /// [`Self::spec_unmarshal`] names; a value is returned only on full
    /// success, never partially populated.
    pub fn unmarshal(line: &str) -> (r: Result<ExtMap, Error>)
        ensures
            (r is Ok) == (Self::spec_unmarshal(line@) is Ok),
            r matches Ok(m) ==> Self::spec_unmarshal(line@) matches Ok(sm) && m@ == sm && m.wf(),
            r matches Err(e) ==> Self::spec_unmarshal(line@) matches Err(se) && e == se,
    {
        proof {
            reveal_strlit("a=");
            reveal_strlit("\r\n");
            assert("a="@.len() == 2 && "\r\n"@.len() == 2);
        }
        if has_prefix(line, "a=") {
            match crate::codec::unmarshal(line) {
                Err(e) => Err(Error::Codec(e)),
                Ok((key, value)) => {
                    let value_ref: Option<&str> = match &value {
                        Some(v) => Some(v.as_str()),
                        None => None,
                    };
                    Self::parse_key_value(key.as_str(), value_ref)
                },
            }
        } else {
            let n = line.unicode_len();
            let body: &str = if has_suffix(line, "\r\n") {
                let b = line.substring_char(0, n - 2);
                proof {
                    assert(b@ =~= line@.take(line@.len() - 2));
                }
                b
            } else {
                line
            };
            let bn = body.unicode_len();
            match find_char(body, ':') {
                None => Self::parse_key_value(body, None),
                Some(i) => {
                    proof {
                        crate::text::lemma_first_ix(body@, ':');
                    }
                    let k = body.substring_char(0, i);
                    let p = body.substring_char(i + 1, bn);
                    proof {
                        assert(k@ =~= body@.take(i as int));
                        assert(p@ =~= body@.skip(i + 1));
                    }
                    Self::parse_key_value(k, Some(p))
                },
            }
        }
    }

    /// Parses the key and optional value of an attribute line as an
    /// `extmap` attribute.
    fn parse_key_value(key: &str, value: Option<&str>) -> (r: Result<ExtMap, Error>)
        ensures
            ({
                let sv = match value {
                    Some(v) => Some(v@),
                    None => None::<Seq<char>>,
                };
                &&& (r is Ok) == (Self::spec_parse_key_value(key@, sv) is Ok)
                &&& (r matches Ok(m) ==> Self::spec_parse_key_value(key@, sv) matches Ok(sm)
                    && m@ == sm && m.wf())
                &&& (r matches Err(e) ==> Self::spec_parse_key_value(key@, sv) matches Err(se)
                    && e == se)
            }),
    {
        if !eq_str(key, "extmap") {
            return Err(Error::InvalidKey);
        }
        match value {
            None => Err(Error::MissingValue),
            Some(p) => {
                if p.unicode_len() == 0 {
                    Err(Error::MissingValue)
                } else {
                    Self::parse_payload(p)
                }
            },
        }
    }

    /// Parses the value payload of an `extmap` attribute, after the key.
    fn parse_payload(payload: &str) -> (r: Result<ExtMap, Error>)
        ensures
            (r is Ok) == (Self::spec_parse_payload(payload@) is Ok),
            r matches Ok(m) ==> Self::spec_parse_payload(payload@) matches Ok(sm) && m@ == sm
                && m.wf(),
            r matches Err(e) ==> Self::spec_parse_payload(payload@) matches Err(se) && e == se,
    {
        let pn = payload.unicode_len();
        let (tok1, rest_opt): (&str, Option<&str>) = match find_char(payload, ' ') {
            None => (payload, None),
            Some(i) => {
                proof {
                    crate::text::lemma_first_ix(payload@, ' ');
                }
                let t = payload.substring_char(0, i);
                let rest = payload.substring_char(i + 1, pn);
                proof {
                    assert(t@ =~= payload@.take(i as int));
                    assert(rest@ =~= payload@.skip(i + 1));
                }
                (t, Some(rest))
            },
        };
        let tn = tok1.unicode_len();
        let (valstr, dirtok_opt): (&str, Option<&str>) = match find_char(tok1, '/') {
            None => (tok1, None),
            Some(i) => {
                proof {
                    crate::text::lemma_first_ix(tok1@, '/');
                }
                let v = tok1.substring_char(0, i);
                let d = tok1.substring_char(i + 1, tn);
                proof {
                    assert(v@ =~= tok1@.take(i as int));
                    assert(d@ =~= tok1@.skip(i + 1));
                }
                (v, Some(d))
            },
        };
        let value: u8 = match parse_u64_dec(valstr) {
            None => {
                return Err(Error::InvalidExtensionId);
            },
            Some(v) => {
                if v > 255 {
                    return Err(Error::InvalidExtensionId);
                }
                v as u8
            },
        };
        let direction: Direction = match dirtok_opt {
            None => Direction::DirectionUnknown,
            Some(d) => match Direction::from_token(d) {
                None => {
                    return Err(Error::InvalidDirection);
                },
                Some(dir) => dir,
            },
        };
        let (uri, ext_attr): (Option<Uri>, Option<String>) = match rest_opt {
            None => (None, None),
            Some(r1) => {
                let rn = r1.unicode_len();
                let (uritok, ext_opt): (&str, Option<&str>) = match find_char(r1, ' ') {
                    None => (r1, None),
                    Some(i) => {
                        proof {
                            crate::text::lemma_first_ix(r1@, ' ');
                        }
                        let u = r1.substring_char(0, i);
                        let e = r1.substring_char(i + 1, rn);
                        proof {
                            assert(u@ =~= r1@.take(i as int));
                            assert(e@ =~= r1@.skip(i + 1));
                        }
                        (u, Some(e))
                    },
                };
                let u = match Uri::try_new(uritok) {
                    Err(_) => {
                        return Err(Error::InvalidUri);
                    },
                    Ok(u) => u,
                };
                let ext = match ext_opt {
                    None => None,
                    Some(e) => {
                        if e.unicode_len() == 0 {
                            None
                        } else {
                            Some(e.to_owned())
                        }
                    },
                };
                (Some(u), ext)
            },
        };
        let m = ExtMap { value, uri, direction, ext_attr };
        proof {
            let sm = Self::spec_parse_payload(payload@)->Ok_0;
            assert(m@ =~= sm);
        }
        Ok(m)
    }

    /// Renders this attribute as its exact wire text, without line prefix
    /// and terminator: `extmap:<value>`, then `/<direction>` iff a
    /// direction is present, then ` <uri>` and ` <extension-attributes>`
    /// iff present. Total: serialization cannot fail.
    pub fn marshal(&self) -> (r: String)
        ensures
            r@ == self.wire(),
    {
        let mut s = String::from_str("extmap:");
        s.append(u64_to_dec(self.value as u64).as_str());
        match self.direction {
            Direction::DirectionUnknown => (),
            _ => {
                push_char(&mut s, '/');
                s.append(self.direction.marshal());
            },
        }
        match &self.uri {
            Some(u) => {
                push_char(&mut s, ' ');
                s.append(u.as_str());
            },
            None => (),
        }
        match &self.ext_attr {
            Some(e) => {
                push_char(&mut s, ' ');
                s.append(e.as_str());
            },
            None => (),
        }
        proof {
            assert(s@ =~= self.wire());
        }
        s
    }
}

/// Absence versus invalidity, serialized: an attribute built with no
/// direction omits the `/` entirely. Right after `extmap:<value>` comes
/// either the end of the text or a space, never a `/` with an empty token.
pub proof fn lemma_unspecified_direction_omits_slash(m: SpecExtMap)
    requires
        m.direction is DirectionUnknown,
    ensures
        ({
            let head = "extmap:"@ + dec_rep(m.value as nat);
            &&& m.wire().len() >= head.len()
            &&& m.wire().take(head.len() as int) == head
            &&& (m.wire().len() > head.len() ==> m.wire()[head.len() as int] == ' ')
        }),
{
    let head = "extmap:"@ + dec_rep(m.value as nat);
    let upart = match m.uri {
        Some(u) => seq![' '] + u,
        None => Seq::<char>::empty(),
    };
    let epart = match m.ext_attr {
        Some(e) => seq![' '] + e,
        None => Seq::<char>::empty(),
    };
    assert(m.wire() =~= head + upart + epart);
    assert(m.wire().take(head.len() as int) =~= head);
    if m.wire().len() > head.len() {
        if upart.len() > 0 {
            assert(m.wire()[head.len() as int] == upart[0]);
        } else {
            assert(m.wire()[head.len() as int] == epart[0]);
        }
    }
}

/// The round-trip law of the `extmap` grammar: any attribute whose URI is
/// a well-formed token, whose trailing attributes are non-empty and hold
/// no line break, and which carries trailing attributes only together with
/// a URI, parses back from its own wire text to exactly itself.
#[verifier::rlimit(60)]
pub proof fn lemma_wire_round_trip(m: SpecExtMap)
    requires
        m.uri matches Some(u) ==> uri_text_ok(u) && url_ok(u),
        m.ext_attr matches Some(e) ==> e.len() > 0 && !e.contains('\n'),
        m.ext_attr is Some ==> m.uri is Some,
    ensures
        ExtMap::spec_unmarshal(m.wire()) == Ok::<SpecExtMap, Error>(m),
{
    reveal_strlit("extmap:");
    reveal_strlit("extmap");
    reveal_strlit("a=");
    reveal_strlit("\r\n");
    assert("extmap:"@.len() == 7 && "extmap"@.len() == 6 && "a="@.len() == 2 && "\r\n"@.len()
        == 2);
    assert("extmap:"@[0] == 'e' && "extmap:"@[1] == 'x' && "extmap:"@[2] == 't' && "extmap:"@[3]
        == 'm' && "extmap:"@[4] == 'a' && "extmap:"@[5] == 'p' && "extmap:"@[6] == ':');
    assert("extmap"@[0] == 'e' && "extmap"@[1] == 'x' && "extmap"@[2] == 't' && "extmap"@[3]
        == 'm' && "extmap"@[4] == 'a' && "extmap"@[5] == 'p');
    assert("a="@[0] == 'a' && "a="@[1] == '=');
    assert("\r\n"@[0] == '\r' && "\r\n"@[1] == '\n');
    crate::text::lemma_dec_rep_val(m.value as nat);
    let w = m.wire();
    let hd = "extmap:"@;
    let v = dec_rep(m.value as nat);
    let dpart = if m.direction is DirectionUnknown {
        Seq::<char>::empty()
    } else {
        seq!['/'] + m.direction.token()
    };
    let upart = match m.uri {
        Some(u) => seq![' '] + u,
        None => Seq::<char>::empty(),
    };
    let epart = match m.ext_attr {
        Some(e) => seq![' '] + e,
        None => Seq::<char>::empty(),
    };
    assert(w == hd + v + dpart + upart + epart);
    assert(is_dec_string(v));
    assert(v.len() >= 1);
    assert(forall|j: int| 0 <= j < v.len() ==> '0' <= #[trigger] v[j] && v[j] <= '9');
    if !(m.direction is DirectionUnknown) {
        lemma_direction_token_clean(m.direction);
    }
    // The wire text carries no line prefix ...
    assert(w[0] == 'e');
    assert(w.take(2) != "a="@) by {
        assert(w.take(2)[0] == 'e');
    }
    // ... and no line terminator: its last character is never a line feed.
    let last = w[w.len() - 1];
    assert(last != '\n') by {
        if epart.len() > 0 {
            let e = m.ext_attr->Some_0;
            assert(last == e[e.len() - 1]);
            if e[e.len() - 1] == '\n' {
                assert(e.contains('\n'));
            }
        } else if upart.len() > 0 {
            let u = m.uri->Some_0;
            assert(last == u[u.len() - 1]);
            assert(u[u.len() - 1] > ' ');
        } else if dpart.len() > 0 {
            let t = m.direction.token();
            assert(last == t[t.len() - 1]);
            assert(t[t.len() - 1] > ' ');
        } else {
            assert(last == v[v.len() - 1]);
        }
    }
    assert(w.skip(w.len() - 2) != "\r\n"@) by {
        assert(w.skip(w.len() - 2)[1] == last);
    }
    // So the wire text takes the bare-line path, unchanged.
    // The first colon ends the literal key.
    crate::text::lemma_first_ix_is(w, ':', 6);
    assert(w.take(6) =~= "extmap"@);
    let p = w.skip(7);
    assert(p =~= v + dpart + upart + epart);
    assert(p.len() > 0);
    // The first space of the payload, when any, ends the first token.
    let isp = first_ix(p, ' ');
    let tok1_len = v.len() + dpart.len();
    assert(forall|j: int| 0 <= j < tok1_len ==> #[trigger] p[j] != ' ') by {
        assert forall|j: int| 0 <= j < tok1_len implies #[trigger] p[j] != ' ' by {
            if j < v.len() {
                assert(p[j] == v[j]);
            } else if j == v.len() {
                assert(p[j] == '/');
            } else {
                assert(p[j] == m.direction.token()[j - v.len() - 1]);
            }
        }
    }
    let tok1 = if isp < 0 {
        p
    } else {
        p.take(isp)
    };
    if m.uri is None {
        assert(m.ext_attr is None);
        assert(p =~= v + dpart);
        assert(!p.contains(' ')) by {
            if p.contains(' ') {
                let j = choose|j: int| 0 <= j < p.len() && p[j] == ' ';
                assert(p[j] != ' ');
            }
        }
        crate::text::lemma_first_ix(p, ' ');
        assert(isp == -1);
        assert(tok1 == p);
    } else {
        assert(p[tok1_len as int] == ' ');
        crate::text::lemma_first_ix_is(p, ' ', tok1_len as int);
        assert(isp == tok1_len);
        assert(tok1 =~= v + dpart);
    }
    assert(tok1 =~= v + dpart);
    // The slash, when any, ends the id digits.
    let isl = first_ix(tok1, '/');
    let valstr = if isl < 0 {
        tok1
    } else {
        tok1.take(isl)
    };
    if m.direction is DirectionUnknown {
        assert(tok1 =~= v);
        assert(!tok1.contains('/')) by {
            if tok1.contains('/') {
                let j = choose|j: int| 0 <= j < tok1.len() && tok1[j] == '/';
                assert(is_dec_string(v));
                assert('0' <= v[j] && v[j] <= '9');
            }
        }
        crate::text::lemma_first_ix(tok1, '/');
        assert(isl == -1);
        assert(valstr == v);
    } else {
        assert(tok1[v.len() as int] == '/');
        assert(forall|j: int| 0 <= j < v.len() ==> #[trigger] tok1[j] == v[j]);
        crate::text::lemma_first_ix_is(tok1, '/', v.len() as int);
        assert(isl == v.len());
        assert(valstr =~= v);
        assert(tok1.skip(isl + 1) =~= m.direction.token());
        lemma_direction_token_round_trip(m.direction);
    }
    assert(is_dec_string(valstr) && dec_val(valstr) == m.value as nat);
    assert(dec_val(valstr) <= 255);
    match m.uri {
        None => {
            assert(ExtMap::spec_parse_payload(p) matches Ok(sm) && sm =~= m);
        },
        Some(u) => {
            let r1 = p.skip(isp + 1);
            assert(r1 =~= u + epart);
            let iu = first_ix(r1, ' ');
            let uritok = if iu < 0 {
                r1
            } else {
                r1.take(iu)
            };
            assert(forall|j: int| 0 <= j < u.len() ==> #[trigger] r1[j] == u[j]);
            match m.ext_attr {
                None => {
                    assert(r1 =~= u);
                    assert(!r1.contains(' ')) by {
                        if r1.contains(' ') {
                            let j = choose|j: int| 0 <= j < r1.len() && r1[j] == ' ';
                            assert(u[j] > ' ');
                        }
                    }
                    crate::text::lemma_first_ix(r1, ' ');
                    assert(iu == -1);
                    assert(uritok == u);
                    assert(ExtMap::spec_parse_payload(p) matches Ok(sm) && sm =~= m);
                },
                Some(e) => {
                    assert(r1[u.len() as int] == ' ');
                    assert(forall|j: int| 0 <= j < u.len() ==> #[trigger] r1[j] != ' ');
                    crate::text::lemma_first_ix_is(r1, ' ', u.len() as int);
                    assert(iu == u.len());
                    assert(uritok =~= u);
                    assert(r1.skip(iu + 1) =~= e);
                    assert(e.len() > 0);
                    assert(ExtMap::spec_parse_payload(p) matches Ok(sm) && sm =~= m);
                },
            }
        },
    }
    assert(ExtMap::spec_unmarshal(w) matches Ok(sm) && sm =~= m);
}

} // verus!
