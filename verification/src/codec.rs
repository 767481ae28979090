//! The attribute line codec: every SDP attribute line is
//! `a=<key>[:<value>]` followed by a carriage-return/line-feed terminator.
//! Centralizing the prefix, terminator and key/value handling here keeps
//! every attribute type byte-exact with the wire format.

use vstd::prelude::*;
use vstd::string::{StrSliceExecFns, StringExecFns};

use crate::text::{find_char, first_ix, has_prefix, has_suffix, lemma_first_ix, lemma_first_ix_is, push_char};

verus! {

/// Error of decoding an attribute line.
#[derive(Clone, Copy, Debug, Eq, PartialEq, Structural)]
pub enum CodecError {
    /// The line does not begin with the fixed attribute-line prefix `a=`.
    MissingPrefix,
    /// The line does not end with the fixed line terminator.
    MissingTerminator,
}

/// What decoding an attribute line yields: the key before the first `:` of
/// the line's body, and the value after it; a bare key without `:` is
/// valid and carries no value.
pub open spec fn spec_unmarshal(line: Seq<char>) -> Result<
    (Seq<char>, Option<Seq<char>>),
    CodecError,
> {
    if !(line.len() >= 2 && line.take(2) == "a="@) {
        Err(CodecError::MissingPrefix)
    } else if !(line.len() >= 4 && line.skip(line.len() - 2) == "\r\n"@) {
        Err(CodecError::MissingTerminator)
    } else {
        let body = line.subrange(2, line.len() - 2);
        let i = first_ix(body, ':');
        if i < 0 {
            Ok((body, None))
        } else {
            Ok((body.take(i), Some(body.skip(i + 1))))
        }
    }
}

/// The exact wire line that carries the given key and optional value.
pub open spec fn spec_marshal(key: Seq<char>, value: Option<Seq<char>>) -> Seq<char> {
    "a="@ + key + (match value {
        Some(v) => seq![':'] + v,
        None => Seq::<char>::empty(),
    }) + "\r\n"@
}

/// Splits a raw attribute line into its key and optional value, verifying
/// the fixed prefix and terminator and stripping both.
pub fn unmarshal(line: &str) -> (r: Result<(String, Option<String>), CodecError>)
    ensures
        (r is Ok) == (spec_unmarshal(line@) is Ok),
        r matches Ok(p) ==> spec_unmarshal(line@) matches Ok(sp) && p.0@ == sp.0 && (match (
            p.1,
            sp.1,
        ) {
            (Some(v), Some(sv)) => v@ == sv,
            (None, None) => true,
            _ => false,
        }),
        r matches Err(e) ==> spec_unmarshal(line@) matches Err(se) && e == se,
{
    proof {
        reveal_strlit("a=");
        reveal_strlit("\r\n");
        assert("a="@.len() == 2 && "\r\n"@.len() == 2);
    }
    let n = line.unicode_len();
    if !has_prefix(line, "a=") {
        return Err(CodecError::MissingPrefix);
    }
    if n < 4 || !has_suffix(line, "\r\n") {
        return Err(CodecError::MissingTerminator);
    }
    let body = line.substring_char(2, n - 2);
    proof {
        assert(body@ =~= line@.subrange(2, line@.len() - 2));
    }
    match find_char(body, ':') {
        None => Ok((body.to_owned(), None)),
        Some(i) => {
            proof {
                lemma_first_ix(body@, ':');
            }
            let k = body.substring_char(0, i);
            let v = body.substring_char(i + 1, n - 4);
            proof {
                assert(k@ =~= body@.take(i as int));
                assert(v@ =~= body@.skip(i + 1));
            }
            Ok((k.to_owned(), Some(v.to_owned())))
        },
    }
}

/// Renders a key and optional value as a complete attribute line: prefix,
/// key, `:` and value when one is present, terminator. This is total: it
/// cannot fail on already-validated inputs, which is what makes every
/// successfully parsed entity round-trip exactly.
pub fn marshal(key: &str, value: Option<&str>) -> (r: String)
    ensures
        r@ == spec_marshal(
            key@,
            match value {
                Some(v) => Some(v@),
                None => None,
            },
        ),
{
    let mut s = String::from_str("a=");
    s.append(key);
    match value {
        Some(v) => {
            push_char(&mut s, ':');
            s.append(v);
        },
        None => (),
    }
    s.append("\r\n");
    proof {
        assert(s@ =~= spec_marshal(
            key@,
            match value {
                Some(v) => Some(v@),
                None => None,
            },
        ));
    }
    s
}

/// Decoding a well-formed attribute line and re-encoding the key and value
/// it yields reproduces the line byte-for-byte.
pub proof fn lemma_unmarshal_marshal(line: Seq<char>)
    requires
        spec_unmarshal(line) is Ok,
    ensures
        spec_unmarshal(line) matches Ok(p) ==> spec_marshal(p.0, p.1) == line,
{
    reveal_strlit("a=");
    reveal_strlit("\r\n");
    assert("a="@.len() == 2 && "\r\n"@.len() == 2);
    let body = line.subrange(2, line.len() - 2);
    let i = first_ix(body, ':');
    lemma_first_ix(body, ':');
    if i < 0 {
        assert(spec_marshal(body, None) =~= line);
    } else {
        assert(body[i] == ':');
        assert(body =~= body.take(i) + seq![':'] + body.skip(i + 1));
        assert(spec_marshal(body.take(i), Some(body.skip(i + 1))) =~= line);
    }
}

/// Encoding any key that holds no `:` and any optional value, then
/// decoding the line, yields the key and value back unchanged.
pub proof fn lemma_marshal_unmarshal(key: Seq<char>, value: Option<Seq<char>>)
    requires
        !key.contains(':'),
    ensures
        spec_unmarshal(spec_marshal(key, value)) matches Ok(p) && p.0 == key && p.1 == value,
{
    reveal_strlit("a=");
    reveal_strlit("\r\n");
    assert("a="@.len() == 2 && "\r\n"@.len() == 2);
    let line = spec_marshal(key, value);
    assert(line.take(2) =~= "a="@);
    assert(line.skip(line.len() - 2) =~= "\r\n"@);
    let body = line.subrange(2, line.len() - 2);
    assert forall|j: int| 0 <= j < key.len() implies key[j] != ':' by {
        if key[j] == ':' {
            assert(key.contains(':'));
        }
    }
    match value {
        None => {
            assert(body =~= key);
            lemma_first_ix(body, ':');
            if first_ix(body, ':') >= 0 {
                assert(body[first_ix(body, ':')] == ':');
            }
        },
        Some(v) => {
            assert(body =~= key + seq![':'] + v);
            lemma_first_ix_is(body, ':', key.len() as int);
            assert(body.take(key.len() as int) =~= key);
            assert(body.skip(key.len() as int + 1) =~= v);
        },
    }
}

} // verus!
