//! Tests of the `extmap` attribute: parsing, serialization, the exact
//! error taxonomy and the byte-for-byte round trip.

use sdp_model::codec::CodecError;
use sdp_model::extmap::{Direction, Error, ExtMap};
use sdp_model::uri::Uri;

const EXAMPLE_ATTR_EXTMAP1: &str = "extmap:1 http://example.com/082005/ext.htm#ttime";
const EXAMPLE_ATTR_EXTMAP2: &str =
    "extmap:2/sendrecv http://example.com/082005/ext.htm#xmeta short";
const FAILING_ATTR_EXTMAP1: &str =
    "extmap:257/sendrecv http://example.com/082005/ext.htm#xmeta short";
const FAILING_ATTR_EXTMAP2: &str = "extmap:2/blorg http://example.com/082005/ext.htm#xmeta short";
const ATTRIBUTE_KEY: &str = "a=";
const END_LINE: &str = "\r\n";

#[test]
fn test_extmap() {
    let example_attr_extmap1_line = EXAMPLE_ATTR_EXTMAP1.to_string();
    let example_attr_extmap2_line = EXAMPLE_ATTR_EXTMAP2.to_string();
    let failing_attr_extmap1_line =
        format!("{}{}{}", ATTRIBUTE_KEY, FAILING_ATTR_EXTMAP1, END_LINE);
    let failing_attr_extmap2_line =
        format!("{}{}{}", ATTRIBUTE_KEY, FAILING_ATTR_EXTMAP2, END_LINE);
    let passingtests = vec![
        (EXAMPLE_ATTR_EXTMAP1, example_attr_extmap1_line),
        (EXAMPLE_ATTR_EXTMAP2, example_attr_extmap2_line),
    ];
    let failingtests = vec![
        (FAILING_ATTR_EXTMAP1, failing_attr_extmap1_line),
        (FAILING_ATTR_EXTMAP2, failing_attr_extmap2_line),
    ];

    for (i, u) in passingtests.iter().enumerate() {
        let actual = ExtMap::unmarshal(&u.1).unwrap();
        assert_eq!(
            u.1,
            actual.marshal(),
            "{}: {} vs {}",
            i,
            u.1,
            actual.marshal()
        );
    }

    for u in failingtests {
        let actual = ExtMap::unmarshal(&u.1);
        assert!(actual.is_err());
    }
}

#[test]
fn test_transport_cc_extmap() {
    //a=extmap:<value>["/"<direction>] <URI> <extensionattributes>
    //a=extmap:3 http://www.ietf.org/id/draft-holmer-rmcat-transport-wide-cc-extensions-01
    let uri = Some(
        Uri::try_new("http://www.ietf.org/id/draft-holmer-rmcat-transport-wide-cc-extensions-01")
            .unwrap(),
    );
    let e = ExtMap {
        value: 3,
        uri,
        direction: Direction::DirectionUnknown,
        ext_attr: None,
    };

    let s = e.marshal();
    if s == "3 http://www.ietf.org/id/draft-holmer-rmcat-transport-wide-cc-extensions-01" {
        assert!(false, "TestTransportCC failed");
    } else {
        assert_eq!(
            s,
            "extmap:3 http://www.ietf.org/id/draft-holmer-rmcat-transport-wide-cc-extensions-01"
        )
    }
}

#[test]
fn extmap_parses_bare_line_without_direction() {
    let m = ExtMap::unmarshal("extmap:1 http://example.com/082005/ext.htm#ttime").unwrap();
    assert_eq!(m.value, 1);
    assert_eq!(m.direction, Direction::DirectionUnknown);
    assert_eq!(
        m.uri.as_ref().unwrap().as_str(),
        "http://example.com/082005/ext.htm#ttime"
    );
    assert_eq!(m.ext_attr, None);
    assert_eq!(
        m.marshal(),
        "extmap:1 http://example.com/082005/ext.htm#ttime"
    );
}

#[test]
fn extmap_parses_direction_and_attributes() {
    let m =
        ExtMap::unmarshal("extmap:2/sendrecv http://example.com/082005/ext.htm#xmeta short")
            .unwrap();
    assert_eq!(m.value, 2);
    assert_eq!(m.direction, Direction::DirectionSendRecv);
    assert_eq!(
        m.uri.as_ref().unwrap().as_str(),
        "http://example.com/082005/ext.htm#xmeta"
    );
    assert_eq!(m.ext_attr.as_deref(), Some("short"));
    assert_eq!(
        m.marshal(),
        "extmap:2/sendrecv http://example.com/082005/ext.htm#xmeta short"
    );
}

#[test]
fn extmap_rejects_id_out_of_field_width() {
    // 257 is a syntactically valid decimal integer, but it exceeds the
    // eight-bit id field, so it is rejected, not truncated.
    let r = ExtMap::unmarshal(
        "a=extmap:257/sendrecv http://example.com/082005/ext.htm#xmeta short\r\n",
    );
    assert_eq!(r.unwrap_err(), Error::InvalidExtensionId);
    let r = ExtMap::unmarshal("extmap:256 http://example.com/082005/ext.htm#ttime");
    assert_eq!(r.unwrap_err(), Error::InvalidExtensionId);
    let m = ExtMap::unmarshal("extmap:255 http://example.com/082005/ext.htm#ttime").unwrap();
    assert_eq!(m.value, 255);
}

#[test]
fn extmap_rejects_unknown_direction_token() {
    // A token outside the closed vocabulary is a hard error, never
    // coerced to the unspecified member.
    let r = ExtMap::unmarshal(
        "a=extmap:2/blorg http://example.com/082005/ext.htm#xmeta short\r\n",
    );
    assert_eq!(r.unwrap_err(), Error::InvalidDirection);
}

#[test]
fn extmap_rejects_non_numeric_id() {
    let r = ExtMap::unmarshal("extmap:abc http://example.com/082005/ext.htm#ttime");
    assert_eq!(r.unwrap_err(), Error::InvalidExtensionId);
}

#[test]
fn extmap_rejects_bad_uri() {
    let r = ExtMap::unmarshal("extmap:1 notaurl");
    assert_eq!(r.unwrap_err(), Error::InvalidUri);
}

#[test]
fn extmap_rejects_wrong_key_and_missing_value() {
    assert_eq!(
        ExtMap::unmarshal("rtpmap:96 VP8/90000").unwrap_err(),
        Error::InvalidKey
    );
    assert_eq!(ExtMap::unmarshal("extmap").unwrap_err(), Error::MissingValue);
    assert_eq!(ExtMap::unmarshal("extmap:").unwrap_err(), Error::MissingValue);
}

#[test]
fn extmap_prefixed_line_demands_terminator() {
    let r = ExtMap::unmarshal("a=extmap:1 http://example.com/082005/ext.htm#ttime");
    assert_eq!(r.unwrap_err(), Error::Codec(CodecError::MissingTerminator));
    let m =
        ExtMap::unmarshal("a=extmap:1 http://example.com/082005/ext.htm#ttime\r\n").unwrap();
    assert_eq!(m.value, 1);
}

#[test]
fn extmap_without_direction_omits_slash() {
    // Absence of a direction must omit the `/` entirely, not emit a `/`
    // followed by an empty token.
    let m = ExtMap {
        value: 5,
        uri: None,
        direction: Direction::DirectionUnknown,
        ext_attr: None,
    };
    let s = m.marshal();
    assert_eq!(s, "extmap:5");
    assert!(!s.contains('/'));
}

#[test]
fn extmap_direction_tokens_round_trip() {
    for tok in ["sendrecv", "sendonly", "recvonly", "inactive"] {
        let line = format!("extmap:7/{} http://example.com/082005/ext.htm#ttime", tok);
        let m = ExtMap::unmarshal(&line).unwrap();
        assert_eq!(m.marshal(), line);
    }
}
