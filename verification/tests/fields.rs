//! Tests of the validated newtypes, the field models and their exact wire
//! serialization, and the attribute line codec.

use sdp_model::address;
use sdp_model::address::Typed;
use sdp_model::bandwidth::{Bandwidth, InvalidBandwidthError, InvalidTypeError, Type};
use sdp_model::codec;
use sdp_model::codec::CodecError;
use sdp_model::connection::{Data, InvalidIpError, Ip};
use sdp_model::email;
use sdp_model::encryption::{InvalidKeyError, Key, Secret};
use sdp_model::origin::{InvalidUsernameError, Origin, Username};
use sdp_model::session::{Id, Information, Name, Version};
use sdp_model::timing::{Description, Duration, Offset, RepeatTime, Time, TimeZone, Timing};
use sdp_model::uri::Uri;

#[test]
fn timing_zero_and_permanence_predicates() {
    let both_zero = Timing {
        start_time: Time::new(0),
        stop_time: Time::new(0),
    };
    assert!(both_zero.is_unbounded());
    assert!(both_zero.is_permanent());

    let no_stop = Timing {
        start_time: Time::new(5),
        stop_time: Time::new(0),
    };
    assert!(no_stop.is_unbounded());
    assert!(!no_stop.is_permanent());

    let bounded = Timing {
        start_time: Time::new(5),
        stop_time: Time::new(10),
    };
    assert!(!bounded.is_unbounded());
    assert!(!bounded.is_permanent());
}

#[test]
fn timing_marshals_start_then_stop() {
    let t = Timing {
        start_time: Time::new(3034423619),
        stop_time: Time::new(3042462419),
    };
    assert_eq!(t.marshal(), "3034423619 3042462419");
    assert!(Time::new(0).iz_zero());
    assert!(!Time::new(7).iz_zero());
    assert_eq!(Time::new(42).get(), 42);
}

#[test]
fn repeat_time_marshals_duration_before_interval() {
    let r = RepeatTime {
        repeat_interval: Duration::new(604800),
        active_duration: Duration::new(3600),
        offsets: vec![Offset::new(0), Offset::new(90000)],
    };
    assert_eq!(r.marshal(), "3600 604800 0 90000");
    let bare = RepeatTime {
        repeat_interval: Duration::new(604800),
        active_duration: Duration::new(3600),
        offsets: vec![],
    };
    assert_eq!(bare.marshal(), "3600 604800");
    let d = Description {
        timing: Timing {
            start_time: Time::new(0),
            stop_time: Time::new(0),
        },
        repeat_times: vec![r],
    };
    assert_eq!(d.repeat_times.len(), 1);
}

#[test]
fn time_zone_marshals_negative_offset() {
    let z = TimeZone {
        adjustment_time: Time::new(2882844526),
        offset: Offset::new(-3600),
    };
    assert_eq!(z.marshal(), "2882844526 -3600");
    assert!(Offset::new(0).is_zero());
    assert!(!Offset::new(-1).is_zero());
    assert_eq!(Offset::new(-7).get(), -7);
}

#[test]
fn duration_converts_to_std() {
    assert!(Duration::new(0).is_zero());
    assert!(!Duration::new(9).is_zero());
    assert_eq!(Duration::new(42).to_std(), std::time::Duration::from_secs(42));
    assert_eq!(Duration::new(42).get(), 42);
}

#[test]
fn username_errors_are_discriminable() {
    assert!(matches!(
        Username::try_new("-"),
        Err(InvalidUsernameError::Hyphen)
    ));
    assert!(matches!(
        Username::try_new(""),
        Err(InvalidUsernameError::Empty)
    ));
    assert!(matches!(
        Username::try_new("a b"),
        Err(InvalidUsernameError::WithSpaces)
    ));
    assert_eq!(Username::try_new("jdoe").unwrap().as_str(), "jdoe");
}

#[test]
fn origin_marshals_absent_username_as_hyphen() {
    let o = Origin {
        username: None,
        sess_id: Id::new(20518),
        sess_version: Version::new(0),
        unicast_address: Data::Ip(Ip::try_new(address::Type::Ip4, "203.0.113.1").unwrap()),
    };
    assert_eq!(o.marshal(), "- 20518 0 IN IP4 203.0.113.1");
    let o = Origin {
        username: Some(Username::try_new("jdoe").unwrap()),
        sess_id: Id::new(2890844526),
        sess_version: Version::new(2890842807),
        unicast_address: Data::Ip(Ip::try_new(address::Type::Ip4, "10.47.16.5").unwrap()),
    };
    assert_eq!(o.marshal(), "jdoe 2890844526 2890842807 IN IP4 10.47.16.5");
}

#[test]
fn session_version_orders_updates() {
    assert!(Version::new(1).precedes(Version::new(2)));
    assert!(!Version::new(2).precedes(Version::new(2)));
    assert_eq!(Id::new(7).get(), 7);
    assert_eq!(Version::new(9).get(), 9);
}

#[test]
fn session_name_rejects_empty_and_defaults_to_space() {
    assert!(Name::try_new("").is_err());
    assert_eq!(Name::try_new("Session SDP").unwrap().as_str(), "Session SDP");
    assert_eq!(Name::default().as_str(), " ");
    assert_eq!(Information::new("A Seminar on the session description protocol").as_str(),
        "A Seminar on the session description protocol");
    assert_eq!(email::Address::new("j.doe@example.com (Jane Doe)").as_str(),
        "j.doe@example.com (Jane Doe)");
}

#[test]
fn connection_address_type_follows_shape() {
    let ip4 = Ip::try_new(address::Type::Ip4, "224.2.36.42").unwrap();
    assert_eq!(ip4.addrtype(), address::Type::Ip4);
    let ip6 = Ip::try_new(address::Type::Ip6, "2001:db8::1").unwrap();
    assert_eq!(ip6.addrtype(), address::Type::Ip6);
    let fqdn = Data::Fqdn {
        addrtype: address::Type::Ip6,
        domain: "example.com".to_string(),
    };
    assert_eq!(fqdn.addrtype(), address::Type::Ip6);
    assert_eq!(fqdn.marshal(), "IN IP6 example.com");
    assert_eq!(
        Data::Ip(ip4).marshal(),
        "IN IP4 224.2.36.42"
    );
    assert!(matches!(
        Ip::try_new(address::Type::Ip4, ""),
        Err(InvalidIpError::Empty)
    ));
    assert!(matches!(
        Ip::try_new(address::Type::Ip4, "10.0.0.1 extra"),
        Err(InvalidIpError::InvalidCharacters)
    ));
    assert_eq!(address::Type::Ip4.marshal(), "IP4");
    assert_eq!(address::Type::Ip6.marshal(), "IP6");
}

#[test]
fn bandwidth_round_trips_through_wire_text() {
    for line in ["AS:128", "CT:100", "TIAS:96000", "X-custom:5", "throughput:42"] {
        let b = Bandwidth::parse(line).unwrap();
        assert_eq!(b.marshal(), line);
    }
    assert!(matches!(Bandwidth::parse("AS:128").unwrap(), Bandwidth::As(128)));
    assert!(matches!(Bandwidth::parse("CT:100").unwrap(), Bandwidth::Ct(100)));
    assert!(matches!(
        Bandwidth::parse("TIAS:96000").unwrap(),
        Bandwidth::Tias(96000)
    ));
    assert!(matches!(
        Bandwidth::parse("X-custom:5").unwrap(),
        Bandwidth::Custom { .. }
    ));
}

#[test]
fn bandwidth_reports_each_error() {
    assert_eq!(
        Bandwidth::parse("AS").unwrap_err(),
        InvalidBandwidthError::MissingColon
    );
    assert_eq!(
        Bandwidth::parse("AS:12x").unwrap_err(),
        InvalidBandwidthError::InvalidValue
    );
    assert_eq!(
        Bandwidth::parse("AS:4294967296").unwrap_err(),
        InvalidBandwidthError::InvalidValue
    );
    assert_eq!(
        Bandwidth::parse(":5").unwrap_err(),
        InvalidBandwidthError::InvalidType(InvalidTypeError::Empty)
    );
    assert_eq!(
        Bandwidth::parse("b@d:5").unwrap_err(),
        InvalidBandwidthError::InvalidType(InvalidTypeError::Invalid)
    );
}

#[test]
fn bandwidth_type_token_shape() {
    assert!(matches!(Type::try_new(""), Err(InvalidTypeError::Empty)));
    assert!(matches!(Type::try_new("X-"), Err(InvalidTypeError::Invalid)));
    assert!(matches!(Type::try_new("X-a b"), Err(InvalidTypeError::Invalid)));
    assert_eq!(Type::try_new("X-custom").unwrap().as_str(), "X-custom");
    assert_eq!(Type::try_new("throughput").unwrap().as_str(), "throughput");
}

#[test]
fn encryption_key_round_trips_each_method() {
    for line in [
        "clear:somekey",
        "base64:c29tZWtleQ==",
        "uri:https://example.com/key",
        "prompt",
    ] {
        let k = Key::parse(line).unwrap();
        assert_eq!(k.marshal(), line);
    }
    assert!(matches!(Key::parse("prompt").unwrap(), Key::Prompt));
    assert!(matches!(
        Key::parse("rot13:xrl").unwrap_err(),
        InvalidKeyError::UnknownMethod
    ));
    assert!(matches!(
        Key::parse("uri:not a uri").unwrap_err(),
        InvalidKeyError::InvalidUri(_)
    ));
}

#[test]
fn encryption_key_debug_never_leaks_the_secret() {
    // Only the explicit wire serialization may expose the secret text.
    let k = Key::parse("clear:verySecretKeyMaterial").unwrap();
    let shown = format!("{:?}", k);
    assert!(!shown.contains("verySecretKeyMaterial"));
    assert_eq!(k.marshal(), "clear:verySecretKeyMaterial");
    let k = Key::parse("base64:dmVyeVNlY3JldA==").unwrap();
    let shown = format!("{:?}", k);
    assert!(!shown.contains("dmVyeVNlY3JldA=="));
    assert_eq!(k.marshal(), "base64:dmVyeVNlY3JldA==");
}

#[test]
fn encryption_key_builds_from_parts() {
    let k = Key::Base64(Secret::new("c29tZWtleQ=="));
    assert_eq!(k.marshal(), "base64:c29tZWtleQ==");
    assert!(!format!("{:?}", k).contains("c29tZWtleQ=="));
    let k = Key::Uri(Uri::try_new("https://example.com/key").unwrap());
    assert_eq!(k.marshal(), "uri:https://example.com/key");
    assert_eq!(Key::Prompt.marshal(), "prompt");
}

#[test]
fn codec_splits_key_and_optional_value() {
    let (key, value) = codec::unmarshal("a=recvonly\r\n").unwrap();
    assert_eq!(key, "recvonly");
    assert_eq!(value, None);
    let (key, value) = codec::unmarshal("a=extmap:1 http://example.com/082005/ext.htm#ttime\r\n")
        .unwrap();
    assert_eq!(key, "extmap");
    assert_eq!(value.as_deref(), Some("1 http://example.com/082005/ext.htm#ttime"));
    assert_eq!(
        codec::unmarshal("recvonly\r\n").unwrap_err(),
        CodecError::MissingPrefix
    );
    assert_eq!(
        codec::unmarshal("a=recvonly").unwrap_err(),
        CodecError::MissingTerminator
    );
}

#[test]
fn codec_marshal_is_exact() {
    assert_eq!(codec::marshal("recvonly", None), "a=recvonly\r\n");
    assert_eq!(
        codec::marshal("extmap", Some("1 http://example.com/082005/ext.htm#ttime")),
        "a=extmap:1 http://example.com/082005/ext.htm#ttime\r\n"
    );
    let line = codec::marshal("mid", Some("audio"));
    let (key, value) = codec::unmarshal(&line).unwrap();
    assert_eq!(key, "mid");
    assert_eq!(value.as_deref(), Some("audio"));
}

#[test]
fn uri_keeps_accepted_text_verbatim() {
    let u = Uri::try_new("http://example.com/082005/ext.htm#ttime").unwrap();
    assert_eq!(u.as_str(), "http://example.com/082005/ext.htm#ttime");
    // A relative reference is not an absolute URI.
    assert!(Uri::try_new("notaurl").is_err());
    assert!(Uri::try_new("").is_err());
    assert!(Uri::try_new("http://example.com/a b").is_err());
}
