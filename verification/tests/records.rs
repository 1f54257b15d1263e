use atprose::codec::DecodeError;
use atprose::handle::Handle;
use atprose::identifier::Identifier;
use atprose::ns::Nsid;
use atprose::rkey::Rkey;
use atprose::tid::Tid;
use atprose::uri::{AtUri, AtUriTarget, InvalidUri};

#[test]
fn test_create_tid() {
    let ts = 1_707_228_000_000_000;
    let id = Tid::new(ts, 511);
    assert_eq!(ts, id.timestamp());
    assert_eq!(511, id.seq());
    assert_eq!(id.0, 0x1842dbf9f66001ff);
    assert_eq!("3kkqvzbva22jz".to_owned(), id.to_string());
}

#[test]
fn test_decode_tid() {
    let cases = [
        (
            "3kkqvzbva22jz",
            0x1842dbf9f66001ff,
            "2024-02-06 14:00:00 UTC",
            1_707_228_000_000_000,
            511,
        ),
        (
            "3kqcaxrhm7q22",
            0x185906eddb22d800,
            "2024-04-17 02:37:14.073270 UTC",
            1713321434073270,
            0,
        ),
        (
            "3kljftdquw52e",
            0x1845ebca6dae0c0a,
            "2024-02-16 07:46:54.218115 UTC",
            1708069614218115,
            10,
        ),
        (
            "3jui7kd54zh2y",
            0x17e9c582462fb41e,
            "2023-04-29 03:42:21.953005 UTC",
            1682739741953005,
            30,
        ),
    ];

    for (value, expected, dt, ts, clock) in cases {
        let id = Tid::decode(value).expect(value);
        assert_eq!(id.0, expected, "{:016x} != {expected:016x}", id.0);

        assert_eq!(ts, id.timestamp(), "{ts:016x} != {:016x}", id.timestamp());
        assert_eq!(clock, id.seq());

        let datetime = chrono::DateTime::from_timestamp_micros(id.timestamp() as i64)
            .expect("beyond the datetime domain");
        assert_eq!(dt.to_owned(), datetime.to_string());
    }
}

#[test]
fn tid_text_sorts_as_the_value_does() {
    let mut values = [
        Tid::new(1_707_228_000_000_000, 511),
        Tid::new(1_707_228_000_000_000, 510),
        Tid::new(1_682_739_741_953_005, 30),
        Tid::new(1_713_321_434_073_270, 0),
        Tid::new(0, 0),
        Tid::new(0, 1),
        Tid::new(0x1F_FFFF_FFFF_FFFF, 1023),
    ];
    values.sort();
    for pair in values.windows(2) {
        assert!(pair[0].0 < pair[1].0);
        assert!(pair[0].encode() < pair[1].encode());
    }
}

#[test]
fn tid_round_trip_and_fixed_width() {
    for t in [Tid::new(0, 0), Tid::new(1, 1), Tid::new(0x1F_FFFF_FFFF_FFFF, 1023)] {
        let text = t.encode();
        assert_eq!(text.chars().count(), 13);
        assert_eq!(Tid::decode(&text), Ok(t));
    }
}

#[test]
fn tid_decode_rejects_wrong_lengths_and_symbols() {
    assert_eq!(
        Tid::decode("3kkqvzbva22j"),
        Err(DecodeError::InvalidLength { length: 12 })
    );
    assert_eq!(
        Tid::decode(""),
        Err(DecodeError::InvalidLength { length: 0 })
    );
    assert_eq!(
        Tid::decode("3kkqvzbva22j!"),
        Err(DecodeError::InvalidChar {
            character: '!',
            index: 12
        })
    );
}

#[test]
fn rkey_classification() {
    assert_eq!(Rkey::new("self"), Rkey::Unique);
    assert_eq!(
        Rkey::new("3kkqvzbva22jz"),
        Rkey::Tid(Tid::new(1_707_228_000_000_000, 511))
    );
    assert_eq!(Rkey::new("123"), Rkey::Custom("123".to_owned()));
    assert_eq!(Rkey::new(""), Rkey::Custom("".to_owned()));

    assert_eq!(Rkey::new("self").to_string(), "self");
    assert_eq!(Rkey::new("3kkqvzbva22jz").to_string(), "3kkqvzbva22jz");
    assert_eq!(Rkey::new("123").to_string(), "123");
}

fn parse(value: &str) -> AtUri {
    match value.parse() {
        Ok(uri) => uri,
        Err(err) => panic!("could not parse {value}: {err:?}"),
    }
}

fn fail(value: &str, reason: InvalidUri) {
    let result: Result<AtUri, _> = value.parse();
    match result {
        Ok(_) => panic!("{value} should be an invalid URI"),
        Err(err) => assert_eq!(reason, err, "incorrect error for {value}"),
    }
}

fn handle(value: &str) -> Identifier {
    Identifier::Handle(Handle::new(value))
}

fn nsid(value: &str) -> Nsid {
    value.parse().expect("parse NSID")
}

#[test]
fn test_parse_uri() {
    let uri = parse("at://atproto.com");
    assert_eq!(handle("atproto.com"), uri.authority);
    assert!(uri.collection().is_none());
    assert!(uri.record().is_none());

    let uri: AtUri = parse("at://foo.com/com.example.foo/123");
    assert_eq!(handle("foo.com"), uri.authority);
    assert_eq!(Some(nsid("com.example.foo")), uri.collection().cloned());
    assert_eq!(Some(Rkey::Custom("123".to_owned())), uri.record().cloned());

    fail("https://bsky.app", InvalidUri::Scheme);
}

#[test]
fn uri_grammar_forbids_query_fragment_and_credentials() {
    fail("at://foo.com?x=1", InvalidUri::Query);
    fail("at://foo.com/a.b#frag", InvalidUri::Fragment);
    fail("at://user@foo.com", InvalidUri::Credentials);
    fail("at://foo.com/a.b/c/d", InvalidUri::Path);
    fail("at://foo.com/nodot", InvalidUri::Collection(atprose::ns::InvalidNsid::Authority));
    assert!(matches!(
        "at://.".parse::<AtUri>(),
        Err(InvalidUri::Authority(_))
    ));
}

#[test]
fn uri_display_round_trip() {
    for text in [
        "at://atproto.com",
        "at://did:plc:ewvi7nxzyoun6zhxrhs64oiz",
        "at://foo.com/com.example.foo",
        "at://foo.com/com.example.foo/123",
        "at://did:web:bsky.app/app.bsky.feed.post/3kkqvzbva22jz",
    ] {
        let uri = parse(text);
        assert_eq!(uri.to_string(), text);
        assert_eq!(parse(&uri.to_string()), uri);
    }
}

#[test]
fn uri_target_and_new_are_inverses() {
    let repo = parse("at://atproto.com");
    let coll = parse("at://foo.com/com.example.foo");
    let record = parse("at://foo.com/com.example.foo/123");
    for uri in [repo, coll, record] {
        assert_eq!(AtUri::new(uri.target()), uri);
    }

    let t = AtUriTarget::Record(
        handle("foo.com"),
        nsid("com.example.foo"),
        Rkey::Custom("123".to_owned()),
    );
    assert_eq!(AtUri::new(t.clone()).target(), t);
}

#[test]
fn uri_tolerates_one_trailing_slash_in_state_only() {
    // The trailing slash stays in the final substring, so the collection's
    // package carries it verbatim.
    let uri = parse("at://foo.com/com.example.foo/");
    assert_eq!(uri.collection().unwrap().package, "foo/");
}
