use atprose::codec::DecodeError;
use atprose::did::{Did, InvalidDid, PlcId};
use atprose::handle::{validate_handle, Handle, InvalidHandle};
use atprose::handle::InvalidHandle::{Character, Domain, Empty, SegmentEmpty, SegmentLength};

#[test]
fn test_parse_did() {
    assert_eq!(
        Did::Plc(PlcId::new([
            0x25, 0xaa, 0x8f, 0xb6, 0xf9, 0xc3, 0xa8, 0xdf, 0x64, 0xf7, 0x89, 0xe5, 0xee, 0x39,
            0x19
        ])),
        "did:plc:ewvi7nxzyoun6zhxrhs64oiz".parse().unwrap()
    );

    assert_eq!(
        Did::Web(Handle::new("bsky.app")),
        "did:web:bsky.app".parse().unwrap()
    );
}

#[test]
fn test_decode_plc_id() {
    let cases = [
        (
            "j67mwmangcbxch7knfm7jo2b",
            [
                79, 190, 203, 48, 13, 48, 131, 113, 31, 234, 105, 89, 244, 187, 65,
            ],
        ),
        (
            "ragtjsm2j2vknwkz3zp4oxrd",
            [
                136, 13, 52, 201, 154, 78, 170, 166, 217, 89, 222, 95, 199, 94, 35,
            ],
        ),
    ];

    for (value, expected) in cases {
        let id = PlcId::decode(value).expect(value);
        assert_eq!(id.to_bytes(), expected.to_vec());
    }
}

#[test]
fn test_format_plc_id() {
    let id = PlcId::decode("j67mwmangcbxch7knfm7jo2b").expect("decode did:plc:_");
    assert_eq!(id.to_string(), "j67mwmangcbxch7knfm7jo2b");
    assert_eq!(format!("{id:?}"), "PlcId(\"j67mwmangcbxch7knfm7jo2b\")");
}

#[test]
fn test_validate_handle() {
    let valid = [
        "jay.bsky.social",
        "8.cn",
        "name.t--t",
        "XX.LCS.MIT.EDU",
        "a.co",
        "xn--notarealidn.com",
        "xn--fiqa61au8b7zsevnm8ak20mc4a87e.xn--fiqs8s",
        "xn--ls8h.test",
        "example.t",
    ];

    let invalid = [
        ("", Empty),
        ("jo@hn.test", Character('@')),
        ("💩.test", Character('💩')),
        (
            "me.abcdefghijklmnopqrstuvwxyzabcdefghijklmnopqrstuvwxyzabcdefghijkl.com",
            SegmentLength,
        ),
        ("john..test", SegmentEmpty),
        ("xn--bcher-.tld", Character('-')),
        ("john.0", Character('0')),
        ("cn.8", Character('8')),
        ("www.masełkowski.pl.com", Character('ł')),
        ("org", Domain),
        ("name.org.", SegmentEmpty),
        (
            "2gzyxa5ihm7nsggfxnu52rck2vv4rvmdlkiu3zzui5du4xyclen53wid.onion",
            Domain,
        ),
        ("laptop.local", Domain),
        ("blah.arpa", Domain),
    ];

    for value in valid {
        assert_eq!(Ok(()), validate_handle(value));
    }

    for (value, expected) in invalid {
        assert_eq!(Err(expected), validate_handle(value));
    }
}

#[test]
fn plc_id_round_trip_through_bytes() {
    // Re-encoding the decoded bytes reproduces the text exactly.
    let text = "j67mwmangcbxch7knfm7jo2b";
    let id = PlcId::decode(text).unwrap();
    let bytes: [u8; 15] = id.to_bytes().try_into().unwrap();
    assert_eq!(PlcId::new(bytes).encode(), text);
}

#[test]
fn plc_id_rejects_bad_lengths_and_symbols() {
    assert_eq!(
        PlcId::decode("short"),
        Err(DecodeError::InvalidLength { length: 5 })
    );
    assert_eq!(
        PlcId::decode("j67mwmangcbxch7knfm7jo2bx"),
        Err(DecodeError::InvalidLength { length: 25 })
    );
    assert_eq!(
        PlcId::decode("j67mwmangcbxch7knfm7jo1b"),
        Err(DecodeError::InvalidChar {
            character: '1',
            index: 22
        })
    );
}

#[test]
fn did_errors_name_their_cause() {
    assert_eq!("bsky.app".parse::<Did>(), Err(InvalidDid::Prefix));
    assert_eq!("did:bsky.app".parse::<Did>(), Err(InvalidDid::Scheme));
    assert_eq!("did:key:abc".parse::<Did>(), Err(InvalidDid::Scheme));
    assert!(matches!(
        "did:plc:nope".parse::<Did>(),
        Err(InvalidDid::Plc(_))
    ));
    assert!(matches!(
        "did:web:org".parse::<Did>(),
        Err(InvalidDid::Web(InvalidHandle::Domain))
    ));
}

#[test]
fn did_round_trip() {
    for text in ["did:plc:ewvi7nxzyoun6zhxrhs64oiz", "did:web:bsky.app"] {
        let did: Did = text.parse().unwrap();
        assert_eq!(did.to_string(), text);
        assert_eq!(did.to_string().parse::<Did>().unwrap(), did);
    }
}

#[test]
fn handle_case_is_preserved_but_tld_check_folds_case() {
    assert_eq!(Handle::new("XX.LCS.MIT.EDU").to_string(), "XX.LCS.MIT.EDU");
    assert_eq!(validate_handle("laptop.LOCAL"), Err(InvalidHandle::Domain));
    assert_eq!(validate_handle("blah.Arpa"), Err(InvalidHandle::Domain));
}

#[test]
fn handle_length_boundaries() {
    // 253 characters in all: four segments of 62 plus the TLD "t".
    let seg = "a".repeat(62);
    let long = format!("{seg}.{seg}.{seg}.{seg}.t");
    assert_eq!(long.chars().count(), 253);
    assert_eq!(validate_handle(&long), Ok(()));
    let too_long = format!("x{long}");
    assert_eq!(validate_handle(&too_long), Err(InvalidHandle::Length));

    let seg63 = "b".repeat(63);
    assert_eq!(validate_handle(&format!("{seg63}.com")), Ok(()));
    let seg64 = "b".repeat(64);
    assert_eq!(
        validate_handle(&format!("{seg64}.com")),
        Err(InvalidHandle::SegmentLength)
    );
}
