use atprose::codec::{decode, decode_u64, encode, encode_u64, DecodeError};

#[test]
fn sortable_encoding_is_fixed_width() {
    assert_eq!(encode_u64(0x1842dbf9f66001ff), "3kkqvzbva22jz");
    assert_eq!(encode_u64(0), "2222222222222");
    assert_eq!(encode_u64(1), "2222222222223");
    assert_eq!(encode_u64(u64::MAX), "jzzzzzzzzzzzz");
}

#[test]
fn sortable_decoding_inverts_encoding() {
    for v in [0, 1, 31, 32, 0x1842dbf9f66001ff, u64::MAX] {
        assert_eq!(decode_u64(&encode_u64(v)), Ok(v));
    }
    assert_eq!(decode_u64("3kkqvzbva22jz"), Ok(0x1842dbf9f66001ff));
}

#[test]
fn sortable_decoding_errors() {
    assert_eq!(
        decode_u64("3kkqvzbva22jzz"),
        Err(DecodeError::InvalidLength { length: 14 })
    );
    assert_eq!(
        decode_u64("3kkqvzbva22j8"),
        Err(DecodeError::InvalidChar {
            character: '8',
            index: 12
        })
    );
}

#[test]
fn general_encoding_round_trips_bytes() {
    let bytes = [
        79u8, 190, 203, 48, 13, 48, 131, 113, 31, 234, 105, 89, 244, 187, 65,
    ];
    let text = encode(&bytes);
    assert_eq!(text, "j67mwmangcbxch7knfm7jo2b");
    assert_eq!(decode(&text), Ok(bytes.to_vec()));

    assert_eq!(encode(&[]), "");
    assert_eq!(decode(""), Ok(vec![]));
    for data in [vec![0u8], vec![255], vec![1, 2, 3], vec![0, 0, 0, 0, 0, 0, 1]] {
        assert_eq!(decode(&encode(&data)), Ok(data));
    }
}

#[test]
fn encoding_matches_the_reference_codec() {
    let general_dec = Box::leak(Box::new(fast32::decoder_map_simple(
        b"abcdefghijklmnopqrstuvwxyz234567",
    )));
    let general = fast32::base32::Alphabet32Nopad::new(
        b"abcdefghijklmnopqrstuvwxyz234567",
        general_dec,
    );
    let cases: Vec<Vec<u8>> = vec![
        vec![],
        vec![0],
        vec![255],
        vec![1, 2],
        vec![1, 2, 3],
        vec![1, 2, 3, 4],
        vec![250, 251, 252, 253, 254],
        vec![79, 190, 203, 48, 13, 48, 131, 113, 31, 234, 105, 89, 244, 187, 65],
    ];
    for data in cases {
        assert_eq!(encode(&data), general.encode(&data));
        assert_eq!(decode(&general.encode(&data)), Ok(data));
    }

    let sortable_dec = Box::leak(Box::new(fast32::decoder_map_simple(
        b"234567abcdefghijklmnopqrstuvwxyz",
    )));
    let sortable = fast32::base32::Alphabet32Nopad::new(
        b"234567abcdefghijklmnopqrstuvwxyz",
        sortable_dec,
    );
    // The reference omits leading zero symbols; the encodings agree wherever
    // it emits all thirteen.
    for v in [0x1842dbf9f66001ff, 1u64 << 60, u64::MAX] {
        assert_eq!(encode_u64(v), sortable.encode_u64(v));
        assert_eq!(decode_u64(&encode_u64(v)), Ok(sortable.decode_u64(encode_u64(v).as_bytes()).unwrap()));
    }
}

#[test]
fn general_decoding_errors() {
    assert_eq!(
        decode("a"),
        Err(DecodeError::InvalidLength { length: 1 })
    );
    assert_eq!(
        decode("abc"),
        Err(DecodeError::InvalidLength { length: 3 })
    );
    assert_eq!(
        decode("a!"),
        Err(DecodeError::InvalidChar {
            character: '!',
            index: 1
        })
    );
}
