use eureka_client::codec::{
    path_decode_bytes, path_encode_bytes, path_segment_encode, query_decode_bytes,
    query_encode_bytes, query_encode, u32_to_string,
};

#[test]
fn decimal_rendering_is_exact() {
    assert_eq!(u32_to_string(0), "0");
    assert_eq!(u32_to_string(7), "7");
    assert_eq!(u32_to_string(8761), "8761");
    assert_eq!(u32_to_string(4294967295), "4294967295");
}

#[test]
fn path_encoding_is_exact() {
    assert_eq!(path_segment_encode("plain"), "plain");
    assert_eq!(path_segment_encode("a/b c"), "a%2Fb%20c");
    assert_eq!(path_segment_encode("50%?"), "50%25%3F");
    assert_eq!(path_segment_encode("{x}`"), "%7Bx%7D%60");
}

#[test]
fn query_encoding_is_exact() {
    assert_eq!(query_encode("plain"), "plain");
    assert_eq!(query_encode("a b"), "a+b");
    assert_eq!(query_encode("a/b"), "a/b");
    assert_eq!(query_encode("1+1=2"), "1%2B1=2");
    assert_eq!(query_encode("50%"), "50%25");
}

#[test]
fn path_and_query_encodings_differ_on_slash_and_space() {
    for id in ["a/b", "a b", "orders/all", " ", "/"] {
        let p = path_segment_encode(id);
        let q = query_encode(id);
        assert_ne!(p, q, "encodings must differ for {:?}", id);
    }
}

#[test]
fn encodings_round_trip_through_the_servers_decoding() {
    let samples: [&[u8]; 6] = [
        b"plain",
        b"a/b c",
        b"50%?",
        b"a+b=c&d",
        b"\x00\x1f\x7f\xff",
        b"",
    ];
    for s in samples {
        let p = path_encode_bytes(s);
        assert_eq!(path_decode_bytes(&p).expect("path decode"), s.to_vec());
        let q = query_encode_bytes(s);
        assert_eq!(query_decode_bytes(&q).expect("query decode"), s.to_vec());
    }
}

#[test]
fn malformed_escapes_are_rejected() {
    assert!(path_decode_bytes(b"abc%2").is_none());
    assert!(path_decode_bytes(b"%zz").is_none());
    assert!(query_decode_bytes(b"%1").is_none());
}
