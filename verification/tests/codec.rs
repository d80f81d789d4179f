//! The text codecs on exact vectors: base64url, identifier text, decimal.

use swift_auth::b64::{b64_decode, b64_encode};
use swift_auth::decimal::{format_u64_dec, parse_num_at};
use swift_auth::uuidfmt::{format_uuid, parse_uuid};

#[test]
fn base64url_known_vectors() {
    let cases: &[(&[u8], &str)] = &[
        (b"", ""),
        (b"f", "Zg"),
        (b"fo", "Zm8"),
        (b"foo", "Zm9v"),
        (b"foob", "Zm9vYg"),
        (b"fooba", "Zm9vYmE"),
        (b"foobar", "Zm9vYmFy"),
        (&[0xfb, 0xef, 0xff], "--__"),
    ];
    for (plain, encoded) in cases {
        assert_eq!(b64_encode(plain), encoded.as_bytes().to_vec(), "encoding {plain:?}");
        assert_eq!(
            b64_decode(encoded.as_bytes()).expect("canonical text must decode"),
            plain.to_vec(),
            "decoding {encoded:?}"
        );
    }
}

#[test]
fn base64url_rejects_non_canonical_text() {
    // Padding, a one-character tail, characters outside the alphabet, and
    // set trailing bits are all refused.
    for bad in ["Zm8=", "Z", "Zm9vY", "Zm+v", "Zm/v", "Zh", "Zm9", "---¡"] {
        assert!(b64_decode(bad.as_bytes()).is_none(), "{bad:?} must be refused");
    }
}

#[test]
fn uuid_text_round_trips() {
    let value: u128 = 0x0123456789abcdef0123456789abcdef;
    let text = format_uuid(value);
    assert_eq!(
        String::from_utf8(text.clone()).unwrap(),
        "01234567-89ab-cdef-0123-456789abcdef"
    );
    assert_eq!(parse_uuid(&text), Some(value));
    // Either case and the plain form parse; other shapes are refused.
    assert_eq!(parse_uuid(b"01234567-89AB-CDEF-0123-456789ABCDEF"), Some(value));
    assert_eq!(parse_uuid(b"0123456789abcdef0123456789abcdef"), Some(value));
    assert_eq!(parse_uuid(b"01234567-89ab-cdef-0123-456789abcde"), None);
    assert_eq!(parse_uuid(b"01234567x89ab-cdef-0123-456789abcdef"), None);
    assert_eq!(parse_uuid(b""), None);
    // The canonical text agrees with the identifier type's own.
    assert_eq!(
        String::from_utf8(format_uuid(value)).unwrap(),
        uuid::Uuid::from_u128(value).hyphenated().to_string()
    );
}

#[test]
fn decimal_text_round_trips() {
    for n in [0u64, 1, 9, 10, 1_700_000_000, u64::MAX] {
        let text = format_u64_dec(n);
        assert_eq!(String::from_utf8(text.clone()).unwrap(), n.to_string());
        let mut ended = text.clone();
        ended.push(b',');
        assert_eq!(parse_num_at(&ended, 0), Some((text.len(), n)));
    }
    // A leading zero, an empty run, and a too-large value are refused.
    assert!(parse_num_at(b"01,", 0).is_none());
    assert!(parse_num_at(b",", 0).is_none());
    assert!(parse_num_at(b"18446744073709551616,", 0).is_none());
    assert_eq!(parse_num_at(b"18446744073709551615,", 0), Some((20, u64::MAX)));
}
