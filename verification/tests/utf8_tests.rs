use json_io::validate_utf8;

fn agrees_with_std(bytes: &[u8]) {
    let v = bytes.to_vec();
    match std::str::from_utf8(bytes) {
        Ok(_) => assert_eq!(validate_utf8(&v), Ok(()), "std accepts {:?}", bytes),
        Err(e) => {
            let r = validate_utf8(&v);
            assert!(r.is_err(), "std rejects {:?}", bytes);
            assert_eq!(r.unwrap_err(), e.valid_up_to(), "prefix length for {:?}", bytes);
        }
    }
}

#[test]
fn accepts_ascii_and_multibyte() {
    agrees_with_std(b"");
    agrees_with_std(b"plain ascii");
    agrees_with_std("caf\u{e9} \u{30e0} \u{1f600}".as_bytes());
}

#[test]
fn rejects_stray_continuation_bytes() {
    agrees_with_std(&[0x80]);
    agrees_with_std(&[b'a', 0xbf, b'b']);
}

#[test]
fn rejects_overlong_encodings() {
    // Two-byte forms of one-byte values.
    agrees_with_std(&[0xc0, 0xaf]);
    agrees_with_std(&[0xc1, 0x81]);
    // A three-byte form of a two-byte value.
    agrees_with_std(&[0xe0, 0x9f, 0xbf]);
    // A four-byte form of a three-byte value.
    agrees_with_std(&[0xf0, 0x8f, 0xbf, 0xbf]);
}

#[test]
fn rejects_surrogates() {
    agrees_with_std(&[0xed, 0xa0, 0x80]);
    agrees_with_std(&[0xed, 0xbf, 0xbf]);
    // The scalars on either side of the surrogate range are fine.
    agrees_with_std(&[0xed, 0x9f, 0xbf]);
    agrees_with_std(&[0xee, 0x80, 0x80]);
}

#[test]
fn respects_the_last_scalar() {
    // The largest scalar, then the first value past it.
    agrees_with_std(&[0xf4, 0x8f, 0xbf, 0xbf]);
    agrees_with_std(&[0xf4, 0x90, 0x80, 0x80]);
    // Leading bytes no encoding starts with.
    agrees_with_std(&[0xf8, 0x88, 0x80, 0x80, 0x80]);
    agrees_with_std(&[0xff]);
}

#[test]
fn rejects_truncated_encodings() {
    agrees_with_std(&[0xc3]);
    agrees_with_std(&[0xe3, 0x83]);
    agrees_with_std(&[0xf0, 0x9f, 0x98]);
    agrees_with_std(&[b'o', b'k', 0xe2, 0x82]);
}
