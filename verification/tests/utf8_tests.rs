use sclang_dispatch::utf8::validate_utf8;

fn agrees_with_std(bytes: &[u8]) {
    let v: Vec<u8> = bytes.to_vec();
    let expected = std::str::from_utf8(bytes).is_ok();
    assert_eq!(
        validate_utf8(&v),
        expected,
        "disagreement with std on {:?}",
        bytes
    );
}

#[test]
fn empty_is_valid() {
    let v: Vec<u8> = Vec::new();
    assert!(validate_utf8(&v));
}

#[test]
fn ascii_is_valid() {
    assert!(validate_utf8(&b"play\n".to_vec()));
    assert!(validate_utf8(&b"s.boot;\n".to_vec()));
}

#[test]
fn multibyte_is_valid() {
    // Two, three and four byte sequences.
    assert!(validate_utf8(&"é".as_bytes().to_vec()));
    assert!(validate_utf8(&"日本語".as_bytes().to_vec()));
    assert!(validate_utf8(&"𝄞 clef".as_bytes().to_vec()));
}

#[test]
fn lone_continuation_is_invalid() {
    assert!(!validate_utf8(&vec![0x80]));
    assert!(!validate_utf8(&vec![0x61, 0xBF, 0x62]));
}

#[test]
fn truncated_sequences_are_invalid() {
    assert!(!validate_utf8(&vec![0xC3]));
    assert!(!validate_utf8(&vec![0xE2, 0x82]));
    assert!(!validate_utf8(&vec![0xF0, 0x9D, 0x84]));
}

#[test]
fn overlong_encodings_are_invalid() {
    // Overlong NUL and overlong forms of smaller code points.
    assert!(!validate_utf8(&vec![0xC0, 0x80]));
    assert!(!validate_utf8(&vec![0xC1, 0xBF]));
    assert!(!validate_utf8(&vec![0xE0, 0x80, 0x80]));
    assert!(!validate_utf8(&vec![0xF0, 0x80, 0x80, 0x80]));
}

#[test]
fn surrogates_are_invalid() {
    // U+D800 and U+DFFF encoded directly.
    assert!(!validate_utf8(&vec![0xED, 0xA0, 0x80]));
    assert!(!validate_utf8(&vec![0xED, 0xBF, 0xBF]));
}

#[test]
fn beyond_max_code_point_is_invalid() {
    // U+110000 and the unused lead bytes 0xF5..0xFF.
    assert!(!validate_utf8(&vec![0xF4, 0x90, 0x80, 0x80]));
    assert!(!validate_utf8(&vec![0xF5, 0x80, 0x80, 0x80]));
    assert!(!validate_utf8(&vec![0xFE]));
    assert!(!validate_utf8(&vec![0xFF]));
}

#[test]
fn boundary_code_points_are_valid() {
    // Highest code point, boundaries around the surrogate gap, BOM.
    assert!(validate_utf8(&vec![0xF4, 0x8F, 0xBF, 0xBF]));
    assert!(validate_utf8(&vec![0xED, 0x9F, 0xBF]));
    assert!(validate_utf8(&vec![0xEE, 0x80, 0x80]));
    assert!(validate_utf8(&vec![0xEF, 0xBB, 0xBF]));
}

#[test]
fn agrees_with_std_on_a_battery() {
    let cases: Vec<Vec<u8>> = vec![
        vec![],
        b"hello".to_vec(),
        b"play\n".to_vec(),
        vec![0x7F],
        vec![0x80],
        vec![0xBF],
        vec![0xC2, 0x80],
        vec![0xC2, 0x7F],
        vec![0xDF, 0xBF],
        vec![0xE0, 0xA0, 0x80],
        vec![0xE0, 0x9F, 0xBF],
        vec![0xED, 0x9F, 0xBF],
        vec![0xED, 0xA0, 0x80],
        vec![0xF0, 0x90, 0x80, 0x80],
        vec![0xF0, 0x8F, 0xBF, 0xBF],
        vec![0xF4, 0x8F, 0xBF, 0xBF],
        vec![0xF4, 0x90, 0x80, 0x80],
        vec![0x61, 0xC3, 0xA9, 0x62],
        vec![0x61, 0xC3],
        vec![0xE2, 0x82, 0xAC],
        vec![0xE2, 0x82],
        vec![0xC3, 0xA9, 0xFF],
    ];
    for c in &cases {
        agrees_with_std(c);
    }
    // Every two-byte combination of a few interesting bytes.
    let probes = [0x00u8, 0x61, 0x7F, 0x80, 0xA0, 0xBF, 0xC0, 0xC2, 0xDF, 0xE0, 0xED, 0xF0, 0xF4, 0xF5, 0xFF];
    for &a in &probes {
        for &b in &probes {
            agrees_with_std(&[a, b]);
        }
    }
}
