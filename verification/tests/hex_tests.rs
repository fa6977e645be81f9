use authgate::hex::{bytes_to_hex, hex_region_to_bytes};

#[test]
fn bytes_render_as_lowercase_pairs() {
    let hex = bytes_to_hex(&[0x00, 0xff, 0x1a]);
    assert_eq!(hex, vec!['0', '0', 'f', 'f', '1', 'a']);
}

#[test]
fn empty_byte_string_renders_empty() {
    assert_eq!(bytes_to_hex(&[]), Vec::<char>::new());
}

#[test]
fn rendering_round_trips_through_decoding() {
    let bytes: Vec<u8> = (0u8..=255u8).collect();
    let hex = bytes_to_hex(&bytes);
    let back = hex_region_to_bytes(&hex, 0, hex.len()).unwrap();
    assert_eq!(back, bytes);
}

#[test]
fn decoding_rejects_odd_length() {
    assert!(hex_region_to_bytes(&['a', 'b', 'c'], 0, 3).is_none());
}

#[test]
fn decoding_rejects_non_digits() {
    assert!(hex_region_to_bytes(&['a', 'g'], 0, 2).is_none());
    assert!(hex_region_to_bytes(&['A', 'b'], 0, 2).is_none());
}

#[test]
fn decoding_respects_the_region() {
    let v = vec!['z', '0', '1', 'z'];
    let bytes = hex_region_to_bytes(&v, 1, 3).unwrap();
    assert_eq!(bytes, vec![0x01]);
}
