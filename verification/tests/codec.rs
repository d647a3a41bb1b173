use dojo_world::errors::ManifestError;
use dojo_world::felt::Felt;
use dojo_world::short_string::short_string_to_felt;

fn felt(bytes: &[u8]) -> Felt {
    Felt::from_bytes(&bytes.to_vec())
}

#[test]
fn felt_zero_and_equality() {
    let z = Felt::zero();
    assert!(z.is_zero());
    assert_eq!(z.bytes.len(), 32);
    let one = felt(&[1]);
    assert!(!one.is_zero());
    assert!(!one.equals(&z));
    assert!(one.equals(&felt(&[1])));
    assert!(one.dup().equals(&one));
}

#[test]
fn short_string_round_trip() {
    let f = short_string_to_felt("Position").unwrap();
    assert_eq!(f.parse_short_string().unwrap(), "Position");
}

#[test]
fn short_string_empty_is_zero_felt() {
    let f = short_string_to_felt("").unwrap();
    assert!(f.is_zero());
    assert_eq!(f.parse_short_string().unwrap(), "");
}

#[test]
fn short_string_encode_rejects_long_and_non_ascii() {
    let long = "abcdefghijklmnopqrstuvwxyzabcdef";
    assert_eq!(long.len(), 32);
    assert_eq!(short_string_to_felt(long).err(), Some(ManifestError::ShortStringDecode));
    assert_eq!(short_string_to_felt("caf\u{e9}").err(), Some(ManifestError::ShortStringDecode));
}

#[test]
fn short_string_decode_rejects_out_of_range() {
    let mut bytes = vec![0u8; 32];
    bytes[0] = 1;
    let f = Felt::from_bytes(&bytes);
    assert_eq!(f.parse_short_string(), Err(ManifestError::ShortStringDecode));
}

#[test]
fn short_string_decode_rejects_interior_zero() {
    let f = felt(&[0x41, 0x00, 0x42]);
    assert_eq!(f.parse_short_string(), Err(ManifestError::ShortStringDecode));
}

#[test]
fn codec_agrees_with_ledger_library() {
    let outside = starknet_core::utils::cairo_short_string_to_felt("Foo").unwrap();
    let ours = short_string_to_felt("Foo").unwrap();
    assert_eq!(ours.bytes, outside.to_bytes_be().to_vec());
    let back = felt(&outside.to_bytes_be());
    assert_eq!(back.parse_short_string().unwrap(), "Foo");
    assert_eq!(
        starknet_core::utils::parse_cairo_short_string(&outside).unwrap(),
        "Foo"
    );
}
