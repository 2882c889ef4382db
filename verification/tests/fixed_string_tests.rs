use voxel_core::fixed_string::IntoMinecraftString;
use voxel_core::fixed_string::MinecraftString;

#[test]
fn round_trip_plain_ascii() {
    let s = String::from("hello");
    let mc = s.to_mcstring();
    assert_eq!(mc.wire_bytes().len(), 64);
    assert_eq!(mc.content(), b"hello".to_vec());
}

#[test]
fn round_trip_with_interior_spaces() {
    let s = String::from("a voxel  server");
    let mc = s.to_mcstring();
    assert_eq!(mc.content(), b"a voxel  server".to_vec());
}

#[test]
fn round_trip_exactly_64_bytes() {
    let s = "x".repeat(64);
    let mc = s.clone().to_mcstring();
    assert_eq!(mc.wire_bytes(), s.as_bytes());
    assert_eq!(mc.content(), s.as_bytes().to_vec());
}

#[test]
fn empty_string_encodes_to_all_spaces() {
    let mc = String::new().to_mcstring();
    assert_eq!(mc.wire_bytes(), &[0x20u8; 64]);
    assert_eq!(mc.content(), Vec::<u8>::new());
}

#[test]
fn truncation_keeps_first_64_bytes() {
    let s: String = ('a'..='z').cycle().take(100).collect();
    let mc = s.clone().to_mcstring();
    assert_eq!(mc.wire_bytes(), &s.as_bytes()[..64]);
}

#[test]
fn trailing_spaces_are_lost() {
    let mc = String::from("hi   ").to_mcstring();
    assert_eq!(mc.content(), b"hi".to_vec());
}

#[test]
fn trailing_tab_is_trimmed_like_space() {
    let mc = String::from("hi\t").to_mcstring();
    assert_eq!(mc.content(), b"hi".to_vec());
}

#[test]
fn mcstring_to_mcstring_is_identity() {
    let mc = String::from("same").to_mcstring();
    let again = mc.to_mcstring();
    assert_eq!(again, mc);
}

#[test]
fn from_wire_keeps_bytes() {
    let mut raw = [0x20u8; 64];
    raw[0] = b'o';
    raw[1] = b'k';
    let mc = MinecraftString::from_wire(raw);
    assert_eq!(mc.content(), b"ok".to_vec());
    assert_eq!(mc.wire_bytes(), &raw);
}

#[test]
fn encode_bytes_matches_string_encoding() {
    let via_trait = String::from("abc").to_mcstring();
    let via_bytes = MinecraftString::encode_bytes(b"abc");
    assert_eq!(via_trait, via_bytes);
}
