use domers::color::Rgb;
use domers::outputs::{
    encode_frame, BAR_DOME_CONTROL_BOX, DOME_PIXELS, DOME_STRUTS, DOME_VERTICES, STAGE_LAYERS,
    STAGE_SIDES,
};

#[test]
fn captures_known_fixture_counts() {
    assert_eq!(DOME_STRUTS, 190);
    assert_eq!(DOME_PIXELS, 7_580);
    assert_eq!(DOME_VERTICES, 71);
    assert_eq!(BAR_DOME_CONTROL_BOX, 5);
    assert_eq!(STAGE_SIDES, 48);
    assert_eq!(STAGE_LAYERS, 3);
}

#[test]
fn encodes_spectrum_nonstandard_header_without_magic_prefix() {
    let encoded = encode_frame(2, &[Rgb::from_u24(0x12_34_56), Rgb::from_u24(0xaa_bb_cc)]);
    assert_eq!(encoded, vec![2, 0, 0, 6, 0x12, 0x34, 0x56, 0xaa, 0xbb, 0xcc]);
}

#[test]
fn encodes_long_frame_length_big_endian() {
    let pixels = vec![Rgb::from_u24(0x01_02_03); 100];
    let encoded = encode_frame(7, &pixels);
    assert_eq!(encoded.len(), 4 + 300);
    assert_eq!(&encoded[..4], &[7, 0, 1, 44]);
    assert_eq!(&encoded[4..7], &[1, 2, 3]);
}

#[test]
fn encodes_empty_frame() {
    assert_eq!(encode_frame(0, &[]), vec![0, 0, 0, 0]);
}
