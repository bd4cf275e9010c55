use media_player::decode::{scaler_output_layout, PixelLayout};
use media_player::endian::is_little_endian;

#[test]
fn agrees_with_the_native_byte_order() {
    assert_eq!(is_little_endian(), 1u16.to_ne_bytes()[0] == 1);
}

#[test]
fn scaler_layout_reads_back_as_0rgb() {
    let bytes = match scaler_output_layout() {
        PixelLayout::Bgrz => [0x33u8, 0x22, 0x11, 0],
        PixelLayout::Zrgb => [0u8, 0x11, 0x22, 0x33],
    };
    assert_eq!(u32::from_ne_bytes(bytes), 0x0011_2233);
    assert_eq!(scaler_output_layout() == PixelLayout::Bgrz, is_little_endian());
}
