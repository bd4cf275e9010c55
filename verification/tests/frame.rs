use media_player::frame::{frame_line, video_frame_to_vec};

#[test]
fn packs_pixels_in_native_order() {
    // 2x2 picture, lines padded to 12 bytes
    let mut data = vec![0u8; 24];
    for i in 0..8 {
        data[i] = i as u8 + 1;
        data[12 + i] = i as u8 + 11;
    }
    let buf = video_frame_to_vec(&data, 2, 2, 12);
    assert_eq!(
        buf,
        vec![
            u32::from_ne_bytes([1, 2, 3, 4]),
            u32::from_ne_bytes([5, 6, 7, 8]),
            u32::from_ne_bytes([11, 12, 13, 14]),
            u32::from_ne_bytes([15, 16, 17, 18]),
        ]
    );
}

#[test]
fn missing_rows_and_columns_stay_zero() {
    // one whole line of 8 bytes (two pixels) for a 3x2 picture
    let data = vec![1u8, 0, 0, 0, 2, 0, 0, 0, 9];
    let buf = video_frame_to_vec(&data, 3, 2, 8);
    let one = u32::from_ne_bytes([1, 0, 0, 0]);
    let two = u32::from_ne_bytes([2, 0, 0, 0]);
    assert_eq!(buf, vec![one, two, 0, 0, 0, 0]);
}

#[test]
fn zero_height_gives_an_empty_buffer() {
    assert!(video_frame_to_vec(&[1, 2, 3, 4], 1, 0, 4).is_empty());
}

#[test]
fn frame_line_takes_four_bytes_per_pixel() {
    let data: Vec<u8> = (0..20).collect();
    assert_eq!(frame_line(&data, 10, 2, 2, 1), &[10, 11, 12, 13, 14, 15, 16, 17]);
    assert_eq!(frame_line(&data, 10, 1, 2, 0), &[0, 1, 2, 3]);
}

#[test]
fn packed_pixels_match_their_frame_line() {
    let data: Vec<u8> = (0..32).collect();
    let buf = video_frame_to_vec(&data, 3, 2, 16);
    for row in 0..2usize {
        let line = frame_line(&data, 16, 3, 2, row);
        for col in 0..3usize {
            let bytes: [u8; 4] = line[4 * col..4 * col + 4].try_into().unwrap();
            assert_eq!(buf[row * 3 + col], u32::from_ne_bytes(bytes));
        }
    }
}
