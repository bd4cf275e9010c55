use media_player::video::Video;

#[test]
fn new_video_is_black_and_playing() {
    let v = Video::new(3, 2);
    assert_eq!(v.buffer(), &vec![0u32; 6]);
    assert_eq!((v.width(), v.height()), (3, 2));
    assert!(!v.is_paused());
    assert!(v.should_update());
}

#[test]
fn video_pause_toggles() {
    let mut v = Video::new(1, 1);
    v.toggle_pause();
    assert!(v.is_paused());
    assert!(!v.should_update());
    v.toggle_pause();
    assert!(!v.is_paused());
}

#[test]
fn shown_frames_replace_the_picture() {
    let mut v = Video::new(2, 1);
    v.show_frame(&[1, 0, 0, 0, 2, 0, 0, 0], 2, 1, 8);
    assert_eq!(
        v.buffer(),
        &vec![u32::from_ne_bytes([1, 0, 0, 0]), u32::from_ne_bytes([2, 0, 0, 0])]
    );
}
