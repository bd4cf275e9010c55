use media_player::audio::SampleFormat;
use media_player::decode::{
    as_ffmpeg_sample, check_video_limits, control_step, frame_follow_up, needs_seek,
    resampler_drain_continues, Control, ControlStep, DecodeState, FrameFollowUp, LimitExceeded,
    PackedSample, PacketRoute, Status, Task,
};

#[test]
fn control_steps() {
    assert_eq!(control_step(Status::Finish, Task::Seek(3)), ControlStep::Stop);
    assert_eq!(control_step(Status::Finish, Task::Flush), ControlStep::Stop);
    assert_eq!(control_step(Status::Running, Task::Play), ControlStep::Read);
    assert_eq!(control_step(Status::Running, Task::Seek(42)), ControlStep::Seek(42));
}

#[test]
fn streams_need_decoder_index_and_consumer() {
    let s = DecodeState::new(true, Some(0), true, true, Some(1), true, true);
    assert_eq!(s.video_stream, Some(0));
    assert_eq!(s.audio_stream, Some(1));
    let no_sink = DecodeState::new(true, Some(0), false, true, Some(1), false, true);
    assert_eq!(no_sink.video_stream, None);
    assert_eq!(no_sink.audio_stream, None);
    assert!(no_sink.finished());
}

#[test]
fn packets_are_routed_by_stream() {
    let s = DecodeState::new(true, Some(0), true, true, Some(1), true, true);
    assert_eq!(s.route(0), PacketRoute::Video);
    assert_eq!(s.route(1), PacketRoute::Audio);
    assert_eq!(s.route(2), PacketRoute::Skip);
}

#[test]
fn a_decoder_that_hangs_up_is_fed_no_more() {
    let mut s = DecodeState::new(true, Some(0), true, true, Some(1), true, true);
    s.after_send(PacketRoute::Video, true);
    assert_eq!(s.route(0), PacketRoute::Video);
    s.after_send(PacketRoute::Video, false);
    assert_eq!(s.route(0), PacketRoute::Skip);
    assert!(!s.finished());
    s.after_send(PacketRoute::Audio, false);
    assert_eq!(s.route(1), PacketRoute::Skip);
    assert!(s.finished());
}

#[test]
fn reader_waits_while_both_queues_are_long() {
    let s = DecodeState::new(true, Some(0), true, true, Some(1), true, true);
    assert!(!s.may_read_on(Status::Running, Task::Play, 3, 3));
    assert!(s.may_read_on(Status::Running, Task::Play, 2, 3));
    assert!(s.may_read_on(Status::Running, Task::Play, 3, 0));
    assert!(s.may_read_on(Status::Finish, Task::Play, 3, 3));
    assert!(s.may_read_on(Status::Running, Task::Seek(1), 3, 3));
    // a stream that is not decoded never holds the reader back, nor frees it
    let video_only = DecodeState::new(true, Some(0), true, false, None, false, false);
    assert!(!video_only.may_read_on(Status::Running, Task::Play, 5, 0));
    assert!(video_only.may_read_on(Status::Running, Task::Play, 1, 9));
}

#[test]
fn stream_decoders_flush_on_request() {
    assert_eq!(frame_follow_up(None), FrameFollowUp::Continue);
    assert_eq!(frame_follow_up(Some(Task::Flush)), FrameFollowUp::Flush);
    assert!(resampler_drain_continues(10, true));
    assert!(!resampler_drain_continues(0, true));
    assert!(!resampler_drain_continues(10, false));
}

#[test]
fn seeks_only_inside_the_input() {
    assert!(!needs_seek(0, 100));
    assert!(needs_seek(1, 100));
    assert!(needs_seek(99, 100));
    assert!(!needs_seek(100, 100));
    assert!(!needs_seek(-5, 100));
}

#[test]
fn video_limits() {
    assert_eq!(check_video_limits(15361, 10, 25, 1), Err(LimitExceeded::Width));
    assert_eq!(check_video_limits(15361, 8641, 5000, 1), Err(LimitExceeded::Width));
    assert_eq!(check_video_limits(15360, 8641, 25, 1), Err(LimitExceeded::Height));
    assert_eq!(check_video_limits(15360, 8640, 999, 1), Ok(()));
    assert_eq!(check_video_limits(1920, 1080, 1000, 1), Err(LimitExceeded::FrameRate));
    assert_eq!(check_video_limits(1920, 1080, 999001, 1000), Err(LimitExceeded::FrameRate));
    assert_eq!(check_video_limits(1920, 1080, 999000, 1000), Ok(()));
    assert_eq!(check_video_limits(1920, 1080, 30000, 1001), Ok(()));
    assert_eq!(check_video_limits(1920, 1080, -1000, -1), Err(LimitExceeded::FrameRate));
    assert_eq!(check_video_limits(1920, 1080, 1, 0), Err(LimitExceeded::FrameRate));
    assert_eq!(check_video_limits(1920, 1080, 0, 0), Ok(()));
    assert_eq!(check_video_limits(1920, 1080, -1, 0), Ok(()));
}

#[test]
fn limit_messages() {
    assert_eq!(LimitExceeded::Width.message(), "Error: Video exceed width limit.");
    assert_eq!(LimitExceeded::Height.message(), "Error: Video exceed height limit.");
    assert_eq!(LimitExceeded::FrameRate.message(), "Error: Video exceed fps limit.");
}

#[test]
fn resampler_formats() {
    assert_eq!(as_ffmpeg_sample(SampleFormat::U8), PackedSample::U8);
    assert_eq!(as_ffmpeg_sample(SampleFormat::I16), PackedSample::I16);
    assert_eq!(as_ffmpeg_sample(SampleFormat::I32), PackedSample::I32);
    assert_eq!(as_ffmpeg_sample(SampleFormat::I64), PackedSample::I64);
    assert_eq!(as_ffmpeg_sample(SampleFormat::F32), PackedSample::F32);
    assert_eq!(as_ffmpeg_sample(SampleFormat::F64), PackedSample::F64);
}

#[test]
fn decode_control_starts_playing() {
    let c = Control::new();
    assert_eq!(*c.task.lock().unwrap(), Task::Play);
    assert_eq!(*c.status.lock().unwrap(), Status::Running);
}
