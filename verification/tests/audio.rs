use media_player::audio::{
    after_recv_failure, callback_plan, frame_sample_count, plays, prefer_config, probes,
    status_after, AfterFailure, CallbackPlan, Control, RecvFailure, SampleFormat, SampleQueue, Status,
    Task,
};

#[test]
fn queue_plays_samples_in_order_then_silence() {
    let mut q: SampleQueue<i16> = SampleQueue::new();
    q.push_samples(&[1, 2, 3]);
    let mut buf = [9i16; 2];
    q.fill(&mut buf, 0);
    assert_eq!(buf, [1, 2]);
    assert_eq!(q.len(), 1);
    q.push_samples(&[4]);
    let mut buf = [9i16; 4];
    q.fill(&mut buf, 0);
    assert_eq!(buf, [3, 4, 0, 0]);
    assert_eq!(q.len(), 0);
}

#[test]
fn queue_wants_more_until_a_buffer_is_covered() {
    let mut q: SampleQueue<f32> = SampleQueue::new();
    assert!(q.wants(2));
    q.push_samples(&[0.5, -0.5]);
    assert!(!q.wants(2));
    assert!(q.wants(3));
    q.clear();
    assert_eq!(q.len(), 0);
}

#[test]
fn frame_sample_counts() {
    // a packed stereo f32 frame of 1024 samples
    assert_eq!(frame_sample_count(1024, 2, 8192, 4), 2048);
    // cut to a multiple of the sample size
    assert_eq!(frame_sample_count(1023, 2, 8184, 4), 2044);
    // never more than the plane's length
    assert_eq!(frame_sample_count(10, 1, 4, 1), 4);
    // never more whole samples than the plane holds
    assert_eq!(frame_sample_count(100, 2, 100, 4), 25);
    assert_eq!(frame_sample_count(0, 2, 100, 4), 0);
}

#[test]
fn callback_plans() {
    assert_eq!(callback_plan(Task::Play, Status::Running), CallbackPlan::Play);
    assert_eq!(callback_plan(Task::Play, Status::Finish), CallbackPlan::Silence);
    assert_eq!(callback_plan(Task::Pause, Status::Running), CallbackPlan::Silence);
    assert_eq!(callback_plan(Task::Flush, Status::Running), CallbackPlan::Flush);
    assert_eq!(callback_plan(Task::FlushOk, Status::Running), CallbackPlan::Silence);
}

#[test]
fn receive_failures() {
    assert_eq!(after_recv_failure(RecvFailure::Timeout, 0), AfterFailure::Underrun);
    assert_eq!(after_recv_failure(RecvFailure::Disconnected, 0), AfterFailure::Finished);
    assert_eq!(after_recv_failure(RecvFailure::Disconnected, 5), AfterFailure::Drain);
}

#[test]
fn pause_toggles() {
    assert_eq!(Task::Play.toggled(), Task::Pause);
    assert_eq!(Task::Pause.toggled(), Task::Play);
    assert_eq!(Task::Play.toggled().toggled(), Task::Play);
}

#[test]
fn playable_and_probed_formats() {
    for f in [SampleFormat::U8, SampleFormat::I16, SampleFormat::I32, SampleFormat::F32, SampleFormat::F64] {
        assert!(plays(f));
        assert!(probes(f));
    }
    assert!(!plays(SampleFormat::I64));
    assert!(probes(SampleFormat::I64));
    for f in [SampleFormat::I8, SampleFormat::U16, SampleFormat::I24, SampleFormat::U64, SampleFormat::DsdU8] {
        assert!(!plays(f));
        assert!(!probes(f));
    }
}

#[test]
fn better_configs_must_open_a_stream() {
    assert!(prefer_config(true, true));
    assert!(!prefer_config(true, false));
    assert!(!prefer_config(false, true));
}

#[test]
fn audio_control_starts_playing() {
    let c = Control::new();
    assert_eq!(*c.task.lock().unwrap(), Task::Play);
    assert_eq!(*c.status.lock().unwrap(), Status::Running);
}

#[test]
fn audio_finishes_only_once_drained_and_stays_finished() {
    let next = after_recv_failure(RecvFailure::Disconnected, 0);
    assert_eq!(status_after(Status::Running, next), Status::Finish);
    let busy = after_recv_failure(RecvFailure::Disconnected, 3);
    assert_eq!(status_after(Status::Running, busy), Status::Running);
    let late = after_recv_failure(RecvFailure::Timeout, 0);
    assert_eq!(status_after(Status::Running, late), Status::Running);
    assert_eq!(status_after(Status::Finish, AfterFailure::Drain), Status::Finish);
    assert_ne!(callback_plan(Task::Play, Status::Finish), CallbackPlan::Play);
}
