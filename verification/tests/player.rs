use media_player::args::Runs;
use media_player::audio::Task;
use media_player::player::{
    arrow_step, picture_setup, resume_after_flush, still_buffering, ArrowStep, NextRun, Playback,
    Repeat, RunOutcome,
};

#[test]
fn seeking_moves_ten_seconds_within_the_input() {
    let mut p = Playback::new(25, 100, 0);
    assert_eq!(p.second(), 0);
    assert_eq!(p.seek(true), 10);
    assert_eq!(p.frame(), 250);
    assert_eq!(p.seek(false), 0);
    assert_eq!(p.frame(), 0);
    assert_eq!(p.seek(false), 0);
}

#[test]
fn seeking_is_clamped_to_the_last_second() {
    let mut p = Playback::new(25, 12, 5);
    assert_eq!(p.frame(), 125);
    assert_eq!(p.seek_target(true), 11);
    assert_eq!(p.seek(true), 11);
    assert_eq!(p.frame(), 275);
    assert_eq!(p.second(), 11);
}

#[test]
fn restart_resumes_from_the_current_second() {
    let mut p = Playback::new(10, 3, 2);
    assert_eq!(p.restart_second(), 2);
    for _ in 0..20 {
        p.advance(false);
    }
    assert_eq!(p.second(), 3);
    assert_eq!(p.restart_second(), 2);
}

#[test]
fn the_counter_stops_at_the_end() {
    let mut p = Playback::new(2, 1, 0);
    assert!(p.shows_progress());
    p.advance(true);
    assert_eq!(p.frame(), 0);
    p.advance(false);
    assert_eq!(p.frame(), 1);
    assert!(!p.shows_progress());
    assert!(!p.is_over(false, false));
    p.advance(false);
    p.advance(false);
    assert_eq!(p.frame(), 2);
    assert!(p.shows_progress());
    assert!(p.is_over(false, true));
    assert!(!p.is_over(true, true));
    assert!(p.is_over(true, false));
}

#[test]
fn repeat_counts_completed_runs_only() {
    let mut r = Repeat::new(Runs::Times(2));
    assert_eq!(r.next(), NextRun::Play { skip: 0 });
    assert_eq!(r.record(RunOutcome::Restart(5)), NextRun::Play { skip: 5 });
    assert_eq!(r.record(RunOutcome::Completed), NextRun::Play { skip: 0 });
    assert_eq!(r.record(RunOutcome::Completed), NextRun::Stop);
}

#[test]
fn repeat_stops_on_exit_and_fails_on_error() {
    let mut r = Repeat::new(Runs::Times(3));
    assert_eq!(r.record(RunOutcome::Exit), NextRun::Stop);
    let mut f = Repeat::new(Runs::Times(3));
    assert_eq!(f.record(RunOutcome::Failed), NextRun::Fail);
    assert_eq!(Repeat::new(Runs::Times(0)).next(), NextRun::Stop);
}

#[test]
fn repeat_zero_plays_forever() {
    let mut r = Repeat::new(Runs::Forever);
    assert_eq!(r.next(), NextRun::Play { skip: 0 });
    for _ in 0..1000 {
        assert_eq!(r.record(RunOutcome::Completed), NextRun::Play { skip: 0 });
    }
    assert_eq!(r.record(RunOutcome::Exit), NextRun::Stop);
}

#[test]
fn runs_wait_for_half_a_queue_of_each_stream() {
    assert!(still_buffering(true, 0, false, 0));
    assert!(!still_buffering(true, 1, false, 0));
    assert!(still_buffering(true, 1, true, 0));
    assert!(!still_buffering(false, 0, false, 0));
}

#[test]
fn audio_only_runs_use_default_geometry() {
    assert_eq!(picture_setup(Some(24), Some(640), Some(480)), (24, 640, 480));
    assert_eq!(picture_setup(None, None, None), (60, 1920, 1080));
}

#[test]
fn a_start_past_the_end_comes_back_to_the_last_frame() {
    let mut p = Playback::new(4, 3, 7);
    assert_eq!(p.frame(), 28);
    assert_eq!(p.second(), 7);
    assert!(p.shows_progress());
    assert!(!p.is_over(false, false));
    assert_eq!(p.restart_second(), 2);
    p.advance(true);
    assert_eq!(p.frame(), 28);
    p.advance(false);
    assert_eq!(p.frame(), 12);
    assert_eq!(p.second(), 3);
    assert!(p.is_over(false, false));
    p.advance(false);
    assert_eq!(p.frame(), 12);
}

#[test]
fn a_start_at_the_end_is_over_at_once() {
    let mut p = Playback::new(5, 2, 2);
    assert_eq!(p.frame(), 10);
    assert!(p.is_over(false, false));
    assert_eq!(p.seek(false), 0);
    assert_eq!(p.frame(), 0);
}

#[test]
fn arrow_keys_do_nothing_once_the_decoder_has_finished() {
    assert_eq!(arrow_step(true, Some(Task::Play)), ArrowStep::Ignore);
    assert_eq!(arrow_step(true, None), ArrowStep::Ignore);
    assert_eq!(
        arrow_step(false, Some(Task::Pause)),
        ArrowStep::Seek { resume: Some(Task::Pause) }
    );
    assert_eq!(arrow_step(false, None), ArrowStep::Seek { resume: None });
}

#[test]
fn a_seek_gives_the_audio_its_task_back_after_the_flush() {
    assert_eq!(resume_after_flush(Task::Pause, Task::Flush), None);
    assert_eq!(resume_after_flush(Task::Pause, Task::FlushOk), Some(Task::Pause));
    assert_eq!(resume_after_flush(Task::Play, Task::FlushOk), Some(Task::Play));
}
