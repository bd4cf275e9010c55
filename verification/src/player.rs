//! The playback loop's bookkeeping: the frame counter, seeking, restarting,
//! the end of a run, and repeating runs.
use vstd::prelude::*;
use crate::args::Runs;
use crate::audio::Task;

verus! {

/// How far the arrow keys seek, in seconds.
pub const SEEK_STEP_SECS: i64 = 10;

/// Decoded video frames that may wait for the window.
pub const DECODE_VIDEO_QUEUE_LEN: usize = 2;

/// Decoded audio frames that may wait for the audio device.
pub const DECODE_AUDIO_QUEUE_LEN: usize = 2;

/// Frame rate of the counter when the input has no video.
pub const DEFAULT_FPS: usize = 60;

/// Window size when the input has no video.
pub const DEFAULT_WIDTH: u32 = 1920;

/// Window size when the input has no video.
pub const DEFAULT_HEIGHT: u32 = 1080;

/// Whether a run still waits for its first frames before it starts: a
/// decoded stream holds less than half its queue.
pub fn still_buffering(is_video: bool, video_frames: usize, is_audio: bool, audio_frames: usize) -> (wait: bool)
    ensures
        wait == ((is_video && video_frames < DECODE_VIDEO_QUEUE_LEN / 2) || (is_audio
            && audio_frames < DECODE_AUDIO_QUEUE_LEN / 2)),
{
    (is_video && video_frames < DECODE_VIDEO_QUEUE_LEN / 2) || (is_audio && audio_frames
        < DECODE_AUDIO_QUEUE_LEN / 2)
}

/// Frame rate, width and height a run works with: the video's (its frame
/// rate rounded, as `rounded_fps`) when the input has a video stream with all
/// three, else the defaults for what is missing.
pub fn picture_setup(rounded_fps: Option<usize>, width: Option<u32>, height: Option<u32>) -> (r: (
    usize,
    u32,
    u32,
))
    ensures
        r.0 == (if rounded_fps is Some && width is Some && height is Some {
            rounded_fps->0
        } else {
            DEFAULT_FPS
        }),
        r.1 == (match width {
            Some(w) => w,
            None => DEFAULT_WIDTH,
        }),
        r.2 == (match height {
            Some(h) => h,
            None => DEFAULT_HEIGHT,
        }),
{
    let fps = match (rounded_fps, width, height) {
        (Some(f), Some(_), Some(_)) => f,
        _ => DEFAULT_FPS,
    };
    let w = match width {
        Some(w) => w,
        None => DEFAULT_WIDTH,
    };
    let h = match height {
        Some(h) => h,
        None => DEFAULT_HEIGHT,
    };
    (fps, w, h)
}

/// The abstract state of a run: frames per second, duration in whole
/// seconds, and the number of the frame being shown.
pub struct PlaybackView {
    pub fps: int,
    pub duration: int,
    pub frame: int,
}

impl PlaybackView {
    /// A frame counter of a run: a positive frame rate, an input at least one
    /// second long whose frames can all be numbered, and a shown second from
    /// which a seek can still step on. The counter may start past the end of
    /// the input; the first tick brings it back to the last frame.
    pub open spec fn wf(self) -> bool {
        &&& 0 < self.fps
        &&& 1 <= self.duration <= i64::MAX - SEEK_STEP_SECS
        &&& self.duration * self.fps <= usize::MAX
        &&& 0 <= self.frame
        &&& self.frame / self.fps <= i64::MAX - SEEK_STEP_SECS
    }

    /// Number of the input's last frame.
    pub open spec fn last_frame(self) -> int {
        self.duration * self.fps
    }

    /// The second being shown.
    pub open spec fn second(self) -> int {
        self.frame / self.fps
    }

    /// `v` limited to the seconds of the input.
    pub open spec fn clamp_second(self, v: int) -> int {
        if v < 0 {
            0
        } else if v > self.duration - 1 {
            self.duration - 1
        } else {
            v
        }
    }

    /// The second an arrow key seeks to.
    pub open spec fn seek_target(self, forward: bool) -> int {
        self.clamp_second(
            if forward {
                self.second() + SEEK_STEP_SECS
            } else {
                self.second() - SEEK_STEP_SECS
            },
        )
    }

    /// The state after seeking: shown from the first frame of the target.
    pub open spec fn seeked(self, forward: bool) -> PlaybackView {
        PlaybackView { frame: self.seek_target(forward) * self.fps, ..self }
    }

    /// The state after one tick of the loop: one frame on unless paused, and
    /// never past the last frame.
    pub open spec fn advanced(self, paused: bool) -> PlaybackView {
        if paused {
            self
        } else {
            PlaybackView {
                frame: if self.frame + 1 > self.last_frame() {
                    self.last_frame()
                } else {
                    self.frame + 1
                },
                ..self
            }
        }
    }
}

/// Frame counter of one run of the player.
pub struct Playback {
    fps: usize,
    duration: i64,
    frame: usize,
}

impl View for Playback {
    type V = PlaybackView;

    closed spec fn view(&self) -> PlaybackView {
        PlaybackView { fps: self.fps as int, duration: self.duration as int, frame: self.frame as int }
    }
}

proof fn lemma_second_bounds(fps: int, duration: int, frame: int)
    requires
        0 < fps,
        0 <= frame <= duration * fps,
    ensures
        0 <= frame / fps <= duration,
        frame / fps == duration <==> frame == duration * fps,
        0 <= duration ==> duration <= duration * fps,
{
    assert(0 <= duration ==> duration <= duration * fps) by (nonlinear_arith)
        requires
            0 < fps,
    ;
    assert(0 <= frame / fps <= duration) by (nonlinear_arith)
        requires
            0 < fps,
            0 <= frame <= duration * fps,
    ;
    assert(frame / fps == duration ==> frame == duration * fps) by (nonlinear_arith)
        requires
            0 < fps,
            0 <= frame <= duration * fps,
    ;
    assert(frame == duration * fps ==> frame / fps == duration) by (nonlinear_arith)
        requires
            0 < fps,
    ;
}

proof fn lemma_seek_frame_bounds(fps: int, duration: int, target: int)
    requires
        0 < fps,
        0 <= target,
    ensures
        0 <= target * fps,
        target <= duration - 1 ==> target * fps <= duration * fps,
        (target * fps) / fps == target,
{
    assert(target <= duration - 1 ==> 0 <= target * fps <= duration * fps) by (nonlinear_arith)
        requires
            0 < fps,
            0 <= target,
    ;
    assert((target * fps) / fps == target) by (nonlinear_arith)
        requires
            0 < fps,
            0 <= target,
    ;
}

/// Every step keeps a counter valid; a seek lands inside the input at the
/// first frame of its target second, and an unpaused tick ends at or before
/// the last frame.
proof fn lemma_steps_stay_valid(p: PlaybackView, forward: bool, paused: bool)
    requires
        p.wf(),
    ensures
        p.seeked(forward).wf(),
        p.advanced(paused).wf(),
        0 <= p.second(),
        0 <= p.seek_target(forward) < p.duration,
        p.seeked(forward).second() == p.seek_target(forward),
        p.seeked(forward).frame <= p.last_frame(),
        p.advanced(false).frame <= p.last_frame(),
{
    assert(0 <= p.second()) by (nonlinear_arith)
        requires
            0 < p.fps,
            0 <= p.frame,
    ;
    lemma_seek_frame_bounds(p.fps, p.duration, p.seek_target(forward));
    lemma_second_bounds(p.fps, p.duration, p.last_frame());
    let n = p.advanced(false).frame;
    if n < p.last_frame() {
        lemma_second_bounds(p.fps, p.duration, n);
    }
}

impl Playback {
    #[verifier::type_invariant]
    spec fn counts_within_limits(self) -> bool {
        self@.wf()
    }

    /// A run of an input `duration` seconds long at `fps` frames per second,
    /// started `skip` seconds in. The start may lie at or past the end of the
    /// input.
    pub fn new(fps: usize, duration: i64, skip: i64) -> (p: Self)
        requires
            0 < fps,
            1 <= duration <= i64::MAX - SEEK_STEP_SECS,
            duration * fps <= usize::MAX,
            0 <= skip <= i64::MAX - SEEK_STEP_SECS,
            skip * fps <= usize::MAX,
        ensures
            p@ == (PlaybackView { fps: fps as int, duration: duration as int, frame: skip * fps }),
            p@.wf(),
    {
        proof {
            lemma_seek_frame_bounds(fps as int, duration as int, skip as int);
        }
        Playback { fps, duration, frame: skip as usize * fps }
    }

    /// Number of the frame being shown.
    pub fn frame(&self) -> (f: usize)
        ensures
            f == self@.frame,
    {
        self.frame
    }

    /// The second being shown.
    pub fn second(&self) -> (s: usize)
        ensures
            s == self@.second(),
    {
        proof {
            use_type_invariant(self);
        }
        self.frame / self.fps
    }

    /// Whether the progress line is printed at this frame: on the first frame
    /// of every second.
    pub fn shows_progress(&self) -> (show: bool)
        ensures
            show == (self@.frame % self@.fps == 0),
    {
        proof {
            use_type_invariant(self);
        }
        self.frame % self.fps == 0
    }

    /// The second an arrow key seeks to: ten seconds on or back, kept within
    /// the input.
    pub fn seek_target(&self, forward: bool) -> (t: i64)
        ensures
            t == self@.seek_target(forward),
            0 <= t < self@.duration,
    {
        proof {
            use_type_invariant(self);
            lemma_steps_stay_valid(self@, forward, true);
        }
        let current = self.second() as i64;
        let wanted = if forward {
            current + SEEK_STEP_SECS
        } else {
            current - SEEK_STEP_SECS
        };
        if wanted < 0 {
            0
        } else if wanted > self.duration - 1 {
            self.duration - 1
        } else {
            wanted
        }
    }

    /// Seeks ten seconds on or back; returns the second the decoder must seek
    /// to. Playback then counts from the first frame of that second.
    pub fn seek(&mut self, forward: bool) -> (t: i64)
        ensures
            t == old(self)@.seek_target(forward),
            final(self)@ == old(self)@.seeked(forward),
            final(self)@.wf(),
            final(self)@.second() == t,
    {
        proof {
            use_type_invariant(&*self);
            lemma_steps_stay_valid(self@, forward, true);
        }
        let t = self.seek_target(forward);
        self.frame = t as usize * self.fps;
        t
    }

    /// The second a restart resumes from: the one being shown, kept within
    /// the input.
    pub fn restart_second(&self) -> (s: i64)
        ensures
            s == self@.clamp_second(self@.second()),
            0 <= s < self@.duration,
    {
        proof {
            use_type_invariant(self);
            lemma_steps_stay_valid(self@, true, true);
        }
        let current = self.second() as i64;
        if current > self.duration - 1 {
            self.duration - 1
        } else {
            current
        }
    }

    /// Whether the run is over: the last second is being shown, and there is
    /// no window or it has shown every decoded frame.
    pub fn is_over(&self, has_window: bool, frames_pending: bool) -> (over: bool)
        ensures
            over == (self@.second() == self@.duration && (!has_window || !frames_pending)),
    {
        proof {
            use_type_invariant(self);
            lemma_second_bounds(self.fps as int, self.duration as int, 0);
        }
        let second = self.second();
        second == self.duration as usize && (!has_window || !frames_pending)
    }

    /// One tick of the loop: the next frame unless paused, never past the
    /// last frame of the input (a counter that started past it comes back to
    /// it).
    pub fn advance(&mut self, paused: bool)
        ensures
            final(self)@ == old(self)@.advanced(paused),
            final(self)@.wf(),
    {
        proof {
            use_type_invariant(&*self);
            lemma_steps_stay_valid(self@, true, paused);
            lemma_second_bounds(self.fps as int, self.duration as int, 0);
        }
        if !paused {
            let last = self.duration as usize * self.fps;
            if self.frame < last {
                self.frame = self.frame + 1;
            } else {
                self.frame = last;
            }
        }
    }
}

/// Every step of a run keeps its counter valid; a seek, and a tick that is
/// not paused, leave the counter at or before the input's last frame, and a
/// counter at or before it stays there whatever the step.
pub proof fn lemma_steps_keep_frame_in_input(p: PlaybackView, forward: bool, paused: bool)
    requires
        p.wf(),
    ensures
        p.seeked(forward).wf(),
        p.advanced(paused).wf(),
        0 <= p.seek_target(forward) < p.duration,
        p.seeked(forward).second() == p.seek_target(forward),
        p.seeked(forward).frame <= p.last_frame(),
        p.advanced(false).frame <= p.last_frame(),
        p.frame <= p.last_frame() ==> p.advanced(paused).frame <= p.last_frame(),
{
    lemma_steps_stay_valid(p, forward, paused);
}

/// A run started at or past the end of the input shows the last frame after
/// its first tick that is not paused, and then holds there.
pub proof fn lemma_start_past_end_comes_back(p: PlaybackView)
    requires
        p.wf(),
        p.frame >= p.last_frame(),
    ensures
        p.advanced(false).frame == p.last_frame(),
        p.advanced(false).second() == p.duration,
        p.advanced(false).advanced(false) == p.advanced(false),
{
    lemma_second_bounds(p.fps, p.duration, p.last_frame());
}

/// Seeking ten seconds on and then ten seconds back returns to the second one
/// started from, when the first seek was not cut short by the end.
pub proof fn lemma_seek_round_trip(p: PlaybackView)
    requires
        p.wf(),
        p.second() + SEEK_STEP_SECS <= p.duration - 1,
    ensures
        p.seeked(true).seeked(false).second() == p.second(),
{
    lemma_steps_stay_valid(p, true, false);
    lemma_steps_stay_valid(p.seeked(true), false, false);
}

/// Within the input, the last second is shown exactly at the input's last
/// frame, and no second past it is shown.
pub proof fn lemma_end_is_the_last_frame(p: PlaybackView)
    requires
        p.wf(),
        p.frame <= p.last_frame(),
    ensures
        p.second() <= p.duration,
        p.second() == p.duration <==> p.frame == p.last_frame(),
{
    lemma_second_bounds(p.fps, p.duration, p.frame);
}

/// A run that is not paused and not at its end moves on by exactly one frame;
/// a paused one stays where it is.
pub proof fn lemma_advance_moves_one_frame(p: PlaybackView)
    requires
        p.wf(),
        p.frame < p.last_frame(),
    ensures
        p.advanced(false).frame == p.frame + 1,
        p.advanced(true) == p,
{
}

/// What an arrow key does during a run.
#[derive(Clone, Copy, Debug, PartialEq, Eq, Structural)]
pub enum ArrowStep {
    /// Nothing: the decoder has finished, so there is nothing left to seek in.
    Ignore,
    /// Seek. When the run has audio, its task is set to [`Task::Flush`]
    /// meanwhile and, once the audio reports [`Task::FlushOk`], set back to
    /// `resume`, the task it had when the key was pressed.
    Seek { resume: Option<Task> },
}

/// The step an arrow key starts, given whether the decoder has finished and
/// the audio task when the run has audio.
pub open spec fn spec_arrow_step(decoder_finished: bool, audio_task: Option<Task>) -> ArrowStep {
    if decoder_finished {
        ArrowStep::Ignore
    } else {
        ArrowStep::Seek { resume: audio_task }
    }
}

/// See [`spec_arrow_step`].
pub fn arrow_step(decoder_finished: bool, audio_task: Option<Task>) -> (s: ArrowStep)
    ensures
        s == spec_arrow_step(decoder_finished, audio_task),
{
    if decoder_finished {
        ArrowStep::Ignore
    } else {
        ArrowStep::Seek { resume: audio_task }
    }
}

/// While a seek waits for the audio flush: the task to store once the audio
/// task reads `current`, or `None` to keep waiting. Only a finished flush
/// ([`Task::FlushOk`]) gives the audio its `resume` task back.
pub open spec fn spec_resume_after_flush(resume: Task, current: Task) -> Option<Task> {
    if current == Task::FlushOk {
        Some(resume)
    } else {
        None
    }
}

/// See [`spec_resume_after_flush`].
pub fn resume_after_flush(resume: Task, current: Task) -> (next: Option<Task>)
    ensures
        next == spec_resume_after_flush(resume, current),
{
    match current {
        Task::FlushOk => Some(resume),
        _ => None,
    }
}

/// A seek gives the audio back the task it had: playing audio plays on, and
/// paused audio stays paused, once its queue has been flushed; nothing is
/// given back before the flush is done.
pub proof fn lemma_seek_gives_the_audio_task_back(t: Task, current: Task)
    ensures
        spec_arrow_step(false, Some(t)) == (ArrowStep::Seek { resume: Some(t) }),
        current == Task::FlushOk ==> spec_resume_after_flush(t, current) == Some(t),
        current != Task::FlushOk ==> spec_resume_after_flush(t, current) is None,
        spec_arrow_step(true, Some(t)) == ArrowStep::Ignore,
{
}

/// How a run of the player ended.
#[derive(Clone, Copy, Debug, PartialEq, Eq, Structural)]
pub enum RunOutcome {
    /// The input played to its end.
    Completed,
    /// The user closed the window.
    Exit,
    /// The user asked to restart from the given second.
    Restart(i64),
    /// The run failed; the player reports the error and gives up.
    Failed,
}

/// What the player does next.
#[derive(Clone, Copy, Debug, PartialEq, Eq, Structural)]
pub enum NextRun {
    /// Start a run `skip` seconds into the input.
    Play { skip: i64 },
    /// Stop normally.
    Stop,
    /// Stop with an error.
    Fail,
}

/// Counts the runs of a `--repeat` session.
pub struct Repeat {
    completed: u32,
    target: Runs,
    skip: Option<i64>,
}

/// Abstract state of a repeat session.
pub struct RepeatView {
    pub completed: int,
    pub target: Runs,
    pub skip: Option<i64>,
}

impl View for Repeat {
    type V = RepeatView;

    closed spec fn view(&self) -> RepeatView {
        RepeatView { completed: self.completed as int, target: self.target, skip: self.skip }
    }
}

impl RepeatView {
    /// Whether another run is due.
    pub open spec fn runs_left(self) -> bool {
        match self.target {
            Runs::Times(n) => self.completed < n,
            Runs::Forever => true,
        }
    }

    /// What the player does in this state.
    pub open spec fn next(self) -> NextRun {
        if self.runs_left() {
            NextRun::Play {
                skip: match self.skip {
                    Some(s) => s,
                    None => 0,
                },
            }
        } else {
            NextRun::Stop
        }
    }

    /// The state after a run ended with `outcome`: a completed run is counted
    /// (when there is a count to reach) and the next run starts from the
    /// beginning; a restart is replayed from its second.
    pub open spec fn after(self, outcome: RunOutcome) -> RepeatView {
        match outcome {
            RunOutcome::Completed => RepeatView {
                completed: if self.target is Forever { self.completed } else { self.completed + 1 },
                skip: None,
                ..self
            },
            RunOutcome::Restart(s) => RepeatView { skip: Some(s), ..self },
            _ => self,
        }
    }

    /// What the player does after a run ended with `outcome`.
    pub open spec fn next_after(self, outcome: RunOutcome) -> NextRun {
        match outcome {
            RunOutcome::Exit => NextRun::Stop,
            RunOutcome::Failed => NextRun::Fail,
            _ => self.after(outcome).next(),
        }
    }
}

impl Repeat {
    /// A session of `target` runs; none has run yet.
    pub fn new(target: Runs) -> (r: Self)
        ensures
            r@ == (RepeatView { completed: 0, target, skip: None }),
    {
        Repeat { completed: 0, target, skip: None }
    }

    /// What to do now: play (from the pending restart second, else from the
    /// start) while runs are due, else stop.
    pub fn next(&self) -> (n: NextRun)
        ensures
            n == self@.next(),
    {
        let due = match self.target {
            Runs::Times(n) => self.completed < n,
            Runs::Forever => true,
        };
        if due {
            NextRun::Play {
                skip: match self.skip {
                    Some(s) => s,
                    None => 0,
                },
            }
        } else {
            NextRun::Stop
        }
    }

    /// Records how a run ended and says what to do next: a completed run
    /// counts, a restart replays the same run from the given second, closing
    /// the window stops, an error fails.
    pub fn record(&mut self, outcome: RunOutcome) -> (n: NextRun)
        requires
            old(self)@.runs_left(),
        ensures
            final(self)@ == (match outcome {
                RunOutcome::Exit | RunOutcome::Failed => old(self)@,
                _ => old(self)@.after(outcome),
            }),
            n == old(self)@.next_after(outcome),
    {
        match outcome {
            RunOutcome::Exit => NextRun::Stop,
            RunOutcome::Failed => NextRun::Fail,
            RunOutcome::Restart(s) => {
                self.skip = Some(s);
                self.next()
            },
            RunOutcome::Completed => {
                self.skip = None;
                if let Runs::Times(_) = self.target {
                    self.completed = self.completed + 1;
                }
                self.next()
            },
        }
    }
}

/// A failed run ends the session with an error, and closing the window ends
/// it normally, whatever the number of runs asked for (forever included) and
/// however many have completed; neither changes the session.
pub proof fn lemma_failure_and_exit_end_the_session(r: RepeatView)
    ensures
        r.next_after(RunOutcome::Failed) == NextRun::Fail,
        r.next_after(RunOutcome::Exit) == NextRun::Stop,
{
}

/// A restart does not use up a run and resumes from the second it names; a
/// completed run counts once and the next one starts from the beginning; no
/// more runs start once `n` have completed, and `--repeat 0` never runs out.
pub proof fn lemma_repeat_counts_completed_runs(r: RepeatView, secs: i64)
    requires
        0 <= r.completed,
        r.runs_left(),
    ensures
        r.after(RunOutcome::Restart(secs)).completed == r.completed,
        r.next_after(RunOutcome::Restart(secs)) == (NextRun::Play { skip: secs }),
        r.target is Times ==> r.after(RunOutcome::Completed).completed == r.completed + 1,
        r.after(RunOutcome::Completed).runs_left() ==> r.next_after(RunOutcome::Completed)
            == (NextRun::Play { skip: 0 }),
        r.target == Runs::Times((r.completed + 1) as u32) ==> r.next_after(RunOutcome::Completed)
            == NextRun::Stop,
        r.target is Forever ==> r.next_after(RunOutcome::Completed) == (NextRun::Play { skip: 0 }),
{
}

} // verus!
