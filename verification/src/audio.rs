//! Audio output: the sample queue that feeds the device callback, the
//! callback's decisions, and the sample formats the player can play.
use vstd::prelude::*;
use std::sync::Mutex;
use std::collections::VecDeque;

verus! {

/// How the output device is chosen.
#[derive(Clone, Copy, Debug, PartialEq, Eq, Structural)]
pub enum InitOpts {
    /// The host's default device with its default configuration.
    Default,
    /// The device and configuration ranked best by the host's heuristics
    /// among those that can open an output stream.
    Best,
}

/// Whether the audio output still has something to play.
#[derive(Clone, Copy, Debug, PartialEq, Eq, Structural)]
pub enum Status {
    /// Audio is still running.
    Running,
    /// Audio has finished: no more audio to play.
    Finish,
}

/// Shared between the player and the audio callback.
#[derive(Debug)]
pub struct Control {
    pub task: Mutex<Task>,
    pub status: Mutex<Status>,
}

/// The task a lock was created holding. Later stores through the lock change
/// what it holds, not what it was created with.
pub uninterp spec fn initial_task(lock: Mutex<Task>) -> Task;

/// The status a lock was created holding. Later stores through the lock
/// change what it holds, not what it was created with.
pub uninterp spec fn initial_status(lock: Mutex<Status>) -> Status;

/// `Mutex::new`: a new, unlocked lock holding `task`.
#[verifier::external_body]
fn task_lock(task: Task) -> (lock: Mutex<Task>)
    ensures
        initial_task(lock) == task,
{
    Mutex::new(task)
}

/// `Mutex::new`: a new, unlocked lock holding `status`.
#[verifier::external_body]
fn status_lock(status: Status) -> (lock: Mutex<Status>)
    ensures
        initial_status(lock) == status,
{
    Mutex::new(status)
}

impl Control {
    /// Starts playing, running.
    pub fn new() -> (c: Control)
        ensures
            initial_task(c.task) == Task::Play,
            initial_status(c.status) == Status::Running,
    {
        Control { task: task_lock(Task::Play), status: status_lock(Status::Running) }
    }
}

/// What the audio callback is asked to do.
#[derive(Clone, Copy, Debug, PartialEq, Eq, Structural)]
pub enum Task {
    /// Output silence, keep the queue.
    Pause,
    /// Play queued samples.
    Play,
    /// Drop everything queued (a seek happened).
    Flush,
    /// The queue has been dropped; silence until told otherwise.
    FlushOk,
}

impl Task {
    /// The task after the user toggles pause: playing pauses, paused plays.
    pub open spec fn spec_toggled(self) -> Task {
        match self {
            Task::Play => Task::Pause,
            _ => Task::Play,
        }
    }

    /// Toggles between playing and pausing. A flush in progress cannot be
    /// toggled.
    pub fn toggled(self) -> (t: Task)
        requires
            self == Task::Play || self == Task::Pause,
        ensures
            t == self.spec_toggled(),
            t == Task::Play || t == Task::Pause,
            t != self,
    {
        match self {
            Task::Play => Task::Pause,
            _ => Task::Play,
        }
    }
}

/// Toggling pause twice gives back the task one started from.
pub proof fn lemma_toggle_twice(t: Task)
    requires
        t == Task::Play || t == Task::Pause,
    ensures
        t.spec_toggled().spec_toggled() == t,
{
}

/// The sample formats an audio device may ask for.
#[derive(Clone, Copy, Debug, PartialEq, Eq, Structural)]
pub enum SampleFormat {
    I8,
    I16,
    I24,
    I32,
    I64,
    U8,
    U16,
    U24,
    U32,
    U64,
    F32,
    F64,
    DsdU8,
    DsdU16,
    DsdU32,
}

/// Formats the player builds an output stream for.
pub open spec fn spec_plays(fmt: SampleFormat) -> bool {
    fmt == SampleFormat::U8 || fmt == SampleFormat::I16 || fmt == SampleFormat::I32
        || fmt == SampleFormat::F32 || fmt == SampleFormat::F64
}

/// Whether the player can play a device configured with `fmt`; any other
/// format is refused as an unsupported configuration.
pub fn plays(fmt: SampleFormat) -> (ok: bool)
    ensures
        ok == spec_plays(fmt),
{
    match fmt {
        SampleFormat::U8 | SampleFormat::I16 | SampleFormat::I32 | SampleFormat::F32
        | SampleFormat::F64 => true,
        _ => false,
    }
}

/// Formats for which a trial output stream is opened when probing devices.
pub open spec fn spec_probes(fmt: SampleFormat) -> bool {
    spec_plays(fmt) || fmt == SampleFormat::I64
}

/// Whether a device configuration with `fmt` is worth probing with a trial
/// output stream; other formats count as unusable.
pub fn probes(fmt: SampleFormat) -> (ok: bool)
    ensures
        ok == spec_probes(fmt),
{
    match fmt {
        SampleFormat::U8 | SampleFormat::I16 | SampleFormat::I32 | SampleFormat::I64
        | SampleFormat::F32 | SampleFormat::F64 => true,
        _ => false,
    }
}

/// Whether a probed configuration replaces the best one found so far: it
/// must rank higher by the host's heuristics and open a stream.
pub fn prefer_config(ranks_higher: bool, opens_stream: bool) -> (take: bool)
    ensures
        take == (ranks_higher && opens_stream),
{
    ranks_higher && opens_stream
}

/// Number of samples of a decoded frame that go into the queue: the
/// frame's `samples * channels`, no more than the plane's byte length, cut
/// down to a multiple of the sample size, and never more whole samples than
/// the plane holds.
pub open spec fn spec_frame_sample_count(samples: int, channels: int, plane_len: int, size: int) -> int {
    let len = if samples * channels > plane_len { plane_len } else { samples * channels };
    let aligned = len - len % size;
    if aligned > plane_len / size { plane_len / size } else { aligned }
}

/// See [`spec_frame_sample_count`].
pub fn frame_sample_count(samples: usize, channels: u16, plane_len: usize, size: usize) -> (n: usize)
    requires
        size > 0,
        samples * channels <= usize::MAX,
    ensures
        n == spec_frame_sample_count(samples as int, channels as int, plane_len as int, size as int),
        n * size <= plane_len,
{
    let mut len = samples * channels as usize;
    if len > plane_len {
        len = plane_len;
    }
    let misalignment = len % size;
    assert(misalignment <= len) by (nonlinear_arith)
        requires
            misalignment == len % size,
            size > 0,
    ;
    if misalignment > 0 {
        len = len - misalignment;
    }
    let whole = plane_len / size;
    let n = if len > whole { whole } else { len };
    assert(n * size <= plane_len) by (nonlinear_arith)
        requires
            n <= whole,
            whole == plane_len / size,
            size > 0,
    ;
    n
}

/// What the device callback does with the buffer it is handed.
#[derive(Clone, Copy, Debug, PartialEq, Eq, Structural)]
pub enum CallbackPlan {
    /// Fill the buffer with silence.
    Silence,
    /// Drop the queue, fill the buffer with silence and report the flush done.
    Flush,
    /// Top the queue up from the decoder and play from it.
    Play,
}

/// The callback's plan for the current task and status.
pub open spec fn spec_callback_plan(task: Task, status: Status) -> CallbackPlan {
    match task {
        Task::Play => if status == Status::Finish { CallbackPlan::Silence } else { CallbackPlan::Play },
        Task::Flush => CallbackPlan::Flush,
        _ => CallbackPlan::Silence,
    }
}

/// See [`spec_callback_plan`]: paused, finished and already-flushed output is
/// silent; a flush request drops the queue; otherwise the queue plays.
pub fn callback_plan(task: Task, status: Status) -> (plan: CallbackPlan)
    ensures
        plan == spec_callback_plan(task, status),
{
    match task {
        Task::Play => {
            if status == Status::Finish {
                CallbackPlan::Silence
            } else {
                CallbackPlan::Play
            }
        },
        Task::Flush => CallbackPlan::Flush,
        _ => CallbackPlan::Silence,
    }
}

/// Why a frame could not be taken from the decoder.
#[derive(Clone, Copy, Debug, PartialEq, Eq, Structural)]
pub enum RecvFailure {
    /// Nothing arrived in time.
    Timeout,
    /// The decoder is gone and nothing is left in the channel.
    Disconnected,
}

/// What the callback does after failing to get a frame.
#[derive(Clone, Copy, Debug, PartialEq, Eq, Structural)]
pub enum AfterFailure {
    /// Report a buffer underrun and play what is queued.
    Underrun,
    /// Play what is queued.
    Drain,
    /// Nothing is queued and nothing will come: mark the audio finished and
    /// play silence.
    Finished,
}

/// What the callback does after failing to get a frame with `queued`
/// samples waiting.
pub open spec fn spec_after_recv_failure(failure: RecvFailure, queued: int) -> AfterFailure {
    match failure {
        RecvFailure::Timeout => AfterFailure::Underrun,
        RecvFailure::Disconnected => if queued == 0 {
            AfterFailure::Finished
        } else {
            AfterFailure::Drain
        },
    }
}

/// See [`AfterFailure`].
pub fn after_recv_failure(failure: RecvFailure, queued: usize) -> (next: AfterFailure)
    ensures
        next == spec_after_recv_failure(failure, queued as int),
{
    match failure {
        RecvFailure::Timeout => AfterFailure::Underrun,
        RecvFailure::Disconnected => {
            if queued == 0 {
                AfterFailure::Finished
            } else {
                AfterFailure::Drain
            }
        },
    }
}

/// The audio status after a callback decided `next`: finished once nothing
/// is queued and nothing will come, else as it was.
pub open spec fn spec_status_after(status: Status, next: AfterFailure) -> Status {
    if next == AfterFailure::Finished {
        Status::Finish
    } else {
        status
    }
}

/// See [`spec_status_after`].
pub fn status_after(status: Status, next: AfterFailure) -> (s: Status)
    ensures
        s == spec_status_after(status, next),
{
    if next == AfterFailure::Finished {
        Status::Finish
    } else {
        status
    }
}

/// The audio turns finished only in a callback that found nothing queued and
/// the decoder gone, and never leaves it: a finished callback plays no queue
/// (so takes no more frames), and no decision turns a finished status back.
pub proof fn lemma_finish_only_when_drained(
    status: Status,
    task: Task,
    failure: RecvFailure,
    queued: int,
    next: AfterFailure,
)
    ensures
        spec_status_after(status, spec_after_recv_failure(failure, queued)) == Status::Finish
            ==> status == Status::Finish || (failure == RecvFailure::Disconnected && queued == 0),
        status == Status::Finish ==> spec_status_after(status, next) == Status::Finish,
        status == Status::Finish ==> spec_callback_plan(task, status) != CallbackPlan::Play,
{
}

/// A device buffer of `len` samples filled from queue `q`: the oldest queued
/// samples first, then `silence`.
pub open spec fn filled<T>(q: Seq<T>, len: nat, silence: T) -> Seq<T> {
    Seq::new(len, |i: int| if i < q.len() { q[i] } else { silence })
}

/// What is left of queue `q` after filling a buffer of `len` samples.
pub open spec fn left_after_fill<T>(q: Seq<T>, len: nat) -> Seq<T> {
    if q.len() <= len {
        Seq::empty()
    } else {
        q.skip(len as int)
    }
}

/// Samples come out of the queue in the order they went in, none lost or
/// repeated: what a fill writes from the queue, followed by what it leaves,
/// is the queue it started from.
pub proof fn lemma_fill_keeps_order<T>(q: Seq<T>, len: nat, silence: T)
    ensures
        filled(q, len, silence).take(if q.len() < len { q.len() as int } else { len as int })
            + left_after_fill(q, len) =~= q,
{
}

/// Samples pushed after a fill are played after everything the fill left.
pub proof fn lemma_push_after_fill<T>(q: Seq<T>, len: nat, pushed: Seq<T>, next_len: nat, silence: T)
    requires
        left_after_fill(q, len).len() + pushed.len() <= next_len,
    ensures
        filled(left_after_fill(q, len) + pushed, next_len, silence).take(
            (left_after_fill(q, len).len() + pushed.len()) as int,
        ) =~= left_after_fill(q, len) + pushed,
{
}

/// First-in first-out queue of samples waiting for the output device.
pub struct SampleQueue<T> {
    queue: VecDeque<T>,
}

impl<T> View for SampleQueue<T> {
    type V = Seq<T>;

    closed spec fn view(&self) -> Seq<T> {
        self.queue@
    }
}

impl<T: Copy> SampleQueue<T> {
    /// An empty queue.
    pub fn new() -> (q: Self)
        ensures
            q@ == Seq::<T>::empty(),
    {
        SampleQueue { queue: VecDeque::new() }
    }

    /// Number of queued samples.
    pub fn len(&self) -> (n: usize)
        ensures
            n == self@.len(),
    {
        self.queue.len()
    }

    /// Whether the queue holds fewer samples than a device buffer of
    /// `wanted` samples needs.
    pub fn wants(&self, wanted: usize) -> (more: bool)
        ensures
            more == (self@.len() < wanted),
    {
        self.queue.len() < wanted
    }

    /// Appends the samples of one decoded frame, in order.
    pub fn push_samples(&mut self, samples: &[T])
        ensures
            final(self)@ == old(self)@ + samples@,
    {
        let n = samples.len();
        let mut i: usize = 0;
        while i < n
            invariant
                n == samples@.len(),
                i <= n,
                self@ == old(self)@ + samples@.subrange(0, i as int),
            decreases n - i,
        {
            self.queue.push_back(samples[i]);
            assert(samples@.subrange(0, i as int + 1) =~= samples@.subrange(0, i as int).push(
                samples@[i as int],
            ));
            i = i + 1;
        }
        assert(samples@.subrange(0, n as int) =~= samples@);
    }

    /// Drops every queued sample.
    pub fn clear(&mut self)
        ensures
            final(self)@ == Seq::<T>::empty(),
    {
        self.queue.clear();
    }

    /// Fills a device buffer: the oldest queued samples first, as many as the
    /// buffer takes, then `silence` for the rest. The samples written leave
    /// the queue; the others stay in order.
    pub fn fill(&mut self, data: &mut [T], silence: T)
        ensures
            final(data)@ == filled(old(self)@, old(data)@.len(), silence),
            final(self)@ == left_after_fill(old(self)@, old(data)@.len()),
    {
        let ghost q0 = self@;
        let len = data.len();
        let queued = self.queue.len();
        let n = if queued < len { queued } else { len };
        let mut i: usize = 0;
        while i < n
            invariant
                len == data@.len(),
                len == old(data)@.len(),
                q0 == old(self)@,
                n <= len,
                n <= q0.len(),
                n == q0.len() || n == len,
                i <= n,
                self@ == q0.skip(i as int),
                forall|k: int| 0 <= k < i ==> #[trigger] data@[k] == q0[k],
            decreases n - i,
        {
            let x = self.queue.pop_front().unwrap();
            data[i] = x;
            i = i + 1;
        }
        while i < len
            invariant
                len == data@.len(),
                q0 == old(self)@,
                n <= i <= len,
                n == q0.len() || n == len,
                n <= q0.len(),
                self@ == q0.skip(n as int),
                forall|k: int| 0 <= k < n ==> #[trigger] data@[k] == q0[k],
                forall|k: int| n <= k < i ==> #[trigger] data@[k] == silence,
            decreases len - i,
        {
            data[i] = silence;
            i = i + 1;
        }
        assert(q0.len() <= len ==> q0.skip(n as int) =~= Seq::<T>::empty());
        assert(data@ =~= filled(q0, len as nat, silence));
    }
}

} // verus!

