//! The decoding thread's decisions: which packets go to which decoder, when to
//! seek, when to wait for the consumers, and the checks a new input must pass.
use vstd::prelude::*;
use std::sync::Mutex;
use crate::audio::SampleFormat;
use crate::endian::is_little_endian;
use crate::frame::u32_from_native;
use vstd::endian::{endianness, Endian};

verus! {

/// Packets waiting for a decoder before the reader pauses.
pub const DECODE_PACKET_QUEUE_LEN: usize = 2;

/// State of the decoding thread.
#[derive(Clone, Copy, Debug, PartialEq, Eq, Structural)]
pub enum Status {
    /// Decoder is still running.
    Running,
    /// Decoder has finished: no more decoded frames.
    Finish,
}

/// Request to the decoding thread, or to one of its stream decoders.
#[derive(Clone, Copy, Debug, PartialEq, Eq, Structural)]
pub enum Task {
    /// Keep decoding.
    Play,
    /// Jump to the given second of the input.
    Seek(i64),
    /// Drop what has been decoded so far (stream decoders only).
    Flush,
}

/// Shared between the player and the decoding thread.
#[derive(Debug)]
pub struct Control {
    pub task: Mutex<Task>,
    pub status: Mutex<Status>,
}

/// The task a lock was created holding. Later stores through the lock change
/// what it holds, not what it was created with.
pub uninterp spec fn initial_task(lock: Mutex<Task>) -> Task;

/// The status a lock was created holding. Later stores through the lock
/// change what it holds, not what it was created with.
pub uninterp spec fn initial_status(lock: Mutex<Status>) -> Status;

/// `Mutex::new`: a new, unlocked lock holding `task`.
#[verifier::external_body]
fn task_lock(task: Task) -> (lock: Mutex<Task>)
    ensures
        initial_task(lock) == task,
{
    Mutex::new(task)
}

/// `Mutex::new`: a new, unlocked lock holding `status`.
#[verifier::external_body]
fn status_lock(status: Status) -> (lock: Mutex<Status>)
    ensures
        initial_status(lock) == status,
{
    Mutex::new(status)
}

impl Control {
    /// Starts decoding, running.
    pub fn new() -> (c: Control)
        ensures
            initial_task(c.task) == Task::Play,
            initial_status(c.status) == Status::Running,
    {
        Control { task: task_lock(Task::Play), status: status_lock(Status::Running) }
    }
}

/// What the reading loop does next, given the control it shares with the
/// player.
#[derive(Clone, Copy, Debug, PartialEq, Eq, Structural)]
pub enum ControlStep {
    /// Leave the loop: the player has finished.
    Stop,
    /// Read the next packet.
    Read,
    /// Seek to the given second, flush both stream decoders, then read.
    Seek(i64),
}

/// See [`ControlStep`]. The reading loop itself is never asked to flush.
pub fn control_step(status: Status, task: Task) -> (step: ControlStep)
    requires
        status == Status::Finish || task != Task::Flush,
    ensures
        step == (if status == Status::Finish {
            ControlStep::Stop
        } else {
            match task {
                Task::Seek(s) => ControlStep::Seek(s),
                _ => ControlStep::Read,
            }
        }),
{
    if status == Status::Finish {
        return ControlStep::Stop;
    }
    match task {
        Task::Play => ControlStep::Read,
        Task::Seek(s) => ControlStep::Seek(s),
        Task::Flush => ControlStep::Read,
    }
}

/// Where a packet read from the input goes.
#[derive(Clone, Copy, Debug, PartialEq, Eq, Structural)]
pub enum PacketRoute {
    Video,
    Audio,
    Skip,
}

/// The streams the reading loop still feeds: a stream is fed while it has a
/// decoder, a stream index and somewhere to send its frames, and stops being
/// fed once its decoder hangs up.
#[derive(Clone, Copy, Debug, PartialEq, Eq, Structural)]
pub struct DecodeState {
    /// Index of the video stream while video is decoded.
    pub video_stream: Option<usize>,
    /// Index of the audio stream while audio is decoded.
    pub audio_stream: Option<usize>,
}

impl DecodeState {
    /// Starts with video decoded when the input has a video decoder and
    /// stream and a frame consumer was given; audio likewise, and it also
    /// needs an output configuration.
    pub fn new(
        video_decoder: bool,
        video_index: Option<usize>,
        video_sink: bool,
        audio_decoder: bool,
        audio_index: Option<usize>,
        audio_config: bool,
        audio_sink: bool,
    ) -> (s: Self)
        ensures
            s.video_stream == (if video_decoder && video_sink { video_index } else { None }),
            s.audio_stream == (if audio_decoder && audio_config && audio_sink {
                audio_index
            } else {
                None
            }),
    {
        DecodeState {
            video_stream: if video_decoder && video_sink { video_index } else { None },
            audio_stream: if audio_decoder && audio_config && audio_sink { audio_index } else { None },
        }
    }

    /// Whether video frames are still decoded.
    pub open spec fn is_video(self) -> bool {
        self.video_stream is Some
    }

    /// Whether audio frames are still decoded.
    pub open spec fn is_audio(self) -> bool {
        self.audio_stream is Some
    }

    pub open spec fn spec_route(self, stream: usize) -> PacketRoute {
        if self.video_stream == Some(stream) {
            PacketRoute::Video
        } else if self.audio_stream == Some(stream) {
            PacketRoute::Audio
        } else {
            PacketRoute::Skip
        }
    }

    /// Where a packet of stream `stream` goes: to the video decoder if it is
    /// the decoded video stream, else to the audio decoder if it is the
    /// decoded audio stream, else nowhere.
    pub fn route(&self, stream: usize) -> (r: PacketRoute)
        ensures
            r == self.spec_route(stream),
    {
        match self.video_stream {
            Some(v) if v == stream => {
                return PacketRoute::Video;
            },
            _ => {},
        }
        match self.audio_stream {
            Some(a) if a == stream => PacketRoute::Audio,
            _ => PacketRoute::Skip,
        }
    }

    /// The state after a packet routed by `route` did or did not reach its
    /// decoder.
    pub open spec fn after(self, route: PacketRoute, delivered: bool) -> DecodeState {
        DecodeState {
            video_stream: if route == PacketRoute::Video && !delivered {
                None
            } else {
                self.video_stream
            },
            audio_stream: if route == PacketRoute::Audio && !delivered {
                None
            } else {
                self.audio_stream
            },
        }
    }

    /// Records whether a routed packet reached its decoder; a decoder that
    /// did not take it is fed no more.
    pub fn after_send(&mut self, route: PacketRoute, delivered: bool)
        ensures
            *final(self) == old(self).after(route, delivered),
    {
        if !delivered {
            match route {
                PacketRoute::Video => {
                    self.video_stream = None;
                },
                PacketRoute::Audio => {
                    self.audio_stream = None;
                },
                PacketRoute::Skip => {},
            }
        }
    }

    /// No stream is decoded any more: the reading loop ends.
    pub fn finished(&self) -> (done: bool)
        ensures
            done == (!self.is_video() && !self.is_audio()),
    {
        self.video_stream.is_none() && self.audio_stream.is_none()
    }

    pub open spec fn spec_may_read_on(
        self,
        status: Status,
        task: Task,
        video_queued: usize,
        audio_queued: usize,
    ) -> bool {
        let v = if self.is_video() { video_queued as int } else { usize::MAX as int };
        let a = if self.is_audio() { audio_queued as int } else { usize::MAX as int };
        status == Status::Finish || task != Task::Play || v <= DECODE_PACKET_QUEUE_LEN
            || a <= DECODE_PACKET_QUEUE_LEN
    }

    /// Whether the reader stops waiting for the decoders: the player finished,
    /// a new request came in, or a decoded stream has at most
    /// [`DECODE_PACKET_QUEUE_LEN`] packets waiting.
    pub fn may_read_on(&self, status: Status, task: Task, video_queued: usize, audio_queued: usize) -> (go: bool)
        ensures
            go == self.spec_may_read_on(status, task, video_queued, audio_queued),
    {
        let v = if self.video_stream.is_some() { video_queued } else { usize::MAX };
        let a = if self.audio_stream.is_some() { audio_queued } else { usize::MAX };
        status == Status::Finish || task != Task::Play || v <= DECODE_PACKET_QUEUE_LEN || a
            <= DECODE_PACKET_QUEUE_LEN
    }
}

/// Packets only ever go to a stream that is still decoded, a stream that has
/// stopped being decoded is never fed again, and a stream keeps being decoded
/// as long as its decoder takes every packet.
pub proof fn lemma_stopped_stream_stays_stopped(s: DecodeState, route: PacketRoute, delivered: bool, stream: usize)
    ensures
        s.spec_route(stream) == PacketRoute::Video ==> s.is_video(),
        s.spec_route(stream) == PacketRoute::Audio ==> s.is_audio(),
        !s.is_video() ==> !s.after(route, delivered).is_video(),
        !s.is_audio() ==> !s.after(route, delivered).is_audio(),
        delivered ==> s.after(route, delivered) == s,
{
}

/// A packet goes to the video decoder exactly when it belongs to the decoded
/// video stream, to the audio decoder exactly when it belongs to the decoded
/// audio stream (and not to the video one), and is skipped otherwise.
pub proof fn lemma_packets_go_to_their_own_stream(s: DecodeState, stream: usize)
    ensures
        (s.spec_route(stream) == PacketRoute::Video) <==> s.video_stream == Some(stream),
        (s.spec_route(stream) == PacketRoute::Audio) <==> (s.audio_stream == Some(stream)
            && s.video_stream != Some(stream)),
        (s.spec_route(stream) == PacketRoute::Skip) <==> (s.video_stream != Some(stream)
            && s.audio_stream != Some(stream)),
{
}

/// A decoder that does not take a packet stops only its own stream: the
/// other stream, and every stream after a delivered or skipped packet, is
/// decoded on as before.
pub proof fn lemma_failed_send_stops_only_its_stream(s: DecodeState, route: PacketRoute, delivered: bool)
    ensures
        route != PacketRoute::Video ==> s.after(route, delivered).video_stream == s.video_stream,
        route != PacketRoute::Audio ==> s.after(route, delivered).audio_stream == s.audio_stream,
        delivered ==> s.after(route, delivered) == s,
        route == PacketRoute::Video && !delivered ==> s.after(route, delivered)
            == (DecodeState { video_stream: None, audio_stream: s.audio_stream }),
        route == PacketRoute::Audio && !delivered ==> s.after(route, delivered)
            == (DecodeState { video_stream: s.video_stream, audio_stream: None }),
{
}

/// While the player runs and plays, the reader goes on exactly when a stream
/// that is still decoded has at most [`DECODE_PACKET_QUEUE_LEN`] packets
/// waiting; a stream that is not decoded never lets it go on. A finished
/// player or a pending request always lets it go on.
pub proof fn lemma_reader_waits_for_a_decoded_stream(
    s: DecodeState,
    status: Status,
    task: Task,
    video_queued: usize,
    audio_queued: usize,
)
    ensures
        status == Status::Running && task == Task::Play ==> (s.spec_may_read_on(
            status,
            task,
            video_queued,
            audio_queued,
        ) <==> ((s.video_stream is Some && video_queued <= DECODE_PACKET_QUEUE_LEN) || (
        s.audio_stream is Some && audio_queued <= DECODE_PACKET_QUEUE_LEN))),
        status == Status::Finish || task != Task::Play ==> s.spec_may_read_on(
            status,
            task,
            video_queued,
            audio_queued,
        ),
        s.video_stream is None && s.audio_stream is None && status == Status::Running && task
            == Task::Play ==> !s.spec_may_read_on(status, task, video_queued, audio_queued),
{
}

/// A stream is only decoded when its decoder, its stream index and a consumer
/// for its frames all exist (and, for audio, an output configuration).
pub proof fn lemma_decoded_streams_need_a_consumer(
    video_decoder: bool,
    video_index: Option<usize>,
    video_sink: bool,
    audio_decoder: bool,
    audio_index: Option<usize>,
    audio_config: bool,
    audio_sink: bool,
    s: DecodeState,
)
    requires
        s.video_stream == (if video_decoder && video_sink { video_index } else { None }),
        s.audio_stream == (if audio_decoder && audio_config && audio_sink {
            audio_index
        } else {
            None
        }),
    ensures
        s.is_video() ==> video_decoder && video_sink && video_index is Some,
        s.is_audio() ==> audio_decoder && audio_config && audio_sink && audio_index is Some,
{
}

/// What a stream decoder does after handing a frame on.
#[derive(Clone, Copy, Debug, PartialEq, Eq, Structural)]
pub enum FrameFollowUp {
    /// Keep receiving frames.
    Continue,
    /// Flush the decoder, drop the waiting packets, clear the request and
    /// wait until the consumer has taken every frame.
    Flush,
}

/// See [`FrameFollowUp`]. Stream decoders are only ever asked to flush.
pub fn frame_follow_up(task: Option<Task>) -> (next: FrameFollowUp)
    requires
        task is None || task == Some(Task::Flush),
    ensures
        next == (if task is None { FrameFollowUp::Continue } else { FrameFollowUp::Flush }),
{
    match task {
        None => FrameFollowUp::Continue,
        Some(_) => FrameFollowUp::Flush,
    }
}

/// Whether draining the resampler goes on after a flushed frame with
/// `samples` samples: it stops at the first empty frame, or when the frame
/// could not be handed on.
pub fn resampler_drain_continues(samples: usize, handed_on: bool) -> (more: bool)
    ensures
        more == (samples != 0 && handed_on),
{
    samples != 0 && handed_on
}

/// Whether opening an input at `secs` seconds needs a seek: only strictly
/// inside the input's duration (`duration_secs`).
pub fn needs_seek(secs: i64, duration_secs: i64) -> (seek: bool)
    ensures
        seek == (0 < secs && secs < duration_secs),
{
    0 < secs && secs < duration_secs
}

/// A limit the video stream of an input exceeds.
#[derive(Clone, Copy, Debug, PartialEq, Eq, Structural)]
pub enum LimitExceeded {
    Width,
    Height,
    FrameRate,
}

impl LimitExceeded {
    /// The message the player reports.
    pub fn message(&self) -> (m: &'static str)
        ensures
            m@ == (match self {
                LimitExceeded::Width => "Error: Video exceed width limit."@,
                LimitExceeded::Height => "Error: Video exceed height limit."@,
                LimitExceeded::FrameRate => "Error: Video exceed fps limit."@,
            }),
    {
        match self {
            LimitExceeded::Width => "Error: Video exceed width limit.",
            LimitExceeded::Height => "Error: Video exceed height limit.",
            LimitExceeded::FrameRate => "Error: Video exceed fps limit.",
        }
    }
}

/// The frame rate `num / den` plus one exceeds [`crate::FPS_LIMIT`], that is
/// the rate is above `FPS_LIMIT - 1`. A zero denominator stands for an
/// infinite rate when `num > 0` and for no rate otherwise.
pub open spec fn spec_rate_too_high(num: int, den: int) -> bool {
    if den > 0 {
        num > (crate::FPS_LIMIT - 1) * den
    } else if den < 0 {
        num < (crate::FPS_LIMIT - 1) * den
    } else {
        num > 0
    }
}

/// Checks the video stream of a new input against the player's limits, in
/// order: width, height, frame rate (given as the fraction `num / den`).
pub fn check_video_limits(width: u32, height: u32, rate_num: i32, rate_den: i32) -> (r: Result<(), LimitExceeded>)
    ensures
        r == (if width > crate::WIDTH_LIMIT {
            Err(LimitExceeded::Width)
        } else if height > crate::HEIGHT_LIMIT {
            Err(LimitExceeded::Height)
        } else if spec_rate_too_high(rate_num as int, rate_den as int) {
            Err(LimitExceeded::FrameRate)
        } else {
            Ok(())
        }),
{
    if width as usize > crate::WIDTH_LIMIT {
        return Err(LimitExceeded::Width);
    }
    if height as usize > crate::HEIGHT_LIMIT {
        return Err(LimitExceeded::Height);
    }
    let num = rate_num as i64;
    let den = rate_den as i64;
    let bound = (crate::FPS_LIMIT - 1) as i64;
    let too_high = if den > 0 {
        num > bound * den
    } else if den < 0 {
        num < bound * den
    } else {
        num > 0
    };
    if too_high {
        Err(LimitExceeded::FrameRate)
    } else {
        Ok(())
    }
}

/// Packed audio sample formats of the resampler's output.
#[derive(Clone, Copy, Debug, PartialEq, Eq, Structural)]
pub enum PackedSample {
    U8,
    I16,
    I32,
    I64,
    F32,
    F64,
}

/// The resampler output matching a device sample format, for the formats the
/// resampler can produce.
pub fn as_ffmpeg_sample(fmt: SampleFormat) -> (s: PackedSample)
    requires
        fmt == SampleFormat::U8 || fmt == SampleFormat::I16 || fmt == SampleFormat::I32 || fmt
            == SampleFormat::I64 || fmt == SampleFormat::F32 || fmt == SampleFormat::F64,
    ensures
        s == (match fmt {
            SampleFormat::U8 => PackedSample::U8,
            SampleFormat::I16 => PackedSample::I16,
            SampleFormat::I32 => PackedSample::I32,
            SampleFormat::I64 => PackedSample::I64,
            SampleFormat::F32 => PackedSample::F32,
            _ => PackedSample::F64,
        }),
{
    match fmt {
        SampleFormat::U8 => PackedSample::U8,
        SampleFormat::I16 => PackedSample::I16,
        SampleFormat::I32 => PackedSample::I32,
        SampleFormat::I64 => PackedSample::I64,
        SampleFormat::F32 => PackedSample::F32,
        _ => PackedSample::F64,
    }
}

/// Pixel layouts the video scaler can produce.
#[derive(Clone, Copy, Debug, PartialEq, Eq, Structural)]
pub enum PixelLayout {
    /// Bytes blue, green, red, unused.
    Bgrz,
    /// Bytes unused, red, green, blue.
    Zrgb,
}

/// The layout chosen for this machine's byte order.
pub open spec fn native_layout() -> PixelLayout {
    if endianness() == Endian::Little {
        PixelLayout::Bgrz
    } else {
        PixelLayout::Zrgb
    }
}

/// The four bytes of one pixel in a layout, in memory order.
pub open spec fn layout_bytes(p: PixelLayout, r: u8, g: u8, b: u8) -> Seq<u8> {
    match p {
        PixelLayout::Bgrz => seq![b, g, r, 0u8],
        PixelLayout::Zrgb => seq![0u8, r, g, b],
    }
}

/// The scaler's output layout: the one whose four bytes, read as a native
/// `u32`, give `0x00RRGGBB` on this machine.
pub fn scaler_output_layout() -> (p: PixelLayout)
    ensures
        p == native_layout(),
{
    if is_little_endian() {
        PixelLayout::Bgrz
    } else {
        PixelLayout::Zrgb
    }
}

/// Pixels the scaler writes in the layout chosen for this machine read back,
/// as native `u32`s, as `0x00RRGGBB`: the packing the window expects.
pub proof fn lemma_native_layout_packs_0rgb(r: u8, g: u8, b: u8)
    ensures
        u32_from_native(layout_bytes(native_layout(), r, g, b)) == r * 65536 + g * 256 + b,
{
}

} // verus!
