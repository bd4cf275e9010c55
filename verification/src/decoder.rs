//! Decisions of the pull-style decoder, which hands out video and audio
//! frames one at a time, and of its frame formatter.
use vstd::prelude::*;
use crate::audio::SampleFormat;
use crate::decode::PacketRoute;

verus! {

/// What a stream decoder answered when asked for a frame.
#[derive(Clone, Copy, Debug, PartialEq, Eq, Structural)]
pub enum Received {
    /// A frame.
    Frame,
    /// It needs more input first.
    Again,
    /// It has been drained.
    Eof,
    /// Any other error.
    Failed,
}

/// What the pull decoder does with that answer.
#[derive(Clone, Copy, Debug, PartialEq, Eq, Structural)]
pub enum AfterReceive {
    /// Hand the frame out.
    Yield,
    /// Ask the next decoder, or read more input.
    Continue,
    /// Report the error.
    Fail,
}

/// See [`AfterReceive`]: "needs more input" and "drained" are not errors.
pub open spec fn spec_after_receive(r: Received) -> AfterReceive {
    match r {
        Received::Frame => AfterReceive::Yield,
        Received::Failed => AfterReceive::Fail,
        _ => AfterReceive::Continue,
    }
}

/// See [`spec_after_receive`].
pub fn after_receive(r: Received) -> (a: AfterReceive)
    ensures
        a == spec_after_receive(r),
{
    match r {
        Received::Frame => AfterReceive::Yield,
        Received::Failed => AfterReceive::Fail,
        _ => AfterReceive::Continue,
    }
}

/// Where the pull decoder sends a packet of stream `stream`: the video
/// stream is checked first, packets of other streams are skipped.
pub fn pull_route(stream: usize, video_index: usize, audio_index: usize) -> (r: PacketRoute)
    ensures
        r == (if stream == video_index {
            PacketRoute::Video
        } else if stream == audio_index {
            PacketRoute::Audio
        } else {
            PacketRoute::Skip
        }),
{
    if stream == video_index {
        PacketRoute::Video
    } else if stream == audio_index {
        PacketRoute::Audio
    } else {
        PacketRoute::Skip
    }
}

/// What the pull decoder does when neither stream decoder has a frame ready.
#[derive(Clone, Copy, Debug, PartialEq, Eq, Structural)]
pub enum IdleAction {
    /// Read packets from the input and feed them to the decoders.
    ReadPackets,
    /// The input has ended and both decoders are drained: no frame is left.
    Done,
}

/// What a pull decoder does with no frame ready, once the input has ended
/// (`ended`) or before.
pub open spec fn idle_action(ended: bool) -> IdleAction {
    if ended {
        IdleAction::Done
    } else {
        IdleAction::ReadPackets
    }
}

/// What one request for a frame comes to.
#[derive(Clone, Copy, Debug, PartialEq, Eq, Structural)]
pub enum PullOutcome {
    /// A video frame is handed out.
    Video,
    /// An audio frame is handed out.
    Audio,
    /// A decoder failed.
    Fail,
    /// No frame is left (`Ok(None)`).
    End,
    /// Packets are read and fed to the decoders, and the request starts over.
    ReadPackets,
}

/// One request for a frame: the video decoder is asked first, the audio
/// decoder only when the video one had nothing (`audio` is then its answer),
/// and with neither holding a frame the input is read, unless it has ended.
pub open spec fn pull_outcome(ended: bool, video: Received, audio: Received) -> PullOutcome {
    match spec_after_receive(video) {
        AfterReceive::Yield => PullOutcome::Video,
        AfterReceive::Fail => PullOutcome::Fail,
        AfterReceive::Continue => match spec_after_receive(audio) {
            AfterReceive::Yield => PullOutcome::Audio,
            AfterReceive::Fail => PullOutcome::Fail,
            AfterReceive::Continue => match idle_action(ended) {
                IdleAction::Done => PullOutcome::End,
                IdleAction::ReadPackets => PullOutcome::ReadPackets,
            },
        },
    }
}

/// Whether the pull decoder has reached the end of its input (and told both
/// stream decoders to drain).
pub struct PullState {
    input_ended: bool,
}

impl View for PullState {
    type V = bool;

    closed spec fn view(&self) -> bool {
        self.input_ended
    }
}

impl PullState {
    /// A decoder that has not yet reached the end of its input.
    pub fn new() -> (s: Self)
        ensures
            !s@,
    {
        PullState { input_ended: false }
    }

    /// With no frame ready: read more input until it has ended, then report
    /// that no frame is left.
    pub fn when_idle(&self) -> (a: IdleAction)
        ensures
            a == idle_action(self@),
    {
        if self.input_ended {
            IdleAction::Done
        } else {
            IdleAction::ReadPackets
        }
    }

    /// Records that the input has no packet left.
    pub fn input_ended(&mut self)
        ensures
            final(self)@,
    {
        self.input_ended = true;
    }
}

/// Once the input has ended no packet is read again: a request either hands
/// out a frame still held by a decoder, reports a failure, or reports that
/// nothing is left; and with both decoders drained (or waiting for input that
/// will not come) every request reports that nothing is left. Reaching the
/// end is never undone: only [`PullState::input_ended`] changes the state.
pub proof fn lemma_no_reads_after_the_end(video: Received, audio: Received)
    ensures
        pull_outcome(true, video, audio) != PullOutcome::ReadPackets,
        video != Received::Frame && video != Received::Failed && audio != Received::Frame
            && audio != Received::Failed ==> pull_outcome(true, video, audio) == PullOutcome::End,
        video != Received::Frame && video != Received::Failed && audio != Received::Frame
            && audio != Received::Failed ==> pull_outcome(false, video, audio)
            == PullOutcome::ReadPackets,
{
}

/// Channel layouts of the formatter's resampled audio.
#[derive(Clone, Copy, Debug, PartialEq, Eq, Structural)]
pub enum ChannelLayout {
    Mono,
    Stereo,
}

/// One output channel is resampled to mono, any other count to stereo.
pub fn formatter_layout(channels: u16) -> (l: ChannelLayout)
    ensures
        l == (if channels == 1 { ChannelLayout::Mono } else { ChannelLayout::Stereo }),
{
    if channels == 1 {
        ChannelLayout::Mono
    } else {
        ChannelLayout::Stereo
    }
}

/// The formatter only resamples for devices that take 32-bit float samples;
/// any other configuration is unsupported.
pub fn formatter_accepts(fmt: SampleFormat) -> (ok: bool)
    ensures
        ok == (fmt == SampleFormat::F32),
{
    match fmt {
        SampleFormat::F32 => true,
        _ => false,
    }
}

} // verus!
