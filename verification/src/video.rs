//! The picture the player shows and its pause state.
use vstd::prelude::*;
use crate::frame::{plane_pixel, video_frame_to_vec};
use crate::{HEIGHT_LIMIT, WIDTH_LIMIT};

verus! {

/// The picture being shown, packed one `u32` per pixel, and whether playback
/// is paused.
pub struct Video {
    buf: Vec<u32>,
    width: u32,
    height: u32,
    is_paused: bool,
}

/// Abstract [`Video`].
pub struct VideoView {
    pub buf: Seq<u32>,
    pub width: int,
    pub height: int,
    pub paused: bool,
}

impl VideoView {
    /// The same picture with pause toggled.
    pub open spec fn toggled(self) -> VideoView {
        VideoView { paused: !self.paused, ..self }
    }
}

impl View for Video {
    type V = VideoView;

    closed spec fn view(&self) -> VideoView {
        VideoView {
            buf: self.buf@,
            width: self.width as int,
            height: self.height as int,
            paused: self.is_paused,
        }
    }
}

impl Video {
    /// A black `width` by `height` picture, playing.
    pub fn new(width: u32, height: u32) -> (v: Self)
        requires
            width <= WIDTH_LIMIT,
            height <= HEIGHT_LIMIT,
        ensures
            v@.width == width,
            v@.height == height,
            !v@.paused,
            v@.buf.len() == width * height,
            forall|i: int| 0 <= i < v@.buf.len() ==> #[trigger] v@.buf[i] == 0,
    {
        assert(width * height <= 15360 * 8640) by (nonlinear_arith)
            requires
                width <= 15360,
                height <= 8640,
        ;
        let n = width as usize * height as usize;
        let buf = vec![0u32; n];
        assert(forall|i: int| 0 <= i < n ==> buf@[i] == 0u32);
        Video { buf, width, height, is_paused: false }
    }

    /// Width of the video, in pixels.
    pub fn width(&self) -> (w: u32)
        ensures
            w == self@.width,
    {
        self.width
    }

    /// Height of the video, in pixels.
    pub fn height(&self) -> (h: u32)
        ensures
            h == self@.height,
    {
        self.height
    }

    /// The picture being shown.
    pub fn buffer(&self) -> (b: &Vec<u32>)
        ensures
            b@ == self@.buf,
    {
        &self.buf
    }

    /// Pauses a playing video, resumes a paused one.
    pub fn toggle_pause(&mut self)
        ensures
            final(self)@ == old(self)@.toggled(),
    {
        self.is_paused = !self.is_paused;
    }

    /// Whether the video is paused.
    pub fn is_paused(&self) -> (p: bool)
        ensures
            p == self@.paused,
    {
        self.is_paused
    }

    /// Whether a new frame is taken from the decoder: only while playing.
    pub fn should_update(&self) -> (u: bool)
        ensures
            u == !self@.paused,
    {
        !self.is_paused
    }

    /// Shows a decoded frame: its first plane (`stride` bytes per line,
    /// `width` by `height` pixels) packed one `u32` per pixel.
    pub fn show_frame(&mut self, data: &[u8], width: u32, height: u32, stride: usize)
        requires
            width > 0,
            stride > 0,
            height * width <= usize::MAX,
        ensures
            final(self)@.width == old(self)@.width,
            final(self)@.height == old(self)@.height,
            final(self)@.paused == old(self)@.paused,
            final(self)@.buf.len() == height * width,
            forall|i: int|
                0 <= i < final(self)@.buf.len() ==> #[trigger] final(self)@.buf[i] == plane_pixel(
                    data@,
                    width as int,
                    height as int,
                    stride as int,
                    i / width as int,
                    i % width as int,
                ),
    {
        self.buf = video_frame_to_vec(data, width, height, stride);
    }
}

/// Pausing twice gives back the state one started from.
pub proof fn lemma_pause_twice(v: VideoView)
    ensures
        v.toggled().toggled() == v,
        v.toggled().paused != v.paused,
{
}

} // verus!
