//! Pixel planes of decoded video frames.
use vstd::prelude::*;
use vstd::endian::{endianness, Endian};

verus! {

/// The `u32` whose bytes, least significant first, are `b[0..4]`.
pub open spec fn u32_from_le(b: Seq<u8>) -> u32 {
    (b[0] as int + 256 * b[1] as int + 65536 * b[2] as int + 16777216 * b[3] as int) as u32
}

/// The `u32` whose bytes, most significant first, are `b[0..4]`.
pub open spec fn u32_from_be(b: Seq<u8>) -> u32 {
    (b[3] as int + 256 * b[2] as int + 65536 * b[1] as int + 16777216 * b[0] as int) as u32
}

/// The `u32` that four bytes spell in the byte order of this machine.
pub open spec fn u32_from_native(b: Seq<u8>) -> u32 {
    match endianness() {
        Endian::Little => u32_from_le(b),
        Endian::Big => u32_from_be(b),
    }
}

/// `u32::from_ne_bytes`: reads four bytes in the byte order of the machine the
/// program was built for (vstd's `endianness()`, one order for the whole
/// program).
#[verifier::external_body]
fn u32_from_ne_bytes(bytes: [u8; 4]) -> (v: u32)
    ensures
        v == u32_from_native(bytes@),
{
    u32::from_ne_bytes(bytes)
}

/// Number of pixel rows of a plane that hold a whole line of `stride` bytes
/// and belong to a picture `height` rows tall.
pub open spec fn copied_rows(len: int, height: int, stride: int) -> int {
    if height < len / stride { height } else { len / stride }
}

/// Number of pixels of a row that are read from the plane: a whole 4-byte
/// group of the line that falls inside a picture `width` pixels wide.
pub open spec fn copied_cols(width: int, stride: int) -> int {
    if width < stride / 4 { width } else { stride / 4 }
}

/// Pixel `(row, col)` of the packed buffer made from a plane: the four bytes at
/// `row * stride + 4 * col` read in native byte order, or 0 where the plane has
/// no such pixel.
pub open spec fn plane_pixel(data: Seq<u8>, width: int, height: int, stride: int, row: int, col: int) -> u32 {
    if row < copied_rows(data.len() as int, height, stride) && col < copied_cols(width, stride) {
        u32_from_native(data.subrange(row * stride + 4 * col, row * stride + 4 * col + 4))
    } else {
        0
    }
}

proof fn lemma_pixel_in_plane(len: int, height: int, stride: int, width: int, row: int, col: int)
    requires
        0 <= row,
        0 <= col,
        0 < stride,
        0 <= len,
        row < copied_rows(len, height, stride),
        col < copied_cols(width, stride),
    ensures
        row * stride + 4 * col + 4 <= len,
        0 <= row * stride,
{
    assert(row < len / stride);
    assert(row + 1 <= len / stride);
    assert((row + 1) * stride <= (len / stride) * stride) by (nonlinear_arith)
        requires row + 1 <= len / stride, 0 < stride;
    assert((len / stride) * stride <= len) by (nonlinear_arith)
        requires 0 < stride, 0 <= len;
    assert(4 * col + 4 <= 4 * (stride / 4));
    assert(4 * (stride / 4) <= stride) by (nonlinear_arith)
        requires 0 < stride;
    assert(row * stride + stride == (row + 1) * stride) by (nonlinear_arith);
    assert(0 <= row * stride) by (nonlinear_arith)
        requires 0 <= row, 0 < stride;
}

/// Packs the first plane of a 0RGB/BGR0 frame into one `u32` per pixel, the
/// layout a window buffer expects: row by row, `width` pixels per row.
///
/// Lines of the plane are `stride` bytes apart. Rows past the end of the plane
/// and pixels past the end of a line stay 0.
pub fn video_frame_to_vec(data: &[u8], width: u32, height: u32, stride: usize) -> (buf: Vec<u32>)
    requires
        width > 0,
        stride > 0,
        height as int * width as int <= usize::MAX,
    ensures
        buf@.len() == height as int * width as int,
        forall|i: int|
            0 <= i < buf@.len() ==> #[trigger] buf@[i] == plane_pixel(
                data@,
                width as int,
                height as int,
                stride as int,
                i / width as int,
                i % width as int,
            ),
{
    let w = width as usize;
    let h = height as usize;
    let total = h * w;
    let n = data.len();
    let rows = if h < data.len() / stride { h } else { data.len() / stride };
    let cols = if w < stride / 4 { w } else { stride / 4 };
    let mut buf: Vec<u32> = Vec::new();
    let mut i: usize = 0;
    while i < total
        invariant
            total == height as int * width as int,
            n == data@.len(),
            w == width,
            w > 0,
            stride > 0,
            rows == copied_rows(data@.len() as int, height as int, stride as int),
            cols == copied_cols(width as int, stride as int),
            i <= total,
            buf@.len() == i,
            forall|j: int|
                0 <= j < i ==> #[trigger] buf@[j] == plane_pixel(
                    data@,
                    width as int,
                    height as int,
                    stride as int,
                    j / width as int,
                    j % width as int,
                ),
        decreases total - i,
    {
        let row = i / w;
        let col = i % w;
        if row < rows && col < cols {
            proof {
                lemma_pixel_in_plane(data@.len() as int, height as int, stride as int, width as int, row as int, col as int);
            }
            assert(row as int * stride as int + 4 * col as int + 4 <= data@.len());
            let at = row * stride + 4 * col;
            let bytes: [u8; 4] = [data[at], data[at + 1], data[at + 2], data[at + 3]];
            let px = u32_from_ne_bytes(bytes);
            assert(bytes@ =~= data@.subrange(at as int, at as int + 4));
            buf.push(px);
        } else {
            buf.push(0);
        }
        i = i + 1;
    }
    buf
}

/// Line `row` of a packed 4-bytes-per-pixel plane: the `4 * width` bytes that
/// start `row * stride` bytes into `data`.
pub fn frame_line(data: &[u8], stride: usize, width: usize, height: usize, row: usize) -> (line: &[u8])
    requires
        row < height,
        row as int * stride as int + 4 * width as int <= data@.len(),
    ensures
        line@ == data@.subrange(row as int * stride as int, row as int * stride as int + 4 * width as int),
{
    let len = data.len();
    assert(len == data@.len());
    assert(0 <= row as int * stride as int) by (nonlinear_arith);
    let start = row * stride;
    let len = 4 * width;
    vstd::slice::slice_subrange(data, start, start + len)
}

/// A packed pixel is the native `u32` of its four bytes in the frame line
/// that [`frame_line`] cuts out of the same plane.
pub proof fn lemma_packed_pixel_is_in_its_line(data: Seq<u8>, width: int, height: int, stride: int, row: int, col: int)
    requires
        0 < stride,
        0 <= row < copied_rows(data.len() as int, height, stride),
        0 <= col < copied_cols(width, stride),
    ensures
        row * stride + 4 * width <= data.len() ==> plane_pixel(data, width, height, stride, row, col)
            == u32_from_native(
            data.subrange(row * stride, row * stride + 4 * width).subrange(4 * col, 4 * col + 4),
        ),
{
    lemma_pixel_in_plane(data.len() as int, height, stride, width, row, col);
    if row * stride + 4 * width <= data.len() {
        assert(data.subrange(row * stride, row * stride + 4 * width).subrange(4 * col, 4 * col + 4)
            =~= data.subrange(row * stride + 4 * col, row * stride + 4 * col + 4));
    }
}

} // verus!
