//! Inverse-mapped, fixed-point resampling of a packed picture through a 2x2
//! linear transform (rotation and scaling of the video image).
//!
//! Every output pixel `(col, line)` is mapped back onto the source picture in
//! 32.32 fixed point: stepping one pixel to the right adds `(m00, -m10)` to the
//! source position, stepping one line down adds `(-m01, m11)`. The position of
//! the top-left output pixel is `(base_x, base_y)`.
use vstd::prelude::*;
use rayon::iter::{IndexedParallelIterator, ParallelIterator};
use rayon::slice::ParallelSliceMut;
use crate::{WIDTH_LIMIT, HEIGHT_LIMIT};

verus! {

/// One source pixel in 32.32 fixed point.
pub const FIX_ONE: i64 = 4294967296;

/// Largest distance (in 32.32 fixed point) that a starting position, or the
/// steps across a whole output line or down a whole output column, may cover
/// for every step of the resampling to stay inside `i64`.
pub const MAX_SPAN: i64 = 1152921504606846976;

/// How an output picture is sampled from a source picture.
#[derive(Clone, Copy, Debug)]
pub struct RemapPlan {
    pub src_width: u32,
    pub src_height: u32,
    pub out_width: u32,
    pub out_height: u32,
    pub m00: i64,
    pub m01: i64,
    pub m10: i64,
    pub m11: i64,
    pub base_x: i64,
    pub base_y: i64,
}

/// `a / b` rounded toward zero, as Rust's integer division does (`b != 0`).
spec fn div_toward_zero(a: int, b: int) -> int {
    if b < 0 {
        if a <= 0 {
            (-a) / (-b)
        } else {
            -(a / (-b))
        }
    } else if a >= 0 {
        a / b
    } else {
        -((-a) / b)
    }
}

/// `v` limited to `lo..=hi` (`lo <= hi`).
spec fn clamp(v: int, lo: int, hi: int) -> int {
    if v < lo {
        lo
    } else if v > hi {
        hi
    } else {
        v
    }
}

spec fn max(a: int, b: int) -> int {
    if a < b { b } else { a }
}

spec fn min(a: int, b: int) -> int {
    if a < b { a } else { b }
}

/// A step of `step`, taken alone or `count` times, stays within [`MAX_SPAN`].
pub open spec fn spans(step: i64, count: u32) -> bool {
    &&& -MAX_SPAN <= step <= MAX_SPAN
    &&& -MAX_SPAN <= step * count <= MAX_SPAN
}

fn spans_exec(step: i64, count: u32) -> (ok: bool)
    ensures
        ok == spans(step, count),
{
    assert(-0x8000_0000_0000_0000_0000_0000 <= step * count <= 0x8000_0000_0000_0000_0000_0000)
        by (nonlinear_arith)
        requires
            -0x8000_0000_0000_0000 <= step <= 0x8000_0000_0000_0000,
            0 <= count <= 0x1_0000_0000,
    ;
    let total = step as i128 * count as i128;
    -MAX_SPAN <= step && step <= MAX_SPAN && -(MAX_SPAN as i128) <= total && total
        <= MAX_SPAN as i128
}

impl RemapPlan {
    /// The sizes are within the player's limits, and the starting position
    /// and the steps across a whole output line (`m00`, `m10` times
    /// `out_width`) and down a whole output column (`m01`, `m11` times
    /// `out_height`) are small enough for the arithmetic to stay inside `i64`.
    pub open spec fn within_bounds(self) -> bool {
        &&& self.src_width <= WIDTH_LIMIT
        &&& self.src_height <= HEIGHT_LIMIT
        &&& self.out_width <= WIDTH_LIMIT
        &&& self.out_height <= HEIGHT_LIMIT
        &&& spans(self.m00, self.out_width)
        &&& spans(self.m10, self.out_width)
        &&& spans(self.m01, self.out_height)
        &&& spans(self.m11, self.out_height)
        &&& -MAX_SPAN <= self.base_x <= MAX_SPAN
        &&& -MAX_SPAN <= self.base_y <= MAX_SPAN
    }

    /// Whether the plan is within the bounds that [`remap`] needs.
    pub fn fits(&self) -> (ok: bool)
        ensures
            ok == self.within_bounds(),
    {
        self.src_width as usize <= WIDTH_LIMIT && self.src_height as usize <= HEIGHT_LIMIT
            && self.out_width as usize <= WIDTH_LIMIT && self.out_height as usize <= HEIGHT_LIMIT
            && spans_exec(self.m00, self.out_width) && spans_exec(self.m10, self.out_width)
            && spans_exec(self.m01, self.out_height) && spans_exec(self.m11, self.out_height)
            && -MAX_SPAN <= self.base_x && self.base_x <= MAX_SPAN && -MAX_SPAN <= self.base_y
            && self.base_y <= MAX_SPAN
    }

    /// Source x (fixed point) of the first pixel of output line `line`.
    pub open spec fn line_x(self, line: int) -> int {
        self.base_x - line * self.m01
    }

    /// Source y (fixed point) of the first pixel of output line `line`.
    pub open spec fn line_y(self, line: int) -> int {
        self.base_y + line * self.m11
    }

    /// Source x (fixed point) of output pixel `(col, line)`.
    pub open spec fn source_x(self, line: int, col: int) -> int {
        col * self.m00 + self.line_x(line)
    }

    /// Source y (fixed point) of output pixel `(col, line)`.
    pub open spec fn source_y(self, line: int, col: int) -> int {
        self.line_y(line) - col * self.m10
    }

    /// Output pixel `(col, line)` maps onto the source picture.
    pub open spec fn lands_in_source(self, line: int, col: int) -> bool {
        &&& 0 <= self.source_x(line, col) < self.src_width * FIX_ONE
        &&& 0 <= self.source_y(line, col) < self.src_height * FIX_ONE
    }

    /// The columns of `line` estimated from the x bounds alone, by solving for
    /// `0 <= x < width` with division rounded toward zero.
    spec fn x_window(self, line: int) -> (int, int) {
        let x = self.line_x(line);
        let w = self.src_width * FIX_ONE;
        if self.m00 > 0 {
            (div_toward_zero(-x, self.m00 as int), div_toward_zero(w - x, self.m00 as int))
        } else if self.m00 < 0 {
            (div_toward_zero(w - x, self.m00 as int), div_toward_zero(-x, self.m00 as int))
        } else {
            (0, self.out_width as int)
        }
    }

    /// The columns of `line` estimated from the y bounds alone.
    spec fn y_window(self, line: int) -> (int, int) {
        let y = self.line_y(line);
        let h = self.src_height * FIX_ONE;
        if self.m10 > 0 {
            (div_toward_zero(y - h, self.m10 as int), div_toward_zero(y, self.m10 as int))
        } else if self.m10 < 0 {
            (div_toward_zero(y, self.m10 as int), div_toward_zero(y - h, self.m10 as int))
        } else {
            (0, self.out_width as int)
        }
    }

    /// First column of `line` that is scanned.
    spec fn scan_start(self, line: int) -> int {
        clamp(max(self.x_window(line).0, self.y_window(line).0), 0, self.out_width as int)
    }

    /// End (exclusive) of the columns of `line` that are scanned.
    spec fn scan_end(self, line: int) -> int {
        clamp(min(self.x_window(line).1, self.y_window(line).1), 0, self.out_width as int)
    }

    /// Index, in the row-major source buffer, of the source pixel under
    /// output pixel `(col, line)`.
    pub open spec fn source_index(self, line: int, col: int) -> int {
        (self.source_y(line, col) / FIX_ONE as int) * self.src_width + self.source_x(line, col)
            / FIX_ONE as int
    }

    /// Output pixel `(col, line)`: the source pixel under it where it lands
    /// in the source, else `background`.
    pub open spec fn pixel_over(self, src: Seq<u32>, line: int, col: int, background: u32) -> u32 {
        if self.lands_in_source(line, col) {
            src[self.source_index(line, col)]
        } else {
            background
        }
    }
}

/// Along one output line both source coordinates move linearly, so the
/// columns that land in the source form one contiguous run.
proof fn lemma_landing_is_contiguous(plan: RemapPlan, line: int, c1: int, c2: int, c3: int)
    requires
        c1 <= c2 <= c3,
        plan.lands_in_source(line, c1),
        plan.lands_in_source(line, c3),
    ensures
        plan.lands_in_source(line, c2),
{
    let m00 = plan.m00 as int;
    let m10 = plan.m10 as int;
    let lx = plan.line_x(line);
    let ly = plan.line_y(line);
    let (x1, x2, x3) = (plan.source_x(line, c1), plan.source_x(line, c2), plan.source_x(line, c3));
    let (y1, y2, y3) = (plan.source_y(line, c1), plan.source_y(line, c2), plan.source_y(line, c3));
    assert(x1 <= x2 <= x3 || x3 <= x2 <= x1) by (nonlinear_arith)
        requires
            x1 == c1 * m00 + lx,
            x2 == c2 * m00 + lx,
            x3 == c3 * m00 + lx,
            c1 <= c2 <= c3,
    ;
    assert(y1 <= y2 <= y3 || y3 <= y2 <= y1) by (nonlinear_arith)
        requires
            y1 == ly - c1 * m10,
            y2 == ly - c2 * m10,
            y3 == ly - c3 * m10,
            c1 <= c2 <= c3,
    ;
}

/// A landing pixel reads inside a `src_width * src_height` source buffer.
proof fn lemma_source_index_in_range(plan: RemapPlan, line: int, col: int)
    requires
        plan.lands_in_source(line, col),
    ensures
        0 <= plan.source_index(line, col) < plan.src_width * plan.src_height,
{
    let x = plan.source_x(line, col);
    let y = plan.source_y(line, col);
    let w = plan.src_width as int;
    let h = plan.src_height as int;
    let k = FIX_ONE as int;
    assert(0 <= x / k < w) by (nonlinear_arith)
        requires 0 <= x < w * k, k > 0;
    assert(0 <= y / k < h) by (nonlinear_arith)
        requires 0 <= y < h * k, k > 0;
    assert(0 <= (y / k) * w + x / k < w * h) by (nonlinear_arith)
        requires 0 <= x / k < w, 0 <= y / k < h;
}

/// `k` steps of `step`, for `k` between 0 and `count`, stay within the span.
proof fn lemma_steps_within_span(step: i64, count: u32, k: int)
    requires
        spans(step, count),
        0 <= k <= count,
    ensures
        -MAX_SPAN <= k * step <= MAX_SPAN,
{
    let s = step as int;
    let n = count as int;
    let m = MAX_SPAN as int;
    assert(-m <= k * s <= m) by (nonlinear_arith)
        requires
            -m <= s * n <= m,
            0 <= k <= n,
    ;
}

/// The fixed-point positions of every pixel of an output line, and of the
/// pixel just past its end, fit comfortably inside `i64`.
proof fn lemma_line_bounds(plan: RemapPlan, line: int, col: int)
    requires
        plan.within_bounds(),
        0 <= line <= plan.out_height,
        0 <= col <= plan.out_width,
    ensures
        -0x2000_0000_0000_0000 <= plan.line_x(line) <= 0x2000_0000_0000_0000,
        -0x2000_0000_0000_0000 <= plan.line_y(line) <= 0x2000_0000_0000_0000,
        -0x1000_0000_0000_0000 <= col * plan.m00 <= 0x1000_0000_0000_0000,
        -0x1000_0000_0000_0000 <= col * plan.m10 <= 0x1000_0000_0000_0000,
{
    lemma_steps_within_span(plan.m01, plan.out_height, line);
    lemma_steps_within_span(plan.m11, plan.out_height, line);
    lemma_steps_within_span(plan.m00, plan.out_width, col);
    lemma_steps_within_span(plan.m10, plan.out_width, col);
}

/// A column `c` whose `c` steps of `b` reach at least `v` is not before the
/// quotient `v / b` rounded toward zero.
proof fn lemma_div_lower(v: int, b: int, c: int)
    requires
        b > 0,
        c >= 0,
        c * b >= v,
    ensures
        div_toward_zero(v, b) <= c,
{
    if v >= 0 {
        let q = v / b;
        assert(q <= c) by (nonlinear_arith)
            requires
                q == v / b,
                b > 0,
                c * b >= v,
                v >= 0,
        ;
    } else {
        assert((-v) / b >= 0) by (nonlinear_arith)
            requires -v > 0, b > 0;
    }
}

/// A column `c` whose `c` steps of `b` stay within `v` is not after the
/// quotient `v / b` rounded toward zero.
proof fn lemma_div_upper(v: int, b: int, c: int)
    requires
        b > 0,
        c >= 0,
        c * b <= v,
    ensures
        c <= div_toward_zero(v, b),
{
    assert(c * b >= 0) by (nonlinear_arith)
        requires c >= 0, b > 0;
    assert(c <= v / b) by (nonlinear_arith)
        requires
            b > 0,
            c >= 0,
            c * b <= v,
            v >= 0,
    ;
}

/// Every landing pixel of a line lies in the window that the estimates give,
/// its end counted in.
proof fn lemma_landing_in_window(plan: RemapPlan, line: int, c: int)
    requires
        0 <= c < plan.out_width,
        plan.lands_in_source(line, c),
    ensures
        plan.scan_start(line) <= c <= plan.scan_end(line),
{
    let x = plan.line_x(line);
    let y = plan.line_y(line);
    let w = plan.src_width * FIX_ONE;
    let h = plan.src_height * FIX_ONE;
    let m00 = plan.m00 as int;
    let m10 = plan.m10 as int;
    assert(plan.source_x(line, c) == c * m00 + x);
    assert(plan.source_y(line, c) == y - c * m10);
    if m00 > 0 {
        lemma_div_lower(-x, m00, c);
        lemma_div_upper(w - x, m00, c);
    } else if m00 < 0 {
        assert(c * (-m00) == -(c * m00)) by (nonlinear_arith);
        lemma_div_lower(x - w, -m00, c);
        lemma_div_upper(x, -m00, c);
    }
    if m10 > 0 {
        lemma_div_lower(y - h, m10, c);
        lemma_div_upper(y, m10, c);
    } else if m10 < 0 {
        assert(c * (-m10) == -(c * m10)) by (nonlinear_arith);
        lemma_div_lower(-y, -m10, c);
        lemma_div_upper(h - y, -m10, c);
    }
}

/// Quotient rounded toward zero, for a positive divisor.
fn div_pos(a: i64, b: i64) -> (q: i64)
    requires
        b > 0,
        a > i64::MIN,
    ensures
        q == div_toward_zero(a as int, b as int),
{
    a / b
}

/// Quotient rounded toward zero, for any nonzero divisor.
fn div_zero(a: i64, b: i64) -> (q: i64)
    requires
        b != 0,
        a > i64::MIN,
        b > i64::MIN,
    ensures
        q == div_toward_zero(a as int, b as int),
{
    if b > 0 {
        div_pos(a, b)
    } else {
        div_pos(-a, -b)
    }
}

fn clamp_exec(v: i64, lo: i64, hi: i64) -> (r: i64)
    requires
        lo <= hi,
    ensures
        r == clamp(v as int, lo as int, hi as int),
{
    if v < lo {
        lo
    } else if v > hi {
        hi
    } else {
        v
    }
}

fn lands_exec(plan: &RemapPlan, x: i64, y: i64) -> (b: bool)
    requires
        plan.within_bounds(),
    ensures
        b == (0 <= x < plan.src_width * FIX_ONE && 0 <= y < plan.src_height * FIX_ONE),
{
    let w = plan.src_width as i64 * FIX_ONE;
    let h = plan.src_height as i64 * FIX_ONE;
    x >= 0 && x < w && y >= 0 && y < h
}

/// Fills the pixels of output line `line` that land in the source into `dst`
/// (one output line) and leaves the others as they were.
pub fn remap_line(dst: &mut [u32], line: usize, src: &[u32], plan: &RemapPlan)
    requires
        plan.within_bounds(),
        old(dst)@.len() == plan.out_width,
        line < plan.out_height,
        src@.len() >= plan.src_width * plan.src_height,
    ensures
        final(dst)@.len() == old(dst)@.len(),
        forall|col: int|
            0 <= col < old(dst)@.len() ==> #[trigger] final(dst)@[col] == plan.pixel_over(
                src@,
                line as int,
                col,
                old(dst)@[col],
            ),
{
    let ghost l = line as int;
    let ghost old_dst = dst@;
    let nw = plan.out_width as i64;
    assert(FIX_ONE == 4294967296);
    assert(plan.src_width <= 15360 && plan.src_height <= 8640);
    let w = plan.src_width as i64 * FIX_ONE;
    let h = plan.src_height as i64 * FIX_ONE;
    proof {
        lemma_line_bounds(*plan, l, 0);
    }
    let li = line as i64;
    let src_x = plan.base_x - li * plan.m01;
    let src_y = plan.base_y + li * plan.m11;
    assert(src_x == plan.line_x(l));
    assert(src_y == plan.line_y(l));

    let (start_x, end_x) = if plan.m00 > 0 {
        (div_pos(-src_x, plan.m00), div_pos(w - src_x, plan.m00))
    } else if plan.m00 < 0 {
        (div_zero(w - src_x, plan.m00), div_zero(-src_x, plan.m00))
    } else {
        (0, nw)
    };
    let (start_y, end_y) = if plan.m10 > 0 {
        (div_pos(src_y - h, plan.m10), div_pos(src_y, plan.m10))
    } else if plan.m10 < 0 {
        (div_zero(src_y, plan.m10), div_zero(src_y - h, plan.m10))
    } else {
        (0, nw)
    };
    assert(start_x == plan.x_window(l).0 && end_x == plan.x_window(l).1);
    assert(start_y == plan.y_window(l).0 && end_y == plan.y_window(l).1);

    let mut start = clamp_exec(if start_x < start_y { start_y } else { start_x }, 0, nw);
    let mut end = clamp_exec(if end_x < end_y { end_x } else { end_y }, 0, nw);
    let ghost s0 = start as int;
    let ghost e0 = end as int;
    assert(s0 == plan.scan_start(l) && e0 == plan.scan_end(l));
    // the estimated end may fall one short of the last landing column
    if end < nw {
        end = end + 1;
    }
    let ghost e1 = end as int;

    // first column of the scan that lands in the source
    while start < end
        invariant
            plan.within_bounds(),
            l == line,
            l < plan.out_height,
            src_x == plan.line_x(l),
            src_y == plan.line_y(l),
            w == plan.src_width * FIX_ONE,
            h == plan.src_height * FIX_ONE,
            0 <= s0 <= start,
            s0 < e1 ==> start <= end,
            end == e1,
            e1 <= nw,
            nw == plan.out_width,
            forall|c: int| s0 <= c < start ==> !#[trigger] plan.lands_in_source(l, c),
        ensures
            start < end ==> plan.lands_in_source(l, start as int),
        decreases end - start,
    {
        proof {
            lemma_line_bounds(*plan, l, start as int);
        }
        let x = start * plan.m00 + src_x;
        let y = src_y - start * plan.m10;
        if lands_exec(plan, x, y) {
            break;
        }
        start = start + 1;
    }
    assert(start < end ==> plan.lands_in_source(l, start as int));
    let ghost first = start as int;

    // one past the last column of the scan that lands in the source
    while start < end
        invariant
            plan.within_bounds(),
            l == line,
            l < plan.out_height,
            src_x == plan.line_x(l),
            src_y == plan.line_y(l),
            w == plan.src_width * FIX_ONE,
            h == plan.src_height * FIX_ONE,
            start == first,
            0 <= s0 <= start,
            end <= e1,
            start <= e1 ==> start <= end,
            e1 <= nw,
            nw == plan.out_width,
            first < end ==> plan.lands_in_source(l, first),
            forall|c: int| s0 <= c < first ==> !#[trigger] plan.lands_in_source(l, c),
            forall|c: int| end <= c < e1 ==> !#[trigger] plan.lands_in_source(l, c),
        ensures
            start < end ==> plan.lands_in_source(l, end as int - 1),
        decreases end - start,
    {
        proof {
            lemma_line_bounds(*plan, l, end as int - 1);
        }
        let x = (end - 1) * plan.m00 + src_x;
        let y = src_y - (end - 1) * plan.m10;
        if lands_exec(plan, x, y) {
            break;
        }
        end = end - 1;
    }
    assert(start < end ==> plan.lands_in_source(l, end as int - 1));

    // the columns that land are exactly those of [start, end)
    assert forall|c: int| 0 <= c < nw implies #[trigger] plan.lands_in_source(l, c) == (start <= c
        < end) by {
        if start <= c < end {
            lemma_landing_is_contiguous(*plan, l, start as int, c, end as int - 1);
        }
        if plan.lands_in_source(l, c) {
            lemma_landing_in_window(*plan, l, c);
        }
    }

    assert forall|k: int| start <= k < end implies plan.lands_in_source(l, k) by {
        lemma_landing_is_contiguous(*plan, l, start as int, k, end as int - 1);
    }
    let sl = src.len();
    if start < end {
        proof {
            lemma_line_bounds(*plan, l, start as int);
        }
        let mut x = start * plan.m00 + src_x;
        let mut y = src_y - start * plan.m10;
        let mut c = start;
        let sw = plan.src_width as usize;
        while c < end
            invariant
                plan.within_bounds(),
                l == line,
            l < plan.out_height,
                src_x == plan.line_x(l),
                src_y == plan.line_y(l),
                0 <= start <= c <= end <= nw,
                nw == plan.out_width,
                sw == plan.src_width,
                sl == src@.len(),
                dst@.len() == old_dst.len(),
                old_dst.len() == nw,
                src@.len() >= plan.src_width * plan.src_height,
                x == plan.source_x(l, c as int),
                y == plan.source_y(l, c as int),
                forall|k: int| 0 <= k < nw ==> #[trigger] plan.lands_in_source(l, k) == (start <= k < end),
                forall|k: int| start <= k < end ==> plan.lands_in_source(l, k),
                forall|k: int|
                    0 <= k < nw ==> #[trigger] dst@[k] == (if start <= k < c {
                        src@[plan.source_index(l, k)]
                    } else {
                        old_dst[k]
                    }),
            decreases end - c,
        {
            proof {
                lemma_source_index_in_range(*plan, l, c as int);
                lemma_line_bounds(*plan, l, c as int + 1);
            }
            assert(plan.lands_in_source(l, c as int));
            assert(y / FIX_ONE == plan.source_y(l, c as int) / FIX_ONE as int);
            assert(x / FIX_ONE == plan.source_x(l, c as int) / FIX_ONE as int);
            let yi = y / FIX_ONE;
            let xi = x / FIX_ONE;
            assert(0 <= yi * sw + xi < plan.src_width * plan.src_height);
            let idx = yi as usize * sw + xi as usize;
            dst[c as usize] = src[idx];
            assert(plan.source_x(l, c as int + 1) == plan.source_x(l, c as int) + plan.m00)
                by (nonlinear_arith);
            assert(plan.source_y(l, c as int + 1) == plan.source_y(l, c as int) - plan.m10)
                by (nonlinear_arith);
            x = x + plan.m00;
            y = y - plan.m10;
            c = c + 1;
        }
    }
}

/// rayon's `par_chunks_exact_mut(..).enumerate().for_each(..)`: every whole
/// `out_width`-long chunk of `out` is handed once, with its index, to
/// `remap_line`. Claimed here: the chunks are the output lines, so each line
/// ends up as `remap_line` leaves it; nothing else of `out` is touched.
#[verifier::external_body]
fn par_remap_lines(out: &mut Vec<u32>, src: &[u32], plan: &RemapPlan)
    requires
        plan.within_bounds(),
        plan.out_width > 0,
        old(out)@.len() == plan.out_width * plan.out_height,
        src@.len() >= plan.src_width * plan.src_height,
    ensures
        final(out)@.len() == old(out)@.len(),
        forall|i: int|
            0 <= i < old(out)@.len() ==> #[trigger] final(out)@[i] == plan.pixel_over(
                src@,
                i / plan.out_width as int,
                i % plan.out_width as int,
                old(out)@[i],
            ),
{
    let line_len = plan.out_width as usize;
    out.par_chunks_exact_mut(line_len).enumerate().for_each(
        |(line, dst)| remap_line(dst, line, src, plan),
    );
}

/// Resamples `src` (row-major, `src_width` by `src_height`) into a new
/// `out_width` by `out_height` picture: covered pixels come from the source,
/// the others are 0. The lines are filled in parallel.
pub fn remap(src: &[u32], plan: &RemapPlan) -> (out: Vec<u32>)
    requires
        plan.within_bounds(),
        plan.out_width > 0,
        src@.len() >= plan.src_width * plan.src_height,
    ensures
        out@.len() == plan.out_width * plan.out_height,
        forall|i: int|
            0 <= i < out@.len() ==> #[trigger] out@[i] == plan.pixel_over(
                src@,
                i / plan.out_width as int,
                i % plan.out_width as int,
                0,
            ),
{
    assert(plan.out_width * plan.out_height <= 15360 * 8640) by (nonlinear_arith)
        requires
            plan.out_width <= 15360,
            plan.out_height <= 8640,
    ;
    let n = plan.out_width as usize * plan.out_height as usize;
    let mut out = vec![0u32; n];
    assert(forall|i: int| 0 <= i < n ==> out@[i] == 0u32);
    par_remap_lines(&mut out, src, plan);
    out
}

/// An output pixel that lands in the source reads inside the source buffer.
pub proof fn lemma_landing_reads_inside(plan: RemapPlan, line: int, col: int)
    requires
        plan.lands_in_source(line, col),
    ensures
        0 <= plan.source_index(line, col) < plan.src_width * plan.src_height,
{
    lemma_source_index_in_range(plan, line, col);
}

/// On every output line the pixels that land in the source form one unbroken
/// run.
pub proof fn lemma_landing_run(plan: RemapPlan, line: int, c1: int, c2: int, c3: int)
    requires
        c1 <= c2 <= c3,
        plan.lands_in_source(line, c1),
        plan.lands_in_source(line, c3),
    ensures
        plan.lands_in_source(line, c2),
{
    lemma_landing_is_contiguous(plan, line, c1, c2, c3);
}

/// The plan that maps every output pixel onto the source pixel at the same
/// place, for an output of the source's size.
pub open spec fn identity_plan(width: u32, height: u32) -> RemapPlan {
    RemapPlan {
        src_width: width,
        src_height: height,
        out_width: width,
        out_height: height,
        m00: FIX_ONE,
        m01: 0,
        m10: 0,
        m11: FIX_ONE,
        base_x: 0,
        base_y: 0,
    }
}

/// Resampling through the identity plan gives back the source picture.
pub proof fn lemma_identity_plan_copies(width: u32, height: u32, line: int, col: int)
    requires
        0 <= line < height,
        0 <= col < width,
    ensures
        identity_plan(width, height).lands_in_source(line, col),
        identity_plan(width, height).source_index(line, col) == line * width + col,
{
    let plan = identity_plan(width, height);
    let k = FIX_ONE as int;
    assert(plan.line_x(line) == 0);
    assert(plan.line_y(line) == line * k) by (nonlinear_arith)
        requires
            plan.line_y(line) == 0 + line * FIX_ONE,
            k == FIX_ONE;
    assert(plan.source_x(line, col) == col * k);
    assert(plan.source_y(line, col) == line * k) by (nonlinear_arith)
        requires
            plan.source_y(line, col) == plan.line_y(line) - col * 0,
            plan.line_y(line) == line * k;
    assert(0 <= col * k < width * k) by (nonlinear_arith)
        requires 0 <= col < width, k > 0;
    assert(0 <= line * k < height * k) by (nonlinear_arith)
        requires 0 <= line < height, k > 0;
    assert((col * k) / k == col) by (nonlinear_arith) requires k > 0;
    assert((line * k) / k == line) by (nonlinear_arith) requires k > 0;
}

} // verus!
