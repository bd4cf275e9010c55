use media_player::transform::{remap, remap_line, RemapPlan, FIX_ONE};

fn plan(sw: u32, sh: u32, ow: u32, oh: u32, m: [i64; 4], base: (i64, i64)) -> RemapPlan {
    RemapPlan {
        src_width: sw,
        src_height: sh,
        out_width: ow,
        out_height: oh,
        m00: m[0],
        m01: m[1],
        m10: m[2],
        m11: m[3],
        base_x: base.0,
        base_y: base.1,
    }
}

#[test]
fn identity_plan_copies_the_picture() {
    let src = vec![1u32, 2, 3, 4, 5, 6];
    let p = plan(3, 2, 3, 2, [FIX_ONE, 0, 0, FIX_ONE], (0, 0));
    assert!(p.fits());
    assert_eq!(remap(&src, &p), src);
}

#[test]
fn mirror_plan_reverses_the_row() {
    // x runs backwards from the last source column down to column 0
    let src = vec![10u32, 20, 30];
    let p = plan(3, 1, 3, 1, [-FIX_ONE, 0, 0, FIX_ONE], (2 * FIX_ONE, 0));
    assert_eq!(remap(&src, &p), vec![30, 20, 10]);
}

#[test]
fn centred_identity_keeps_every_pixel() {
    // the plan worked out for the identity on a 2x2 picture: sampling at
    // pixel centres, half a pixel in
    let src = vec![1u32, 2, 3, 4];
    let p = plan(2, 2, 2, 2, [FIX_ONE, 0, 0, FIX_ONE], (FIX_ONE / 2, FIX_ONE / 2));
    assert_eq!(remap(&src, &p), vec![1, 2, 3, 4]);
}

#[test]
fn half_turn_reverses_a_row() {
    // the plan worked out for a half turn of a 3x1 picture
    let src = vec![1u32, 2, 3];
    let p = plan(3, 1, 3, 1, [-FIX_ONE, 0, 0, -FIX_ONE], (2 * FIX_ONE, 0));
    assert_eq!(remap(&src, &p), vec![3, 2, 1]);
}

#[test]
fn large_steps_fit_small_outputs() {
    // a 15360-pixel-wide picture shown two pixels wide
    let src = vec![5u32; 15360];
    let p = plan(15360, 1, 2, 1, [FIX_ONE * 15360 / 2, 0, 0, FIX_ONE], (0, 0));
    assert!(p.fits());
    assert_eq!(remap(&src, &p), vec![5, 5]);
}

#[test]
fn half_size_plan_takes_every_other_pixel() {
    let src = vec![1u32, 2, 3, 4, 5, 6, 7, 8];
    let p = plan(4, 2, 2, 1, [2 * FIX_ONE, 0, 0, 2 * FIX_ONE], (0, 0));
    assert_eq!(remap(&src, &p), vec![1, 3]);
}

#[test]
fn lines_below_the_source_stay_black() {
    let src = vec![9u32; 4];
    // output line 1 maps to source row 2 of a 2-row picture
    let p = plan(2, 2, 2, 2, [FIX_ONE, 0, 0, 2 * FIX_ONE], (0, 0));
    assert_eq!(remap(&src, &p), vec![9, 9, 0, 0]);
}

#[test]
fn shifted_plan_leaves_uncovered_pixels_alone() {
    let src = vec![1u32, 2, 3, 4];
    // source x = col - 1: column 0 falls left of the source
    let p = plan(4, 1, 4, 1, [FIX_ONE, 0, 0, FIX_ONE], (-FIX_ONE, 0));
    let mut line = vec![7u32; 4];
    remap_line(&mut line, 0, &src, &p);
    assert_eq!(line, vec![7, 1, 2, 3]);
}

#[test]
fn fixed_point_positions_are_floored_to_pixels() {
    let src = vec![1u32, 2, 3];
    // steps of 0.75 source pixel starting at x = 0.5: 0.5, 1.25, 2.0
    let p = plan(3, 1, 3, 1, [FIX_ONE / 4 * 3, 0, 0, FIX_ONE], (FIX_ONE / 2, 0));
    assert_eq!(remap(&src, &p), vec![1, 2, 3]);
}

#[test]
fn oversized_entries_do_not_fit() {
    let p = plan(2, 2, 2, 2, [i64::MAX, 0, 0, FIX_ONE], (0, 0));
    assert!(!p.fits());
    let q = plan(15361, 2, 2, 2, [FIX_ONE, 0, 0, FIX_ONE], (0, 0));
    assert!(!q.fits());
}

#[test]
fn transposing_plan_swaps_rows_and_columns() {
    // output pixel (col, line) reads source pixel (line, col)
    let src = vec![1u32, 2, 3, 4, 5, 6];
    let p = plan(3, 2, 2, 3, [0, -FIX_ONE, -FIX_ONE, 0], (0, 0));
    assert_eq!(remap(&src, &p), vec![1, 4, 2, 5, 3, 6]);
}
