//! Elevation lighting: diagonal 45-degree sun shadows, per-pixel ambient
//! occlusion, and light bloom.
//!
//! All routines operate on a row-major grid (index = `z * grid_w + x`) where
//! [`VOID_H`] marks a void column. In the supersampled modes the height grid is
//! first upsampled to pixel resolution ([`supersampled_heights`]) so shadows
//! resolve at pixel resolution and their diagonal edges stay smooth.

use vstd::prelude::*;

use crate::chunk::VOID_H;

verus! {

/// Row-major index of cell `(x, z)` in a grid `w` cells wide.
pub open spec fn cell(w: int, x: int, z: int) -> int {
    z * w + x
}

/// Cells of a grid are ordered row by row.
pub proof fn lemma_cell_order(w: int, x1: int, z1: int, x2: int, z2: int)
    requires
        0 <= x1 < w,
        0 <= x2 < w,
        0 <= z1,
        0 <= z2,
        z1 < z2 || (z1 == z2 && x1 < x2),
    ensures
        cell(w, x1, z1) < cell(w, x2, z2),
{
    if z1 < z2 {
        assert(z1 * w + w <= z2 * w) by (nonlinear_arith)
            requires
                z1 < z2,
                0 < w,
        ;
    }
}

/// A cell of a `w x h` grid lies inside its `w * h` cells.
pub proof fn lemma_cell_in_grid(w: int, h: int, x: int, z: int)
    requires
        0 <= x < w,
        0 <= z < h,
    ensures
        0 <= cell(w, x, z) < w * h,
        cell(w, x, z) + 1 <= w * h,
{
    assert(z * w + w <= h * w) by (nonlinear_arith)
        requires
            z < h,
            0 < w,
    ;
    assert(0 <= z * w) by (nonlinear_arith)
        requires
            0 <= z,
            0 < w,
    ;
    assert(h * w == w * h) by (nonlinear_arith);
}

/// The highest reach of the light-blocking terrain along the up-right
/// diagonal starting at `(x, z)`: the maximum over steps `t >= 0` of the
/// height `t` cells up-right minus `t` (one block of descent per step), where
/// leaving the grid contributes `VOID_H - 1`.
pub open spec fn diag_reach(heights: Seq<i32>, w: int, x: int, z: int) -> int
    decreases w - x,
{
    if 0 <= x < w && z >= 0 {
        let hv = heights[cell(w, x, z)] as int;
        let up = if x + 1 < w && z >= 1 {
            diag_reach(heights, w, x + 1, z - 1) - 1
        } else {
            VOID_H - 1
        };
        if up > hv {
            up
        } else {
            hv
        }
    } else {
        VOID_H - 1
    }
}

/// What the terrain up-right of `(x, z)` reaches at `(x, z)`'s position.
pub open spec fn reach_above(heights: Seq<i32>, w: int, x: int, z: int) -> int {
    if x + 1 < w && z >= 1 {
        diag_reach(heights, w, x + 1, z - 1) - 1
    } else {
        VOID_H - 1
    }
}

/// Column `(x, z)` is shadowed: it is a real column and the terrain up-right
/// of it reaches at least as high as the light ray at its position.
pub open spec fn shadowed(heights: Seq<i32>, w: int, x: int, z: int) -> bool {
    heights[cell(w, x, z)] != VOID_H && reach_above(heights, w, x, z) >= heights[cell(w, x, z)]
}

/// `b` is the shadow flag of column `(x, z)`.
spec fn s_val_ok(heights: Seq<i32>, w: int, x: int, z: int, b: bool) -> bool {
    b == shadowed(heights, w, x, z)
}

proof fn lemma_reach_lower(heights: Seq<i32>, w: int, h: int, x: int, z: int)
    requires
        heights.len() == w * h,
        0 <= x < w,
        0 <= z < h,
    ensures
        diag_reach(heights, w, x, z) >= heights[cell(w, x, z)],
        diag_reach(heights, w, x, z) <= i32::MAX,
    decreases w - x,
{
    lemma_cell_in_grid(w, h, x, z);
    if x + 1 < w && z >= 1 {
        lemma_reach_lower(heights, w, h, x + 1, z - 1);
        lemma_cell_in_grid(w, h, x + 1, z - 1);
    }
}

/// Compute a per-column shadow mask for a top-down map lit by a 45 degree sun
/// located at the top-right.
///
/// `heights` is a row-major grid of `grid_w x grid_h` column surface heights,
/// where [`VOID_H`] marks a column with no block. The result is a same-sized
/// mask that is `true` where the column is in shadow.
pub fn compute_shadows(heights: &[i32], grid_w: usize, grid_h: usize) -> (shadow: Vec<bool>)
    requires
        heights@.len() == grid_w * grid_h,
    ensures
        shadow@.len() == grid_w * grid_h,
        forall|x: int, z: int|
            0 <= x < grid_w && 0 <= z < grid_h ==> #[trigger] shadow@[cell(grid_w as int, x, z)]
                == shadowed(heights@, grid_w as int, x, z),
{
    let n = heights.len();
    let ghost w = grid_w as int;
    let mut shadow: Vec<bool> = vec![false; n];
    let mut best: Vec<i64> = vec![VOID_H as i64; n];
    let mut z: usize = 0;
    while z < grid_h
        invariant
            w == grid_w,
            heights@.len() == w * grid_h,
            n == heights@.len(),
            shadow@.len() == n,
            best@.len() == n,
            z <= grid_h,
            forall|xx: int, zz: int|
                0 <= xx < w && 0 <= zz < z ==> #[trigger] best@[cell(w, xx, zz)] == diag_reach(
                    heights@,
                    w,
                    xx,
                    zz,
                ),
            forall|xx: int, zz: int|
                0 <= xx < w && 0 <= zz < z ==> #[trigger] shadow@[cell(w, xx, zz)] == shadowed(
                    heights@,
                    w,
                    xx,
                    zz,
                ),
        decreases grid_h - z,
    {
        let mut x: usize = grid_w;
        while x > 0
            invariant
                w == grid_w,
                heights@.len() == w * grid_h,
                n == heights@.len(),
                shadow@.len() == n,
                best@.len() == n,
                z < grid_h,
                x <= grid_w,
                forall|xx: int, zz: int|
                    0 <= xx < w && 0 <= zz < z ==> #[trigger] best@[cell(w, xx, zz)] == diag_reach(
                        heights@,
                        w,
                        xx,
                        zz,
                    ),
                forall|xx: int, zz: int|
                    0 <= xx < w && 0 <= zz < z ==> #[trigger] shadow@[cell(w, xx, zz)]
                        == shadowed(heights@, w, xx, zz),
                forall|xx: int|
                    x <= xx < w ==> #[trigger] best@[cell(w, xx, z as int)] == diag_reach(
                        heights@,
                        w,
                        xx,
                        z as int,
                    ),
                forall|xx: int|
                    x <= xx < w ==> #[trigger] shadow@[cell(w, xx, z as int)] == shadowed(
                        heights@,
                        w,
                        xx,
                        z as int,
                    ),
            decreases x,
        {
            x = x - 1;
            proof {
                lemma_cell_in_grid(w, grid_h as int, x as int, z as int);
                lemma_reach_lower(heights@, w, grid_h as int, x as int, z as int);
            }
            let i = z * grid_w + x;
            let h = heights[i] as i64;
            let up_val: i64 = if x + 1 < grid_w && z >= 1 {
                proof {
                    lemma_cell_in_grid(w, grid_h as int, x + 1, z - 1);
                    lemma_reach_lower(heights@, w, grid_h as int, x + 1, z - 1);
                    assert(best@[cell(w, x + 1, z - 1)] == diag_reach(heights@, w, x + 1, z - 1));
                }
                best[(z - 1) * grid_w + (x + 1)] - 1
            } else {
                VOID_H as i64 - 1
            };
            assert(up_val == reach_above(heights@, w, x as int, z as int));
            assert(i == cell(w, x as int, z as int));
            let v = if up_val > h {
                up_val
            } else {
                h
            };
            assert(v == diag_reach(heights@, w, x as int, z as int));
            assert(s_val_ok(heights@, w, x as int, z as int, h != VOID_H as i64 && up_val >= h));
            let ghost old_best = best@;
            let ghost old_shadow = shadow@;
            best.set(i, v);
            let s = h != VOID_H as i64 && up_val >= h;
            shadow.set(i, s);
            assert forall|xx: int, zz: int|
                0 <= xx < w && 0 <= zz < z implies #[trigger] best@[cell(w, xx, zz)]
                == diag_reach(heights@, w, xx, zz) by {
                lemma_cell_order(w, xx, zz, x as int, z as int);
                lemma_cell_in_grid(w, grid_h as int, xx, zz);
                assert(old_best[cell(w, xx, zz)] == diag_reach(heights@, w, xx, zz));
            }
            assert forall|xx: int, zz: int|
                0 <= xx < w && 0 <= zz < z implies #[trigger] shadow@[cell(w, xx, zz)] == shadowed(
                heights@,
                w,
                xx,
                zz,
            ) by {
                lemma_cell_order(w, xx, zz, x as int, z as int);
                lemma_cell_in_grid(w, grid_h as int, xx, zz);
                assert(old_shadow[cell(w, xx, zz)] == shadowed(heights@, w, xx, zz));
            }
            assert forall|xx: int| x <= xx < w implies #[trigger] best@[cell(w, xx, z as int)]
                == diag_reach(heights@, w, xx, z as int) by {
                if xx > x {
                    lemma_cell_order(w, x as int, z as int, xx, z as int);
                    lemma_cell_in_grid(w, grid_h as int, xx, z as int);
                    assert(old_best[cell(w, xx, z as int)] == diag_reach(heights@, w, xx, z as int));
                    assert(best@[cell(w, xx, z as int)] == old_best[cell(w, xx, z as int)]);
                } else {
                    assert(xx == x);
                    assert(best@[cell(w, xx, z as int)] == v);
                }
            }
            assert forall|xx: int| x <= xx < w implies #[trigger] shadow@[cell(w, xx, z as int)]
                == shadowed(heights@, w, xx, z as int) by {
                if xx > x {
                    lemma_cell_order(w, x as int, z as int, xx, z as int);
                    lemma_cell_in_grid(w, grid_h as int, xx, z as int);
                    assert(old_shadow[cell(w, xx, z as int)] == shadowed(heights@, w, xx, z as int));
                } else {
                    assert(shadow@[cell(w, xx, z as int)] == s);
                    assert(s_val_ok(heights@, w, x as int, z as int, s));
                }
            }
        }
        z = z + 1;
    }
    shadow
}

/// The light-ray law of the shadow mask: for heights no lower than
/// [`VOID_H`], a column is shadowed exactly when it is a real column and some
/// column further up its diagonal, `(x + t, z - t)` for `t >= 1`, rises at
/// least to the height the ray would be at that point:
/// `h(x + t, z - t) >= h(x, z) + t`.
pub proof fn lemma_shadow_is_diagonal_occlusion(heights: Seq<i32>, w: int, h: int, x: int, z: int)
    requires
        heights.len() == w * h,
        forall|i: int| 0 <= i < heights.len() ==> #[trigger] heights[i] >= VOID_H,
        0 <= x < w,
        0 <= z < h,
    ensures
        shadowed(heights, w, x, z) <==> (heights[cell(w, x, z)] != VOID_H && exists|t: int|
            1 <= t && x + t < w && z - t >= 0 && #[trigger] heights[cell(w, x + t, z - t)]
                >= heights[cell(w, x, z)] + t),
{
    if x + 1 < w && z >= 1 {
        lemma_reach_is_max(heights, w, h, x + 1, z - 1);
        let hv = heights[cell(w, x, z)] as int;
        if reach_above(heights, w, x, z) >= hv {
            let t0 = choose|t: int|
                0 <= t && x + 1 + t < w && z - 1 - t >= 0 && diag_reach(heights, w, x + 1, z - 1)
                    == #[trigger] heights[cell(w, x + 1 + t, z - 1 - t)] - t;
            assert(heights[cell(w, x + (t0 + 1), z - (t0 + 1))] >= hv + (t0 + 1));
        } else {
            assert forall|t: int|
                1 <= t && x + t < w && z - t >= 0 implies !(#[trigger] heights[cell(
                w,
                x + t,
                z - t,
            )] >= hv + t) by {
                assert(diag_reach(heights, w, x + 1, z - 1) >= heights[cell(
                    w,
                    x + 1 + (t - 1),
                    z - 1 - (t - 1),
                )] - (t - 1));
            }
        }
    } else {
        lemma_cell_in_grid(w, h, x, z);
        assert(heights[cell(w, x, z)] >= VOID_H);
    }
}

proof fn lemma_reach_is_max(heights: Seq<i32>, w: int, h: int, x: int, z: int)
    requires
        heights.len() == w * h,
        forall|i: int| 0 <= i < heights.len() ==> #[trigger] heights[i] >= VOID_H,
        0 <= x < w,
        0 <= z < h,
    ensures
        forall|t: int|
            0 <= t && x + t < w && z - t >= 0 ==> diag_reach(heights, w, x, z) >= #[trigger] heights[cell(
                w,
                x + t,
                z - t,
            )] - t,
        exists|t: int|
            0 <= t && x + t < w && z - t >= 0 && diag_reach(heights, w, x, z) == #[trigger] heights[cell(
                w,
                x + t,
                z - t,
            )] - t,
    decreases w - x,
{
    lemma_cell_in_grid(w, h, x, z);
    assert(heights[cell(w, x + 0, z - 0)] == heights[cell(w, x, z)]);
    if x + 1 < w && z >= 1 {
        lemma_reach_is_max(heights, w, h, x + 1, z - 1);
        assert forall|t: int|
            0 <= t && x + t < w && z - t >= 0 implies diag_reach(heights, w, x, z)
            >= #[trigger] heights[cell(w, x + t, z - t)] - t by {
            if t >= 1 {
                assert(heights[cell(w, x + 1 + (t - 1), z - 1 - (t - 1))] == heights[cell(
                    w,
                    x + t,
                    z - t,
                )]);
            }
        }
        if diag_reach(heights, w, x + 1, z - 1) - 1 > heights[cell(w, x, z)] {
            let t0 = choose|t: int|
                0 <= t && x + 1 + t < w && z - 1 - t >= 0 && diag_reach(heights, w, x + 1, z - 1)
                    == #[trigger] heights[cell(w, x + 1 + t, z - 1 - t)] - t;
            assert(heights[cell(w, x + (t0 + 1), z - (t0 + 1))] == heights[cell(
                w,
                x + 1 + t0,
                z - 1 - t0,
            )]);
        }
    } else {
        assert forall|t: int|
            0 <= t && x + t < w && z - t >= 0 implies diag_reach(heights, w, x, z)
            >= #[trigger] heights[cell(w, x + t, z - t)] - t by {
            assert(t == 0);
        }
    }
}

/// Every index of a `w x h` grid is the index of one of its cells.
pub proof fn lemma_index_cell(w: int, h: int, i: int) -> (q: (int, int))
    requires
        0 <= h,
        0 <= i < w * h,
    ensures
        0 <= q.0 < w,
        0 <= q.1 < h,
        cell(w, q.0, q.1) == i,
{
    assert(w > 0) by (nonlinear_arith)
        requires
            0 <= i < w * h,
            0 <= h,
    ;
    let qz = i / w;
    let qx = i % w;
    vstd::arithmetic::div_mod::lemma_fundamental_div_mod(i, w);
    vstd::arithmetic::div_mod::lemma_mod_pos_bound(i, w);
    vstd::arithmetic::div_mod::lemma_div_pos_is_pos(i, w);
    assert(i == qz * w + qx) by (nonlinear_arith)
        requires
            i == w * (i / w) + i % w,
            qz == i / w,
            qx == i % w,
    ;
    if qz >= h {
        assert(qz * w >= h * w) by (nonlinear_arith)
            requires
                qz >= h,
                w > 0,
        ;
        assert(h * w == w * h) by (nonlinear_arith);
    }
    (qx, qz)
}

/// Flat terrain casts no shadow: on a grid whose columns all stand at one
/// height (no lower than [`VOID_H`]), no column is shadowed.
pub proof fn lemma_flat_terrain_unshadowed(heights: Seq<i32>, w: int, h: int, level: i32, x: int, z: int)
    requires
        heights.len() == w * h,
        level >= VOID_H,
        forall|i: int| 0 <= i < heights.len() ==> #[trigger] heights[i] == level,
        0 <= x < w,
        0 <= z < h,
    ensures
        !shadowed(heights, w, x, z),
{
    lemma_shadow_is_diagonal_occlusion(heights, w, h, x, z);
    lemma_cell_in_grid(w, h, x, z);
    assert forall|t: int|
        1 <= t && x + t < w && z - t >= 0 implies !(#[trigger] heights[cell(w, x + t, z - t)]
        >= heights[cell(w, x, z)] + t) by {
        lemma_cell_in_grid(w, h, x + t, z - t);
    }
}

/// A pillar standing `n` blocks above flat ground at `(px, pz)` casts a
/// diagonal shadow exactly `n` cells long toward the bottom-left: a column
/// is shadowed exactly when it lies `t` cells left of and `t` cells below the
/// pillar, for some `1 <= t <= n`.
pub proof fn lemma_pillar_shadow_length(
    heights: Seq<i32>,
    w: int,
    h: int,
    ground: i32,
    n: int,
    px: int,
    pz: int,
    x: int,
    z: int,
)
    requires
        heights.len() == w * h,
        ground > VOID_H,
        n >= 1,
        ground + n <= i32::MAX,
        0 <= px < w,
        0 <= pz < h,
        forall|qx: int, qz: int|
            0 <= qx < w && 0 <= qz < h ==> #[trigger] heights[cell(w, qx, qz)] == if qx == px && qz
                == pz {
                ground + n
            } else {
                ground as int
            },
        0 <= x < w,
        0 <= z < h,
    ensures
        shadowed(heights, w, x, z) <==> (px - x == z - pz && 1 <= px - x <= n),
{
    assert forall|i: int| 0 <= i < heights.len() implies #[trigger] heights[i] >= VOID_H by {
        let q = lemma_index_cell(w, h, i);
        assert(heights[cell(w, q.0, q.1)] >= VOID_H);
    }
    lemma_shadow_is_diagonal_occlusion(heights, w, h, x, z);
    lemma_cell_in_grid(w, h, x, z);
    if px - x == z - pz && 1 <= px - x <= n {
        let t0 = px - x;
        assert(heights[cell(w, x + t0, z - t0)] >= heights[cell(w, x, z)] + t0);
    } else {
        assert forall|t: int|
            1 <= t && x + t < w && z - t >= 0 implies !(#[trigger] heights[cell(w, x + t, z - t)]
            >= heights[cell(w, x, z)] + t) by {
            lemma_cell_in_grid(w, h, x + t, z - t);
        }
    }
}

/// Pixel `p` of a grid upsampled by `s` lies in block `p / s`, at offset
/// `p % s` inside it.
pub proof fn lemma_pixel_block(p: int, s: int, n: int)
    requires
        0 < s,
        0 <= p < n * s,
    ensures
        0 <= p / s < n,
        0 <= p % s < s,
        p == (p / s) * s + p % s,
{
    vstd::arithmetic::div_mod::lemma_fundamental_div_mod(p, s);
    vstd::arithmetic::div_mod::lemma_mod_pos_bound(p, s);
    vstd::arithmetic::div_mod::lemma_div_pos_is_pos(p, s);
    assert((p / s) * s == s * (p / s)) by (nonlinear_arith);
    if p / s >= n {
        assert((p / s) * s >= n * s) by (nonlinear_arith)
            requires
                p / s >= n,
                0 < s,
        ;
    }
}

/// A block-resolution height in pixel units: real heights scale by `s`, void
/// keeps its sentinel.
pub open spec fn upsampled_height(h: i32, s: int) -> int {
    if h == VOID_H {
        VOID_H as int
    } else {
        h * s
    }
}

/// Upsample a block-resolution height grid to pixel resolution by nearest
/// neighbour: pixel `(px, pz)` takes the height of block `(px / s, pz / s)`,
/// with real heights multiplied by `s` so the 45 degree sun keeps its
/// geometry, and void columns keeping the [`VOID_H`] sentinel.
pub fn supersampled_heights(heights: &[i32], grid_w: usize, grid_h: usize, s: usize) -> (out: Vec<i32>)
    requires
        heights@.len() == grid_w * grid_h,
        grid_w * s <= usize::MAX,
        grid_h * s <= usize::MAX,
        (grid_w * s) * (grid_h * s) <= usize::MAX,
        forall|i: int|
            0 <= i < heights@.len() && #[trigger] heights@[i] != VOID_H ==> i32::MIN <= heights@[i]
                * s <= i32::MAX,
    ensures
        out@.len() == (grid_w * s) * (grid_h * s),
        forall|px: int, pz: int|
            0 <= px < grid_w * s && 0 <= pz < grid_h * s ==> #[trigger] out@[cell(
                (grid_w * s) as int,
                px,
                pz,
            )] == upsampled_height(heights@[cell(grid_w as int, px / (s as int), pz / (s as int))], s as int),
{
    let pw = grid_w * s;
    let ph = grid_h * s;
    let mut out: Vec<i32> = Vec::new();
    let mut pz: usize = 0;
    while pz < ph
        invariant
            pw == grid_w * s,
            ph == grid_h * s,
            pw * ph <= usize::MAX,
            heights@.len() == grid_w * grid_h,
            forall|i: int|
                0 <= i < heights@.len() && #[trigger] heights@[i] != VOID_H ==> i32::MIN <= heights@[i]
                    * s <= i32::MAX,
            pz <= ph,
            out@.len() == pz * pw,
            forall|qx: int, qz: int|
                0 <= qx < pw && 0 <= qz < pz ==> #[trigger] out@[cell(pw as int, qx, qz)]
                    == upsampled_height(heights@[cell(grid_w as int, qx / s as int, qz / s as int)], s as int),
        decreases ph - pz,
    {
        let mut px: usize = 0;
        while px < pw
            invariant
                pw == grid_w * s,
                ph == grid_h * s,
                pw * ph <= usize::MAX,
                heights@.len() == grid_w * grid_h,
                forall|i: int|
                    0 <= i < heights@.len() && #[trigger] heights@[i] != VOID_H ==> i32::MIN
                        <= heights@[i] * s <= i32::MAX,
                pz < ph,
                px <= pw,
                out@.len() == pz * pw + px,
                forall|qx: int, qz: int|
                    0 <= qx < pw && 0 <= qz < pz ==> #[trigger] out@[cell(pw as int, qx, qz)]
                        == upsampled_height(heights@[cell(grid_w as int, qx / s as int, qz / s as int)], s as int),
                forall|qx: int|
                    0 <= qx < px ==> #[trigger] out@[cell(pw as int, qx, pz as int)]
                        == upsampled_height(heights@[cell(grid_w as int, qx / s as int, (pz / s) as int)], s as int),
            decreases pw - px,
        {
            assert(s > 0) by (nonlinear_arith)
                requires
                    px < pw,
                    pw == grid_w * s,
            ;
            proof {
                lemma_pixel_block(px as int, s as int, grid_w as int);
                lemma_pixel_block(pz as int, s as int, grid_h as int);
                lemma_cell_in_grid(grid_w as int, grid_h as int, (px / s) as int, (pz / s) as int);
                lemma_cell_in_grid(pw as int, ph as int, px as int, pz as int);
            }
            let bx = px / s;
            let bz = pz / s;
            let ghost bi = cell(grid_w as int, px as int / s as int, pz as int / s as int);
            proof {
                lemma_cell_in_grid(grid_w as int, grid_h as int, bx as int, bz as int);
            }
            assert(bz * grid_w + bx == bi);
            assert(bz * grid_w + bx < heights@.len());
            let n = heights.len();
            assert((bz as int) * (grid_w as int) < n);
            assert(bz * grid_w <= usize::MAX);
            let row = bz * grid_w;
            let bh = heights[row + bx];
            let v = if bh == VOID_H {
                VOID_H
            } else {
                assert(i32::MIN <= heights@[bi] * s <= i32::MAX);
                ((bh as i128) * (s as i128)) as i32
            };
            assert(v == upsampled_height(heights@[bi], s as int));
            let ghost old_out = out@;
            out.push(v);
            proof {
                assert forall|qx: int, qz: int|
                    0 <= qx < pw && 0 <= qz < pz implies #[trigger] out@[cell(pw as int, qx, qz)]
                    == upsampled_height(heights@[cell(grid_w as int, qx / s as int, qz / s as int)], s as int) by {
                    lemma_cell_order(pw as int, qx, qz, px as int, pz as int);
                    assert(old_out[cell(pw as int, qx, qz)] == upsampled_height(
                        heights@[cell(grid_w as int, qx / s as int, qz / s as int)], s as int));
                }
                assert forall|qx: int|
                    0 <= qx < px + 1 implies #[trigger] out@[cell(pw as int, qx, pz as int)]
                    == upsampled_height(heights@[cell(grid_w as int, qx / s as int, (pz / s) as int)], s as int) by {
                    if qx < px {
                        lemma_cell_order(pw as int, qx, pz as int, px as int, pz as int);
                        assert(old_out[cell(pw as int, qx, pz as int)] == upsampled_height(
                            heights@[cell(grid_w as int, qx / s as int, (pz / s) as int)], s as int));
                    } else {
                        assert(cell(pw as int, qx, pz as int) == old_out.len());
                        assert(out@[cell(pw as int, qx, pz as int)] == v);
                    }
                }
                assert(cell(pw as int, px as int, pz as int) == pz * pw + px);
            }
            px = px + 1;
        }
        assert(out@.len() == (pz + 1) * pw) by (nonlinear_arith)
            requires
                out@.len() == pz * pw + pw,
        ;
        pz = pz + 1;
    }
    assert(ph * pw == pw * ph) by (nonlinear_arith);
    out
}

/// Pixel `(qx, qz)` of a grid upsampled by `s` lies in block `(bx, bz)`.
pub open spec fn in_block(qx: int, qz: int, s: int, bx: int, bz: int) -> bool {
    qx / s == bx && qz / s == bz
}

/// Supersampling keeps shadow lengths: on the pixel grid upsampled by `s`
/// from flat ground with a pillar `n` blocks tall at block `(bx, bz)`, a pixel
/// is shadowed exactly when it lies outside the pillar and the pillar's
/// pixels are met within `n * s` pixels (`n` blocks) up its diagonal.
pub proof fn lemma_supersampled_pillar_shadow(
    heights: Seq<i32>,
    pixels: Seq<i32>,
    w: int,
    h: int,
    s: int,
    ground: i32,
    n: int,
    bx: int,
    bz: int,
    x: int,
    z: int,
)
    requires
        s >= 1,
        heights.len() == w * h,
        pixels.len() == (w * s) * (h * s),
        ground * s > VOID_H,
        n >= 1,
        (ground + n) * s <= i32::MAX,
        0 <= bx < w,
        0 <= bz < h,
        forall|qx: int, qz: int|
            0 <= qx < w && 0 <= qz < h ==> #[trigger] heights[cell(w, qx, qz)] == if qx == bx && qz
                == bz {
                ground + n
            } else {
                ground as int
            },
        forall|qx: int, qz: int|
            0 <= qx < w * s && 0 <= qz < h * s ==> #[trigger] pixels[cell(w * s, qx, qz)]
                == upsampled_height(heights[cell(w, qx / s, qz / s)], s),
        0 <= x < w * s,
        0 <= z < h * s,
    ensures
        shadowed(pixels, w * s, x, z) <==> (!in_block(x, z, s, bx, bz) && exists|t: int|
            1 <= t <= n * s && #[trigger] in_block(x + t, z - t, s, bx, bz)),
{
    let pw = w * s;
    let ph = h * s;
    assert(ground > VOID_H) by (nonlinear_arith)
        requires
            ground * s > VOID_H,
            s >= 1,
            VOID_H < 0,
    ;
    assert((ground + n) * s == ground * s + n * s) by (nonlinear_arith);
    assert(n * s >= s) by (nonlinear_arith)
        requires
            n >= 1,
            s >= 1,
    ;
    assert(ph >= 0) by (nonlinear_arith)
        requires
            0 <= bz < h,
            s >= 1,
            ph == h * s,
    ;
    // Each pixel's height: the pillar's or the ground's, scaled by `s`.
    assert forall|qx: int, qz: int| 0 <= qx < pw && 0 <= qz < ph implies #[trigger] pixels[cell(
        pw,
        qx,
        qz,
    )] == if in_block(qx, qz, s, bx, bz) {
        ground * s + n * s
    } else {
        ground * s
    } by {
        lemma_pixel_block(qx, s, w);
        lemma_pixel_block(qz, s, h);
    }
    assert forall|i: int| 0 <= i < pixels.len() implies #[trigger] pixels[i] >= VOID_H by {
        let q = lemma_index_cell(pw, ph, i);
        assert(pixels[cell(pw, q.0, q.1)] >= VOID_H);
    }
    lemma_shadow_is_diagonal_occlusion(pixels, pw, ph, x, z);
    lemma_cell_in_grid(pw, ph, x, z);
    if in_block(x, z, s, bx, bz) {
        assert forall|t: int|
            1 <= t && x + t < pw && z - t >= 0 implies !(#[trigger] pixels[cell(pw, x + t, z - t)]
            >= pixels[cell(pw, x, z)] + t) by {
            lemma_cell_in_grid(pw, ph, x + t, z - t);
        }
    } else if exists|t: int| 1 <= t <= n * s && #[trigger] in_block(x + t, z - t, s, bx, bz) {
        let t0 = choose|t: int| 1 <= t <= n * s && #[trigger] in_block(x + t, z - t, s, bx, bz);
        vstd::arithmetic::div_mod::lemma_fundamental_div_mod(x + t0, s);
        vstd::arithmetic::div_mod::lemma_mod_pos_bound(x + t0, s);
        vstd::arithmetic::div_mod::lemma_fundamental_div_mod(z - t0, s);
        vstd::arithmetic::div_mod::lemma_mod_pos_bound(z - t0, s);
        assert(x + t0 < pw) by (nonlinear_arith)
            requires
                x + t0 == s * bx + (x + t0) % s,
                (x + t0) % s < s,
                bx + 1 <= w,
                pw == w * s,
                s >= 1,
        ;
        assert(z - t0 >= 0) by (nonlinear_arith)
            requires
                z - t0 == s * bz + (z - t0) % s,
                (z - t0) % s >= 0,
                bz >= 0,
                s >= 1,
        ;
        lemma_cell_in_grid(pw, ph, x + t0, z - t0);
        assert(pixels[cell(pw, x + t0, z - t0)] >= pixels[cell(pw, x, z)] + t0);
    } else {
        assert forall|t: int|
            1 <= t && x + t < pw && z - t >= 0 implies !(#[trigger] pixels[cell(pw, x + t, z - t)]
            >= pixels[cell(pw, x, z)] + t) by {
            lemma_cell_in_grid(pw, ph, x + t, z - t);
            if in_block(x + t, z - t, s, bx, bz) {
                assert(!(1 <= t <= n * s));
            }
        }
    }
}

/// Width, in pixels, of the ambient-occlusion gradient band at a block edge:
/// a quarter of a block.
pub open spec fn ao_band(s: int) -> int {
    s / 4
}

/// Darkening contributed by one edge at distance `d` pixels from it: `band - d`
/// (out of `band`) inside the band, nothing beyond it.
pub open spec fn edge_dark(d: int, band: int) -> int {
    if d < band {
        band - d
    } else {
        0
    }
}

/// The column at `(nx, nz)` lies in the grid and stands exactly one block
/// above height `hc`.
pub open spec fn one_higher(heights: Seq<i32>, w: int, h: int, nx: int, nz: int, hc: i32) -> bool {
    0 <= nx < w && 0 <= nz < h && heights[cell(w, nx, nz)] == hc + 1
}

/// Ambient-occlusion darkness of pixel `(px, pz)` of a grid upsampled by `s`,
/// as a numerator over [`ao_band`]: the strongest gradient among the edges of
/// its (non-void) block that face a neighbour exactly one block higher.
pub open spec fn ao_dark(heights: Seq<i32>, w: int, h: int, s: int, px: int, pz: int) -> int {
    let band = ao_band(s);
    let x = px / s;
    let z = pz / s;
    let dx = px % s;
    let dz = pz % s;
    let hc = heights[cell(w, x, z)];
    if band == 0 || hc == VOID_H {
        0
    } else {
        let top = if one_higher(heights, w, h, x, z - 1, hc) { edge_dark(dz, band) } else { 0 };
        let bottom = if one_higher(heights, w, h, x, z + 1, hc) { edge_dark(s - 1 - dz, band) } else { 0 };
        let left = if one_higher(heights, w, h, x - 1, z, hc) { edge_dark(dx, band) } else { 0 };
        let right = if one_higher(heights, w, h, x + 1, z, hc) { edge_dark(s - 1 - dx, band) } else { 0 };
        let a = if top > bottom { top } else { bottom };
        let b = if left > right { left } else { right };
        if a > b { a } else { b }
    }
}

/// Ambient occlusion darkens only lower blocks at a one-block step, and
/// fades away from the step: the darkening never exceeds the band; a void
/// column, or a column with no orthogonal neighbour standing exactly one
/// block higher, is not darkened at all; and below a step on its top edge
/// alone, no pixel is darker than the pixel above it in the same block.
pub proof fn lemma_ao_fades_from_the_step(heights: Seq<i32>, w: int, h: int, s: int, px: int, pz: int)
    requires
        s >= 1,
        0 <= px,
        0 <= pz,
    ensures
        0 <= ao_dark(heights, w, h, s, px, pz) <= ao_band(s),
        ({
            let (x, z) = (px / s, pz / s);
            let hc = heights[cell(w, x, z)];
            hc == VOID_H || !(one_higher(heights, w, h, x, z - 1, hc) || one_higher(heights, w, h, x, z + 1, hc)
                || one_higher(heights, w, h, x - 1, z, hc) || one_higher(heights, w, h, x + 1, z, hc))
        }) ==> ao_dark(heights, w, h, s, px, pz) == 0,
        ({
            let (x, z) = (px / s, pz / s);
            let hc = heights[cell(w, x, z)];
            &&& (pz + 1) / s == z
            &&& one_higher(heights, w, h, x, z - 1, hc)
            &&& !one_higher(heights, w, h, x, z + 1, hc)
            &&& !one_higher(heights, w, h, x - 1, z, hc)
            &&& !one_higher(heights, w, h, x + 1, z, hc)
        }) ==> ao_dark(heights, w, h, s, px, pz + 1) <= ao_dark(heights, w, h, s, px, pz),
{
    vstd::arithmetic::div_mod::lemma_fundamental_div_mod(px, s);
    vstd::arithmetic::div_mod::lemma_mod_pos_bound(px, s);
    vstd::arithmetic::div_mod::lemma_fundamental_div_mod(pz, s);
    vstd::arithmetic::div_mod::lemma_mod_pos_bound(pz, s);
    vstd::arithmetic::div_mod::lemma_fundamental_div_mod(pz + 1, s);
    vstd::arithmetic::div_mod::lemma_mod_pos_bound(pz + 1, s);
    assert(0 <= s / 4 < s) by {
        vstd::arithmetic::div_mod::lemma_div_pos_is_pos(s, 4);
    }
    if (pz + 1) / s == pz / s {
        assert((pz + 1) % s == pz % s + 1) by (nonlinear_arith)
            requires
                pz == s * (pz / s) + pz % s,
                pz + 1 == s * ((pz + 1) / s) + (pz + 1) % s,
                (pz + 1) / s == pz / s,
        ;
    }
}

/// The gradient lies against the edge that faces the higher neighbour. In a
/// non-void block whose only neighbour one block higher is on its left
/// (right, top, bottom), a pixel `d` pixels from that edge (`d` being `dx`,
/// `s - 1 - dx`, `dz` or `s - 1 - dz` within the block) has darkness
/// `s / 4 - d` while `d < s / 4` and none further in, so the pixel on the
/// shared edge is the darkest and the gradient of a step on the left is the
/// mirror image of one on the right. Wherever several neighbours stand one
/// block higher, each side darkens at least that much.
pub proof fn lemma_ao_darkens_the_facing_edge(heights: Seq<i32>, w: int, h: int, s: int, px: int, pz: int)
    requires
        s >= 1,
        0 <= px,
        0 <= pz,
    ensures
        ({
            let (x, z, dx, dz) = (px / s, pz / s, px % s, pz % s);
            let hc = heights[cell(w, x, z)];
            let lft = one_higher(heights, w, h, x - 1, z, hc);
            let rgt = one_higher(heights, w, h, x + 1, z, hc);
            let top = one_higher(heights, w, h, x, z - 1, hc);
            let bot = one_higher(heights, w, h, x, z + 1, hc);
            let d = ao_dark(heights, w, h, s, px, pz);
            &&& (hc != VOID_H && lft && !rgt && !top && !bot) ==> d == (if dx < s / 4 { s / 4 - dx } else { 0 })
            &&& (hc != VOID_H && !lft && rgt && !top && !bot) ==> d == (if s - 1 - dx < s / 4 { s / 4 - (s - 1 - dx) } else { 0 })
            &&& (hc != VOID_H && !lft && !rgt && top && !bot) ==> d == (if dz < s / 4 { s / 4 - dz } else { 0 })
            &&& (hc != VOID_H && !lft && !rgt && !top && bot) ==> d == (if s - 1 - dz < s / 4 { s / 4 - (s - 1 - dz) } else { 0 })
            &&& (hc != VOID_H && lft && dx < s / 4) ==> d >= s / 4 - dx
            &&& (hc != VOID_H && rgt && s - 1 - dx < s / 4) ==> d >= s / 4 - (s - 1 - dx)
            &&& (hc != VOID_H && top && dz < s / 4) ==> d >= s / 4 - dz
            &&& (hc != VOID_H && bot && s - 1 - dz < s / 4) ==> d >= s / 4 - (s - 1 - dz)
        }),
{
    vstd::arithmetic::div_mod::lemma_mod_pos_bound(px, s);
    vstd::arithmetic::div_mod::lemma_mod_pos_bound(pz, s);
    assert(0 <= s / 4 < s) by {
        vstd::arithmetic::div_mod::lemma_div_pos_is_pos(s, 4);
    }
}

fn neighbour_one_higher(heights: &[i32], grid_w: usize, grid_h: usize, nx: usize, nz: usize, hc: i32) -> (r: bool)
    requires
        heights@.len() == grid_w * grid_h,
        nx < grid_w,
        nz < grid_h,
    ensures
        r == one_higher(heights@, grid_w as int, grid_h as int, nx as int, nz as int, hc),
{
    proof {
        lemma_cell_in_grid(grid_w as int, grid_h as int, nx as int, nz as int);
    }
    let n = heights.len();
    assert((nz as int) * (grid_w as int) + nx < n);
    let i = nz * grid_w + nx;
    heights[i] as i64 == hc as i64 + 1
}

fn edge_gradient(d: usize, band: usize) -> (r: u32)
    requires
        band <= u32::MAX,
    ensures
        r == edge_dark(d as int, band as int),
{
    if d < band {
        (band - d) as u32
    } else {
        0
    }
}

/// Darkness of one pixel of the ambient-occlusion field.
fn ao_pixel(heights: &[i32], grid_w: usize, grid_h: usize, s: usize, px: usize, pz: usize) -> (r: u32)
    requires
        heights@.len() == grid_w * grid_h,
        px < grid_w * s,
        pz < grid_h * s,
        s <= u32::MAX,
    ensures
        r == ao_dark(heights@, grid_w as int, grid_h as int, s as int, px as int, pz as int),
        r <= ao_band(s as int),
{
    assert(s > 0) by (nonlinear_arith)
        requires
            px < grid_w * s,
    ;
    proof {
        lemma_pixel_block(px as int, s as int, grid_w as int);
        lemma_pixel_block(pz as int, s as int, grid_h as int);
    }
    let band = s / 4;
    let x = px / s;
    let z = pz / s;
    let dx = px % s;
    let dz = pz % s;
    proof {
        lemma_cell_in_grid(grid_w as int, grid_h as int, x as int, z as int);
    }
    let n = heights.len();
    assert((z as int) * (grid_w as int) + x < n);
    let hc = heights[z * grid_w + x];
    if band == 0 || hc == VOID_H {
        return 0;
    }
    let top = if z >= 1 && neighbour_one_higher(heights, grid_w, grid_h, x, z - 1, hc) {
        edge_gradient(dz, band)
    } else {
        0
    };
    let bottom = if z + 1 < grid_h && neighbour_one_higher(heights, grid_w, grid_h, x, z + 1, hc) {
        edge_gradient(s - 1 - dz, band)
    } else {
        0
    };
    let left = if x >= 1 && neighbour_one_higher(heights, grid_w, grid_h, x - 1, z, hc) {
        edge_gradient(dx, band)
    } else {
        0
    };
    let right = if x + 1 < grid_w && neighbour_one_higher(heights, grid_w, grid_h, x + 1, z, hc) {
        edge_gradient(s - 1 - dx, band)
    } else {
        0
    };
    let a = if top > bottom { top } else { bottom };
    let b = if left > right { left } else { right };
    if a > b { a } else { b }
}

/// Compute a per-pixel ambient-occlusion darkening field for a map upsampled
/// by `s`.
///
/// `heights` is a row-major `grid_w x grid_h` grid of block-resolution column
/// surface heights, where [`VOID_H`] marks a void column. For every block,
/// each orthogonal neighbour that stands exactly one block higher casts a soft
/// gradient onto the facing edge of this (lower) block. The gradient covers
/// the outer `s / 4` pixels of the block ([`ao_band`]), is fully black at the
/// shared edge and fades linearly toward the block's centre. When several
/// neighbours apply, the strongest darkening at a pixel wins.
///
/// Each entry is a darkness numerator over [`ao_band`]: `0` leaves the pixel
/// unchanged and `ao_band(s)` makes it black (see
/// [`crate::color::apply_ao`]). Keeping the darkness as an exact fraction
/// gives the same pixels as a single-precision `1 - d / band` for bands of 1
/// to 4, 6 and 8 (every factor of 5 and 15 pixels per block); for bands of 5
/// and 7 the floating-point form can truncate one unit lower.
pub fn ambient_occlusion(heights: &[i32], grid_w: usize, grid_h: usize, s: usize) -> (out: Vec<u32>)
    requires
        heights@.len() == grid_w * grid_h,
        grid_w * s <= usize::MAX,
        grid_h * s <= usize::MAX,
        (grid_w * s) * (grid_h * s) <= usize::MAX,
        s <= u32::MAX,
    ensures
        out@.len() == (grid_w * s) * (grid_h * s),
        forall|px: int, pz: int|
            0 <= px < grid_w * s && 0 <= pz < grid_h * s ==> #[trigger] out@[cell(
                (grid_w * s) as int,
                px,
                pz,
            )] == ao_dark(heights@, grid_w as int, grid_h as int, s as int, px, pz),
        forall|i: int| 0 <= i < out@.len() ==> #[trigger] out@[i] <= ao_band(s as int),
{
    let pw = grid_w * s;
    let ph = grid_h * s;
    let mut out: Vec<u32> = Vec::new();
    let mut pz: usize = 0;
    while pz < ph
        invariant
            pw == grid_w * s,
            ph == grid_h * s,
            pw * ph <= usize::MAX,
            s <= u32::MAX,
            heights@.len() == grid_w * grid_h,
            pz <= ph,
            out@.len() == pz * pw,
            forall|qx: int, qz: int|
                0 <= qx < pw && 0 <= qz < pz ==> #[trigger] out@[cell(pw as int, qx, qz)]
                    == ao_dark(heights@, grid_w as int, grid_h as int, s as int, qx, qz),
            forall|i: int| 0 <= i < out@.len() ==> #[trigger] out@[i] <= ao_band(s as int),
        decreases ph - pz,
    {
        let mut px: usize = 0;
        while px < pw
            invariant
                pw == grid_w * s,
                ph == grid_h * s,
                pw * ph <= usize::MAX,
                s <= u32::MAX,
                heights@.len() == grid_w * grid_h,
                pz < ph,
                px <= pw,
                out@.len() == pz * pw + px,
                forall|qx: int, qz: int|
                    0 <= qx < pw && 0 <= qz < pz ==> #[trigger] out@[cell(pw as int, qx, qz)]
                        == ao_dark(heights@, grid_w as int, grid_h as int, s as int, qx, qz),
                forall|qx: int|
                    0 <= qx < px ==> #[trigger] out@[cell(pw as int, qx, pz as int)]
                        == ao_dark(heights@, grid_w as int, grid_h as int, s as int, qx, pz as int),
                forall|i: int| 0 <= i < out@.len() ==> #[trigger] out@[i] <= ao_band(s as int),
            decreases pw - px,
        {
            proof {
                lemma_cell_in_grid(pw as int, ph as int, px as int, pz as int);
            }
            let v = ao_pixel(heights, grid_w, grid_h, s, px, pz);
            let ghost old_out = out@;
            out.push(v);
            proof {
                assert forall|qx: int, qz: int|
                    0 <= qx < pw && 0 <= qz < pz implies #[trigger] out@[cell(pw as int, qx, qz)]
                    == ao_dark(heights@, grid_w as int, grid_h as int, s as int, qx, qz) by {
                    lemma_cell_order(pw as int, qx, qz, px as int, pz as int);
                    assert(old_out[cell(pw as int, qx, qz)] == ao_dark(
                        heights@, grid_w as int, grid_h as int, s as int, qx, qz));
                }
                assert forall|qx: int|
                    0 <= qx < px + 1 implies #[trigger] out@[cell(pw as int, qx, pz as int)]
                    == ao_dark(heights@, grid_w as int, grid_h as int, s as int, qx, pz as int) by {
                    if qx < px {
                        lemma_cell_order(pw as int, qx, pz as int, px as int, pz as int);
                        assert(old_out[cell(pw as int, qx, pz as int)] == ao_dark(
                            heights@, grid_w as int, grid_h as int, s as int, qx, pz as int));
                    } else {
                        assert(cell(pw as int, qx, pz as int) == old_out.len());
                    }
                }
                assert forall|i: int| 0 <= i < out@.len() implies #[trigger] out@[i] <= ao_band(s as int) by {
                    if i < old_out.len() {
                        assert(old_out[i] <= ao_band(s as int));
                    }
                }
            }
            px = px + 1;
        }
        assert(out@.len() == (pz + 1) * pw) by (nonlinear_arith)
            requires
                out@.len() == pz * pw + pw,
        ;
        pz = pz + 1;
    }
    assert(ph * pw == pw * ph) by (nonlinear_arith);
    out
}

/// How far a light block's bloom reaches, in whole blocks. Converted to pixels
/// as `BLOOM_RADIUS_BLOCKS * s`, so the glow covers the same number of blocks
/// at any resolution.
pub const BLOOM_RADIUS_BLOCKS: usize = 2;

/// Bloom reach in night mode: lights illuminate a wider area and fade over a
/// longer distance. The value, twice the daytime reach, is this library's
/// choice.
pub const NIGHT_BLOOM_RADIUS_BLOCKS: usize = 4;

/// `v` squared.
pub open spec fn sq(v: int) -> int {
    v * v
}

/// Centre of block `b` along one axis, in pixels, for `s` pixels per block.
pub open spec fn block_centre(b: int, s: int) -> int {
    b * s + s / 2
}

/// One channel `c` of a light seen at squared distance `d2` through a bloom of
/// squared radius `r2`: full strength at the source, fading quadratically to
/// nothing at the radius, `c * (1 - d2 / r2)` rounded down.
pub open spec fn glow_amount(c: u8, d2: int, r2: int) -> int {
    if d2 <= r2 {
        (c as int * (r2 - d2)) / r2
    } else {
        0
    }
}

/// A bloom fades outward: a light adds its full color at its source, never
/// more at a greater distance than at a smaller one, and nothing at or beyond
/// the bloom radius.
pub proof fn lemma_glow_fades(c: u8, near: int, far: int, r2: int)
    requires
        0 <= near <= far,
        0 < r2,
    ensures
        glow_amount(c, 0, r2) == c,
        glow_amount(c, far, r2) <= glow_amount(c, near, r2),
        far >= r2 ==> glow_amount(c, far, r2) == 0,
{
    vstd::arithmetic::div_mod::lemma_div_multiples_vanish(c as int, r2);
    assert(c as int * (r2 - 0) == r2 * c as int) by (nonlinear_arith);
    lemma_glow_amount_bounds(c, near, r2);
    lemma_glow_amount_bounds(c, far, r2);
    if far <= r2 {
        assert(c as int * (r2 - far) <= c as int * (r2 - near)) by (nonlinear_arith)
            requires
                0 <= near <= far <= r2,
                0 <= c,
        ;
        vstd::arithmetic::div_mod::lemma_div_is_ordered(c as int * (r2 - far), c as int * (r2 - near), r2);
    }
    if far >= r2 && far <= r2 {
        assert(c as int * (r2 - far) == 0) by (nonlinear_arith)
            requires
                far == r2,
        ;
    }
}

/// What the light of block `(x, z)` adds to channel `ch` of pixel `(px, pz)`.
pub open spec fn source_glow(
    lights: Seq<[u8; 3]>,
    w: int,
    s: int,
    r2: int,
    px: int,
    pz: int,
    ch: int,
    x: int,
    z: int,
) -> int {
    let d2 = sq(px - block_centre(x, s)) + sq(pz - block_centre(z, s));
    glow_amount(lights[cell(w, x, z)][ch], d2, r2)
}

/// Total glow that the first `n` blocks of row `z` add to channel `ch` of
/// pixel `(px, pz)`.
pub open spec fn row_glow(
    lights: Seq<[u8; 3]>,
    w: int,
    s: int,
    r2: int,
    px: int,
    pz: int,
    ch: int,
    z: int,
    n: int,
) -> int
    decreases n,
{
    if n <= 0 {
        0
    } else {
        row_glow(lights, w, s, r2, px, pz, ch, z, n - 1) + source_glow(lights, w, s, r2, px, pz, ch, n - 1, z)
    }
}

/// Total glow that the first `m` rows of a `w`-wide grid add to channel `ch`
/// of pixel `(px, pz)`.
pub open spec fn glow_sum(
    lights: Seq<[u8; 3]>,
    w: int,
    s: int,
    r2: int,
    px: int,
    pz: int,
    ch: int,
    m: int,
) -> int
    decreases m,
{
    if m <= 0 {
        0
    } else {
        glow_sum(lights, w, s, r2, px, pz, ch, m - 1) + row_glow(lights, w, s, r2, px, pz, ch, m - 1, w)
    }
}

/// `v` clamped to a color channel's maximum.
pub open spec fn clamp_channel(v: int) -> int {
    if v > 255 {
        255
    } else {
        v
    }
}

/// Channel `ch` of the bloom at pixel `(px, pz)`: the glows of all light
/// sources of the `w x h` grid add up, clamped at 255. A radius of zero
/// pixels adds nothing.
pub open spec fn bloom_channel(
    lights: Seq<[u8; 3]>,
    w: int,
    h: int,
    s: int,
    radius: int,
    px: int,
    pz: int,
    ch: int,
) -> int {
    let rp = radius * s;
    if rp == 0 {
        0
    } else {
        clamp_channel(glow_sum(lights, w, s, rp * rp, px, pz, ch, h))
    }
}

proof fn lemma_glow_amount_bounds(c: u8, d2: int, r2: int)
    requires
        0 <= d2,
        0 < r2,
    ensures
        0 <= glow_amount(c, d2, r2) <= c,
{
    if d2 <= r2 {
        assert(0 <= c as int * (r2 - d2) <= c as int * r2) by (nonlinear_arith)
            requires
                0 <= d2 <= r2,
                0 <= c,
        ;
        assert(c as int * r2 == r2 * c as int) by (nonlinear_arith);
        vstd::arithmetic::div_mod::lemma_div_is_ordered(c as int * (r2 - d2), c as int * r2, r2);
        vstd::arithmetic::div_mod::lemma_div_multiples_vanish(c as int, r2);
        vstd::arithmetic::div_mod::lemma_div_pos_is_pos(c as int * (r2 - d2), r2);
    }
}

/// A block more than `radius` blocks away from the pixel's block, along one
/// axis, has its centre further than `radius * s` pixels away on that axis.
proof fn lemma_far_axis(p: int, s: int, radius: int, b: int)
    requires
        s >= 1,
        radius >= 0,
        p >= 0,
        b < p / s - radius || b > p / s + radius,
    ensures
        sq(p - block_centre(b, s)) > sq(radius * s),
{
    let q = p / s;
    let r = p % s;
    vstd::arithmetic::div_mod::lemma_fundamental_div_mod(p, s);
    vstd::arithmetic::div_mod::lemma_mod_pos_bound(p, s);
    assert(p == s * q + r);
    assert(0 <= s / 2 < s) by {
        vstd::arithmetic::div_mod::lemma_div_pos_is_pos(s, 2);
    }
    let d = p - block_centre(b, s);
    if b > q + radius {
        assert(b * s >= (q + radius + 1) * s) by (nonlinear_arith)
            requires
                b >= q + radius + 1,
                s >= 1,
        ;
        assert((q + radius + 1) * s == q * s + radius * s + s) by (nonlinear_arith);
        assert(q * s == s * q) by (nonlinear_arith);
        assert(-d > radius * s);
    } else {
        assert(b * s <= (q - radius - 1) * s) by (nonlinear_arith)
            requires
                b <= q - radius - 1,
                s >= 1,
        ;
        assert((q - radius - 1) * s == q * s - radius * s - s) by (nonlinear_arith);
        assert(q * s == s * q) by (nonlinear_arith);
        assert(d > radius * s);
    }
    assert(radius * s >= 0) by (nonlinear_arith)
        requires
            radius >= 0,
            s >= 1,
    ;
    assert(sq(d) > sq(radius * s)) by (nonlinear_arith)
        requires
            d > radius * s || -d > radius * s,
            radius * s >= 0,
    ;
}

/// Blocks more than `radius` blocks from the pixel's block, along either
/// axis, add nothing to it.
proof fn lemma_far_source_is_dark(
    lights: Seq<[u8; 3]>,
    w: int,
    s: int,
    radius: int,
    px: int,
    pz: int,
    ch: int,
    x: int,
    z: int,
)
    requires
        s >= 1,
        radius >= 1,
        px >= 0,
        pz >= 0,
        x < px / s - radius || x > px / s + radius || z < pz / s - radius || z > pz / s + radius,
    ensures
        source_glow(lights, w, s, (radius * s) * (radius * s), px, pz, ch, x, z) == 0,
{
    let dx = px - block_centre(x, s);
    let dz = pz - block_centre(z, s);
    assert(sq(dx) >= 0 && sq(dz) >= 0) by (nonlinear_arith);
    if x < px / s - radius || x > px / s + radius {
        lemma_far_axis(px, s, radius, x);
    } else {
        lemma_far_axis(pz, s, radius, z);
    }
}

/// Row sums do not change across a stretch of dark blocks.
proof fn lemma_row_glow_flat(
    lights: Seq<[u8; 3]>,
    w: int,
    s: int,
    r2: int,
    px: int,
    pz: int,
    ch: int,
    z: int,
    a: int,
    b: int,
)
    requires
        0 <= a <= b,
        forall|x: int| a <= x < b ==> #[trigger] source_glow(lights, w, s, r2, px, pz, ch, x, z) == 0,
    ensures
        row_glow(lights, w, s, r2, px, pz, ch, z, b) == row_glow(lights, w, s, r2, px, pz, ch, z, a),
    decreases b - a,
{
    if b > a {
        lemma_row_glow_flat(lights, w, s, r2, px, pz, ch, z, a, b - 1);
    }
}

/// Grid sums do not change across a stretch of dark rows.
proof fn lemma_glow_sum_flat(
    lights: Seq<[u8; 3]>,
    w: int,
    s: int,
    r2: int,
    px: int,
    pz: int,
    ch: int,
    a: int,
    b: int,
)
    requires
        0 <= a <= b,
        forall|z: int| a <= z < b ==> #[trigger] row_glow(lights, w, s, r2, px, pz, ch, z, w) == 0,
    ensures
        glow_sum(lights, w, s, r2, px, pz, ch, b) == glow_sum(lights, w, s, r2, px, pz, ch, a),
    decreases b - a,
{
    if b > a {
        lemma_glow_sum_flat(lights, w, s, r2, px, pz, ch, a, b - 1);
    }
}

/// A brighter light glows at least as bright at any distance.
proof fn lemma_glow_amount_monotone(c1: u8, c2: u8, d2: int, r2: int)
    requires
        c1 <= c2,
        0 <= d2,
        0 < r2,
    ensures
        glow_amount(c1, d2, r2) <= glow_amount(c2, d2, r2),
{
    if d2 <= r2 {
        assert(c1 as int * (r2 - d2) <= c2 as int * (r2 - d2)) by (nonlinear_arith)
            requires
                c1 <= c2,
                d2 <= r2,
        ;
        vstd::arithmetic::div_mod::lemma_div_is_ordered(c1 as int * (r2 - d2), c2 as int * (r2 - d2), r2);
    }
}

/// Brighter lights give a brighter sum over the first `n` blocks of a row.
proof fn lemma_row_glow_monotone(
    l1: Seq<[u8; 3]>,
    l2: Seq<[u8; 3]>,
    w: int,
    h: int,
    s: int,
    r2: int,
    px: int,
    pz: int,
    ch: int,
    z: int,
    n: int,
)
    requires
        l1.len() == w * h,
        l2.len() == w * h,
        forall|i: int| 0 <= i < w * h ==> #[trigger] l1[i][ch] <= l2[i][ch],
        0 < r2,
        0 <= z < h,
        0 <= n <= w,
    ensures
        row_glow(l1, w, s, r2, px, pz, ch, z, n) <= row_glow(l2, w, s, r2, px, pz, ch, z, n),
    decreases n,
{
    if n > 0 {
        lemma_row_glow_monotone(l1, l2, w, h, s, r2, px, pz, ch, z, n - 1);
        lemma_cell_in_grid(w, h, n - 1, z);
        let dx = px - block_centre(n - 1, s);
        let dz = pz - block_centre(z, s);
        assert(sq(dx) >= 0 && sq(dz) >= 0) by (nonlinear_arith);
        assert(l1[cell(w, n - 1, z)][ch] <= l2[cell(w, n - 1, z)][ch]);
        lemma_glow_amount_monotone(
            l1[cell(w, n - 1, z)][ch],
            l2[cell(w, n - 1, z)][ch],
            sq(dx) + sq(dz),
            r2,
        );
    }
}

/// Brighter lights give a brighter sum over the first `m` rows of a grid.
proof fn lemma_glow_sum_monotone(
    l1: Seq<[u8; 3]>,
    l2: Seq<[u8; 3]>,
    w: int,
    h: int,
    s: int,
    r2: int,
    px: int,
    pz: int,
    ch: int,
    m: int,
)
    requires
        l1.len() == w * h,
        l2.len() == w * h,
        forall|i: int| 0 <= i < w * h ==> #[trigger] l1[i][ch] <= l2[i][ch],
        0 < r2,
        0 <= w,
        0 <= m <= h,
    ensures
        glow_sum(l1, w, s, r2, px, pz, ch, m) <= glow_sum(l2, w, s, r2, px, pz, ch, m),
    decreases m,
{
    if m > 0 {
        lemma_glow_sum_monotone(l1, l2, w, h, s, r2, px, pz, ch, m - 1);
        lemma_row_glow_monotone(l1, l2, w, h, s, r2, px, pz, ch, m - 1, w);
    }
}

/// Lights add up: making any light of the grid brighter, channel by
/// channel, never dims the bloom at any pixel, so a cluster of lights glows
/// at least as brightly as any one of them alone.
pub proof fn lemma_more_light_never_dims(
    l1: Seq<[u8; 3]>,
    l2: Seq<[u8; 3]>,
    w: int,
    h: int,
    s: int,
    radius: int,
    px: int,
    pz: int,
    ch: int,
)
    requires
        0 <= w,
        0 <= h,
        l1.len() == w * h,
        l2.len() == w * h,
        forall|i: int| 0 <= i < w * h ==> #[trigger] l1[i][ch] <= l2[i][ch],
    ensures
        bloom_channel(l1, w, h, s, radius, px, pz, ch) <= bloom_channel(l2, w, h, s, radius, px, pz, ch),
{
    let rp = radius * s;
    if rp != 0 {
        assert(rp * rp > 0) by (nonlinear_arith)
            requires
                rp != 0,
        ;
        lemma_glow_sum_monotone(l1, l2, w, h, s, rp * rp, px, pz, ch, h);
    }
}

/// Cell `i` of light grid `u` holds, in channel `ch`, the light of grid `a`
/// or of grid `b`, never of both.
pub open spec fn lights_split(a: Seq<[u8; 3]>, b: Seq<[u8; 3]>, u: Seq<[u8; 3]>, ch: int, i: int) -> bool {
    (a[i][ch] == 0 || b[i][ch] == 0) && u[i][ch] == a[i][ch] + b[i][ch]
}

/// The glows of two light grids add up, row by row, where the lights of
/// the two grids never share a cell (channel `ch`).
proof fn lemma_row_glow_add(
    a: Seq<[u8; 3]>,
    b: Seq<[u8; 3]>,
    u: Seq<[u8; 3]>,
    w: int,
    h: int,
    s: int,
    r2: int,
    px: int,
    pz: int,
    ch: int,
    z: int,
    n: int,
)
    requires
        a.len() == w * h,
        b.len() == w * h,
        u.len() == w * h,
        0 <= ch < 3,
        forall|i: int| 0 <= i < w * h ==> #[trigger] lights_split(a, b, u, ch, i),
        0 < r2,
        0 <= z < h,
        0 <= n <= w,
    ensures
        row_glow(u, w, s, r2, px, pz, ch, z, n) == row_glow(a, w, s, r2, px, pz, ch, z, n) + row_glow(
            b,
            w,
            s,
            r2,
            px,
            pz,
            ch,
            z,
            n,
        ),
        row_glow(a, w, s, r2, px, pz, ch, z, n) >= 0,
        row_glow(b, w, s, r2, px, pz, ch, z, n) >= 0,
    decreases n,
{
    if n > 0 {
        lemma_row_glow_add(a, b, u, w, h, s, r2, px, pz, ch, z, n - 1);
        lemma_cell_in_grid(w, h, n - 1, z);
        let i = cell(w, n - 1, z);
        let d2 = sq(px - block_centre(n - 1, s)) + sq(pz - block_centre(z, s));
        assert(d2 >= 0) by (nonlinear_arith)
            requires
                d2 == sq(px - block_centre(n - 1, s)) + sq(pz - block_centre(z, s)),
        ;
        assert(lights_split(a, b, u, ch, i));
        lemma_glow_amount_bounds(a[i][ch], d2, r2);
        lemma_glow_amount_bounds(b[i][ch], d2, r2);
        assert(0int * (r2 - d2) == 0) by (nonlinear_arith);
        if a[i][ch] == 0 {
            assert(glow_amount(a[i][ch], d2, r2) == 0);
        } else {
            assert(glow_amount(b[i][ch], d2, r2) == 0);
        }
    }
}

/// The glows of two light grids add up over the first `m` rows, where the
/// lights of the two grids never share a cell (channel `ch`).
proof fn lemma_glow_sum_add(
    a: Seq<[u8; 3]>,
    b: Seq<[u8; 3]>,
    u: Seq<[u8; 3]>,
    w: int,
    h: int,
    s: int,
    r2: int,
    px: int,
    pz: int,
    ch: int,
    m: int,
)
    requires
        a.len() == w * h,
        b.len() == w * h,
        u.len() == w * h,
        0 <= ch < 3,
        forall|i: int| 0 <= i < w * h ==> #[trigger] lights_split(a, b, u, ch, i),
        0 < r2,
        0 <= w,
        0 <= m <= h,
    ensures
        glow_sum(u, w, s, r2, px, pz, ch, m) == glow_sum(a, w, s, r2, px, pz, ch, m) + glow_sum(
            b,
            w,
            s,
            r2,
            px,
            pz,
            ch,
            m,
        ),
        glow_sum(a, w, s, r2, px, pz, ch, m) >= 0,
        glow_sum(b, w, s, r2, px, pz, ch, m) >= 0,
    decreases m,
{
    if m > 0 {
        lemma_glow_sum_add(a, b, u, w, h, s, r2, px, pz, ch, m - 1);
        lemma_row_glow_add(a, b, u, w, h, s, r2, px, pz, ch, m - 1, w);
    }
}

/// Bloom reaches no farther than its radius, and separate lights add up: a
/// pixel whose distance from the centre of every light (with channel `ch`
/// lit) exceeds `radius * s` pixels gets nothing; and where two light grids
/// `a` and `b` never light the same cell, the bloom of their union `u` is the
/// saturating sum of their blooms.
pub proof fn lemma_bloom_reach_and_sum(
    a: Seq<[u8; 3]>,
    b: Seq<[u8; 3]>,
    u: Seq<[u8; 3]>,
    w: int,
    h: int,
    s: int,
    radius: int,
    px: int,
    pz: int,
    ch: int,
)
    requires
        0 <= w,
        0 <= h,
        a.len() == w * h,
        b.len() == w * h,
        u.len() == w * h,
        0 <= ch < 3,
        forall|i: int| 0 <= i < w * h ==> #[trigger] lights_split(a, b, u, ch, i),
    ensures
        (forall|x: int, z: int|
            0 <= x < w && 0 <= z < h ==> #[trigger] a[cell(w, x, z)][ch] == 0 || sq(px - block_centre(x, s))
                + sq(pz - block_centre(z, s)) > sq(radius * s)) ==> bloom_channel(a, w, h, s, radius, px, pz, ch)
            == 0,
        bloom_channel(u, w, h, s, radius, px, pz, ch) == clamp_channel(
            bloom_channel(a, w, h, s, radius, px, pz, ch) + bloom_channel(b, w, h, s, radius, px, pz, ch),
        ),
{
    let rp = radius * s;
    if rp != 0 {
        let r2 = rp * rp;
        assert(r2 > 0) by (nonlinear_arith)
            requires
                rp != 0,
                r2 == rp * rp,
        ;
        lemma_glow_sum_add(a, b, u, w, h, s, r2, px, pz, ch, h);
        if forall|x: int, z: int|
            0 <= x < w && 0 <= z < h ==> #[trigger] a[cell(w, x, z)][ch] == 0 || sq(px - block_centre(x, s))
                + sq(pz - block_centre(z, s)) > sq(radius * s) {
            assert(0int * r2 == 0) by (nonlinear_arith);
            assert forall|z: int| 0 <= z < h implies #[trigger] row_glow(a, w, s, r2, px, pz, ch, z, w) == 0 by {
                assert forall|x: int| 0 <= x < w implies #[trigger] source_glow(a, w, s, r2, px, pz, ch, x, z)
                    == 0 by {
                    let d2 = sq(px - block_centre(x, s)) + sq(pz - block_centre(z, s));
                    assert(a[cell(w, x, z)][ch] == 0 || d2 > r2);
                    if a[cell(w, x, z)][ch] == 0 {
                        assert(a[cell(w, x, z)][ch] as int * (r2 - d2) == 0) by (nonlinear_arith)
                            requires
                                a[cell(w, x, z)][ch] == 0,
                        ;
                    }
                }
                lemma_row_glow_flat(a, w, s, r2, px, pz, ch, z, 0, w);
            }
            lemma_glow_sum_flat(a, w, s, r2, px, pz, ch, 0, h);
        }
    }
}

/// `|a - b|`.
fn abs_diff(a: usize, b: usize) -> (r: usize)
    ensures
        r == if a >= b { a - b } else { b - a },
        sq(r as int) == sq(a - b),
{
    if a >= b {
        a - b
    } else {
        assert(sq(a - b) == sq(b - a)) by (nonlinear_arith);
        b - a
    }
}

/// What a light of color `light` adds to each channel of a pixel `dx` / `dz`
/// pixels away from its block centre, for a bloom of `rp` pixels.
fn source_amounts(light: [u8; 3], dx: usize, dz: usize, rp: usize) -> (out: [u32; 3])
    requires
        0 < rp <= u32::MAX,
    ensures
        forall|ch: int|
            0 <= ch < 3 ==> #[trigger] out[ch] == glow_amount(
                light[ch],
                sq(dx as int) + sq(dz as int),
                (rp * rp) as int,
            ),
        forall|ch: int| 0 <= ch < 3 ==> #[trigger] out[ch] <= 255,
{
    let ghost d2 = sq(dx as int) + sq(dz as int);
    let ghost r2 = (rp * rp) as int;
    assert(sq(dx as int) >= 0 && sq(dz as int) >= 0 && r2 > 0) by (nonlinear_arith)
        requires
            r2 == rp * rp,
            rp > 0,
    ;
    proof {
        lemma_glow_amount_bounds(light[0], d2, r2);
        lemma_glow_amount_bounds(light[1], d2, r2);
        lemma_glow_amount_bounds(light[2], d2, r2);
    }
    if dx > rp || dz > rp {
        assert(d2 > r2) by (nonlinear_arith)
            requires
                dx > rp || dz > rp,
                d2 == sq(dx as int) + sq(dz as int),
                r2 == rp * rp,
                rp > 0,
        ;
        return [0, 0, 0];
    }
    assert(rp * rp <= 0xFFFF_FFFE_0000_0001 && dx * dx <= rp * rp && dz * dz <= rp * rp) by (nonlinear_arith)
        requires
            rp <= u32::MAX,
            dx <= rp,
            dz <= rp,
    ;
    let r2x: u128 = (rp as u128) * (rp as u128);
    let d2x: u128 = (dx as u128) * (dx as u128) + (dz as u128) * (dz as u128);
    if d2x > r2x {
        return [0, 0, 0];
    }
    assert(255 * (r2x - d2x) <= 255 * 0xFFFF_FFFE_0000_0001u128) by (nonlinear_arith)
        requires
            r2x - d2x <= 0xFFFF_FFFE_0000_0001u128,
    ;
    let ghost diff = r2x - d2x;
    assert(light[0] * diff <= 255 * diff && light[1] * diff <= 255 * diff && light[2] * diff <= 255 * diff)
        by (nonlinear_arith)
        requires
            diff >= 0,
            light[0] <= 255,
            light[1] <= 255,
            light[2] <= 255,
    ;
    let a = ((light[0] as u128) * (r2x - d2x)) / r2x;
    let b = ((light[1] as u128) * (r2x - d2x)) / r2x;
    let c = ((light[2] as u128) * (r2x - d2x)) / r2x;
    [a as u32, b as u32, c as u32]
}

/// A channel accumulator that saturates at 255.
fn add_clamped(acc: u32, v: u32) -> (r: u32)
    requires
        acc <= 255,
        v <= 255,
    ensures
        r == clamp_channel(acc + v),
{
    if acc + v > 255 {
        255
    } else {
        acc + v
    }
}

/// The bloom at one pixel: the glows of the light blocks within `radius`
/// blocks of the pixel's block, summed per channel and clamped at 255. Blocks
/// further away cannot reach the pixel.
fn bloom_pixel(
    lights: &[[u8; 3]],
    grid_w: usize,
    grid_h: usize,
    s: usize,
    radius: usize,
    px: usize,
    pz: usize,
) -> (out: [u8; 3])
    requires
        lights@.len() == grid_w * grid_h,
        px < grid_w * s,
        pz < grid_h * s,
        grid_w * s <= usize::MAX,
        grid_h * s <= usize::MAX,
        radius >= 1,
        radius * s <= u32::MAX,
    ensures
        forall|ch: int|
            0 <= ch < 3 ==> #[trigger] out[ch] == bloom_channel(
                lights@,
                grid_w as int,
                grid_h as int,
                s as int,
                radius as int,
                px as int,
                pz as int,
                ch,
            ),
{
    let ghost w = grid_w as int;
    let ghost h = grid_h as int;
    assert(s > 0) by (nonlinear_arith)
        requires
            px < grid_w * s,
    ;
    proof {
        lemma_pixel_block(px as int, s as int, grid_w as int);
        lemma_pixel_block(pz as int, s as int, grid_h as int);
    }
    assert(radius * s >= s) by (nonlinear_arith)
        requires
            radius >= 1,
            s > 0,
    ;
    let rp = radius * s;
    let ghost r2 = (rp * rp) as int;
    assert(r2 > 0) by (nonlinear_arith)
        requires
            r2 == rp * rp,
            rp > 0,
    ;
    let bx = px / s;
    let bz = pz / s;
    let x0 = if bx >= radius { bx - radius } else { 0 };
    let z0 = if bz >= radius { bz - radius } else { 0 };
    let x1 = if radius < grid_w - bx { bx + radius + 1 } else { grid_w };
    let z1 = if radius < grid_h - bz { bz + radius + 1 } else { grid_h };
    // Everything outside the window [x0, x1) x [z0, z1) is too far to glow here.
    assert forall|ch: int, z: int| 0 <= z < z0 || z1 <= z < h implies #[trigger] row_glow(
        lights@,
        w,
        s as int,
        r2,
        px as int,
        pz as int,
        ch,
        z,
        w,
    ) == 0 by {
        assert forall|x: int| 0 <= x < w implies #[trigger] source_glow(
            lights@,
            w,
            s as int,
            r2,
            px as int,
            pz as int,
            ch,
            x,
            z,
        ) == 0 by {
            lemma_far_source_is_dark(lights@, w, s as int, radius as int, px as int, pz as int, ch, x, z);
        }
        lemma_row_glow_flat(lights@, w, s as int, r2, px as int, pz as int, ch, z, 0, w);
    }
    let mut acc0: u32 = 0;
    let mut acc1: u32 = 0;
    let mut acc2: u32 = 0;
    let mut z = z0;
    while z < z1
        invariant
            w == grid_w,
            h == grid_h,
            lights@.len() == grid_w * grid_h,
            s > 0,
            radius >= 1,
            rp == radius * s,
            0 < rp <= u32::MAX,
            r2 == rp * rp,
            r2 > 0,
            bx == px / s,
            bz == pz / s,
            bx < grid_w,
            bz < grid_h,
            x0 <= bx < x1 <= grid_w,
            z0 <= z <= z1 <= grid_h,
            grid_w * s <= usize::MAX,
            grid_h * s <= usize::MAX,
            x0 == (if bx >= radius { bx - radius } else { 0 }),
            x1 == (if radius < grid_w - bx { bx + radius + 1 } else { grid_w as int }),
            px as int / s as int - radius <= x0,
            x1 <= px as int / s as int + radius + 1,
            acc0 == clamp_channel(
                glow_sum(lights@, w, s as int, r2, px as int, pz as int, 0, z as int) - glow_sum(
                    lights@, w, s as int, r2, px as int, pz as int, 0, z0 as int)),
            acc1 == clamp_channel(
                glow_sum(lights@, w, s as int, r2, px as int, pz as int, 1, z as int) - glow_sum(
                    lights@, w, s as int, r2, px as int, pz as int, 1, z0 as int)),
            acc2 == clamp_channel(
                glow_sum(lights@, w, s as int, r2, px as int, pz as int, 2, z as int) - glow_sum(
                    lights@, w, s as int, r2, px as int, pz as int, 2, z0 as int)),
            acc0 <= 255,
            acc1 <= 255,
            acc2 <= 255,
        decreases z1 - z,
    {
        assert(z * s + s / 2 < grid_h * s) by (nonlinear_arith)
            requires
                z < grid_h,
                s > 0,
        {
            assert(z * s + s <= grid_h * s);
        };
        let cz = z * s + s / 2;
        let dz = abs_diff(pz, cz);
        let mut x = x0;
        while x < x1
            invariant
                w == grid_w,
                h == grid_h,
                lights@.len() == grid_w * grid_h,
                s > 0,
                radius >= 1,
                rp == radius * s,
                0 < rp <= u32::MAX,
                r2 == rp * rp,
                r2 > 0,
                bx == px / s,
                x0 <= x <= x1 <= grid_w,
                z0 <= z < z1 <= grid_h,
                grid_w * s <= usize::MAX,
                grid_h * s <= usize::MAX,
                x0 == (if bx >= radius { bx - radius } else { 0 }),
                x1 == (if radius < grid_w - bx { bx + radius + 1 } else { grid_w as int }),
                cz == z * s + s / 2,
                sq(dz as int) == sq(pz - block_centre(z as int, s as int)),
                acc0 == clamp_channel(
                    glow_sum(lights@, w, s as int, r2, px as int, pz as int, 0, z as int) - glow_sum(
                        lights@, w, s as int, r2, px as int, pz as int, 0, z0 as int) + row_glow(
                        lights@, w, s as int, r2, px as int, pz as int, 0, z as int, x as int) - row_glow(
                        lights@, w, s as int, r2, px as int, pz as int, 0, z as int, x0 as int)),
                acc1 == clamp_channel(
                    glow_sum(lights@, w, s as int, r2, px as int, pz as int, 1, z as int) - glow_sum(
                        lights@, w, s as int, r2, px as int, pz as int, 1, z0 as int) + row_glow(
                        lights@, w, s as int, r2, px as int, pz as int, 1, z as int, x as int) - row_glow(
                        lights@, w, s as int, r2, px as int, pz as int, 1, z as int, x0 as int)),
                acc2 == clamp_channel(
                    glow_sum(lights@, w, s as int, r2, px as int, pz as int, 2, z as int) - glow_sum(
                        lights@, w, s as int, r2, px as int, pz as int, 2, z0 as int) + row_glow(
                        lights@, w, s as int, r2, px as int, pz as int, 2, z as int, x as int) - row_glow(
                        lights@, w, s as int, r2, px as int, pz as int, 2, z as int, x0 as int)),
                acc0 <= 255,
                acc1 <= 255,
                acc2 <= 255,
            decreases x1 - x,
        {
            proof {
                lemma_cell_in_grid(w, h, x as int, z as int);
            }
            let n = lights.len();
            assert((z as int) * (grid_w as int) + x < n);
            let light = lights[z * grid_w + x];
            assert(x * s + s / 2 < grid_w * s) by (nonlinear_arith)
                requires
                    x < grid_w,
                    s > 0,
            {
                assert(x * s + s <= grid_w * s);
            };
            let cx = x * s + s / 2;
            let dx = abs_diff(px, cx);
            let amounts = if light[0] != 0 || light[1] != 0 || light[2] != 0 {
                source_amounts(light, dx, dz, rp)
            } else {
                [0u32, 0, 0]
            };
            assert forall|ch: int| 0 <= ch < 3 implies #[trigger] amounts[ch] == source_glow(
                lights@,
                w,
                s as int,
                r2,
                px as int,
                pz as int,
                ch,
                x as int,
                z as int,
            ) by {
                assert(lights@[cell(w, x as int, z as int)] == light);
                assert(sq(dx as int) == sq(px - block_centre(x as int, s as int)));
                let d2 = sq(dx as int) + sq(dz as int);
                assert(d2 == sq(px - block_centre(x as int, s as int)) + sq(pz - block_centre(z as int, s as int)));
                if light[0] != 0 || light[1] != 0 || light[2] != 0 {
                    assert(amounts[ch] == glow_amount(light[ch], d2, r2));
                } else {
                    assert(light[ch] == 0);
                    assert(light[ch] as int * (r2 - d2) == 0) by (nonlinear_arith)
                        requires
                            light[ch] == 0,
                    ;
                    assert(glow_amount(light[ch], d2, r2) == 0);
                }
            }
            acc0 = add_clamped(acc0, amounts[0]);
            acc1 = add_clamped(acc1, amounts[1]);
            acc2 = add_clamped(acc2, amounts[2]);
            x = x + 1;
        }
        proof {
            assert forall|ch: int| 0 <= ch < 3 implies row_glow(
                lights@,
                w,
                s as int,
                r2,
                px as int,
                pz as int,
                ch,
                z as int,
                x1 as int,
            ) - row_glow(lights@, w, s as int, r2, px as int, pz as int, ch, z as int, x0 as int)
                == #[trigger] row_glow(lights@, w, s as int, r2, px as int, pz as int, ch, z as int, w) by {
                assert forall|xx: int| 0 <= xx < x0 implies #[trigger] source_glow(
                    lights@,
                    w,
                    s as int,
                    r2,
                    px as int,
                    pz as int,
                    ch,
                    xx,
                    z as int,
                ) == 0 by {
                    lemma_far_source_is_dark(lights@, w, s as int, radius as int, px as int, pz as int, ch, xx, z as int);
                }
                assert forall|xx: int| x1 <= xx < w implies #[trigger] source_glow(
                    lights@,
                    w,
                    s as int,
                    r2,
                    px as int,
                    pz as int,
                    ch,
                    xx,
                    z as int,
                ) == 0 by {
                    lemma_far_source_is_dark(lights@, w, s as int, radius as int, px as int, pz as int, ch, xx, z as int);
                }
                lemma_row_glow_flat(lights@, w, s as int, r2, px as int, pz as int, ch, z as int, 0, x0 as int);
                lemma_row_glow_flat(lights@, w, s as int, r2, px as int, pz as int, ch, z as int, x1 as int, w);
            }
            assert(row_glow(lights@, w, s as int, r2, px as int, pz as int, 0, z as int, w) == row_glow(
                lights@, w, s as int, r2, px as int, pz as int, 0, z as int, x1 as int) - row_glow(
                lights@, w, s as int, r2, px as int, pz as int, 0, z as int, x0 as int));
            assert(row_glow(lights@, w, s as int, r2, px as int, pz as int, 1, z as int, w) == row_glow(
                lights@, w, s as int, r2, px as int, pz as int, 1, z as int, x1 as int) - row_glow(
                lights@, w, s as int, r2, px as int, pz as int, 1, z as int, x0 as int));
            assert(row_glow(lights@, w, s as int, r2, px as int, pz as int, 2, z as int, w) == row_glow(
                lights@, w, s as int, r2, px as int, pz as int, 2, z as int, x1 as int) - row_glow(
                lights@, w, s as int, r2, px as int, pz as int, 2, z as int, x0 as int));
        }
        z = z + 1;
    }
    proof {
        assert forall|ch: int| 0 <= ch < 3 implies glow_sum(
            lights@,
            w,
            s as int,
            r2,
            px as int,
            pz as int,
            ch,
            z1 as int,
        ) - glow_sum(lights@, w, s as int, r2, px as int, pz as int, ch, z0 as int) == #[trigger] glow_sum(
            lights@,
            w,
            s as int,
            r2,
            px as int,
            pz as int,
            ch,
            h,
        ) by {
            assert forall|zz: int| 0 <= zz < z0 implies #[trigger] row_glow(
                lights@,
                w,
                s as int,
                r2,
                px as int,
                pz as int,
                ch,
                zz,
                w,
            ) == 0 by {}
            assert forall|zz: int| z1 <= zz < h implies #[trigger] row_glow(
                lights@,
                w,
                s as int,
                r2,
                px as int,
                pz as int,
                ch,
                zz,
                w,
            ) == 0 by {}
            lemma_glow_sum_flat(lights@, w, s as int, r2, px as int, pz as int, ch, 0, z0 as int);
            lemma_glow_sum_flat(lights@, w, s as int, r2, px as int, pz as int, ch, z1 as int, h);
        }
    }
    let out = [acc0 as u8, acc1 as u8, acc2 as u8];
    proof {
        assert(glow_sum(lights@, w, s as int, r2, px as int, pz as int, 0, h) == glow_sum(
            lights@, w, s as int, r2, px as int, pz as int, 0, z1 as int) - glow_sum(
            lights@, w, s as int, r2, px as int, pz as int, 0, z0 as int));
        assert(glow_sum(lights@, w, s as int, r2, px as int, pz as int, 1, h) == glow_sum(
            lights@, w, s as int, r2, px as int, pz as int, 1, z1 as int) - glow_sum(
            lights@, w, s as int, r2, px as int, pz as int, 1, z0 as int));
        assert(glow_sum(lights@, w, s as int, r2, px as int, pz as int, 2, h) == glow_sum(
            lights@, w, s as int, r2, px as int, pz as int, 2, z1 as int) - glow_sum(
            lights@, w, s as int, r2, px as int, pz as int, 2, z0 as int));
    }
    out
}

/// Compute a per-pixel additive bloom field around light-emitting blocks, for
/// a map upsampled by `s`.
///
/// `lights` is a block-resolution `grid_w x grid_h` grid where each cell holds
/// that block's bloom color (see [`crate::color::light_bloom_color`]) or
/// `[0, 0, 0]` if it does not emit light. The result is a pixel-resolution
/// `grid_w * s x grid_h * s` field of additive RGB amounts that the renderer
/// adds to each pixel's base color (clamped at 255).
///
/// Each source radiates a radial gradient from the centre of its block: the
/// added color is strongest at the source and fades to zero at `radius`
/// blocks (`radius * s` pixels) away, with a smooth quadratic falloff
/// ([`glow_amount`]). When several sources overlap their amounts add, so a
/// cluster of lights glows brighter than a lone one.
///
/// Amounts are exact integers, `c * (r2 - d2) / r2` rounded down. Computing
/// `c * (1 - d2 / r2)` in single-precision floating point instead can land
/// just below an integer and truncate one unit lower: a channel of 20 at
/// squared distance 85 from a light of radius 10 pixels gets 3 here and 2 in
/// `f32`.
pub fn bloom(lights: &[[u8; 3]], grid_w: usize, grid_h: usize, s: usize, radius: usize) -> (out: Vec<[u8; 3]>)
    requires
        lights@.len() == grid_w * grid_h,
        grid_w * s <= usize::MAX,
        grid_h * s <= usize::MAX,
        (grid_w * s) * (grid_h * s) <= usize::MAX,
        radius * s <= u32::MAX,
    ensures
        out@.len() == (grid_w * s) * (grid_h * s),
        forall|px: int, pz: int, ch: int|
            0 <= px < grid_w * s && 0 <= pz < grid_h * s && 0 <= ch < 3 ==> #[trigger] out@[cell(
                (grid_w * s) as int,
                px,
                pz,
            )][ch] == bloom_channel(lights@, grid_w as int, grid_h as int, s as int, radius as int, px, pz, ch),
{
    let pw = grid_w * s;
    let ph = grid_h * s;
    let lit = radius > 0 && s > 0;
    assert(lit <==> radius * s != 0) by (nonlinear_arith)
        requires
            lit == (radius > 0 && s > 0),
    ;
    let mut out: Vec<[u8; 3]> = Vec::new();
    let mut pz: usize = 0;
    while pz < ph
        invariant
            pw == grid_w * s,
            ph == grid_h * s,
            pw * ph <= usize::MAX,
            grid_w * s <= usize::MAX,
            grid_h * s <= usize::MAX,
            radius * s <= u32::MAX,
            lit <==> radius * s != 0,
            lit ==> radius >= 1,
            lights@.len() == grid_w * grid_h,
            pz <= ph,
            out@.len() == pz * pw,
            forall|qx: int, qz: int, ch: int|
                0 <= qx < pw && 0 <= qz < pz && 0 <= ch < 3 ==> #[trigger] out@[cell(pw as int, qx, qz)][ch]
                    == bloom_channel(lights@, grid_w as int, grid_h as int, s as int, radius as int, qx, qz, ch),
        decreases ph - pz,
    {
        let mut px: usize = 0;
        while px < pw
            invariant
                pw == grid_w * s,
                ph == grid_h * s,
                pw * ph <= usize::MAX,
                grid_w * s <= usize::MAX,
                grid_h * s <= usize::MAX,
                radius * s <= u32::MAX,
                lit <==> radius * s != 0,
                lit ==> radius >= 1,
                lights@.len() == grid_w * grid_h,
                pz < ph,
                px <= pw,
                out@.len() == pz * pw + px,
                forall|qx: int, qz: int, ch: int|
                    0 <= qx < pw && 0 <= qz < pz && 0 <= ch < 3 ==> #[trigger] out@[cell(pw as int, qx, qz)][ch]
                        == bloom_channel(lights@, grid_w as int, grid_h as int, s as int, radius as int, qx, qz, ch),
                forall|qx: int, ch: int|
                    0 <= qx < px && 0 <= ch < 3 ==> #[trigger] out@[cell(pw as int, qx, pz as int)][ch]
                        == bloom_channel(lights@, grid_w as int, grid_h as int, s as int, radius as int, qx, pz as int, ch),
            decreases pw - px,
        {
            proof {
                lemma_cell_in_grid(pw as int, ph as int, px as int, pz as int);
            }
            let v = if lit {
                bloom_pixel(lights, grid_w, grid_h, s, radius, px, pz)
            } else {
                [0u8, 0, 0]
            };
            let ghost old_out = out@;
            out.push(v);
            proof {
                assert forall|qx: int, qz: int, ch: int|
                    0 <= qx < pw && 0 <= qz < pz && 0 <= ch < 3 implies #[trigger] out@[cell(pw as int, qx, qz)][ch]
                    == bloom_channel(lights@, grid_w as int, grid_h as int, s as int, radius as int, qx, qz, ch) by {
                    lemma_cell_order(pw as int, qx, qz, px as int, pz as int);
                    assert(old_out[cell(pw as int, qx, qz)][ch] == bloom_channel(
                        lights@, grid_w as int, grid_h as int, s as int, radius as int, qx, qz, ch));
                }
                assert forall|qx: int, ch: int|
                    0 <= qx < px + 1 && 0 <= ch < 3 implies #[trigger] out@[cell(pw as int, qx, pz as int)][ch]
                    == bloom_channel(lights@, grid_w as int, grid_h as int, s as int, radius as int, qx, pz as int, ch) by {
                    if qx < px {
                        lemma_cell_order(pw as int, qx, pz as int, px as int, pz as int);
                        assert(old_out[cell(pw as int, qx, pz as int)][ch] == bloom_channel(
                            lights@, grid_w as int, grid_h as int, s as int, radius as int, qx, pz as int, ch));
                    } else {
                        assert(cell(pw as int, qx, pz as int) == old_out.len());
                        assert(out@[cell(pw as int, qx, pz as int)] == v);
                    }
                }
            }
            px = px + 1;
        }
        assert(out@.len() == (pz + 1) * pw) by (nonlinear_arith)
            requires
                out@.len() == pz * pw + pw,
        ;
        pz = pz + 1;
    }
    assert(ph * pw == pw * ph) by (nonlinear_arith);
    out
}

} // verus!
